//! The manifest pipeline: parses a manifest text eagerly into an ordered
//! entry list, then yields one per-record result at a time. The caller owns
//! all file access: when the next element needs a file's bytes, the
//! pipeline names the file and the caller hands back the outcome of reading
//! it. A failure on one record never touches the elements after it.

use vstd::prelude::*;
use crate::digest::{outcome_of, verify_content};
use crate::manifest::{parse_manifest, read_checksums};
use crate::records::{
    entries_view, ChecksumError, ChecksumRecord, ChecksumResult, ErrorView, RecordView,
    ResultView,
};

verus! {

/// The view of a read outcome handed back by the caller: the file's bytes,
/// or the message of the failure that kept them from being read.
pub open spec fn read_view(read: Result<Vec<u8>, String>) -> Result<Seq<u8>, Seq<char>> {
    match read {
        Ok(bytes) => Ok(bytes@),
        Err(message) => Err(message@),
    }
}

/// The element a record contributes to the result stream, as a function of
/// the record and of the outcome of reading its file: a completed
/// comparison when the bytes were read, the read failure otherwise.
pub open spec fn eval_entry(rec: RecordView, read: Result<Seq<u8>, Seq<char>>) -> ResultView {
    match read {
        Ok(bytes) => ResultView { file: rec.file, result: Ok(outcome_of(bytes, rec.checksum)) },
        Err(message) => ResultView {
            file: rec.file,
            result: Err(ErrorView::HashFailure { message }),
        },
    }
}

/// What a whole run yields, element by element in manifest order: parse
/// failures passed through unchanged, each record evaluated against the
/// read outcome that `files` holds for its path.
pub open spec fn run_results(
    entries: Seq<Result<RecordView, ErrorView>>,
    files: Map<Seq<char>, Result<Seq<u8>, Seq<char>>>,
) -> Seq<Result<ResultView, ErrorView>> {
    entries.map_values(
        |e: Result<RecordView, ErrorView>|
            match e {
                Ok(rec) => Ok(
                    eval_entry(
                        rec,
                        if files.contains_key(rec.file) {
                            files[rec.file]
                        } else {
                            Err(Seq::empty())
                        },
                    ),
                ),
                Err(pe) => Err(pe),
            },
    )
}

/// One advance of the pipeline: either the next element is ready — a parse
/// failure passes through as its own element — or the pipeline names the
/// file whose content it needs before it can yield the next element.
pub enum Step {
    Emit(Result<ChecksumResult, ChecksumError>),
    NeedContent { file: String },
}

/// The lazily evaluated result stream of one manifest verification run.
/// Records are parsed eagerly, so the total count is known up front; the
/// digest work for an element happens only as the stream reaches it. The
/// stream is a single forward pass and is not restartable.
pub struct ChecksumResultsIter {
    entries: Vec<Result<ChecksumRecord, ChecksumError>>,
    pos: usize,
    /// Total number of elements the stream yields.
    pub len: usize,
}

impl ChecksumResultsIter {
    /// The entry list, as parsed from the manifest.
    pub closed spec fn entries_model(&self) -> Seq<Result<RecordView, ErrorView>> {
        entries_view(self.entries@)
    }

    /// How many elements have been yielded so far.
    pub closed spec fn position(&self) -> int {
        self.pos as int
    }

    /// Total number of elements the stream yields: the value of `len`.
    pub closed spec fn total(&self) -> int {
        self.len as int
    }

    pub closed spec fn wf(&self) -> bool {
        &&& 0 <= self.position() <= self.entries_model().len()
        &&& self.len == self.entries_model().len()
    }

    /// A well-formed pipeline's count and position agree with its entries.
    pub proof fn lemma_wf_bounds(&self)
        requires
            self.wf(),
        ensures
            self.total() == self.entries_model().len(),
            0 <= self.position() <= self.total(),
    {
    }

    /// Whether the next element needs file content before it can be yielded.
    pub open spec fn awaiting(&self) -> bool {
        &&& self.position() < self.entries_model().len()
        &&& self.entries_model()[self.position()] is Ok
    }

    /// Builds the pipeline for one manifest text: every line is parsed up
    /// front, nothing is hashed yet, and `len` already counts every element
    /// the stream will yield.
    pub fn from_manifest(content: &str) -> (r: Self)
        ensures
            r.wf(),
            r.entries_model() == parse_manifest(content@),
            r.position() == 0,
            r.total() == parse_manifest(content@).len(),
    {
        let entries = read_checksums(content);
        let len = entries.len();
        ChecksumResultsIter { entries, pos: 0, len }
    }

    /// Moves the stream forward. Yields `None` once every element is out.
    /// A parse-failure entry is emitted as the corresponding element
    /// unchanged; for a record entry the pipeline stays where it is and
    /// names the file whose content `resolve` must be given.
    pub fn advance(&mut self) -> (r: Option<Step>)
        requires
            old(self).wf(),
        ensures
            final(self).wf(),
            final(self).entries_model() == old(self).entries_model(),
            final(self).total() == old(self).total(),
            old(self).position() == old(self).entries_model().len() ==> r is None
                && final(self).position() == old(self).position(),
            (old(self).position() < old(self).entries_model().len() && old(
                self,
            ).entries_model()[old(self).position()] is Err) ==> final(self).position() == old(
                self,
            ).position() + 1 && (r matches Some(Step::Emit(el)) && el matches Err(e) && e@ == old(
                self,
            ).entries_model()[old(self).position()]->Err_0),
            old(self).awaiting() ==> final(self).position() == old(self).position() && (
            r matches Some(Step::NeedContent { file }) && file@ == old(self).entries_model()[old(
                self,
            ).position()]->Ok_0.file),
    {
        if self.pos < self.entries.len() {
            let entry = &self.entries[self.pos];
            match entry {
                Ok(rec) => Some(Step::NeedContent { file: rec.file.clone() }),
                Err(e) => {
                    let el = Err(e.clone());
                    self.pos = self.pos + 1;
                    Some(Step::Emit(el))
                },
            }
        } else {
            None
        }
    }

    /// Yields the next element once the content of the named file — or the
    /// failure to read it — is in hand. Returns `None`, and yields nothing,
    /// unless the pipeline was awaiting content.
    pub fn resolve(&mut self, read: Result<Vec<u8>, String>) -> (r: Option<
        Result<ChecksumResult, ChecksumError>,
    >)
        requires
            old(self).wf(),
        ensures
            final(self).wf(),
            final(self).entries_model() == old(self).entries_model(),
            final(self).total() == old(self).total(),
            !old(self).awaiting() ==> r is None && final(self).position() == old(self).position(),
            old(self).awaiting() ==> final(self).position() == old(self).position() + 1 && (
            r matches Some(el) && el matches Ok(cr) && cr@ == eval_entry(
                old(self).entries_model()[old(self).position()]->Ok_0,
                read_view(read),
            )),
    {
        if self.pos < self.entries.len() {
            let entry = &self.entries[self.pos];
            match entry {
                Ok(rec) => {
                    let file = rec.file.clone();
                    let result = match read {
                        Ok(bytes) => Ok(verify_content(bytes.as_slice(), rec.checksum.as_str())),
                        Err(message) => Err(ChecksumError::HashFailure { message }),
                    };
                    self.pos = self.pos + 1;
                    Some(Ok(ChecksumResult { file, result }))
                },
                Err(_) => None,
            }
        } else {
            None
        }
    }
}

/// A record whose file could not be read yields an error element carrying
/// the read failure — never a match or a mismatch.
pub proof fn lemma_failed_read_is_error(rec: RecordView, message: Seq<char>)
    ensures
        eval_entry(rec, Err(message)) == (ResultView {
            file: rec.file,
            result: Err(ErrorView::HashFailure { message }),
        }),
        eval_entry(rec, Err(message)).result is Err,
{
}

/// What a run holds at each position: a parse failure passes through as the
/// element itself, and a record's element is exactly what `resolve` yields
/// for it — its evaluation against the read outcome of its file.
pub proof fn lemma_run_results_elem(
    entries: Seq<Result<RecordView, ErrorView>>,
    files: Map<Seq<char>, Result<Seq<u8>, Seq<char>>>,
    i: int,
)
    requires
        0 <= i < entries.len(),
        entries[i] is Ok ==> files.contains_key(entries[i]->Ok_0.file),
    ensures
        run_results(entries, files).len() == entries.len(),
        entries[i] is Err ==> run_results(entries, files)[i] == Err::<ResultView, ErrorView>(
            entries[i]->Err_0,
        ),
        entries[i] is Ok ==> run_results(entries, files)[i] == Ok::<ResultView, ErrorView>(
            eval_entry(entries[i]->Ok_0, files[entries[i]->Ok_0.file]),
        ),
{
}

/// Verifying an unmodified manifest against unmodified file contents twice
/// yields identical ordered results: a run is a function of the manifest
/// text and the per-file read outcomes alone.
pub proof fn lemma_verification_idempotent(
    content: Seq<char>,
    files: Map<Seq<char>, Result<Seq<u8>, Seq<char>>>,
    first: Seq<Result<ResultView, ErrorView>>,
    second: Seq<Result<ResultView, ErrorView>>,
)
    requires
        first == run_results(parse_manifest(content), files),
        second == run_results(parse_manifest(content), files),
    ensures
        first == second,
{
}

} // verus!
