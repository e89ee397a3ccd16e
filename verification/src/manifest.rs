//! The manifest grammar: one entry per line, two space-separated fields in
//! order `<digest> <filename>`, written the way common digest utilities do
//! (a run of spaces between the fields, most often two).
//!
//! A line is split on spaces and the empty tokens are dropped. A line with
//! exactly two tokens yields a record; a blank line, or one missing a field,
//! is silently dropped; a line with more than two fields yields a parse
//! error that stays an element of the stream. Splitting on spaces is kept
//! for compatibility with the two-space convention: a filename that itself
//! contains spaces cannot be represented and such a line reads as malformed.

use vstd::prelude::*;
use crate::records::{
    entries_view, entry_view, ChecksumError, ChecksumRecord, ErrorView, RecordView,
};

verus! {

/// Index of the first occurrence of `d` in `s`, or `s.len()` if there is none.
pub open spec fn find_char(s: Seq<char>, d: char) -> nat
    decreases s.len(),
{
    if s.len() == 0 {
        0
    } else if s[0] == d {
        0
    } else {
        (1 + find_char(s.drop_first(), d)) as nat
    }
}

/// `s` split on `d`: the segments between occurrences of `d`, in order,
/// empty segments included.
pub open spec fn split_on(s: Seq<char>, d: char) -> Seq<Seq<char>>
    decreases s.len(),
{
    let k = find_char(s, d);
    if k >= s.len() {
        seq![s]
    } else {
        seq![s.subrange(0, k as int)] + split_on(s.subrange(k as int + 1, s.len() as int), d)
    }
}

/// The non-empty segments of `segs`, in order.
pub open spec fn drop_empty(segs: Seq<Seq<char>>) -> Seq<Seq<char>>
    decreases segs.len(),
{
    if segs.len() == 0 {
        Seq::empty()
    } else if segs[0].len() > 0 {
        seq![segs[0]] + drop_empty(segs.drop_first())
    } else {
        drop_empty(segs.drop_first())
    }
}

/// The space-delimited tokens of one manifest line.
pub open spec fn tokens_of(line: Seq<char>) -> Seq<Seq<char>> {
    drop_empty(split_on(line, ' '))
}

/// What one line contributes to the entry stream: its record when it has
/// exactly two tokens (first the checksum, last the filename), nothing when
/// a field is missing, a parse failure when there are extra fields.
pub open spec fn line_elems(line: Seq<char>) -> Seq<Result<RecordView, ErrorView>> {
    let toks = tokens_of(line);
    if toks.len() < 2 {
        Seq::empty()
    } else if toks.len() == 2 {
        seq![Ok(RecordView { file: toks[1], checksum: toks[0] })]
    } else {
        seq![Err(ErrorView::ParseFailure { line: line })]
    }
}

/// The entry stream of a sequence of lines, in order.
pub open spec fn parse_lines(lines: Seq<Seq<char>>) -> Seq<Result<RecordView, ErrorView>>
    decreases lines.len(),
{
    if lines.len() == 0 {
        Seq::empty()
    } else {
        line_elems(lines[0]) + parse_lines(lines.drop_first())
    }
}

/// The entry stream of a whole manifest text.
pub open spec fn parse_manifest(content: Seq<char>) -> Seq<Result<RecordView, ErrorView>> {
    parse_lines(split_on(content, '\n'))
}

/// The views of a token list.
pub open spec fn token_views(toks: Seq<String>) -> Seq<Seq<char>> {
    toks.map_values(|t: String| t@)
}

pub proof fn lemma_find_char(s: Seq<char>, d: char)
    ensures
        find_char(s, d) <= s.len(),
        forall|j: int| 0 <= j < find_char(s, d) ==> s[j] != d,
        find_char(s, d) < s.len() ==> s[find_char(s, d) as int] == d,
    decreases s.len(),
{
    if s.len() == 0 {
    } else if s[0] == d {
    } else {
        lemma_find_char(s.drop_first(), d);
        assert forall|j: int| 0 <= j < find_char(s, d) implies s[j] != d by {
            if j > 0 {
                assert(s.drop_first()[j - 1] != d);
            }
        }
    }
}

/// `find_char` returns the one position that has `d` after a run without it.
pub proof fn lemma_find_char_is_first(s: Seq<char>, d: char, j: int)
    requires
        0 <= j <= s.len(),
        forall|m: int| 0 <= m < j ==> s[m] != d,
        j < s.len() ==> s[j] == d,
    ensures
        find_char(s, d) == j,
    decreases s.len(),
{
    if s.len() == 0 {
    } else if s[0] == d {
        assert(j == 0);
    } else {
        assert(j >= 1);
        assert forall|m: int| 0 <= m < j - 1 implies s.drop_first()[m] != d by {
            assert(s[m + 1] != d);
        }
        lemma_find_char_is_first(s.drop_first(), d, j - 1);
    }
}

/// An empty line has no tokens.
proof fn lemma_tokens_of_empty(t: Seq<char>)
    requires
        t.len() == 0,
    ensures
        tokens_of(t) == Seq::<Seq<char>>::empty(),
{
    assert(split_on(t, ' ') == seq![t]);
    assert(seq![t].drop_first() =~= Seq::<Seq<char>>::empty());
    assert(drop_empty(seq![t]) == drop_empty(Seq::<Seq<char>>::empty()));
}

/// A leading delimiter contributes no token.
proof fn lemma_tokens_skip_delim(s: Seq<char>)
    requires
        s.len() > 0,
        s[0] == ' ',
    ensures
        tokens_of(s) == tokens_of(s.drop_first()),
{
    assert(find_char(s, ' ') == 0);
    let rest = split_on(s.subrange(1, s.len() as int), ' ');
    assert(split_on(s, ' ') == seq![s.subrange(0, 0)] + rest);
    assert(s.subrange(0, 0).len() == 0);
    assert((seq![s.subrange(0, 0)] + rest).drop_first() =~= rest);
    assert(s.subrange(1, s.len() as int) =~= s.drop_first());
}

/// A leading non-delimiter run is the first token, and tokenising continues
/// at its end.
proof fn lemma_tokens_take_token(s: Seq<char>)
    requires
        s.len() > 0,
        s[0] != ' ',
    ensures
        ({
            let k = find_char(s, ' ') as int;
            &&& 1 <= k <= s.len()
            &&& tokens_of(s) == seq![s.subrange(0, k)] + tokens_of(
                s.subrange(k, s.len() as int),
            )
        }),
{
    lemma_find_char(s, ' ');
    let k = find_char(s, ' ') as int;
    let n = s.len() as int;
    if k == n {
        assert(split_on(s, ' ') == seq![s]);
        assert(s.subrange(0, k) =~= s);
        assert(seq![s][0] == s);
        assert(seq![s].drop_first() =~= Seq::<Seq<char>>::empty());
        assert(drop_empty(seq![s]) == seq![s] + drop_empty(Seq::<Seq<char>>::empty()));
        let t = s.subrange(n, n);
        lemma_tokens_of_empty(t);
        assert(tokens_of(s) =~= seq![s.subrange(0, k)] + tokens_of(t));
    } else {
        let tail = s.subrange(k + 1, n);
        assert(split_on(s, ' ') == seq![s.subrange(0, k)] + split_on(tail, ' '));
        let segs = seq![s.subrange(0, k)] + split_on(tail, ' ');
        assert(segs[0] == s.subrange(0, k));
        assert(s.subrange(0, k).len() == k);
        assert(segs.drop_first() =~= split_on(tail, ' '));
        assert(tokens_of(s) == seq![s.subrange(0, k)] + drop_empty(split_on(tail, ' ')));
        let t = s.subrange(k, n);
        assert(t.len() > 0);
        assert(t[0] == s[k]);
        assert(t[0] == ' ');
        lemma_tokens_skip_delim(t);
        assert(t.drop_first() =~= tail);
    }
}

/// One step of splitting a manifest text into lines: everything before the
/// first newline is the first line, and parsing continues past it.
proof fn lemma_parse_lines_step(s: Seq<char>)
    ensures
        ({
            let k = find_char(s, '\n') as int;
            &&& (k < s.len() ==> parse_manifest(s) == line_elems(s.subrange(0, k))
                + parse_manifest(s.subrange(k + 1, s.len() as int)))
            &&& (k >= s.len() ==> parse_manifest(s) == line_elems(s))
        }),
{
    let k = find_char(s, '\n') as int;
    let n = s.len() as int;
    if k < n {
        let lines = seq![s.subrange(0, k)] + split_on(s.subrange(k + 1, n), '\n');
        assert(split_on(s, '\n') == lines);
        assert(lines[0] == s.subrange(0, k));
        assert(lines.drop_first() =~= split_on(s.subrange(k + 1, n), '\n'));
    } else {
        assert(split_on(s, '\n') == seq![s]);
        let lines = seq![s];
        assert(lines[0] == s);
        assert(lines.drop_first() =~= Seq::<Seq<char>>::empty());
        assert(parse_lines(lines.drop_first()) == Seq::<Result<RecordView, ErrorView>>::empty());
        assert(parse_manifest(s) =~= line_elems(s));
    }
}

proof fn lemma_drop_empty_nonempty(segs: Seq<Seq<char>>)
    ensures
        forall|i: int|
            0 <= i < drop_empty(segs).len() ==> #[trigger] drop_empty(segs)[i].len() > 0,
    decreases segs.len(),
{
    if segs.len() == 0 {
    } else {
        lemma_drop_empty_nonempty(segs.drop_first());
        assert forall|i: int|
            0 <= i < drop_empty(segs).len() implies #[trigger] drop_empty(segs)[i].len()
            > 0 by {
            if segs[0].len() > 0 {
                if i > 0 {
                    assert(drop_empty(segs)[i] == drop_empty(segs.drop_first())[i - 1]);
                }
            } else {
                assert(drop_empty(segs)[i] == drop_empty(segs.drop_first())[i]);
            }
        }
    }
}

/// Every token a line yields is non-empty: an empty field never reaches a
/// record.
pub proof fn lemma_tokens_nonempty(line: Seq<char>)
    ensures
        forall|i: int|
            0 <= i < tokens_of(line).len() ==> #[trigger] tokens_of(line)[i].len() > 0,
{
    lemma_drop_empty_nonempty(split_on(line, ' '));
}

/// A line of nothing but spaces has no tokens at all.
pub proof fn lemma_whitespace_line_no_tokens(line: Seq<char>)
    requires
        forall|i: int| 0 <= i < line.len() ==> line[i] == ' ',
    ensures
        tokens_of(line).len() == 0,
    decreases line.len(),
{
    if line.len() == 0 {
        lemma_tokens_of_empty(line);
    } else {
        lemma_tokens_skip_delim(line);
        assert forall|i: int| 0 <= i < line.drop_first().len() implies line.drop_first()[i]
            == ' ' by {
            assert(line[i + 1] == ' ');
        }
        lemma_whitespace_line_no_tokens(line.drop_first());
    }
}

/// How one manifest line is classified. A whitespace-only line, or one with
/// a field missing, yields no element at all — no record and no error. A
/// line with exactly two fields yields its record, both fields non-empty. A
/// line with extra fields yields exactly one parse-error element carrying
/// the line.
pub proof fn lemma_line_classification(line: Seq<char>)
    ensures
        (forall|i: int| 0 <= i < line.len() ==> line[i] == ' ') ==> line_elems(line)
            == Seq::<Result<RecordView, ErrorView>>::empty(),
        tokens_of(line).len() < 2 ==> line_elems(line) == Seq::<
            Result<RecordView, ErrorView>,
        >::empty(),
        tokens_of(line).len() == 2 ==> line_elems(line) == seq![
            Ok::<RecordView, ErrorView>(RecordView {
                file: tokens_of(line)[1],
                checksum: tokens_of(line)[0],
            }),
        ],
        tokens_of(line).len() == 2 ==> tokens_of(line)[0].len() > 0 && tokens_of(line)[1].len()
            > 0,
        tokens_of(line).len() > 2 ==> line_elems(line) == seq![
            Err::<RecordView, ErrorView>(ErrorView::ParseFailure { line: line }),
        ],
{
    if forall|i: int| 0 <= i < line.len() ==> line[i] == ' ' {
        lemma_whitespace_line_no_tokens(line);
    }
    lemma_tokens_nonempty(line);
}

/// A manifest whose every line is well-formed — exactly two fields — parses
/// to exactly one record per line, in file order, each record taking the
/// line's first field as its checksum and its second as its file, both
/// non-empty.
pub proof fn lemma_well_formed_lines(lines: Seq<Seq<char>>)
    requires
        forall|i: int| 0 <= i < lines.len() ==> tokens_of(#[trigger] lines[i]).len() == 2,
    ensures
        parse_lines(lines).len() == lines.len(),
        forall|i: int|
            0 <= i < lines.len() ==> parse_lines(lines)[i] == Ok::<RecordView, ErrorView>(
                RecordView {
                    file: tokens_of(#[trigger] lines[i])[1],
                    checksum: tokens_of(lines[i])[0],
                },
            ),
        forall|i: int|
            0 <= i < lines.len() ==> tokens_of(#[trigger] lines[i])[0].len() > 0 && tokens_of(
                lines[i],
            )[1].len() > 0,
    decreases lines.len(),
{
    if lines.len() == 0 {
    } else {
        assert forall|i: int|
            0 <= i < lines.drop_first().len() implies tokens_of(
            #[trigger] lines.drop_first()[i],
        ).len() == 2 by {
            assert(lines.drop_first()[i] == lines[i + 1]);
        }
        lemma_well_formed_lines(lines.drop_first());
        lemma_tokens_nonempty(lines[0]);
        assert forall|i: int|
            0 <= i < lines.len() implies parse_lines(lines)[i] == Ok::<RecordView, ErrorView>(
            RecordView { file: tokens_of(#[trigger] lines[i])[1], checksum: tokens_of(lines[i])[0] },
        ) by {
            if i > 0 {
                assert(parse_lines(lines)[i] == parse_lines(lines.drop_first())[i - 1]);
                assert(lines.drop_first()[i - 1] == lines[i]);
            }
        }
        assert forall|i: int|
            0 <= i < lines.len() implies tokens_of(#[trigger] lines[i])[0].len() > 0 && tokens_of(
            lines[i],
        )[1].len() > 0 by {
            if i > 0 {
                assert(lines.drop_first()[i - 1] == lines[i]);
            }
        }
    }
}

/// First position at or after `from` that holds `d`, or the length.
fn find_from(s: &str, from: usize, d: char) -> (j: usize)
    requires
        from <= s@.len(),
    ensures
        from <= j <= s@.len(),
        j - from == find_char(s@.subrange(from as int, s@.len() as int), d),
        j < s@.len() ==> s@[j as int] == d,
{
    let n: usize = s.unicode_len();
    let mut j: usize = from;
    loop
        invariant
            from <= j <= n,
            n == s@.len(),
            forall|m: int| from <= m < j ==> s@[m] != d,
        ensures
            from <= j <= n,
            forall|m: int| from <= m < j ==> s@[m] != d,
            j < n ==> s@[j as int] == d,
        decreases n - j,
    {
        if j == n {
            break ;
        }
        if s.get_char(j) == d {
            break ;
        }
        j = j + 1;
    }
    proof {
        let t = s@.subrange(from as int, s@.len() as int);
        assert forall|m: int| 0 <= m < j - from implies t[m] != d by {
            assert(s@[from + m] != d);
        }
        lemma_find_char_is_first(t, d, j - from);
    }
    j
}

/// Splits one manifest line on spaces and drops the empty tokens.
fn tokens_of_line(line: &str) -> (toks: Vec<String>)
    ensures
        token_views(toks@) == tokens_of(line@),
{
    let n: usize = line.unicode_len();
    let mut toks: Vec<String> = Vec::new();
    let mut i: usize = 0;
    proof {
        assert(line@.subrange(0, n as int) =~= line@);
        assert(token_views(toks@) + tokens_of(line@) =~= tokens_of(line@));
    }
    while i < n
        invariant
            i <= n,
            n == line@.len(),
            tokens_of(line@) == token_views(toks@) + tokens_of(
                line@.subrange(i as int, n as int),
            ),
        decreases n - i,
    {
        let suf = Ghost(line@.subrange(i as int, n as int));
        if line.get_char(i) == ' ' {
            proof {
                lemma_tokens_skip_delim(suf@);
                assert(suf@.drop_first() =~= line@.subrange(i + 1, n as int));
            }
            i = i + 1;
        } else {
            let j = find_from(line, i, ' ');
            let tok: &str = line.substring_char(i, j);
            proof {
                lemma_tokens_take_token(suf@);
                let k = find_char(suf@, ' ') as int;
                assert(k == j - i);
                assert(suf@.subrange(0, k) =~= line@.subrange(i as int, j as int));
                assert(suf@.subrange(k, suf@.len() as int) =~= line@.subrange(
                    j as int,
                    n as int,
                ));
            }
            let owned: String = tok.to_owned();
            toks.push(owned);
            proof {
                assert(token_views(toks@) =~= token_views(toks@.drop_last()).push(
                    toks@.last()@,
                ));
                assert(tokens_of(line@) =~= token_views(toks@) + tokens_of(
                    line@.subrange(j as int, n as int),
                ));
            }
            i = j;
        }
    }
    proof {
        lemma_tokens_of_empty(line@.subrange(n as int, n as int));
        assert(token_views(toks@) =~= tokens_of(line@));
    }
    toks
}

/// Parses one manifest line: a record for exactly two fields, nothing for a
/// blank or partial line, a parse failure for extra fields.
fn parse_line(line: &str) -> (r: Option<Result<ChecksumRecord, ChecksumError>>)
    ensures
        match r {
            Some(e) => line_elems(line@) == seq![entry_view(e)],
            None => line_elems(line@) == Seq::<Result<RecordView, ErrorView>>::empty(),
        },
{
    let mut toks = tokens_of_line(line);
    if toks.len() < 2 {
        None
    } else if toks.len() == 2 {
        let file = toks.pop().unwrap();
        let checksum = toks.pop().unwrap();
        let rec = ChecksumRecord { file, checksum };
        proof {
            assert(rec@.checksum == tokens_of(line@)[0]);
            assert(rec@.file == tokens_of(line@)[1]);
            assert(line_elems(line@) =~= seq![
                entry_view(Ok::<ChecksumRecord, ChecksumError>(rec)),
            ]);
        }
        Some(Ok(rec))
    } else {
        let err = ChecksumError::ParseFailure { line: line.to_owned() };
        proof {
            assert(line_elems(line@) =~= seq![
                entry_view(Err::<ChecksumRecord, ChecksumError>(err)),
            ]);
        }
        Some(Err(err))
    }
}

/// Parses the full text of a manifest into its ordered entry list: one
/// record per line with exactly two fields, one parse failure per line with
/// extra fields, nothing for blank lines or lines missing a field.
pub fn read_checksums(content: &str) -> (r: Vec<Result<ChecksumRecord, ChecksumError>>)
    ensures
        entries_view(r@) == parse_manifest(content@),
{
    let n: usize = content.unicode_len();
    let mut out: Vec<Result<ChecksumRecord, ChecksumError>> = Vec::new();
    let mut i: usize = 0;
    proof {
        assert(content@.subrange(0, n as int) =~= content@);
        assert(entries_view(out@) + parse_manifest(content@) =~= parse_manifest(content@));
    }
    loop
        invariant_except_break
            parse_manifest(content@) == entries_view(out@) + parse_manifest(
                content@.subrange(i as int, n as int),
            ),
        invariant
            i <= n,
            n == content@.len(),
        ensures
            entries_view(out@) == parse_manifest(content@),
        decreases n - i,
    {
        let suf = Ghost(content@.subrange(i as int, n as int));
        let j = find_from(content, i, '\n');
        let line: &str = content.substring_char(i, j);
        let ghost prev = out@;
        proof {
            lemma_parse_lines_step(suf@);
            assert(find_char(suf@, '\n') == j - i);
            assert(suf@.subrange(0, j - i) =~= line@);
            if j < n {
                assert(suf@.subrange(j - i + 1, suf@.len() as int) =~= content@.subrange(
                    j + 1,
                    n as int,
                ));
            }
        }
        match parse_line(line) {
            Some(e) => {
                out.push(e);
            },
            None => {},
        }
        proof {
            // What the line contributed now stands at the end of `out`.
            assert(entries_view(out@) =~= entries_view(prev) + line_elems(line@));
        }
        if j == n {
            proof {
                assert(parse_manifest(content@) =~= entries_view(out@));
            }
            break ;
        }
        proof {
            let rest = parse_manifest(content@.subrange(j + 1, n as int));
            assert((entries_view(prev) + (line_elems(line@) + rest)) =~= (entries_view(prev)
                + line_elems(line@)) + rest);
            assert(parse_manifest(content@) == entries_view(out@) + rest);
        }
        i = j + 1;
    }
    out
}

} // verus!
