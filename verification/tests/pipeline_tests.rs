use std::collections::HashMap;

use chkr::digest::{compute_digest, Outcome};
use chkr::pipeline::{ChecksumResultsIter, Step};
use chkr::records::{ChecksumError, ChecksumResult};
use chkr::status::aggregate_code;

/// Drives a pipeline to exhaustion, answering each content request from the
/// given file set; a file that is not in the set reads as an error.
fn run(
    content: &str,
    files: &HashMap<&str, Vec<u8>>,
) -> Vec<Result<ChecksumResult, ChecksumError>> {
    let mut iter = ChecksumResultsIter::from_manifest(content);
    let mut out = Vec::new();
    loop {
        match iter.advance() {
            None => break,
            Some(Step::Emit(el)) => out.push(el),
            Some(Step::NeedContent { file }) => {
                let read = match files.get(file.as_str()) {
                    Some(bytes) => Ok(bytes.clone()),
                    None => Err(format!("{}: no such file", file)),
                };
                out.push(iter.resolve(read).expect("the pipeline was awaiting content"));
            }
        }
    }
    out
}

#[test]
fn end_to_end_manifest_run() {
    let foo: Vec<u8> = b"hello world".to_vec();
    let bar: Vec<u8> = b"something else".to_vec();
    let foo_digest = compute_digest(&foo);
    let wrong_digest = compute_digest(b"not the content of bar");
    assert_ne!(wrong_digest, compute_digest(&bar));
    let content = format!(
        "{}  foo.txt\n{}  bar.txt\nce5188defed222ca612b41580e0d5fe7  file-does-not-exist\n",
        foo_digest, wrong_digest
    );
    let mut files = HashMap::new();
    files.insert("foo.txt", foo);
    files.insert("bar.txt", bar.clone());

    let results = run(&content, &files);
    assert_eq!(results.len(), 3);
    match &results[0] {
        Ok(cr) => {
            assert_eq!(cr.file, "foo.txt");
            assert!(matches!(cr.result, Ok(Outcome::Match)));
        }
        other => panic!("expected a match for foo.txt, got {:?}", other),
    }
    match &results[1] {
        Ok(cr) => {
            assert_eq!(cr.file, "bar.txt");
            match &cr.result {
                Ok(Outcome::Mismatch { expected, actual }) => {
                    assert_eq!(expected, &wrong_digest);
                    assert_eq!(actual, &compute_digest(&bar));
                }
                other => panic!("expected a mismatch for bar.txt, got {:?}", other),
            }
        }
        other => panic!("expected a result for bar.txt, got {:?}", other),
    }
    match &results[2] {
        Ok(cr) => {
            assert_eq!(cr.file, "file-does-not-exist");
            assert!(matches!(
                cr.result,
                Err(ChecksumError::HashFailure { .. })
            ));
        }
        other => panic!("expected a read failure element, got {:?}", other),
    }
    // The aggregate status: the error beats the mismatch beats the match.
    assert_eq!(aggregate_code(&results).code(), 2);
}

#[test]
fn total_count_counts_retained_elements() {
    // One record, one parse error; the blank and partial lines are dropped.
    let content = "\n   \naaaa  one.txt\nbad line here\nonlyfield\n";
    let iter = ChecksumResultsIter::from_manifest(content);
    assert_eq!(iter.len, 2);
}

#[test]
fn yielded_elements_match_total_count() {
    let content = "aaaa  one.txt\nbad line here\nbbbb  two.txt\n";
    let iter = ChecksumResultsIter::from_manifest(content);
    let total = iter.len;
    let results = run(content, &HashMap::new());
    assert_eq!(results.len(), total);
}

#[test]
fn parse_error_passes_through_as_its_own_element() {
    let results = run("one two three\n", &HashMap::new());
    assert_eq!(results.len(), 1);
    match &results[0] {
        Err(ChecksumError::ParseFailure { line }) => assert_eq!(line, "one two three"),
        other => panic!("expected a parse-failure element, got {:?}", other),
    }
}

#[test]
fn unreadable_file_reports_error_not_outcome() {
    let results = run("aaaa  gone.txt\n", &HashMap::new());
    assert_eq!(results.len(), 1);
    match &results[0] {
        Ok(cr) => match &cr.result {
            Err(ChecksumError::HashFailure { message }) => {
                assert_eq!(message, "gone.txt: no such file")
            }
            other => panic!("expected a read failure, got {:?}", other),
        },
        other => panic!("expected an element for the record, got {:?}", other),
    }
}

#[test]
fn one_bad_record_does_not_stop_the_batch() {
    let ok: Vec<u8> = b"fine".to_vec();
    let d = compute_digest(&ok);
    let content = format!("aaaa  missing.txt\n{}  good.txt\n", d);
    let mut files = HashMap::new();
    files.insert("good.txt", ok);
    let results = run(&content, &files);
    assert_eq!(results.len(), 2);
    assert!(matches!(&results[0], Ok(cr) if cr.result.is_err()));
    assert!(matches!(&results[1], Ok(cr) if matches!(cr.result, Ok(Outcome::Match))));
}

#[test]
fn rerunning_manifest_gives_identical_results() {
    let data: Vec<u8> = b"stable bytes".to_vec();
    let d = compute_digest(&data);
    let content = format!("{}  a.txt\nbroken line row\nzzzz  missing\n", d);
    let mut files = HashMap::new();
    files.insert("a.txt", data);
    let first = run(&content, &files);
    let second = run(&content, &files);
    assert_eq!(first, second);
}

#[test]
fn resolve_without_pending_record_yields_nothing() {
    let mut iter = ChecksumResultsIter::from_manifest("");
    assert!(iter.resolve(Ok(Vec::new())).is_none());
    assert!(iter.advance().is_none());

    // A pipeline whose next element is a parse error is not awaiting content
    // either.
    let mut iter = ChecksumResultsIter::from_manifest("one two three\n");
    assert!(iter.resolve(Ok(Vec::new())).is_none());
    assert!(matches!(iter.advance(), Some(Step::Emit(_))));
}
