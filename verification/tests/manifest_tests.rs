use chkr::manifest::read_checksums;
use chkr::records::{ChecksumError, ChecksumRecord};

#[test]
fn checksums_are_read_correctly() {
    let content = "4d93d51945b88325c213640ef59fc50b  foo.txt\n\
                   4d93d51945b88325c213640ef59fc50a  bar.txt\n\
                   ce5188defed222ca612b41580e0d5fe7  file-does-not-exist\n";
    let expected_checksums = vec![
        Ok(ChecksumRecord {
            file: "foo.txt".to_string(),
            checksum: "4d93d51945b88325c213640ef59fc50b".to_string(),
        }),
        Ok(ChecksumRecord {
            file: "bar.txt".to_string(),
            checksum: "4d93d51945b88325c213640ef59fc50a".to_string(),
        }),
        Ok(ChecksumRecord {
            file: "file-does-not-exist".to_string(),
            checksum: "ce5188defed222ca612b41580e0d5fe7".to_string(),
        }),
    ];
    let actual_checksums = read_checksums(content);

    assert_eq!(expected_checksums, actual_checksums);
}

#[test]
fn blank_and_partial_lines_are_dropped() {
    let content = "   \n\nabcd  \n  name-only\n0123456789abcdef  ok.txt\n";
    let records = read_checksums(content);
    assert_eq!(records.len(), 1);
    assert!(matches!(&records[0], Ok(r) if r.file == "ok.txt" && r.checksum == "0123456789abcdef"));
}

#[test]
fn extra_fields_yield_parse_error() {
    let content = "aaaa  my file.txt\n";
    let records = read_checksums(content);
    assert_eq!(records.len(), 1);
    match &records[0] {
        Err(ChecksumError::ParseFailure { line }) => assert_eq!(line, "aaaa  my file.txt"),
        other => panic!("expected a parse failure, got {:?}", other),
    }
}

#[test]
fn single_space_delimits_fields_too() {
    let records = read_checksums("abcd file.txt\n");
    assert_eq!(
        records,
        vec![Ok(ChecksumRecord {
            file: "file.txt".to_string(),
            checksum: "abcd".to_string(),
        })]
    );
}

#[test]
fn missing_trailing_newline_is_tolerated() {
    let records = read_checksums("abcd  last.txt");
    assert_eq!(records.len(), 1);
    assert!(matches!(&records[0], Ok(r) if r.file == "last.txt"));
}

#[test]
fn empty_manifest_has_no_records() {
    assert_eq!(read_checksums(""), Vec::new());
}

#[test]
fn well_formed_lines_keep_manifest_order() {
    let content = "a1  one\nb2  two\nc3  three\n";
    let files: Vec<String> = read_checksums(content)
        .into_iter()
        .map(|e| e.unwrap().file)
        .collect();
    assert_eq!(files, vec!["one", "two", "three"]);
}
