use chkr::command::{get_command, Args, Command};
use chkr::digest::{compute_digest, verify_content, Outcome};
use chkr::records::{ChecksumError, ChecksumResult};
use chkr::status::{severity_of_element, severity_of_result, ReturnCode};

fn args(cmd_file: bool, cmd_manifest: bool) -> Args {
    Args {
        cmd_file,
        cmd_manifest,
        arg_expected_checksum: String::new(),
        arg_file_path: String::new(),
        arg_checksum_path: String::new(),
    }
}

#[test]
fn match_exits_zero() {
    let d = compute_digest(b"hello world");
    let result: Result<Outcome, ChecksumError> = Ok(verify_content(b"hello world", &d));
    assert_eq!(severity_of_result(&result).code(), 0);
}

#[test]
fn mismatch_exits_one() {
    let result: Result<Outcome, ChecksumError> =
        Ok(verify_content(b"hello world", "0000"));
    assert_eq!(severity_of_result(&result).code(), 1);
}

#[test]
fn error_exits_two() {
    let result: Result<Outcome, ChecksumError> = Err(ChecksumError::HashFailure {
        message: "no such file".to_string(),
    });
    assert_eq!(severity_of_result(&result).code(), 2);
}

#[test]
fn parse_failure_element_is_an_error() {
    let el: Result<ChecksumResult, ChecksumError> = Err(ChecksumError::ParseFailure {
        line: "one two three".to_string(),
    });
    assert_eq!(severity_of_element(&el).code(), 2);
}

#[test]
fn error_beats_mismatch_beats_match() {
    assert_eq!(
        ReturnCode::Success.worse(ReturnCode::Mismatch),
        ReturnCode::Mismatch
    );
    assert_eq!(
        ReturnCode::Mismatch.worse(ReturnCode::Error),
        ReturnCode::Error
    );
    assert_eq!(
        ReturnCode::Error.worse(ReturnCode::Success),
        ReturnCode::Error
    );
    assert_eq!(
        ReturnCode::Mismatch.worse(ReturnCode::Success),
        ReturnCode::Mismatch
    );
}

#[test]
fn file_command_wins_over_manifest() {
    assert_eq!(get_command(&args(true, true)), Some(Command::File));
    assert_eq!(get_command(&args(true, false)), Some(Command::File));
}

#[test]
fn manifest_flag_selects_manifest() {
    assert_eq!(get_command(&args(false, true)), Some(Command::Manifest));
}

#[test]
fn no_flag_selects_no_command() {
    assert_eq!(get_command(&args(false, false)), None);
}
