use entropy_scan::scan::{check_target, select_root_arg, ScanError, MAX_FILESIZE};

#[test]
fn directory_target_is_refused() {
    assert_eq!(check_target(true, 0), Err(ScanError::NotAFile));
    assert_eq!(check_target(true, MAX_FILESIZE + 1), Err(ScanError::NotAFile));
}

#[test]
fn oversized_file_is_refused() {
    assert_eq!(check_target(false, MAX_FILESIZE + 1), Err(ScanError::FileTooLarge));
    assert_eq!(check_target(false, u64::MAX), Err(ScanError::FileTooLarge));
}

#[test]
fn file_within_limit_is_admitted() {
    assert_eq!(check_target(false, 0), Ok(()));
    assert_eq!(check_target(false, 5), Ok(()));
    assert_eq!(check_target(false, MAX_FILESIZE), Ok(()));
}

#[test]
fn missing_argument_is_refused() {
    let none: Vec<String> = vec![];
    assert_eq!(select_root_arg(&none), Err(ScanError::MissingArgument));
    let only_program = vec!["scanner".to_string()];
    assert_eq!(select_root_arg(&only_program), Err(ScanError::MissingArgument));
}

#[test]
fn first_positional_argument_is_the_root() {
    let args = vec!["scanner".to_string(), "data/sample.bin".to_string(), "extra".to_string()];
    assert_eq!(select_root_arg(&args), Ok("data/sample.bin".to_string()));
}

#[test]
fn error_messages() {
    assert_eq!(ScanError::NotAFile.message(), "This is a directory!");
    assert_eq!(ScanError::FileTooLarge.message(), "File too large");
    assert_eq!(ScanError::IoError.message(), "I/O error");
    assert_eq!(ScanError::MissingArgument.message(), "No path provided!");
}
