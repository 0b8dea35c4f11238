use verify_files::validators::{path_input_dir, path_input_file, path_input_file_or_dir, Access};

const FILE: Access = Access { is_dir: false, readable: true, traversable: false };
const DENIED_FILE: Access = Access { is_dir: false, readable: false, traversable: false };
const DIR: Access = Access { is_dir: true, readable: true, traversable: true };
const DENIED_DIR: Access = Access { is_dir: true, readable: false, traversable: false };
const MISSING: Access = Access { is_dir: false, readable: false, traversable: false };

#[test]
fn validators_path_input_file_or_dir_basic_functionality() {
    assert!(path_input_file_or_dir("-", &MISSING).is_err()); // stdin
    assert!(path_input_file_or_dir("/tmp", &DIR).is_ok()); // OK Fldr
    assert!(path_input_file_or_dir("/dev/null", &FILE).is_ok()); // OK File
    assert!(path_input_file_or_dir("/etc/shadow", &DENIED_FILE).is_err()); // Dny File
    assert!(path_input_file_or_dir("/etc/ssl/private", &DENIED_DIR).is_err()); // Dny Fldr
    assert!(path_input_file_or_dir("/nonexistant_test_path", &MISSING).is_err()); // Missing
    assert!(path_input_file_or_dir("/tmp\0with\0null", &MISSING).is_err()); // Bad CStr
    assert_eq!(
        path_input_file_or_dir("/etc/shadow", &DENIED_FILE),
        Err("Not a readable file or directory: /etc/shadow".to_string())
    );
}

#[test]
fn validators_path_input_dir_basic_functionality() {
    assert!(path_input_dir("/", &DIR).is_ok()); // Root
    assert!(path_input_dir("/tmp", &DIR).is_ok()); // OK Folder
    assert!(path_input_dir("/dev/null", &FILE).is_err()); // OK File
    assert!(path_input_dir("/etc/shadow", &DENIED_FILE).is_err()); // Denied File
    assert!(path_input_dir("/etc/ssl/private", &DENIED_DIR).is_err()); // Denied Folder
    assert!(path_input_dir("/nonexistant_test_path", &MISSING).is_err()); // Missing Path
    assert!(path_input_dir("/tmp\0with\0null", &MISSING).is_err()); // Invalid CString
    assert_eq!(path_input_dir("/dev/null", &FILE), Err("Not a directory: /dev/null".to_string()));
    assert_eq!(
        path_input_dir("/etc/ssl/private", &DENIED_DIR),
        Err("Would be unable to read and traverse destination directory: /etc/ssl/private"
            .to_string())
    );
}

#[test]
fn path_input_file_stdin_test() {
    assert!(path_input_file("-", &MISSING).is_err());
}

#[test]
fn validators_path_input_file_basic_functionality() {
    // Existing paths
    assert!(path_input_file("/bin/sh", &FILE).is_ok()); // OK File
    assert!(path_input_file("/bin/../etc/.././bin/sh", &FILE).is_ok()); // Non-canonicalized
    assert!(path_input_file("/../../../../bin/sh", &FILE).is_ok()); // Above root

    // Inaccessible, nonexistent, or invalid paths
    assert!(path_input_file("", &MISSING).is_err()); // Empty String
    assert!(path_input_file("/", &DIR).is_err()); // OK Folder
    assert!(path_input_file("/etc/shadow", &DENIED_FILE).is_err()); // Denied File
    assert!(path_input_file("/etc/ssl/private", &DENIED_DIR).is_err()); // Denied Folder
    assert!(path_input_file("/nonexistant_test_path", &MISSING).is_err()); // Missing Path
    assert!(path_input_file("/null\0containing", &MISSING).is_err()); // Invalid CString
    assert_eq!(
        path_input_file("/", &DIR),
        Err("/: Input path must be a file, not a directory".to_string())
    );
    assert_eq!(
        path_input_file("/etc/shadow", &DENIED_FILE),
        Err("Would be unable to write to destination file: /etc/shadow".to_string())
    );
}

#[test]
fn path_input_file_invalid_utf8() {
    // a path that is no UTF-8 is shown with the replacement character
    assert!(path_input_file("/not\u{fffd}utf8", &MISSING).is_err());
    assert_eq!(
        path_input_file("/not\u{fffd}utf8", &MISSING),
        Err("Would be unable to write to destination file: /not\u{fffd}utf8".to_string())
    );
}
