use verify_files::builtin_handlers::{Confidence, FailureType};
use verify_files::config::{Handler, Root};
use verify_files::external::{
    contains_text, external_outcome, find_handler, render_argv, HandlerRef, Run,
};

fn strings(items: &[&str]) -> Vec<String> {
    items.iter().map(|s| s.to_string()).collect()
}

fn handler(fail_if_stderr: Option<&str>) -> Handler {
    Handler {
        argv: strings(&["tool"]),
        description: None,
        fail_if_stderr: fail_if_stderr.map(|s| s.to_string()),
        sources: None,
    }
}

#[test]
fn path_is_added_where_no_marker_stands() {
    assert_eq!(
        render_argv(&strings(&["7z", "t"]), "/a/b.7z", "/dev/null"),
        strings(&["7z", "t", "/a/b.7z"])
    );
    assert_eq!(render_argv(&strings(&[]), "p", "n"), strings(&["p"]));
    assert_eq!(
        render_argv(&strings(&["x", "{other}", "{path"]), "p", "n"),
        strings(&["x", "{other}", "{path", "p"])
    );
}

#[test]
fn markers_are_replaced() {
    assert_eq!(
        render_argv(&strings(&["tool", "-i", "{path}", "-o", "{devnull}"]), "/a b", "/dev/null"),
        strings(&["tool", "-i", "/a b", "-o", "/dev/null"])
    );
    assert_eq!(
        render_argv(&strings(&["tool", "--in={path}", "x{path}{path}y"]), "p", "n"),
        strings(&["tool", "--in=p", "xppy"])
    );
    assert_eq!(
        render_argv(&strings(&["tool", "{devnull}"]), "p", "n"),
        strings(&["tool", "n"])
    );
    // what is put in is not looked through again
    assert_eq!(
        render_argv(&strings(&["tool", "{path}"]), "{devnull}", "n"),
        strings(&["tool", "{devnull}"])
    );
    assert_eq!(
        render_argv(&strings(&["tool", "{{path}}", "é{path}é"]), "p", "n"),
        strings(&["tool", "{p}", "épé"])
    );
}

#[test]
fn searching_text() {
    assert!(contains_text("an error occurred", "error"));
    assert!(contains_text("error", "error"));
    assert!(contains_text("abc", ""));
    assert!(contains_text("", ""));
    assert!(!contains_text("", "a"));
    assert!(!contains_text("erro", "error"));
    assert!(contains_text("aab", "ab"));
}

#[test]
fn run_of_a_command_is_judged() {
    let ran = |success: bool, stderr: &str| Run::Exited { success, stderr: stderr.to_string() };
    assert_eq!(external_outcome(&handler(None), ran(true, "")), Ok(Confidence::WellFormed));
    assert_eq!(
        external_outcome(&handler(None), ran(true, "warning: odd")),
        Ok(Confidence::WellFormed)
    );
    assert_eq!(
        external_outcome(&handler(None), ran(false, "broken")),
        Err(FailureType::InvalidContent("broken".to_string()))
    );
    assert_eq!(
        external_outcome(&handler(Some("ERROR")), ran(true, "1 ERROR found")),
        Err(FailureType::InvalidContent("1 ERROR found".to_string()))
    );
    assert_eq!(
        external_outcome(&handler(Some("ERROR")), ran(true, "1 error found")),
        Ok(Confidence::WellFormed)
    );
    assert_eq!(
        external_outcome(&handler(None), Run::NotStarted("no such file".to_string())),
        Err(FailureType::InternalError("no such file".to_string()))
    );
}

#[test]
fn configuration_goes_before_what_is_built_in() {
    let root = Root {
        filetypes: vec![],
        overrides: vec![],
        handlers: vec![
            ("sevenzip".to_string(), handler(None)),
            ("zip".to_string(), handler(None)),
            ("zip".to_string(), handler(Some("x"))),
        ],
    };
    let builtins = strings(&["gzip", "zip"]);
    assert_eq!(find_handler(&root, &builtins, "sevenzip"), HandlerRef::External(0));
    assert_eq!(find_handler(&root, &builtins, "zip"), HandlerRef::External(1));
    assert_eq!(find_handler(&root, &builtins, "gzip"), HandlerRef::Builtin);
    assert_eq!(find_handler(&root, &builtins, "rar"), HandlerRef::Unknown);
    assert_eq!(find_handler(&root, &strings(&[]), "gzip"), HandlerRef::Unknown);
}
