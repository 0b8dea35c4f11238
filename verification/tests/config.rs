use verify_files::config::decode::decode;
use verify_files::config::{
    parse, validate_argv, validate_exts, validate_filetype, validate_handlers, validate_headers,
    validate_override, validate_sources, ConfigError, OneOrList, Problem, RecordKey, Root,
    SchemaError, ValidationErrors, Warning,
};
use verify_files::document::{parse_document, Node};

/// Reads a document, which must fit the schema, and checks its rules.
fn do_validate(toml_str: &str) -> Result<(), ValidationErrors> {
    let document = parse_document(toml_str).unwrap();
    let parsed: Root = decode(&document).unwrap();
    parsed.validate()
}

/// Checks that validation fails and reports something under `section`.
fn assert_validation_result(toml_str: &str, section: &str) {
    let result = match do_validate(toml_str) {
        Ok(()) => panic!("Validation should error out"),
        Err(errors) => errors,
    };
    assert!(result.get(section).is_some(), "Get section {} from error response", section);
}

/// Whether the text is a document that fits the schema.
fn reads(toml_str: &str) -> bool {
    match parse_document(toml_str) {
        Ok(document) => decode(&document).is_ok(),
        Err(_) => false,
    }
}

/// Verify that nested validation is occurring
#[test]
fn test_nested_validation() {
    // Filetype with an invalid description to trigger nested validation failure
    assert_validation_result(
        r#"
                [filetype.foo]
                description = ""
                handler = "foo"
                extension = "foo"
            "#,
        "filetype",
    );

    // Override with an invalid description to trigger nested validation failure
    assert_validation_result(
        r#"
                [[override]]
                path = ""
            "#,
        "override",
    );

    // Handler with an invalid argv to trigger nested validation failure
    assert_validation_result(
        r#"
                [handler.foo]
                argv = []
            "#,
        "handler",
    );
}

/// Verify that the struct-level validators are running correctly
#[test]
fn test_struct_validation() {
    // Filetype with no way to autodetect it
    assert_validation_result(
        r#"
                [filetype.foo]
                description = "Test description"
                handler = "foo"
            "#,
        "filetype",
    );

    // Override that does nothing
    assert_validation_result(
        r#"
                [[override]]
                path = "quux"
            "#,
        "override",
    );
}

/// Verify that sources are checked to be superficially valid URLs
#[test]
fn test_sources_validation() {
    do_validate(
        r#"
                [handler.foo]
                argv = ["foo"]
            "#,
    )
    .expect("Parsed handler definition with no sources");
    do_validate(
        r#"
                [handler.foo]
                argv = ["foo"]
                sources = ["http://www.example.com/"]
            "#,
    )
    .expect("Parsed handler definition with sources");
    do_validate(
        r#"
                [handler.foo]
                argv = ["foo"]
                sources = ["http://www.example.com/", "https://example.com/"]
            "#,
    )
    .expect("Parsed handler definition with sources");
    assert_validation_result(
        r#"
                [handler.foo]
                argv = ["foo"]
                sources = ""
            "#,
        "handler",
    );
    assert_validation_result(
        r#"
                [handler.foo]
                argv = ["foo"]
                sources = []
            "#,
        "handler",
    );
    assert_validation_result(
        r#"
                [handler.foo]
                argv = ["foo"]
                sources = [""]
            "#,
        "handler",
    );
    assert_validation_result(
        r#"
                [handler.foo]
                argv = ["foo"]
                sources = ["foo"]
            "#,
        "handler",
    );
    assert_validation_result(
        r#"
                [handler.foo]
                argv = ["foo"]
                sources = ["http://www.example.com/", ""]
            "#,
        "handler",
    );
    assert_validation_result(
        r#"
                [handler.foo]
                argv = ["foo"]
                sources = ["http://www.example.com/", "ftp://example.com/"]
            "#,
        "handler",
    );
}

/// Verify that all sections are optional
#[test]
fn test_optional_sections() {
    do_validate(r#""#).expect("Empty config files should parse just fine");

    do_validate(
        r#"
                [filetype.foo]
                description = "Test description"
                handler = "foo"
                extension = "foo"
            "#,
    )
    .expect("The parser should accept a filetype that may rely only on builtins");

    do_validate(
        r#"
                [[override]]
                path = "bar"
                ignore = true
            "#,
    )
    .expect("The parser should assume a lone override relies on a fallback chain");

    do_validate(
        r#"
                [handler.baz]
                argv = [ "baz" ]
            "#,
    )
    .expect("The parser should assume a lone handler is referenced outside its sight");
}

#[test]
fn test_rejects_empty_filetype_id() {
    assert!(!reads(r#"[filetype.""]"#), "Empty table names should be rejected");
}

#[test]
fn test_rejects_empty_handler_id() {
    assert!(!reads(r#"[handler.""]"#), "Empty table names should be rejected");
}

/// Ensure the `argv[0]` subsitution rejection doesn't break
#[test]
fn test_rejects_substition_in_argv0() {
    assert_validation_result(
        r#"
                [handler.foobar]
                argv = [ "{foobar}" ]
            "#,
        "handler",
    );
    assert_validation_result(
        r#"
                [handler.foobar]
                argv = [ "foo{bar}" ]
            "#,
        "handler",
    );
    assert_validation_result(
        r#"
                [handler.foobar]
                argv = [ "foo{bar}baz" ]
            "#,
        "handler",
    );
}

/// Make sure the validation catches 'container' cycles
#[test]
fn test_rejects_container_cycle() {
    assert_validation_result(
        r#"
            [filetype.foo]
            description = "Foo"
            extension = "foo"
            container = "bar"

            [filetype.bar]
            description = "Bar"
            extension = "bar"
            container = "baz"

            [filetype.baz]
            description = "Baz"
            extension = "baz"
            container = "foo"
        "#,
        "__all__",
    );
}

/// Make sure the validation catches unknown 'container' values
#[test]
fn test_rejects_unknown_container() {
    assert_validation_result(
        r#"
            [filetype.foo]
            description = "Foo"
            extension = "foo"
            container = "bar"
        "#,
        "__all__",
    );
}

/// The violations reported for one record of a section.
fn record_fields<'a>(
    errors: &'a ValidationErrors,
    section: &str,
    record: usize,
) -> &'a Vec<verify_files::config::FieldErrors> {
    match errors.get(section) {
        Some(verify_files::config::ValidationErrorsKind::Records(records)) => {
            &records[record].fields
        }
        _ => panic!("no records under {}", section),
    }
}

/// The violations reported for the document as a whole.
fn document_errors(errors: &ValidationErrors) -> &Vec<verify_files::config::ValidationError> {
    match errors.get("__all__") {
        Some(verify_files::config::ValidationErrorsKind::Field(list)) => list,
        _ => panic!("nothing under __all__"),
    }
}

#[test]
fn cycle_is_reported_with_the_exact_chain() {
    let errors = do_validate(
        r#"
            [filetype.foo]
            description = "Foo"
            extension = "foo"
            container = "bar"

            [filetype.bar]
            description = "Bar"
            extension = "bar"
            container = "baz"

            [filetype.baz]
            description = "Baz"
            extension = "baz"
            container = "foo"
        "#,
    )
    .unwrap_err();
    let list = document_errors(&errors);
    assert_eq!(list.len(), 3);
    for e in list {
        assert_eq!(e.code, "container_cycle");
    }
    assert_eq!(
        list[0].message.as_deref(),
        Some("Cyclical 'container' dependency: bar -> baz -> foo -> bar")
    );
    assert_eq!(
        list[1].message.as_deref(),
        Some("Cyclical 'container' dependency: baz -> foo -> bar -> baz")
    );
    assert_eq!(
        list[2].message.as_deref(),
        Some("Cyclical 'container' dependency: foo -> bar -> baz -> foo")
    );
    let document = parse_document(
        r#"
            [filetype.a]
            description = "A"
            extension = "a"
            container = "a"
        "#,
    )
    .unwrap();
    let root = decode(&document).unwrap();
    let all = verify_files::config::validate_root(&root).unwrap_err();
    assert_eq!(all.len(), 1);
    assert_eq!(all[0].code, "container_cycle");
    assert_eq!(all[0].message.as_deref(), Some("Cyclical 'container' dependency: a -> a"));
}

#[test]
fn every_violation_of_the_container_rule_is_reported() {
    let document = parse_document(
        r#"
            [filetype.a]
            description = "A"
            extension = "a"
            container = "a"

            [filetype.b]
            description = "B"
            extension = "b"
            container = "zzz"

            [filetype.c]
            description = "C"
            extension = "c"
            handler = "x"
        "#,
    )
    .unwrap();
    let root = decode(&document).unwrap();
    let all = verify_files::config::validate_root(&root).unwrap_err();
    let seen: Vec<(&str, Option<&str>)> =
        all.iter().map(|e| (e.code.as_str(), e.message.as_deref())).collect();
    assert_eq!(
        seen,
        vec![
            ("container_cycle", Some("Cyclical 'container' dependency: a -> a")),
            ("container_not_found", Some("'container' for b not found: zzz")),
        ]
    );
    assert_eq!(document_errors(&root.validate().unwrap_err()), &all);

    let fine = decode(&parse_document("[filetype.c]\ndescription = \"C\"\n").unwrap()).unwrap();
    assert_eq!(verify_files::config::validate_root(&fine), Ok(()));
    let chain = decode(
        &parse_document(
            "[filetype.c]\ndescription = \"C\"\ncontainer = \"d\"\n[filetype.d]\ndescription = \"D\"\n",
        )
        .unwrap(),
    )
    .unwrap();
    assert_eq!(verify_files::config::validate_root(&chain), Ok(()));
}

#[test]
fn walk_into_a_cycle_is_reported_from_its_start() {
    let errors = do_validate(
        r#"
            [filetype.a]
            description = "A"
            extension = "a"
            container = "b"

            [filetype.b]
            description = "B"
            extension = "b"
            container = "c"

            [filetype.c]
            description = "C"
            extension = "c"
            container = "b"
        "#,
    )
    .unwrap_err();
    let list = document_errors(&errors);
    assert_eq!(
        list[0].message.as_deref(),
        Some("Cyclical 'container' dependency: a -> b -> c -> b")
    );
}

#[test]
fn unknown_container_is_reported_with_both_ids() {
    let errors = do_validate(
        r#"
            [filetype.foo]
            description = "Foo"
            extension = "foo"
            container = "bar"
        "#,
    )
    .unwrap_err();
    let list = document_errors(&errors);
    assert_eq!(list.len(), 1);
    assert_eq!(list[0].code, "container_not_found");
    assert_eq!(list[0].message.as_deref(), Some("'container' for foo not found: bar"));
}

#[test]
fn argv0_subst_is_the_code_of_a_marker_in_the_command_name() {
    for argv0 in ["{x}", "foo{bar}", "foo{bar}baz"] {
        let text = format!(
            "[handler.h]\nargv = [\"{}\", \"{{path}}\"]\ndescription = \"d\"\nsources = \"https://example.com/\"\n",
            argv0
        );
        let errors = do_validate(&text).unwrap_err();
        let fields = record_fields(&errors, "handler", 0);
        assert_eq!(fields.len(), 1);
        assert_eq!(fields[0].field, "argv");
        assert_eq!(fields[0].errors.len(), 1);
        assert_eq!(fields[0].errors[0].code, "argv0_subst");
        assert_eq!(
            fields[0].errors[0].message,
            Some(format!("argv[0] cannot contain substitution tokens: {}", argv0))
        );
    }
    do_validate("[handler.h]\nargv = [\"foo\", \"{path}\"]\n")
        .expect("a marker after the command name is in order");
}

#[test]
fn sources_must_be_web_addresses() {
    let errors = do_validate(
        r#"
            [handler.foo]
            argv = ["foo"]
            sources = ["ftp://example.com/"]
        "#,
    )
    .unwrap_err();
    let fields = record_fields(&errors, "handler", 0);
    assert_eq!(fields[0].field, "sources");
    assert_eq!(fields[0].errors[0].code, "invalid_url");
    assert_eq!(
        fields[0].errors[0].message.as_deref(),
        Some("Only HTTP and HTTPS URLs are supported as sources")
    );
    do_validate(
        r#"
            [handler.foo]
            argv = ["foo"]
            sources = ["http://example.com/", "https://example.com/"]
        "#,
    )
    .expect("http and https are in order");
    let errors = do_validate("[handler.foo]\nargv = [\"foo\"]\nsources = []\n").unwrap_err();
    let fields = record_fields(&errors, "handler", 0);
    assert_eq!(fields[0].errors[0].code, "empty_handler");
    assert_eq!(
        fields[0].errors[0].message.as_deref(),
        Some("Source list must be absent or contain non-empty strings")
    );
}

#[test]
fn override_without_effect_is_rejected() {
    let errors = do_validate("[[override]]\npath = \"quux\"\n").unwrap_err();
    let fields = record_fields(&errors, "override", 0);
    assert_eq!(fields.len(), 1);
    assert_eq!(fields[0].field, "__all__");
    assert_eq!(fields[0].errors[0].code, "noop_override");
    assert_eq!(fields[0].errors[0].message.as_deref(), Some("Override has no effect: quux"));
    do_validate("[[override]]\npath = \"quux\"\nignore = true\n")
        .expect("ignoring is an effect");
    do_validate("[[override]]\npath = \"quux\"\nhandler = \"zip\"\n")
        .expect("a handler is an effect");
    let errors = do_validate("[[override]]\npath = \"quux\"\nhandler = []\n").unwrap_err();
    let fields = record_fields(&errors, "override", 0);
    assert_eq!(fields[0].field, "handler");
    assert_eq!(fields[0].errors[0].code, "empty_handler");
}

#[test]
fn scalar_and_list_of_one_are_the_same() {
    let short = parse_document(
        "[filetype.foo]\ndescription = \"Foo\"\nextension = \"foo\"\nhandler = \"zip\"\nheader = [80, 75]\n",
    )
    .unwrap();
    let long = parse_document(
        "[filetype.foo]\ndescription = \"Foo\"\nextension = [\"foo\"]\nhandler = [\"zip\"]\nheader = [[80, 75]]\n",
    )
    .unwrap();
    let a = decode(&short).unwrap();
    let b = decode(&long).unwrap();
    assert_eq!(a.validate(), Ok(()));
    assert_eq!(b.validate(), Ok(()));
    assert_eq!(
        verify_files::resolver::resolve_handler_chain(&a, "foo"),
        Some(vec!["zip".to_string()])
    );
    assert_eq!(
        verify_files::resolver::resolve_handler_chain(&b, "foo"),
        Some(vec!["zip".to_string()])
    );
    let facts = verify_files::resolver::PathFacts {
        path: "x.foo".to_string(),
        extension: Some("foo".to_string()),
        header: vec![],
        is_directory: false,
    };
    assert_eq!(verify_files::resolver::detect(&a, &facts), Some(0));
    assert_eq!(verify_files::resolver::detect(&b, &facts), Some(0));
    let by_header = verify_files::resolver::PathFacts {
        path: "x".to_string(),
        extension: None,
        header: vec![80, 75, 3, 4],
        is_directory: false,
    };
    assert_eq!(verify_files::resolver::detect(&a, &by_header), Some(0));
    assert_eq!(verify_files::resolver::detect(&b, &by_header), Some(0));

    // the same mistake is the same violation in both shapes
    let short = do_validate("[filetype.foo]\ndescription = \"Foo\"\nextension = \".foo\"\nhandler = \"zip\"\n")
        .unwrap_err();
    let long = do_validate("[filetype.foo]\ndescription = \"Foo\"\nextension = [\".foo\"]\nhandler = \"zip\"\n")
        .unwrap_err();
    assert_eq!(short, long);
    let fields = record_fields(&short, "filetype", 0);
    assert_eq!(fields[0].errors[0].code, "no_period_ext");
    assert_eq!(
        fields[0].errors[0].message.as_deref(),
        Some("Extensions must not start with a period: .foo")
    );
}

#[test]
fn empty_text_is_an_empty_valid_configuration() {
    let (root, notes) =
        verify_files::config::parse("", &verify_files::builtin_handlers::all_ids()).unwrap();
    assert!(root.filetypes.is_empty());
    assert!(root.overrides.is_empty());
    assert!(root.handlers.is_empty());
    assert!(notes.is_empty());
}

#[test]
fn every_field_rule_has_its_code() {
    let errors = do_validate(
        r#"
            [filetype.foo]
            container = ""
            description = ""
            extension = [".a", "b", ".c"]
            handler = [""]
            header = []
        "#,
    )
    .unwrap_err();
    let fields = record_fields(&errors, "filetype", 0);
    let seen: Vec<(&str, &str, Option<&str>)> = fields
        .iter()
        .map(|f| (f.field.as_str(), f.errors[0].code.as_str(), f.errors[0].message.as_deref()))
        .collect();
    assert_eq!(
        seen,
        vec![
            ("container", "length", Some("'container' must not be an empty string if present")),
            ("description", "length", Some("'description' must not be an empty string")),
            ("extension", "no_period_ext", Some("Extensions must not start with a period: .a, .c")),
            ("handler", "empty_handler", Some("Handler names must not be empty sequences")),
            ("header", "empty_header", Some("Header patterns must not be empty sequences")),
        ]
    );
    let errors = do_validate("[filetype.foo]\ndescription = \"Foo\"\nextension = [\"\"]\nhandler = \"x\"\n")
        .unwrap_err();
    let fields = record_fields(&errors, "filetype", 0);
    assert_eq!(fields[0].errors[0].code, "empty_ext");
    assert_eq!(fields[0].errors[0].message.as_deref(), Some("Extensions may not be empty strings"));

    let errors = do_validate(
        r#"
            [handler.h]
            argv = ["x"]
            description = ""
            fail_if_stderr = ""
        "#,
    )
    .unwrap_err();
    let fields = record_fields(&errors, "handler", 0);
    let seen: Vec<(&str, Option<&str>)> =
        fields.iter().map(|f| (f.field.as_str(), f.errors[0].message.as_deref())).collect();
    assert_eq!(
        seen,
        vec![
            ("description", Some("If provided, 'description' must not be empty")),
            ("fail_if_stderr", Some("If provided, 'fail_if_stderr' must not be empty")),
        ]
    );

    let errors = do_validate("[[override]]\npath = \"p\"\nignore = true\nmessage = \"\"\n").unwrap_err();
    let fields = record_fields(&errors, "override", 0);
    assert_eq!(fields[0].field, "message");
    assert_eq!(
        fields[0].errors[0].message.as_deref(),
        Some("If provided, 'message' must not be empty")
    );
}

#[test]
fn record_rules_have_their_codes() {
    let errors =
        do_validate("[filetype.foo]\ndescription = \"Foo\"\nhandler = \"x\"\n").unwrap_err();
    let fields = record_fields(&errors, "filetype", 0);
    assert_eq!(fields[0].field, "__all__");
    assert_eq!(fields[0].errors[0].code, "no_autodetect");
    assert_eq!(
        fields[0].errors[0].message.as_deref(),
        Some("Neither extension nor header set for filetype: Foo")
    );
    let errors =
        do_validate("[filetype.foo]\ndescription = \"Foo\"\nextension = \"x\"\n").unwrap_err();
    let fields = record_fields(&errors, "filetype", 0);
    assert_eq!(fields[0].errors[0].code, "no_handler");
    assert_eq!(
        fields[0].errors[0].message.as_deref(),
        Some("Neither handler nor container set for filetype: Foo")
    );
}

#[test]
fn all_failing_records_are_reported() {
    let errors = do_validate(
        r#"
            [filetype.a]
            description = ""
            extension = "a"
            handler = "x"

            [filetype.b]
            description = "fine"
            extension = "b"
            handler = "x"

            [filetype.c]
            description = ""
            extension = "c"
            handler = "x"

            [[override]]
            path = "fine"
            ignore = true

            [[override]]
            path = ""
            ignore = true
        "#,
    )
    .unwrap_err();
    match errors.get("filetype") {
        Some(verify_files::config::ValidationErrorsKind::Records(records)) => {
            assert_eq!(records.len(), 2);
            assert_eq!(records[0].key, verify_files::config::RecordKey::Id("a".to_string()));
            assert_eq!(records[1].key, verify_files::config::RecordKey::Id("c".to_string()));
        }
        _ => panic!("no filetype section"),
    }
    match errors.get("override") {
        Some(verify_files::config::ValidationErrorsKind::Records(records)) => {
            assert_eq!(records.len(), 1);
            assert_eq!(records[0].key, verify_files::config::RecordKey::Index(1));
        }
        _ => panic!("no override section"),
    }
    assert!(errors.get("handler").is_none());
    assert!(errors.get("__all__").is_none());
    assert!(!errors.is_empty());
}

#[test]
fn report_is_rendered_line_by_line() {
    let errors = do_validate(
        r#"
            [filetype.a]
            description = "A"
            extension = "a"
            container = "a"

            [[override]]
            path = ""

            [handler.foo]
            argv = []
        "#,
    )
    .unwrap_err();
    assert_eq!(
        verify_files::config::format_validation_errors(&errors),
        "Errors found in the configuration file:\n\
         \x20 override entry   0,       path field: Globbing pattern must not be empty\n\
         \x20 handler entry foo,       argv field: 'argv' must not be empty\n\
         \x20 __all__ entry: Cyclical 'container' dependency: a -> a\n"
    );
    let no_message = ValidationErrors {
        sections: vec![(
            "s".to_string(),
            verify_files::config::ValidationErrorsKind::Records(vec![
                verify_files::config::RecordErrors {
                    key: verify_files::config::RecordKey::Index(1234),
                    fields: vec![verify_files::config::FieldErrors {
                        field: "a_rather_long_field".to_string(),
                        errors: vec![verify_files::config::ValidationError {
                            code: "the_code".to_string(),
                            message: None,
                        }],
                    }],
                },
            ]),
        )],
    };
    assert_eq!(
        verify_files::config::format_validation_errors(&no_message),
        "Errors found in the configuration file:\n  s entry 1234, a_rather_long_field field: the_code\n"
    );
}

#[test]
fn documents_that_do_not_fit_the_schema() {
    let flaw = |text: &str| decode(&parse_document(text).unwrap()).unwrap_err();
    assert_eq!(
        flaw("[filetype.foo]\nextension = \"x\"\n"),
        SchemaError {
            section: "filetype".to_string(),
            record: Some(RecordKey::Id("foo".to_string())),
            field: Some("description".to_string()),
            problem: Problem::Missing,
        }
    );
    assert_eq!(
        flaw("[handler.h]\nargv = \"x\"\n"),
        SchemaError {
            section: "handler".to_string(),
            record: Some(RecordKey::Id("h".to_string())),
            field: Some("argv".to_string()),
            problem: Problem::Mismatch,
        }
    );
    assert_eq!(
        flaw("[[override]]\npath = \"a\"\nignore = true\n[[override]]\npath = \"b\"\nignore = 1\n"),
        SchemaError {
            section: "override".to_string(),
            record: Some(RecordKey::Index(1)),
            field: Some("ignore".to_string()),
            problem: Problem::Mismatch,
        }
    );
    assert_eq!(
        flaw("filetype = 3\n"),
        SchemaError {
            section: "filetype".to_string(),
            record: None,
            field: None,
            problem: Problem::Mismatch,
        }
    );
    assert_eq!(
        flaw("[filetype]\nfoo = 3\n"),
        SchemaError {
            section: "filetype".to_string(),
            record: Some(RecordKey::Id("foo".to_string())),
            field: None,
            problem: Problem::Mismatch,
        }
    );
    assert_eq!(
        flaw("[filetype.foo]\ndescription = \"d\"\nheader = [256]\n").problem,
        Problem::Mismatch
    );
    assert_eq!(
        flaw("[filetype.foo]\ndescription = \"d\"\nheader_offset = -1\n").field.as_deref(),
        Some("header_offset")
    );
    // a table with an id twice, which no text gives, is refused too
    let record = || {
        Node::Table(vec![("argv".to_string(), Node::Array(vec![Node::String("x".to_string())]))])
    };
    let twice = Node::Table(vec![(
        "handler".to_string(),
        Node::Table(vec![("h".to_string(), record()), ("h".to_string(), record())]),
    )]);
    assert_eq!(
        decode(&twice).unwrap_err(),
        SchemaError {
            section: "handler".to_string(),
            record: Some(RecordKey::Id("h".to_string())),
            field: None,
            problem: Problem::Duplicate,
        }
    );
    assert_eq!(decode(&Node::Integer(1)).unwrap_err().section, "");
    // keys that the schema does not know are passed over
    assert!(reads("title = \"x\"\n[filetype.foo]\ndescription = \"d\"\nunknown = 1\n"));
}

#[test]
fn document_is_read_as_a_tree() {
    let tree = parse_document("b = [1, \"x\", true]\na = { k = 2 }\n").unwrap();
    assert_eq!(
        tree,
        Node::Table(vec![
            ("a".to_string(), Node::Table(vec![("k".to_string(), Node::Integer(2))])),
            (
                "b".to_string(),
                Node::Array(vec![
                    Node::Integer(1),
                    Node::String("x".to_string()),
                    Node::Boolean(true)
                ])
            ),
        ])
    );
    assert!(parse_document("a = ").is_err());
    assert!(matches!(
        parse_document("d = 1979-05-27\n").unwrap(),
        Node::Table(entries) if matches!(&entries[0].1, Node::Datetime(text) if text == "1979-05-27")
    ));
}

#[test]
fn parse_tells_the_three_failures_apart() {
    let builtins = verify_files::builtin_handlers::all_ids();
    assert!(matches!(parse("a = ", &builtins), Err(ConfigError::Syntax(_))));
    assert!(matches!(parse("[filetype.x]\n", &builtins), Err(ConfigError::Schema(_))));
    match parse("[[override]]\npath = \"quux\"\n", &builtins) {
        Err(ConfigError::Invalid(report)) => assert!(report.get("override").is_some()),
        other => panic!("unexpected: {:?}", other),
    }
}

#[test]
fn advice_never_fails_the_parse() {
    let builtins = verify_files::builtin_handlers::all_ids();
    let (root, notes) = parse(
        r#"
            [filetype.a]
            description = "A"
            extension = "a"
            handler = ["zip", "sevenzip", "nope"]

            [[override]]
            path = "*"
            handler = ["gzip", "typo"]

            [[override]]
            path = "*.*"
            ignore = true

            [handler.sevenzip]
            argv = ["7z", "t"]
        "#,
        &builtins,
    )
    .unwrap();
    assert_eq!(root.filetypes.len(), 1);
    assert_eq!(
        notes,
        vec![
            Warning::UnknownFiletypeHandler {
                filetype: "a".to_string(),
                handler: "nope".to_string()
            },
            Warning::UnknownOverrideHandler { path: "*".to_string(), handler: "typo".to_string() },
            Warning::BroadOverride { path: "*".to_string() },
            Warning::BroadOverride { path: "*.*".to_string() },
        ]
    );
    // advice on a configuration that was put together by hand
    let by_hand = Root {
        filetypes: vec![(
            "a".to_string(),
            verify_files::config::Filetype {
                container: Some("gone".to_string()),
                description: "A".to_string(),
                extension: None,
                handler: None,
                header: None,
                header_offset: 0,
                multipage: false,
            },
        )],
        overrides: vec![],
        handlers: vec![],
    };
    assert_eq!(
        verify_files::config::warnings(&by_hand, &vec![]),
        vec![Warning::UnknownContainer {
            filetype: "a".to_string(),
            container: "gone".to_string()
        }]
    );
}

#[test]
fn field_rules_on_their_own() {
    assert!(validate_argv(&vec![]).is_ok());
    assert!(validate_argv(&vec!["a".to_string(), "{path}".to_string()]).is_ok());
    assert_eq!(validate_argv(&vec!["{".to_string()]).unwrap_err().code, "argv0_subst");
    assert!(validate_exts(&OneOrList::One("zip".to_string())).is_ok());
    assert_eq!(validate_exts(&OneOrList::List(vec![])).unwrap_err().code, "empty_ext");
    assert_eq!(validate_exts(&OneOrList::One(".z".to_string())).unwrap_err().code, "no_period_ext");
    assert!(validate_exts(&OneOrList::One("a.b".to_string())).is_ok());
    assert!(validate_handlers(&OneOrList::List(vec!["a".to_string(), "b".to_string()])).is_ok());
    assert_eq!(
        validate_handlers(&OneOrList::One(String::new())).unwrap_err().code,
        "empty_handler"
    );
    assert!(validate_headers(&OneOrList::One(vec![1])).is_ok());
    assert_eq!(
        validate_headers(&OneOrList::List(vec![vec![1], vec![]])).unwrap_err().code,
        "empty_header"
    );
    assert!(validate_sources(&OneOrList::One("https://x".to_string())).is_ok());
    assert_eq!(
        validate_sources(&OneOrList::One("HTTP://x".to_string())).unwrap_err().code,
        "invalid_url"
    );
    assert_eq!(
        validate_sources(&OneOrList::One("http:/x".to_string())).unwrap_err().code,
        "invalid_url"
    );
    let filetype = verify_files::config::Filetype {
        container: None,
        description: "d".to_string(),
        extension: None,
        handler: Some(OneOrList::One("h".to_string())),
        header: Some(OneOrList::One(vec![1])),
        header_offset: 0,
        multipage: false,
    };
    assert!(validate_filetype(&filetype).is_ok());
    let rule = verify_files::config::Override {
        path: "p".to_string(),
        handler: Some(OneOrList::List(vec![])),
        ignore: false,
        message: None,
    };
    assert_eq!(validate_override(&rule).unwrap_err().code, "noop_override");
    let list = OneOrList::List(vec![1, 2, 3]);
    assert_eq!(list.len(), 3);
    assert_eq!(*list.get(2), 3);
    assert!(!list.is_empty());
    assert_eq!(OneOrList::One(7).len(), 1);
    assert_eq!(*OneOrList::One(7).get(0), 7);
    assert!(OneOrList::<u8>::List(vec![]).is_empty());
}

#[test]
fn a_configuration_for_common_formats() {
    let text = r#"
[filetype.gzip]
description = "GZip-compressed data"
extension = ["gz", "tgz", "svgz"]
header = [31, 139]
handler = "gzip"

[filetype.zip]
description = "Zip archive"
extension = "zip"
header = [[80, 75, 3, 4], [80, 75, 5, 6]]
handler = "zip"

[filetype.cbz]
description = "Comic book archive (Zip)"
container = "zip"
extension = "cbz"

[filetype.epub]
description = "EPUB e-book"
container = "zip"
extension = "epub"

[filetype.jar]
description = "Java archive"
container = "zip"
extension = "jar"

[filetype.image]
description = "Raster image"
extension = ["bmp", "gif", "ico", "jpg", "jpeg", "png", "pbm", "pgm", "ppm", "tga", "tif", "tiff"]
handler = "image"

[filetype.json]
description = "JSON document"
extension = "json"
handler = "json"

[filetype.toml]
description = "TOML data"
extension = "toml"
handler = "toml"
"#;
    let builtins = verify_files::builtin_handlers::all_ids();
    let (root, notes) = parse(text, &builtins).unwrap();
    assert_eq!(notes, vec![]);
    let ids: Vec<&str> = root.filetypes.iter().map(|(id, _)| id.as_str()).collect();
    assert_eq!(ids, vec!["cbz", "epub", "gzip", "image", "jar", "json", "toml", "zip"]);
    for id in ids {
        let chain = verify_files::resolver::resolve_handler_chain(&root, id).unwrap();
        assert_eq!(chain.len(), 1);
        assert!(builtins.contains(&chain[0]));
    }
    assert_eq!(verify_files::resolver::header_reach(&root), 4);
}
