use verify_files::config::{Filetype, Handler, OneOrList, Override, Root};
use verify_files::resolver::{
    detect, first_match, header_reach, resolve, resolve_handler_chain, resolve_with,
    OverrideTable, PathFacts, ResolvedChain,
};

fn filetype(
    container: Option<&str>,
    extension: Option<&str>,
    header: Option<Vec<u8>>,
    handler: Option<&[&str]>,
) -> Filetype {
    Filetype {
        container: container.map(|s| s.to_string()),
        description: "d".to_string(),
        extension: extension.map(|s| OneOrList::One(s.to_string())),
        handler: handler.map(|list| OneOrList::List(list.iter().map(|s| s.to_string()).collect())),
        header: header.map(OneOrList::One),
        header_offset: 0,
        multipage: false,
    }
}

fn rule(path: &str, ignore: bool, handler: Option<&str>) -> Override {
    Override {
        path: path.to_string(),
        handler: handler.map(|s| OneOrList::One(s.to_string())),
        ignore,
        message: None,
    }
}

fn file(path: &str, extension: Option<&str>, header: &[u8]) -> PathFacts {
    PathFacts {
        path: path.to_string(),
        extension: extension.map(|s| s.to_string()),
        header: header.to_vec(),
        is_directory: false,
    }
}

fn archive_types() -> Root {
    Root {
        filetypes: vec![
            ("cbz".to_string(), filetype(Some("zip"), Some("cbz"), None, None)),
            ("epub".to_string(), filetype(Some("zip"), Some("epub"), None, Some(&["epubcheck"]))),
            ("odt".to_string(), filetype(Some("ooxml"), Some("odt"), None, None)),
            ("ooxml".to_string(), filetype(Some("zip"), None, Some(vec![80, 75]), None)),
            (
                "zip".to_string(),
                filetype(None, Some("zip"), Some(vec![80, 75, 3, 4]), Some(&["zip", "sevenzip"])),
            ),
        ],
        overrides: vec![],
        handlers: vec![(
            "sevenzip".to_string(),
            Handler {
                argv: vec!["7z".to_string()],
                description: None,
                fail_if_stderr: None,
                sources: None,
            },
        )],
    }
}

fn chain(items: &[&str]) -> Option<Vec<String>> {
    Some(items.iter().map(|s| s.to_string()).collect())
}

#[test]
fn handlers_come_from_the_filetype_or_its_containers() {
    let root = archive_types();
    assert_eq!(root.validate(), Ok(()));
    assert_eq!(resolve_handler_chain(&root, "zip"), chain(&["zip", "sevenzip"]));
    assert_eq!(resolve_handler_chain(&root, "cbz"), chain(&["zip", "sevenzip"]));
    assert_eq!(resolve_handler_chain(&root, "odt"), chain(&["zip", "sevenzip"]));
    assert_eq!(resolve_handler_chain(&root, "epub"), chain(&["epubcheck"]));
    assert_eq!(resolve_handler_chain(&root, "rar"), None);
    assert_eq!(resolve_handler_chain(&root, ""), None);
}

#[test]
fn every_filetype_of_a_valid_configuration_resolves() {
    let root = archive_types();
    assert_eq!(root.validate(), Ok(()));
    for (id, _) in &root.filetypes {
        let found = resolve_handler_chain(&root, id).expect("a chain");
        assert!(!found.is_empty());
    }
}

#[test]
fn search_gives_up_on_what_validation_rejects() {
    let cycle = Root {
        filetypes: vec![
            ("a".to_string(), filetype(Some("b"), Some("a"), None, None)),
            ("b".to_string(), filetype(Some("a"), Some("b"), None, None)),
        ],
        overrides: vec![],
        handlers: vec![],
    };
    assert!(cycle.validate().is_err());
    assert_eq!(resolve_handler_chain(&cycle, "a"), None);
    let lost = Root {
        filetypes: vec![("a".to_string(), filetype(Some("gone"), Some("a"), None, None))],
        overrides: vec![],
        handlers: vec![],
    };
    assert_eq!(resolve_handler_chain(&lost, "a"), None);
    let bare = Root {
        filetypes: vec![("a".to_string(), filetype(None, Some("a"), None, Some(&[])))],
        overrides: vec![],
        handlers: vec![],
    };
    assert_eq!(resolve_handler_chain(&bare, "a"), None);
}

#[test]
fn detection_by_extension_and_header() {
    let root = archive_types();
    assert_eq!(detect(&root, &file("a.cbz", Some("cbz"), b"")), Some(0));
    assert_eq!(detect(&root, &file("a.zip", Some("zip"), b"")), Some(4));
    assert_eq!(detect(&root, &file("a.ZIP", Some("ZIP"), b"")), None);
    assert_eq!(detect(&root, &file("a", None, b"")), None);
    assert_eq!(detect(&root, &file("a.txt", Some("txt"), b"hello")), None);
    // the header alone: `ooxml` and `zip` match, and `zip` is the container of `ooxml`
    assert_eq!(detect(&root, &file("a", None, &[80, 75, 3, 4, 0])), Some(3));
    assert_eq!(detect(&root, &file("a", None, &[80, 75])), Some(3));
    assert_eq!(detect(&root, &file("a", None, &[80])), None);
    // extension `cbz` and the header: `cbz`, `ooxml` and `zip` match; the first that
    // is no container of another match is taken
    assert_eq!(detect(&root, &file("a.cbz", Some("cbz"), &[80, 75, 3, 4])), Some(0));
    // `odt` is a specialization of `ooxml`
    assert_eq!(detect(&root, &file("a.odt", Some("odt"), &[80, 75, 3, 4])), Some(2));
}

#[test]
fn header_is_compared_at_its_offset() {
    let mut tar = filetype(None, None, Some(b"ustar".to_vec()), Some(&["tar"]));
    tar.header_offset = 3;
    let root =
        Root { filetypes: vec![("tar".to_string(), tar)], overrides: vec![], handlers: vec![] };
    assert_eq!(detect(&root, &file("a", None, b"...ustar..")), Some(0));
    assert_eq!(detect(&root, &file("a", None, b"...ustar")), Some(0));
    assert_eq!(detect(&root, &file("a", None, b"ustar")), None);
    assert_eq!(detect(&root, &file("a", None, b"...usta")), None);
    assert_eq!(detect(&root, &file("a", None, b"")), None);
    let mut far = filetype(None, None, Some(vec![1]), Some(&["x"]));
    far.header_offset = usize::MAX;
    let root =
        Root { filetypes: vec![("far".to_string(), far)], overrides: vec![], handlers: vec![] };
    assert_eq!(detect(&root, &file("a", None, &[1, 1, 1])), None);
}

#[test]
fn first_matching_override_decides() {
    let mut root = archive_types();
    root.overrides = vec![
        rule("*.bak", true, None),
        rule("special.zip", false, Some("sevenzip")),
        rule("*.zip", true, None),
    ];
    let facts = file("special.zip", Some("zip"), &[80, 75, 3, 4]);
    assert_eq!(first_match(&root, &vec![false, true, true]), Some(1));
    assert_eq!(first_match(&root, &vec![false, false, false]), None);
    assert_eq!(first_match(&root, &vec![]), None);
    assert_eq!(first_match(&root, &vec![false, false, false, true]), None);
    assert_eq!(
        resolve_with(&root, &vec![false, true, true], &facts),
        ResolvedChain::Handlers(vec!["sevenzip".to_string()])
    );
    assert_eq!(resolve_with(&root, &vec![false, false, true], &facts), ResolvedChain::Skip);
    assert_eq!(resolve_with(&root, &vec![true, true, true], &facts), ResolvedChain::Skip);
    assert_eq!(
        resolve_with(&root, &vec![false, false, false], &facts),
        ResolvedChain::Handlers(vec!["zip".to_string(), "sevenzip".to_string()])
    );
    assert_eq!(
        resolve_with(&root, &vec![false, false, false], &file("a.txt", Some("txt"), b"text")),
        ResolvedChain::Unrecognized
    );
}

#[test]
fn override_without_effect_leaves_it_to_detection() {
    let mut root = archive_types();
    root.overrides = vec![rule("*", false, None), rule("*", true, None)];
    let facts = file("a.zip", Some("zip"), b"");
    assert_eq!(
        resolve_with(&root, &vec![true, true], &facts),
        ResolvedChain::Handlers(vec!["zip".to_string(), "sevenzip".to_string()])
    );
}

#[test]
fn directory_is_never_handed_to_a_handler() {
    let mut root = archive_types();
    root.overrides = vec![rule("forced", false, Some("zip")), rule("skipped", true, None)];
    let directory = |path: &str| PathFacts {
        path: path.to_string(),
        extension: Some("zip".to_string()),
        header: vec![],
        is_directory: true,
    };
    assert_eq!(
        resolve_with(&root, &vec![true, false], &directory("forced")),
        ResolvedChain::Unrecognized
    );
    assert_eq!(resolve_with(&root, &vec![false, true], &directory("skipped")), ResolvedChain::Skip);
    assert_eq!(
        resolve_with(&root, &vec![false, false], &directory("a.zip")),
        ResolvedChain::Unrecognized
    );
}

#[test]
fn globs_are_matched_against_the_path() {
    let root = Root {
        filetypes: vec![],
        overrides: vec![
            rule("*.bak", true, None),
            rule("quux", true, None),
            rule("build/", true, None),
            rule("/top", true, None),
            rule("a/b", true, None),
            rule("", true, None),
        ],
        handlers: vec![],
    };
    let table = OverrideTable::new(&root);
    let hits = |path: &str, is_directory: bool| {
        table.hits(&PathFacts {
            path: path.to_string(),
            extension: None,
            header: vec![],
            is_directory,
        })
    };
    assert_eq!(hits("foo/bar.bak", false), vec![true, false, false, false, false, false]);
    assert_eq!(hits("quux", false), vec![false, true, false, false, false, false]);
    assert_eq!(hits("a/quux", false), vec![false, true, false, false, false, false]);
    assert_eq!(hits("build", true), vec![false, false, true, false, false, false]);
    assert_eq!(hits("build", false), vec![false, false, false, false, false, false]);
    assert_eq!(hits("top", false), vec![false, false, false, true, false, false]);
    assert_eq!(hits("x/top", false), vec![false, false, false, false, false, false]);
    assert_eq!(hits("a/b", false), vec![false, false, false, false, true, false]);
    assert_eq!(hits("x", false), vec![false, false, false, false, false, false]);
}

#[test]
fn resolve_matches_the_globs_itself() {
    let mut root = archive_types();
    root.overrides = vec![rule("*.tmp", true, None), rule("legacy/*.zip", false, Some("sevenzip"))];
    let table = OverrideTable::new(&root);
    assert_eq!(resolve(&root, &table, &file("x/y.tmp", Some("tmp"), b"")), ResolvedChain::Skip);
    assert_eq!(
        resolve(&root, &table, &file("legacy/a.zip", Some("zip"), b"")),
        ResolvedChain::Handlers(vec!["sevenzip".to_string()])
    );
    assert_eq!(
        resolve(&root, &table, &file("other/a.zip", Some("zip"), b"")),
        ResolvedChain::Handlers(vec!["zip".to_string(), "sevenzip".to_string()])
    );
    assert_eq!(
        resolve(&root, &table, &file("a.txt", Some("txt"), b"")),
        ResolvedChain::Unrecognized
    );
    // a table without globs leaves everything to detection
    let none = OverrideTable::new(&archive_types());
    assert_eq!(
        resolve(&root, &none, &file("x/y.zip", Some("zip"), b"")),
        ResolvedChain::Handlers(vec!["zip".to_string(), "sevenzip".to_string()])
    );
}

#[test]
fn detection_looks_at_a_bounded_prefix() {
    assert_eq!(header_reach(&archive_types()), 4);
    let mut tar = filetype(None, None, Some(b"ustar".to_vec()), Some(&["tar"]));
    tar.header_offset = 257;
    let mut two = filetype(None, None, None, Some(&["x"]));
    two.header = Some(OneOrList::List(vec![vec![1], vec![1, 2, 3], vec![1, 2]]));
    two.header_offset = 10;
    let root = Root {
        filetypes: vec![("tar".to_string(), tar), ("two".to_string(), two)],
        overrides: vec![],
        handlers: vec![],
    };
    assert_eq!(header_reach(&root), 262);
    let mut far = filetype(None, None, Some(vec![1, 2]), Some(&["x"]));
    far.header_offset = usize::MAX - 1;
    let root =
        Root { filetypes: vec![("far".to_string(), far)], overrides: vec![], handlers: vec![] };
    assert_eq!(header_reach(&root), usize::MAX);
    let none = Root { filetypes: vec![], overrides: vec![], handlers: vec![] };
    assert_eq!(header_reach(&none), 0);
    assert_eq!(
        header_reach(&Root {
            filetypes: vec![("e".to_string(), filetype(None, Some("e"), None, Some(&["x"])))],
            overrides: vec![],
            handlers: vec![],
        }),
        0
    );
}
