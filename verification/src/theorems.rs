//! What holds of every configuration: theorems that relate validation,
//! resolution and reading.

use vstd::prelude::*;
use crate::builtin_handlers::{builtin_ids, builtin_outcome, registry, Confidence, FailureView};
use crate::config::advice::{advice, WarningView};
use crate::config::containers::{
    container_error, container_errors, cycle_error, ids_of, lemma_chain_fits, walk,
};
use crate::config::decode::{
    as_bytes, as_patterns, as_text_or_list, decoded, decoded_filetype, decoded_handler,
    decoded_override, entry, keys_of, list_at, patterns_at, SchemaErrorView,
};
use crate::config::errors::{
    FieldErrorsView, RecordErrorsView, RecordKeyView, ValidationErrorsKindView, section_of,
};
use crate::config::rules::{argv_error, filetype_rule_error, handlers_error, rule_error};
use crate::config::schema::{FiletypeView, OneOrList, RootView};
use crate::config::validate::{
    document_entry, field_entry, filetype_errors, filetype_field_errors, filetype_records,
    handler_errors, handler_records, override_records, record_entry, records_entry, root_errors,
    valid,
};
use crate::dispatch::{ends_chain, folded, verdict_of, VerdictView};
use crate::document::Node;
use crate::resolver::{
    chain_of, filetype_reach, handler_chain, header_matches, longest, own_handlers, pattern_at,
    reach, resolution, PathFactsView, ResolvedView,
};
use crate::seqs::{lemma_collect_contains, lemma_collect_empty};

verus! {

/// Whether a filetype has what resolution needs of it: handlers or a
/// container, and at least one handler where it names handlers.
pub open spec fn supplies_handlers(ft: FiletypeView) -> bool {
    (ft.handler is Some || ft.container is Some) && (ft.handler is Some ==> ft.handler->0.len() > 0)
}

/// A filetype that breaks no rule has what resolution needs of it.
pub proof fn lemma_sound_filetype_supplies_handlers(ft: FiletypeView)
    requires
        filetype_errors(ft).len() == 0,
    ensures
        supplies_handlers(ft),
{
    let fields = filetype_field_errors(ft);
    assert(fields.len() == 0);
    assert(filetype_rule_error(ft) is None);
    if ft.handler is Some {
        let entry = field_entry("handler"@, handlers_error(ft.handler->0));
        assert(entry.len() == 0);
    }
}

/// In a valid configuration no filetype breaks a rule, and following
/// `container` from any filetype ends at a filetype without a container.
pub proof fn lemma_valid_filetypes(root: RootView, i: int)
    requires
        valid(root),
        0 <= i < root.filetypes.len(),
    ensures
        filetype_errors(root.filetypes[i].1).len() == 0,
        walk(root.filetypes, seq![root.filetypes[i].0], i) is End,
{
    let fts = root.filetypes;
    let pick = |k: int| record_entry(RecordKeyView::Id(fts[k].0), filetype_errors(fts[k].1));
    assert(records_entry("filetype"@, filetype_records(fts)).len() == 0);
    assert(filetype_records(fts).len() == 0);
    lemma_collect_empty(fts.len() as int, pick);
    assert(pick(i) is None);
    let found = |k: int| container_error(fts, k);
    assert(document_entry(container_errors(fts)).len() == 0);
    assert(container_errors(fts).len() == 0);
    lemma_collect_empty(fts.len() as int, found);
    assert(found(i) is None);
}

/// Where following `container` ends well, the search for handlers succeeds.
proof fn lemma_walk_finds_handlers(
    fts: Seq<(Seq<char>, FiletypeView)>,
    chain: Seq<Seq<char>>,
    at: int,
    steps: nat,
)
    requires
        forall|k: int| 0 <= k < fts.len() ==> supplies_handlers(#[trigger] fts[k].1),
        0 <= at < fts.len(),
        walk(fts, chain, at) is End,
        steps < chain.len(),
    ensures
        handler_chain(fts, at, steps) is Some,
        handler_chain(fts, at, steps)->0.len() > 0,
    decreases fts.len() - chain.len(),
{
    assert(supplies_handlers(fts[at].1));
    if own_handlers(fts[at].1) is None {
        let container = fts[at].1.container->0;
        ids_of(fts).index_of_first_ensures(container);
        let next = ids_of(fts).index_of_first(container)->0;
        lemma_walk_finds_handlers(fts, chain.push(container), next, steps + 1);
    }
}

/// Every filetype of a valid configuration resolves to a handler chain that
/// is not empty: its own, or that of a container.
pub proof fn theorem_valid_filetype_resolves(root: RootView, i: int)
    requires
        valid(root),
        0 <= i < root.filetypes.len(),
    ensures
        handler_chain(root.filetypes, i, 0) is Some,
        handler_chain(root.filetypes, i, 0)->0.len() > 0,
{
    let fts = root.filetypes;
    assert forall|k: int| 0 <= k < fts.len() implies supplies_handlers(#[trigger] fts[k].1) by {
        lemma_valid_filetypes(root, k);
        lemma_sound_filetype_supplies_handlers(fts[k].1);
    }
    lemma_valid_filetypes(root, i);
    lemma_walk_finds_handlers(fts, seq![fts[i].0], i, 0);
}

/// Every id of a filetype of a valid configuration resolves to a handler
/// chain that is not empty.
pub proof fn theorem_valid_id_resolves(root: RootView, id: Seq<char>)
    requires
        valid(root),
        ids_of(root.filetypes).contains(id),
    ensures
        chain_of(root, id) is Some,
        chain_of(root, id)->0.len() > 0,
{
    ids_of(root.filetypes).index_of_first_ensures(id);
    theorem_valid_filetype_resolves(root, ids_of(root.filetypes).index_of_first(id)->0);
}


/// The position of the filetype from which step `k` of a path is taken: the
/// start for the first step, and else the first filetype with the id that the
/// path has reached.
pub open spec fn stop(
    fts: Seq<(Seq<char>, FiletypeView)>,
    start: int,
    path: Seq<Seq<char>>,
    k: int,
) -> Option<int> {
    if k == 0 {
        Some(start)
    } else {
        ids_of(fts).index_of_first(path[k])
    }
}

/// Whether step `k` of a path follows `container`: the id reached names a
/// filetype, and the next id of the path is that filetype's container.
pub open spec fn step_follows(
    fts: Seq<(Seq<char>, FiletypeView)>,
    start: int,
    path: Seq<Seq<char>>,
    k: int,
) -> bool {
    match stop(fts, start, path, k) {
        Some(at) => fts[at].1.container == Some(path[k + 1]),
        None => false,
    }
}

/// Whether a sequence of ids is what following `container` from the filetype
/// at position `start` passes through.
pub open spec fn follows_containers(
    fts: Seq<(Seq<char>, FiletypeView)>,
    start: int,
    path: Seq<Seq<char>>,
) -> bool {
    &&& path.len() >= 1
    &&& path[0] == fts[start].0
    &&& forall|k: int| 0 <= k < path.len() - 1 ==> #[trigger] step_follows(fts, start, path, k)
}

proof fn lemma_cycle_is_exact(
    fts: Seq<(Seq<char>, FiletypeView)>,
    start: int,
    chain: Seq<Seq<char>>,
    at: int,
)
    requires
        0 <= start < fts.len(),
        0 <= at < fts.len(),
        follows_containers(fts, start, chain),
        stop(fts, start, chain, chain.len() - 1) == Some(at),
        chain.no_duplicates(),
        forall|k: int| 0 <= k < chain.len() ==> ids_of(fts).contains(#[trigger] chain[k]),
        walk(fts, chain, at) is Cycle,
    ensures
        follows_containers(fts, start, walk(fts, chain, at)->Cycle_0),
        walk(fts, chain, at)->Cycle_0.drop_last().no_duplicates(),
        walk(fts, chain, at)->Cycle_0.drop_last().contains(walk(fts, chain, at)->Cycle_0.last()),
    decreases fts.len() - chain.len(),
{
    let container = fts[at].1.container->0;
    let longer = chain.push(container);
    assert forall|k: int| 0 <= k < longer.len() - 1 implies #[trigger] step_follows(
        fts,
        start,
        longer,
        k,
    ) by {
        if k < chain.len() - 1 {
            assert(step_follows(fts, start, chain, k));
        }
    }
    assert(follows_containers(fts, start, longer));
    if chain.contains(container) {
        assert(longer.drop_last() =~= chain);
    } else {
        ids_of(fts).index_of_first_ensures(container);
        let next = ids_of(fts).index_of_first(container)->0;
        assert forall|k: int| 0 <= k < longer.len() implies ids_of(fts).contains(
            #[trigger] longer[k],
        ) by {
            if k < chain.len() {
                assert(longer[k] == chain[k]);
            }
        }
        lemma_chain_fits(fts, longer);
        lemma_cycle_is_exact(fts, start, longer, next);
    }
}

/// The chain that a cycle is reported with is exact: it is what following
/// `container` from the filetype passes through, its last id is the first one
/// to come a second time, and there it ends.
pub proof fn theorem_cycle_chain_is_exact(fts: Seq<(Seq<char>, FiletypeView)>, start: int)
    requires
        0 <= start < fts.len(),
        walk(fts, seq![fts[start].0], start) is Cycle,
    ensures
        ({
            let chain = walk(fts, seq![fts[start].0], start)->Cycle_0;
            &&& container_error(fts, start) == Some(cycle_error(chain))
            &&& follows_containers(fts, start, chain)
            &&& chain.drop_last().no_duplicates()
            &&& chain.drop_last().contains(chain.last())
        }),
{
    let first = seq![fts[start].0];
    assert(ids_of(fts)[start] == fts[start].0);
    lemma_cycle_is_exact(fts, start, first, start);
}

proof fn lemma_revisit_is_found(
    fts: Seq<(Seq<char>, FiletypeView)>,
    start: int,
    path: Seq<Seq<char>>,
    m: int,
    at: int,
)
    requires
        0 <= start < fts.len(),
        0 <= at < fts.len(),
        follows_containers(fts, start, path),
        !path.no_duplicates(),
        1 <= m <= path.len(),
        path.take(m).no_duplicates(),
        stop(fts, start, path, m - 1) == Some(at),
        forall|k: int| 0 <= k < m ==> ids_of(fts).contains(#[trigger] path[k]),
    ensures
        walk(fts, path.take(m), at) is Cycle,
        walk(fts, path.take(m), at)->Cycle_0.is_prefix_of(path),
    decreases path.len() - m,
{
    let chain = path.take(m);
    if m == path.len() {
        assert(chain =~= path);
    } else {
        assert(step_follows(fts, start, path, m - 1));
        let container = path[m];
        let longer = chain.push(container);
        assert(longer =~= path.take(m + 1));
        if !chain.contains(container) {
            assert(longer.no_duplicates());
            if m + 1 == path.len() {
                assert(longer =~= path);
            } else {
                assert(step_follows(fts, start, path, m));
                ids_of(fts).index_of_first_ensures(container);
                let next = ids_of(fts).index_of_first(container)->0;
                assert forall|k: int| 0 <= k < longer.len() implies ids_of(fts).contains(
                    #[trigger] longer[k],
                ) by {
                    assert(longer[k] == path[k]);
                }
                lemma_chain_fits(fts, longer);
                lemma_revisit_is_found(fts, start, path, m + 1, next);
            }
        }
    }
}

/// A cycle is always found: where what following `container` from a filetype
/// passes through holds an id twice, the walk from that filetype reports a
/// cycle, with the ids up to the first one that comes a second time.
pub proof fn theorem_cycle_is_detected(
    fts: Seq<(Seq<char>, FiletypeView)>,
    start: int,
    path: Seq<Seq<char>>,
)
    requires
        0 <= start < fts.len(),
        follows_containers(fts, start, path),
        !path.no_duplicates(),
    ensures
        walk(fts, seq![fts[start].0], start) is Cycle,
        walk(fts, seq![fts[start].0], start)->Cycle_0.is_prefix_of(path),
        container_error(fts, start) == Some(
            cycle_error(walk(fts, seq![fts[start].0], start)->Cycle_0),
        ),
{
    assert(path.take(1) =~= seq![fts[start].0]);
    assert(ids_of(fts)[start] == fts[start].0);
    lemma_revisit_is_found(fts, start, path, 1, start);
}

/// The names of the four sections differ.
proof fn lemma_section_names_differ()
    ensures
        "filetype"@ != "__all__"@,
        "override"@ != "__all__"@,
        "handler"@ != "__all__"@,
        "filetype"@ != "handler"@,
        "override"@ != "handler"@,
        "filetype"@ != "override"@,
{
    reveal_strlit("filetype");
    reveal_strlit("override");
    reveal_strlit("handler");
    reveal_strlit("__all__");
    assert("filetype"@.len() == 8);
    assert("override"@.len() == 8);
    assert("handler"@.len() == 7);
    assert("__all__"@.len() == 7);
    assert("handler"@[0] == 'h');
    assert("__all__"@[0] == '_');
    assert("filetype"@[0] == 'f');
    assert("override"@[0] == 'o');
}

/// A configuration with a violation of the `container` rule is not valid,
/// and the section `__all__` of its report holds the violations of that rule.
pub proof fn theorem_container_violations_are_reported(root: RootView, start: int)
    requires
        0 <= start < root.filetypes.len(),
        container_error(root.filetypes, start) is Some,
    ensures
        !valid(root),
        section_of(root_errors(root), "__all__"@) == Some(
            ValidationErrorsKindView::Field(container_errors(root.filetypes)),
        ),
        container_errors(root.filetypes).contains(container_error(root.filetypes, start)->0),
{
    let fts = root.filetypes;
    let found = |k: int| container_error(fts, k);
    lemma_collect_contains(fts.len() as int, found, start);
    let errors = container_errors(fts);
    assert(errors.len() > 0);
    let report = root_errors(root);
    let names = report.map_values(|s: (Seq<char>, ValidationErrorsKindView)| s.0);
    let last = report.len() - 1;
    assert(report[last] == ("__all__"@, ValidationErrorsKindView::Field(errors)));
    lemma_section_names_differ();
    names.index_of_first_ensures("__all__"@);
    assert(names[last] == "__all__"@);
    let a = records_entry("filetype"@, filetype_records(root.filetypes));
    let b = records_entry("override"@, override_records(root.overrides));
    let c = records_entry("handler"@, handler_records(root.handlers));
    assert forall|j: int| 0 <= j < last implies names[j] != "__all__"@ by {
        if j < a.len() {
            assert(report[j] == a[j]);
        } else if j < a.len() + b.len() {
            assert(report[j] == b[j - a.len()]);
        } else {
            assert(report[j] == c[j - a.len() - b.len()]);
        }
    }
}

/// Wherever following `container` comes back to an id, validation fails and
/// reports `container_cycle` with the exact chain.
pub proof fn theorem_cycle_fails_validation(root: RootView, start: int, path: Seq<Seq<char>>)
    requires
        0 <= start < root.filetypes.len(),
        follows_containers(root.filetypes, start, path),
        !path.no_duplicates(),
    ensures
        !valid(root),
        exists|chain: Seq<Seq<char>>|
            #![trigger cycle_error(chain)]
            chain.is_prefix_of(path) && chain.drop_last().no_duplicates()
                && chain.drop_last().contains(chain.last()) && container_errors(
                root.filetypes,
            ).contains(cycle_error(chain)),
{
    theorem_cycle_is_detected(root.filetypes, start, path);
    theorem_cycle_chain_is_exact(root.filetypes, start);
    theorem_container_violations_are_reported(root, start);
    let chain = walk(root.filetypes, seq![root.filetypes[start].0], start)->Cycle_0;
    assert(container_errors(root.filetypes).contains(cycle_error(chain)));
}


/// One entry and the list of that one entry are the same field.
pub proof fn theorem_one_is_list_of_one<T: DeepView>(x: T, list: Vec<T>)
    requires
        list@ == seq![x],
    ensures
        OneOrList::One(x)@ == OneOrList::List(list)@,
{
    assert(OneOrList::One(x)@ =~= OneOrList::List(list)@);
}

/// A text and the list of that one text are read as the same field.
pub proof fn theorem_text_reads_as_list_of_one(text: String, list: Vec<Node>)
    requires
        list@ == seq![Node::String(text)],
    ensures
        as_text_or_list(Node::String(text)) == Some(seq![text@]),
        as_text_or_list(Node::Array(list)) == Some(seq![text@]),
{
    assert(as_text_or_list(Node::Array(list))->0 =~= seq![text@]);
}

/// A byte pattern and the list of that one pattern are read as the same field.
pub proof fn theorem_pattern_reads_as_list_of_one(pattern: Node, list: Vec<Node>)
    requires
        as_bytes(pattern) is Some,
        list@ == seq![pattern],
    ensures
        as_patterns(pattern) == Some(seq![as_bytes(pattern)->0]),
        as_patterns(Node::Array(list)) == Some(seq![as_bytes(pattern)->0]),
{
    let whole = Node::Array(list);
    match pattern {
        Node::Array(bytes) => {
            assert(crate::config::decode::as_byte(list@[0]) is None);
            assert(as_bytes(whole) is None);
            assert(as_patterns(whole)->0 =~= seq![as_bytes(pattern)->0]);
        },
        _ => {},
    }
}

/// The names of the fields of a record differ.
proof fn lemma_field_names_differ()
    ensures
        "container"@ != "extension"@,
        "description"@ != "extension"@,
        "handler"@ != "extension"@,
        "header"@ != "extension"@,
        "header_offset"@ != "extension"@,
        "multipage"@ != "extension"@,
        "container"@ != "handler"@,
        "description"@ != "handler"@,
        "header"@ != "handler"@,
        "header_offset"@ != "handler"@,
        "multipage"@ != "handler"@,
        "container"@ != "header"@,
        "description"@ != "header"@,
        "header_offset"@ != "header"@,
        "multipage"@ != "header"@,
        "path"@ != "handler"@,
        "ignore"@ != "handler"@,
        "message"@ != "handler"@,
        "argv"@ != "sources"@,
        "description"@ != "sources"@,
        "fail_if_stderr"@ != "sources"@,
{
    reveal_strlit("container");
    reveal_strlit("description");
    reveal_strlit("extension");
    reveal_strlit("handler");
    reveal_strlit("header");
    reveal_strlit("header_offset");
    reveal_strlit("multipage");
    reveal_strlit("path");
    reveal_strlit("ignore");
    reveal_strlit("message");
    reveal_strlit("argv");
    reveal_strlit("fail_if_stderr");
    reveal_strlit("sources");
    assert("container"@.len() == 9 && "container"@[0] == 'c');
    assert("description"@.len() == 11);
    assert("extension"@.len() == 9 && "extension"@[0] == 'e');
    assert("handler"@.len() == 7 && "handler"@[0] == 'h');
    assert("header"@.len() == 6);
    assert("header_offset"@.len() == 13);
    assert("multipage"@.len() == 9 && "multipage"@[0] == 'm');
    assert("path"@.len() == 4);
    assert("ignore"@.len() == 6);
    assert("message"@.len() == 7 && "message"@[0] == 'm');
    assert("argv"@.len() == 4);
    assert("fail_if_stderr"@.len() == 14);
    assert("sources"@.len() == 7);
}

/// Whether two tables have the same keys and the same values, but that
/// where the key is `key` the one has `x` and the other `y`.
pub open spec fn same_but(
    a: Seq<(String, Node)>,
    b: Seq<(String, Node)>,
    key: Seq<char>,
    x: Node,
    y: Node,
) -> bool {
    &&& keys_of(a) == keys_of(b)
    &&& forall|i: int|
        0 <= i < a.len() ==> if #[trigger] keys_of(a)[i] == key {
            a[i].1 == x && b[i].1 == y
        } else {
            a[i].1 == b[i].1
        }
}

/// Two such tables give every other key the same value.
proof fn lemma_other_entry_agrees(
    a: Seq<(String, Node)>,
    b: Seq<(String, Node)>,
    key: Seq<char>,
    x: Node,
    y: Node,
    other: Seq<char>,
)
    requires
        same_but(a, b, key, x, y),
        other != key,
    ensures
        entry(a, other) == entry(b, other),
{
    keys_of(a).index_of_first_ensures(other);
    match keys_of(a).index_of_first(other) {
        Some(i) => {
            assert(keys_of(a)[i] == other);
        },
        None => {},
    }
}

/// Two such tables give the key itself `x` and `y`, or both nothing.
proof fn lemma_changed_entry(
    a: Seq<(String, Node)>,
    b: Seq<(String, Node)>,
    key: Seq<char>,
    x: Node,
    y: Node,
)
    requires
        same_but(a, b, key, x, y),
    ensures
        (entry(a, key) is None && entry(b, key) is None) || (entry(a, key) == Some(x) && entry(
            b,
            key,
        ) == Some(y)),
{
    keys_of(a).index_of_first_ensures(key);
    match keys_of(a).index_of_first(key) {
        Some(i) => {
            assert(keys_of(a)[i] == key);
        },
        None => {},
    }
}

/// Writing the extension or the handler of a filetype as a text or as the
/// list of that one text gives the same filetype: two definitions that differ
/// in nothing else are read alike, so they are validated and resolved alike.
pub proof fn theorem_filetype_shorthand(
    short: Vec<(String, Node)>,
    long: Vec<(String, Node)>,
    key: Seq<char>,
    text: String,
    list: Vec<Node>,
)
    requires
        key == "extension"@ || key == "handler"@,
        list@ == seq![Node::String(text)],
        same_but(short@, long@, key, Node::String(text), Node::Array(list)),
    ensures
        decoded_filetype(Node::Table(short)) == decoded_filetype(Node::Table(long)),
{
    let a = short@;
    let b = long@;
    let x = Node::String(text);
    let y = Node::Array(list);
    lemma_field_names_differ();
    theorem_text_reads_as_list_of_one(text, list);
    lemma_changed_entry(a, b, key, x, y);
    lemma_other_entry_agrees(a, b, key, x, y, "container"@);
    lemma_other_entry_agrees(a, b, key, x, y, "description"@);
    lemma_other_entry_agrees(a, b, key, x, y, "header"@);
    lemma_other_entry_agrees(a, b, key, x, y, "header_offset"@);
    lemma_other_entry_agrees(a, b, key, x, y, "multipage"@);
    if key == "extension"@ {
        lemma_other_entry_agrees(a, b, key, x, y, "handler"@);
    } else {
        lemma_other_entry_agrees(a, b, key, x, y, "extension"@);
    }
    assert(list_at(a, key) == list_at(b, key));
}

/// Writing the header of a filetype as a byte pattern or as the list of
/// that one pattern gives the same filetype.
pub proof fn theorem_header_shorthand(
    short: Vec<(String, Node)>,
    long: Vec<(String, Node)>,
    pattern: Node,
    list: Vec<Node>,
)
    requires
        as_bytes(pattern) is Some,
        list@ == seq![pattern],
        same_but(short@, long@, "header"@, pattern, Node::Array(list)),
    ensures
        decoded_filetype(Node::Table(short)) == decoded_filetype(Node::Table(long)),
{
    let a = short@;
    let b = long@;
    let y = Node::Array(list);
    lemma_field_names_differ();
    theorem_pattern_reads_as_list_of_one(pattern, list);
    lemma_changed_entry(a, b, "header"@, pattern, y);
    lemma_other_entry_agrees(a, b, "header"@, pattern, y, "container"@);
    lemma_other_entry_agrees(a, b, "header"@, pattern, y, "description"@);
    lemma_other_entry_agrees(a, b, "header"@, pattern, y, "extension"@);
    lemma_other_entry_agrees(a, b, "header"@, pattern, y, "handler"@);
    lemma_other_entry_agrees(a, b, "header"@, pattern, y, "header_offset"@);
    lemma_other_entry_agrees(a, b, "header"@, pattern, y, "multipage"@);
    assert(patterns_at(a, "header"@) == patterns_at(b, "header"@));
}

/// Writing the handler of an override as a text or as the list of that one
/// text gives the same override.
pub proof fn theorem_override_shorthand(
    short: Vec<(String, Node)>,
    long: Vec<(String, Node)>,
    text: String,
    list: Vec<Node>,
)
    requires
        list@ == seq![Node::String(text)],
        same_but(short@, long@, "handler"@, Node::String(text), Node::Array(list)),
    ensures
        decoded_override(Node::Table(short)) == decoded_override(Node::Table(long)),
{
    let a = short@;
    let b = long@;
    let x = Node::String(text);
    let y = Node::Array(list);
    lemma_field_names_differ();
    theorem_text_reads_as_list_of_one(text, list);
    lemma_changed_entry(a, b, "handler"@, x, y);
    lemma_other_entry_agrees(a, b, "handler"@, x, y, "path"@);
    lemma_other_entry_agrees(a, b, "handler"@, x, y, "ignore"@);
    lemma_other_entry_agrees(a, b, "handler"@, x, y, "message"@);
    assert(list_at(a, "handler"@) == list_at(b, "handler"@));
}

/// Writing the sources of a handler as a text or as the list of that one
/// text gives the same handler.
pub proof fn theorem_sources_shorthand(
    short: Vec<(String, Node)>,
    long: Vec<(String, Node)>,
    text: String,
    list: Vec<Node>,
)
    requires
        list@ == seq![Node::String(text)],
        same_but(short@, long@, "sources"@, Node::String(text), Node::Array(list)),
    ensures
        decoded_handler(Node::Table(short)) == decoded_handler(Node::Table(long)),
{
    let a = short@;
    let b = long@;
    let x = Node::String(text);
    let y = Node::Array(list);
    lemma_field_names_differ();
    theorem_text_reads_as_list_of_one(text, list);
    lemma_changed_entry(a, b, "sources"@, x, y);
    lemma_other_entry_agrees(a, b, "sources"@, x, y, "argv"@);
    lemma_other_entry_agrees(a, b, "sources"@, x, y, "description"@);
    lemma_other_entry_agrees(a, b, "sources"@, x, y, "fail_if_stderr"@);
    assert(list_at(a, "sources"@) == list_at(b, "sources"@));
}

/// A handler whose command name holds `{` is rejected, whatever its other
/// fields hold and whatever else the configuration holds: the configuration
/// is not valid, and the field `argv` of the handler's record reports
/// `argv0_subst`.
pub proof fn theorem_marker_in_command_is_rejected(root: RootView, i: int)
    requires
        0 <= i < root.handlers.len(),
        root.handlers[i].1.argv.len() > 0,
        root.handlers[i].1.argv[0].contains('{'),
    ensures
        !valid(root),
        handler_errors(root.handlers[i].1).len() > 0,
        handler_errors(root.handlers[i].1)[0] == (FieldErrorsView {
            field: "argv"@,
            errors: seq![
                rule_error(
                    "argv0_subst"@,
                    "argv[0] cannot contain substitution tokens: "@ + root.handlers[i].1.argv[0],
                ),
            ],
        }),
        handler_records(root.handlers).contains(
            RecordErrorsView {
                key: RecordKeyView::Id(root.handlers[i].0),
                fields: handler_errors(root.handlers[i].1),
            },
        ),
{
    let hs = root.handlers;
    let h = hs[i].1;
    assert(argv_error(h.argv) is Some);
    let first = field_entry("argv"@, crate::config::validate::command_error(h.argv));
    assert(first.len() == 1);
    assert(handler_errors(h)[0] == first[0]);
    let pick = |k: int| record_entry(RecordKeyView::Id(hs[k].0), handler_errors(hs[k].1));
    assert(pick(i) is Some);
    lemma_collect_contains(hs.len() as int, pick, i);
    assert(handler_records(hs).len() > 0);
    assert(records_entry("handler"@, handler_records(hs)).len() > 0);
}

/// A document without entries is a configuration without filetypes,
/// overrides and handlers, which is valid and draws no advice.
pub proof fn theorem_empty_document_is_valid(entries: Vec<(String, Node)>, builtins: Seq<Seq<char>>)
    requires
        entries@.len() == 0,
    ensures
        decoded(Node::Table(entries)) == Ok::<RootView, SchemaErrorView>(
            RootView { filetypes: Seq::empty(), overrides: Seq::empty(), handlers: Seq::empty() },
        ),
        valid(
            RootView { filetypes: Seq::empty(), overrides: Seq::empty(), handlers: Seq::empty() },
        ),
        advice(
            RootView { filetypes: Seq::empty(), overrides: Seq::empty(), handlers: Seq::empty() },
            builtins,
        ) == Seq::<WarningView>::empty(),
{
    let table = entries@;
    keys_of(table).index_of_first_ensures("filetype"@);
    keys_of(table).index_of_first_ensures("override"@);
    keys_of(table).index_of_first_ensures("handler"@);
    let root = RootView {
        filetypes: Seq::empty(),
        overrides: Seq::empty(),
        handlers: Seq::empty(),
    };
    assert(root_errors(root) =~= Seq::empty());
    assert(advice(root, builtins) =~= Seq::<WarningView>::empty());
}


/// No pattern is longer than the longest.
proof fn lemma_longest_bounds(patterns: Seq<Seq<u8>>, n: int, k: int)
    requires
        0 <= k < n <= patterns.len(),
    ensures
        patterns[k].len() <= longest(patterns, n),
    decreases n,
{
    if k < n - 1 {
        lemma_longest_bounds(patterns, n - 1, k);
    }
}

/// No filetype looks further than the reach of all.
proof fn lemma_reach_bounds(fts: Seq<(Seq<char>, FiletypeView)>, n: int, i: int)
    requires
        0 <= i < n <= fts.len(),
    ensures
        filetype_reach(fts[i].1) <= reach(fts, n),
    decreases n,
{
    if i < n - 1 {
        lemma_reach_bounds(fts, n - 1, i);
    }
}

/// Reading the first bytes of a file is enough for detection: a filetype's
/// header patterns match the first `bytes` bytes exactly when they match the
/// whole file, where `bytes` is at least the reach of the filetypes.
pub proof fn theorem_header_prefix_suffices(
    fts: Seq<(Seq<char>, FiletypeView)>,
    i: int,
    whole: PathFactsView,
    bytes: int,
)
    requires
        0 <= i < fts.len(),
        reach(fts, fts.len() as int) <= bytes <= whole.header.len() <= usize::MAX,
    ensures
        header_matches(fts[i].1, PathFactsView { header: whole.header.take(bytes), ..whole })
            == header_matches(fts[i].1, whole),
{
    let ft = fts[i].1;
    let part = PathFactsView { header: whole.header.take(bytes), ..whole };
    lemma_reach_bounds(fts, fts.len() as int, i);
    if ft.header is Some {
        let patterns = ft.header->0;
        let offset = ft.header_offset as int;
        assert forall|k: int| 0 <= k < patterns.len() implies pattern_at(
            part.header,
            offset,
            #[trigger] patterns[k],
        ) == pattern_at(whole.header, offset, patterns[k]) by {
            lemma_longest_bounds(patterns, patterns.len() as int, k);
            let p = patterns[k];
            if offset + p.len() <= bytes {
                assert(part.header.subrange(offset, offset + p.len()) =~= whole.header.subrange(
                    offset,
                    offset + p.len(),
                ));
            }
        }
    }
}


/// The failures that a run of reports holds.
pub open spec fn failures_of(outcomes: Seq<Result<Confidence, FailureView>>) -> Seq<FailureView> {
    outcomes.map_values(|o: Result<Confidence, FailureView>| o->Err_0)
}

/// Reports that do not end the chain are noted and passed.
proof fn lemma_folded_skips(
    outcomes: Seq<Result<Confidence, FailureView>>,
    from: int,
    noted: Seq<FailureView>,
    at: int,
)
    requires
        0 <= from <= at <= outcomes.len(),
        forall|j: int| from <= j < at ==> !ends_chain(#[trigger] outcomes[j]),
    ensures
        folded(outcomes, from, noted) == folded(
            outcomes,
            at,
            noted + failures_of(outcomes.subrange(from, at)),
        ),
    decreases at - from,
{
    let rest = failures_of(outcomes.subrange(from, at));
    if from == at {
        assert(noted + rest =~= noted);
    } else {
        assert(!ends_chain(outcomes[from]));
        lemma_folded_skips(outcomes, from + 1, noted.push(outcomes[from]->Err_0), at);
        let later = failures_of(outcomes.subrange(from + 1, at));
        assert(noted.push(outcomes[from]->Err_0) + later =~= noted + rest);
    }
}

/// Where no handler of the chain could judge the file, the verdict is
/// `Unrecognized`, never `Corrupted`, and it holds every failure noted.
pub proof fn theorem_undecided_chain_is_unrecognized(
    outcomes: Seq<Result<Confidence, FailureView>>,
)
    requires
        forall|j: int| 0 <= j < outcomes.len() ==> !ends_chain(#[trigger] outcomes[j]),
    ensures
        verdict_of(outcomes) == VerdictView::Unrecognized(failures_of(outcomes)),
{
    lemma_folded_skips(outcomes, 0, Seq::empty(), outcomes.len() as int);
    assert(outcomes.subrange(0, outcomes.len() as int) =~= outcomes);
    assert(Seq::<FailureView>::empty() + failures_of(outcomes) =~= failures_of(outcomes));
}

/// The first report that ends the chain decides, whatever follows it:
/// invalid content gives `Corrupted`, a file that cannot be read
/// `IoFailure`, and a success `Verified` with the confidence of the handler
/// that succeeded, not that of a stronger handler that was passed.
pub proof fn theorem_first_ending_report_decides(
    outcomes: Seq<Result<Confidence, FailureView>>,
    at: int,
)
    requires
        0 <= at < outcomes.len(),
        ends_chain(outcomes[at]),
        forall|j: int| 0 <= j < at ==> !ends_chain(#[trigger] outcomes[j]),
    ensures
        verdict_of(outcomes) == match outcomes[at] {
            Ok(confidence) => VerdictView::Verified(confidence),
            Err(FailureView::InvalidContent(message)) => VerdictView::Corrupted(message),
            Err(FailureView::IoError(message)) => VerdictView::IoFailure(message),
            Err(_) => verdict_of(outcomes),
        },
{
    lemma_folded_skips(outcomes, 0, Seq::empty(), at);
}


/// The ids of the built-in handlers differ.
proof fn lemma_builtin_ids_differ()
    ensures
        "gzip"@ != "image"@,
        "gzip"@ != "json"@,
        "gzip"@ != "toml"@,
        "gzip"@ != "zip"@,
        "image"@ != "json"@,
        "image"@ != "toml"@,
        "image"@ != "zip"@,
        "json"@ != "toml"@,
        "json"@ != "zip"@,
        "toml"@ != "zip"@,
{
    reveal_strlit("gzip");
    reveal_strlit("image");
    reveal_strlit("json");
    reveal_strlit("toml");
    reveal_strlit("zip");
    assert("gzip"@.len() == 4 && "gzip"@[0] == 'g');
    assert("image"@.len() == 5);
    assert("json"@.len() == 4 && "json"@[0] == 'j');
    assert("toml"@.len() == 4 && "toml"@[0] == 't');
    assert("zip"@.len() == 3);
}

/// The registry lists exactly the handlers that run: each id of the
/// registry runs a handler whose success is worth the confidence that the
/// registry gives it, and no other id runs one.
pub proof fn theorem_registry_lists_what_runs(
    id: Seq<char>,
    data: Seq<u8>,
    extension: Option<Seq<char>>,
)
    ensures
        builtin_ids().contains(id) <==> builtin_outcome(id, data, extension) is Some,
        forall|i: int|
            0 <= i < registry().len() && (#[trigger] registry()[i]).id == id ==> match builtin_outcome(
                id,
                data,
                extension,
            ) {
                Some(Ok(confidence)) => confidence == registry()[i].confidence,
                Some(Err(_)) => true,
                None => false,
            },
{
    lemma_builtin_ids_differ();
    let ids = builtin_ids();
    assert(ids.len() == 5);
    assert(ids[0] == "gzip"@);
    assert(ids[1] == "image"@);
    assert(ids[2] == "json"@);
    assert(ids[3] == "toml"@);
    assert(ids[4] == "zip"@);
    if ids.contains(id) {
        let k = choose|k: int| 0 <= k < ids.len() && ids[k] == id;
        assert(builtin_outcome(id, data, extension) is Some);
    }
}


/// The search for handlers never ends with an empty chain.
proof fn lemma_handler_chain_is_not_empty(
    fts: Seq<(Seq<char>, FiletypeView)>,
    at: int,
    steps: nat,
)
    requires
        handler_chain(fts, at, steps) is Some,
    ensures
        handler_chain(fts, at, steps)->0.len() > 0,
    decreases fts.len() - steps,
{
    if own_handlers(fts[at].1) is None {
        let container = fts[at].1.container->0;
        let next = ids_of(fts).index_of_first(container)->0;
        lemma_handler_chain_is_not_empty(fts, next, steps + 1);
    }
}

/// Whatever the configuration holds, valid or not, a path is never resolved
/// to an empty chain of handlers.
pub proof fn theorem_resolved_chain_is_not_empty(
    root: RootView,
    hits: Seq<bool>,
    facts: PathFactsView,
)
    ensures
        resolution(root, hits, facts) matches ResolvedView::Handlers(list) ==> list.len() > 0,
{
    match crate::resolver::decided(root.overrides, hits, facts.is_directory) {
        Some(_) => {},
        None => {
            if !facts.is_directory {
                match crate::resolver::detected(root.filetypes, facts) {
                    Some(at) => {
                        if handler_chain(root.filetypes, at, 0) is Some {
                            lemma_handler_chain_is_not_empty(root.filetypes, at, 0);
                        }
                    },
                    None => {},
                }
            }
        },
    }
}

} // verus!
