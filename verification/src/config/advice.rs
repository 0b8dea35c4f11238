//! Advice on a configuration: what looks like a mistake but is no violation.

use vstd::prelude::*;
use crate::config::containers::{find_filetype, ids_of};
use crate::config::schema::{lemma_items_view, OneOrList, Root, RootView};
use crate::seqs::{collect, lemma_filter_step};
use crate::text::str_eq;

verus! {

/// Something that is probably a mistake.
#[derive(Debug, PartialEq, Eq)]
pub enum Warning {
    /// A filetype's `container` names no filetype
    UnknownContainer { filetype: String, container: String },
    /// A filetype names a handler that is neither built in nor defined
    UnknownFiletypeHandler { filetype: String, handler: String },
    /// An override names a handler that is neither built in nor defined
    UnknownOverrideHandler { path: String, handler: String },
    /// An override's glob matches about everything
    BroadOverride { path: String },
}

/// The mathematical value of a [`Warning`].
pub enum WarningView {
    UnknownContainer { filetype: Seq<char>, container: Seq<char> },
    UnknownFiletypeHandler { filetype: Seq<char>, handler: Seq<char> },
    UnknownOverrideHandler { path: Seq<char>, handler: Seq<char> },
    BroadOverride { path: Seq<char> },
}

impl DeepView for Warning {
    type V = WarningView;

    open spec fn deep_view(&self) -> WarningView {
        match self {
            Warning::UnknownContainer { filetype, container } => WarningView::UnknownContainer {
                filetype: filetype@,
                container: container@,
            },
            Warning::UnknownFiletypeHandler {
                filetype,
                handler,
            } => WarningView::UnknownFiletypeHandler { filetype: filetype@, handler: handler@ },
            Warning::UnknownOverrideHandler {
                path,
                handler,
            } => WarningView::UnknownOverrideHandler { path: path@, handler: handler@ },
            Warning::BroadOverride { path } => WarningView::BroadOverride { path: path@ },
        }
    }
}

impl View for Warning {
    type V = WarningView;

    open spec fn view(&self) -> WarningView {
        self.deep_view()
    }
}

/// Whether a handler id is known: built in, or defined by the configuration.
pub open spec fn known_handler(root: RootView, builtins: Seq<Seq<char>>, id: Seq<char>) -> bool {
    root.handler_ids().contains(id) || builtins.contains(id)
}

/// Whether a glob is one of those that match about everything.
pub open spec fn too_broad(path: Seq<char>) -> bool {
    path == "*"@ || path == "*.*"@
}

/// The advice on the `container` of the filetype at position `i`.
pub open spec fn container_advice(root: RootView, i: int) -> Option<WarningView> {
    match root.filetypes[i].1.container {
        Some(container) => if root.filetype_ids().contains(container) {
            None
        } else {
            Some(WarningView::UnknownContainer { filetype: root.filetypes[i].0, container })
        },
        None => None,
    }
}

/// The handler ids among `handlers` that are not known, in order.
pub open spec fn unknown_handlers(
    root: RootView,
    builtins: Seq<Seq<char>>,
    handlers: Option<Seq<Seq<char>>>,
) -> Seq<Seq<char>> {
    match handlers {
        Some(list) => list.filter(|id: Seq<char>| !known_handler(root, builtins, id)),
        None => Seq::empty(),
    }
}

/// The advice on the handlers of the filetype at position `i`.
pub open spec fn filetype_advice(root: RootView, builtins: Seq<Seq<char>>, i: int) -> Seq<
    WarningView,
> {
    unknown_handlers(root, builtins, root.filetypes[i].1.handler).map_values(
        |handler: Seq<char>|
            WarningView::UnknownFiletypeHandler { filetype: root.filetypes[i].0, handler },
    )
}

/// The advice on the override at position `i`: its unknown handlers, then its glob.
pub open spec fn override_advice(root: RootView, builtins: Seq<Seq<char>>, i: int) -> Seq<
    WarningView,
> {
    let path = root.overrides[i].path;
    unknown_handlers(root, builtins, root.overrides[i].handler).map_values(
        |handler: Seq<char>| WarningView::UnknownOverrideHandler { path, handler },
    ) + if too_broad(path) {
        seq![WarningView::BroadOverride { path }]
    } else {
        Seq::empty()
    }
}

/// All the advice on a configuration: on the containers, then on the
/// handlers of the filetypes, then on the overrides, each in the order of the
/// configuration.
pub open spec fn advice(root: RootView, builtins: Seq<Seq<char>>) -> Seq<WarningView> {
    collect(root.filetypes.len() as int, |i: int| container_advice(root, i)) + Seq::new(
        root.filetypes.len(),
        |i: int| filetype_advice(root, builtins, i),
    ).flatten() + Seq::new(root.overrides.len(), |i: int| override_advice(root, builtins, i)).flatten()
}

fn contains_id(ids: &Vec<String>, id: &str) -> (found: bool)
    ensures
        found == ids.deep_view().contains(id@),
{
    let mut i: usize = 0;
    while i < ids.len()
        invariant
            i <= ids@.len(),
            forall|j: int| 0 <= j < i ==> ids.deep_view()[j] != id@,
        decreases ids@.len() - i,
    {
        if str_eq(ids[i].as_str(), id) {
            assert(ids.deep_view()[i as int] == id@);
            return true;
        }
        i += 1;
    }
    false
}

fn is_known(root: &Root, builtins: &Vec<String>, id: &str) -> (known: bool)
    ensures
        known == known_handler(root@, builtins.deep_view(), id@),
{
    let ghost ids = root@.handler_ids();
    let mut i: usize = 0;
    while i < root.handlers.len()
        invariant
            i <= root.handlers@.len(),
            ids == root@.handler_ids(),
            forall|j: int| 0 <= j < i ==> ids[j] != id@,
        decreases root.handlers@.len() - i,
    {
        if str_eq(root.handlers[i].0.as_str(), id) {
            assert(ids[i as int] == id@);
            return true;
        }
        assert(ids[i as int] != id@);
        i += 1;
    }
    contains_id(builtins, id)
}

/// The ids among `handlers` that are not known, in order.
fn unknown_among(root: &Root, builtins: &Vec<String>, handlers: &Option<OneOrList<String>>) -> (out:
    Vec<String>)
    ensures
        out.deep_view() == unknown_handlers(root@, builtins.deep_view(), handlers.deep_view()),
{
    let mut out: Vec<String> = Vec::new();
    match handlers {
        None => {
            assert(out.deep_view() =~= Seq::<Seq<char>>::empty());
        },
        Some(list) => {
            let ghost unknown = |id: Seq<char>| !known_handler(root@, builtins.deep_view(), id);
            let n = list.len();
            let mut i: usize = 0;
            proof {
                lemma_items_view(*list);
                reveal(Seq::filter);
                assert(list@.take(0) =~= Seq::<Seq<char>>::empty());
                assert(out.deep_view() =~= list@.take(0).filter(unknown));
            }
            while i < n
                invariant
                    n == list.items().len(),
                    list@.len() == n,
                    i <= n,
                    unknown == |id: Seq<char>| !known_handler(root@, builtins.deep_view(), id),
                    forall|j: int| 0 <= j < n ==> list@[j] == (#[trigger] list.items()[j])@,
                    out.deep_view() == list@.take(i as int).filter(unknown),
                decreases n - i,
            {
                let id = list.get(i);
                let ghost before = out.deep_view();
                proof {
                    lemma_filter_step(list@, unknown, i as int);
                }
                if !is_known(root, builtins, id.as_str()) {
                    out.push(id.clone());
                    assert(out.deep_view() =~= before.push(id@));
                }
                i += 1;
            }
            assert(list@.take(n as int) =~= list@);
        },
    }
    out
}

/// The advice on a configuration, given the ids of the built-in handlers.
/// It never stands in the way of using the configuration.
pub fn warnings(root: &Root, builtins: &Vec<String>) -> (out: Vec<Warning>)
    ensures
        out.deep_view() == advice(root@, builtins.deep_view()),
{
    let ghost r = root@;
    let ghost b = builtins.deep_view();
    let ghost pick = |i: int| container_advice(r, i);
    let ghost per_filetype = |i: int| filetype_advice(r, b, i);
    let ghost per_override = |i: int| override_advice(r, b, i);
    let mut out: Vec<Warning> = Vec::new();
    assert(out.deep_view() =~= collect(0, pick));

    let mut i: usize = 0;
    while i < root.filetypes.len()
        invariant
            r == root@,
            r.filetypes == root.filetypes.deep_view(),
            pick == |i: int| container_advice(r, i),
            i <= root.filetypes@.len(),
            out.deep_view() == collect(i as int, pick),
        decreases root.filetypes@.len() - i,
    {
        let ghost before = out.deep_view();
        match &root.filetypes[i].1.container {
            Some(container) => {
                let found = find_filetype(&root.filetypes, container.as_str());
                proof {
                    r.filetype_ids().index_of_first_ensures(container@);
                    assert(r.filetype_ids() =~= ids_of(r.filetypes));
                }
                if found.is_none() {
                    let w = Warning::UnknownContainer {
                        filetype: root.filetypes[i].0.clone(),
                        container: container.clone(),
                    };
                    out.push(w);
                    assert(out.deep_view() =~= before.push(w@));
                }
            },
            None => {},
        }
        i += 1;
    }

    let ghost first = out.deep_view();
    let ghost mut parts: Seq<Seq<WarningView>> = Seq::empty();
    let mut i: usize = 0;
    assert(out.deep_view() =~= first + parts.flatten());
    while i < root.filetypes.len()
        invariant
            r == root@,
            b == builtins.deep_view(),
            r.filetypes == root.filetypes.deep_view(),
            per_filetype == |i: int| filetype_advice(r, b, i),
            i <= root.filetypes@.len(),
            parts == Seq::new(i as nat, per_filetype),
            out.deep_view() == first + parts.flatten(),
        decreases root.filetypes@.len() - i,
    {
        let unknown = unknown_among(root, builtins, &root.filetypes[i].1.handler);
        let ghost start = out.deep_view();
        let ghost added = filetype_advice(r, b, i as int);
        let mut k: usize = 0;
        assert(out.deep_view() =~= start + added.take(0));
        while k < unknown.len()
            invariant
                r == root@,
                r.filetypes == root.filetypes.deep_view(),
                i < root.filetypes@.len(),
                added == filetype_advice(r, b, i as int),
                unknown.deep_view() == unknown_handlers(r, b, r.filetypes[i as int].1.handler),
                k <= unknown@.len(),
                out.deep_view() == start + added.take(k as int),
            decreases unknown@.len() - k,
        {
            let ghost before = out.deep_view();
            let w = Warning::UnknownFiletypeHandler {
                filetype: root.filetypes[i].0.clone(),
                handler: unknown[k].clone(),
            };
            out.push(w);
            proof {
                assert(added[k as int] == w@);
                assert(out.deep_view() =~= before.push(w@));
                assert(start + added.take(k + 1) =~= (start + added.take(k as int)).push(
                    added[k as int],
                ));
            }
            k += 1;
        }
        proof {
            assert(added.take(added.len() as int) =~= added);
            parts.lemma_flatten_push(added);
            assert(parts.push(added) =~= Seq::new((i + 1) as nat, per_filetype));
            parts = parts.push(added);
        }
        i += 1;
    }

    let ghost second = out.deep_view();
    let ghost mut parts: Seq<Seq<WarningView>> = Seq::empty();
    let mut i: usize = 0;
    assert(out.deep_view() =~= second + parts.flatten());
    while i < root.overrides.len()
        invariant
            r == root@,
            b == builtins.deep_view(),
            r.overrides == root.overrides.deep_view(),
            per_override == |i: int| override_advice(r, b, i),
            i <= root.overrides@.len(),
            parts == Seq::new(i as nat, per_override),
            out.deep_view() == second + parts.flatten(),
        decreases root.overrides@.len() - i,
    {
        let rule = &root.overrides[i];
        let unknown = unknown_among(root, builtins, &rule.handler);
        let ghost start = out.deep_view();
        let ghost named = unknown_handlers(r, b, r.overrides[i as int].handler).map_values(
            |handler: Seq<char>|
                WarningView::UnknownOverrideHandler { path: r.overrides[i as int].path, handler },
        );
        let ghost added = override_advice(r, b, i as int);
        let mut k: usize = 0;
        assert(out.deep_view() =~= start + named.take(0));
        while k < unknown.len()
            invariant
                r == root@,
                r.overrides == root.overrides.deep_view(),
                i < root.overrides@.len(),
                rule == &root.overrides@[i as int],
                named == unknown_handlers(r, b, r.overrides[i as int].handler).map_values(
                    |handler: Seq<char>|
                        WarningView::UnknownOverrideHandler {
                            path: r.overrides[i as int].path,
                            handler,
                        },
                ),
                unknown.deep_view() == unknown_handlers(r, b, r.overrides[i as int].handler),
                k <= unknown@.len(),
                out.deep_view() == start + named.take(k as int),
            decreases unknown@.len() - k,
        {
            let ghost before = out.deep_view();
            let w = Warning::UnknownOverrideHandler {
                path: rule.path.clone(),
                handler: unknown[k].clone(),
            };
            out.push(w);
            proof {
                assert(named[k as int] == w@);
                assert(out.deep_view() =~= before.push(w@));
                assert(start + named.take(k + 1) =~= (start + named.take(k as int)).push(
                    named[k as int],
                ));
            }
            k += 1;
        }
        assert(named.take(named.len() as int) =~= named);
        let ghost before = out.deep_view();
        if str_eq(rule.path.as_str(), "*") || str_eq(rule.path.as_str(), "*.*") {
            let w = Warning::BroadOverride { path: rule.path.clone() };
            out.push(w);
            assert(out.deep_view() =~= before.push(w@));
        }
        proof {
            assert(out.deep_view() =~= start + added);
            parts.lemma_flatten_push(added);
            assert(parts.push(added) =~= Seq::new((i + 1) as nat, per_override));
            parts = parts.push(added);
        }
        i += 1;
    }
    assert(out.deep_view() =~= advice(r, b));
    out
}

} // verus!
