//! From a configuration and what is known of a path to the handlers to run.
//!
//! The override rules come first: the first one whose glob matches the path
//! decides, if it ignores or names handlers. Else the filetype is detected by
//! extension or header, and its handlers are its own or those of the nearest
//! container that has any.
//!
//! Choices that this library makes:
//! - An extension matches when it is equal, character by character, to one of
//!   the filetype's extensions: upper and lower case differ.
//! - Among several matching filetypes, one that is the `container` of another
//!   matching filetype is passed over; of the rest, the first in the order of
//!   the configuration is taken.
//! - A directory is never handed to a handler: it is skipped where an override
//!   ignores it, and unrecognized else.

use vstd::prelude::*;
use crate::config::containers::{find_filetype, ids_of};
use crate::config::schema::{
    lemma_items_view, Filetype, FiletypeView, OneOrList, OverrideView, Root, RootView,
};
use crate::config::validate::valid;
use crate::text::str_eq;

verus! {

/// What is known of a path.
#[derive(Debug, PartialEq, Eq)]
pub struct PathFacts {
    /// The path itself, for the globs of the override rules
    pub path: String,
    /// The extension of the file name, without the period, if it has one
    pub extension: Option<String>,
    /// The first bytes of the file
    pub header: Vec<u8>,
    /// Whether the path is a directory
    pub is_directory: bool,
}

/// The mathematical value of a [`PathFacts`].
pub struct PathFactsView {
    pub path: Seq<char>,
    pub extension: Option<Seq<char>>,
    pub header: Seq<u8>,
    pub is_directory: bool,
}

impl DeepView for PathFacts {
    type V = PathFactsView;

    open spec fn deep_view(&self) -> PathFactsView {
        PathFactsView {
            path: self.path@,
            extension: self.extension.deep_view(),
            header: self.header@,
            is_directory: self.is_directory,
        }
    }
}

impl View for PathFacts {
    type V = PathFactsView;

    open spec fn view(&self) -> PathFactsView {
        self.deep_view()
    }
}

/// What is to be done with a path.
#[derive(Debug, PartialEq, Eq)]
pub enum ResolvedChain {
    /// Nothing: an override ignores it. A directory is not entered.
    Skip,
    /// These handlers are tried, in this order
    Handlers(Vec<String>),
    /// No rule and no filetype gives it a handler
    Unrecognized,
}

/// The mathematical value of a [`ResolvedChain`].
pub enum ResolvedView {
    Skip,
    Handlers(Seq<Seq<char>>),
    Unrecognized,
}

impl DeepView for ResolvedChain {
    type V = ResolvedView;

    open spec fn deep_view(&self) -> ResolvedView {
        match self {
            ResolvedChain::Skip => ResolvedView::Skip,
            ResolvedChain::Handlers(list) => ResolvedView::Handlers(list.deep_view()),
            ResolvedChain::Unrecognized => ResolvedView::Unrecognized,
        }
    }
}

impl View for ResolvedChain {
    type V = ResolvedView;

    open spec fn view(&self) -> ResolvedView {
        self.deep_view()
    }
}

/// The handlers that a filetype names itself, if it names any.
pub open spec fn own_handlers(ft: FiletypeView) -> Option<Seq<Seq<char>>> {
    match ft.handler {
        Some(list) => if list.len() > 0 {
            Some(list)
        } else {
            None
        },
        None => None,
    }
}

/// The handlers of the filetype at position `at`: its own or, following
/// `container`, those of the first filetype that names any. `steps` counts
/// the containers followed so far; after as many as there are filetypes the
/// search gives up, as it does where a container names no filetype.
pub open spec fn handler_chain(fts: Seq<(Seq<char>, FiletypeView)>, at: int, steps: nat) -> Option<
    Seq<Seq<char>>,
>
    decreases fts.len() - steps,
{
    match own_handlers(fts[at].1) {
        Some(list) => Some(list),
        None => match fts[at].1.container {
            None => None,
            Some(container) => match ids_of(fts).index_of_first(container) {
                None => None,
                Some(next) => if steps < fts.len() {
                    handler_chain(fts, next, steps + 1)
                } else {
                    None
                },
            },
        },
    }
}

/// The handlers of the filetype with the id `id`.
pub open spec fn chain_of(root: RootView, id: Seq<char>) -> Option<Seq<Seq<char>>> {
    match ids_of(root.filetypes).index_of_first(id) {
        Some(at) => handler_chain(root.filetypes, at, 0),
        None => None,
    }
}

/// Whether `pattern` stands in `data` at position `offset`.
pub open spec fn pattern_at(data: Seq<u8>, offset: int, pattern: Seq<u8>) -> bool {
    offset + pattern.len() <= data.len() && data.subrange(offset, offset + pattern.len())
        == pattern
}

/// Whether a filetype's extensions hold that of the path.
pub open spec fn extension_matches(ft: FiletypeView, facts: PathFactsView) -> bool {
    facts.extension is Some && ft.extension is Some && ft.extension->0.contains(
        facts.extension->0,
    )
}

/// Whether one of a filetype's header patterns stands in the file at the filetype's offset.
pub open spec fn header_matches(ft: FiletypeView, facts: PathFactsView) -> bool {
    ft.header is Some && exists|k: int|
        0 <= k < ft.header->0.len() && pattern_at(
            facts.header,
            ft.header_offset as int,
            #[trigger] ft.header->0[k],
        )
}

/// Whether a filetype matches a path: by extension or by header.
pub open spec fn matches(ft: FiletypeView, facts: PathFactsView) -> bool {
    extension_matches(ft, facts) || header_matches(ft, facts)
}

/// Whether the filetype at position `i` is the container of a matching filetype.
pub open spec fn outranked(fts: Seq<(Seq<char>, FiletypeView)>, facts: PathFactsView, i: int) -> bool {
    exists|j: int|
        0 <= j < fts.len() && matches(#[trigger] fts[j].1, facts) && fts[j].1.container == Some(
            fts[i].0,
        )
}

/// Whether the filetype at position `i` matches and is not outranked.
pub open spec fn is_candidate(
    fts: Seq<(Seq<char>, FiletypeView)>,
    facts: PathFactsView,
    i: int,
) -> bool {
    matches(fts[i].1, facts) && !outranked(fts, facts, i)
}

/// The position of the first candidate at or after `from`.
pub open spec fn detected_from(
    fts: Seq<(Seq<char>, FiletypeView)>,
    facts: PathFactsView,
    from: int,
) -> Option<int>
    decreases fts.len() - from,
{
    if from < 0 || from >= fts.len() {
        None
    } else if is_candidate(fts, facts, from) {
        Some(from)
    } else {
        detected_from(fts, facts, from + 1)
    }
}

/// The position of the filetype that a path is detected as.
pub open spec fn detected(fts: Seq<(Seq<char>, FiletypeView)>, facts: PathFactsView) -> Option<int> {
    detected_from(fts, facts, 0)
}

/// Whether the override at position `i` matches, by the list of matches
/// `hits`. A rule for which the list says nothing does not match.
pub open spec fn hit_at(hits: Seq<bool>, i: int) -> bool {
    0 <= i < hits.len() && hits[i]
}

/// The position of the first of the `n` overrides, at or after `from`, that matches.
pub open spec fn first_hit_from(hits: Seq<bool>, n: int, from: int) -> Option<int>
    decreases n - from,
{
    if from < 0 || from >= n {
        None
    } else if hit_at(hits, from) {
        Some(from)
    } else {
        first_hit_from(hits, n, from + 1)
    }
}

/// What the override rules decide, if they decide: the first matching rule
/// skips the path if it ignores, and else gives a file its handlers if it
/// names any.
pub open spec fn decided(overrides: Seq<OverrideView>, hits: Seq<bool>, is_directory: bool) -> Option<
    ResolvedView,
> {
    match first_hit_from(hits, overrides.len() as int, 0) {
        Some(i) => {
            let rule = overrides[i];
            if rule.ignore {
                Some(ResolvedView::Skip)
            } else if !is_directory && rule.handler is Some && rule.handler->0.len() > 0 {
                Some(ResolvedView::Handlers(rule.handler->0))
            } else {
                None
            }
        },
        None => None,
    }
}

/// What autodetection gives for a path.
pub open spec fn autodetected(root: RootView, facts: PathFactsView) -> ResolvedView {
    if facts.is_directory {
        ResolvedView::Unrecognized
    } else {
        match detected(root.filetypes, facts) {
            Some(at) => match handler_chain(root.filetypes, at, 0) {
                Some(list) => ResolvedView::Handlers(list),
                None => ResolvedView::Unrecognized,
            },
            None => ResolvedView::Unrecognized,
        }
    }
}

/// What is to be done with a path, where `hits` says which overrides match it.
pub open spec fn resolution(root: RootView, hits: Seq<bool>, facts: PathFactsView) -> ResolvedView {
    match decided(root.overrides, hits, facts.is_directory) {
        Some(r) => r,
        None => autodetected(root, facts),
    }
}

/// A copy of the items of a field, as a list.
fn items_to_vec(field: &OneOrList<String>) -> (out: Vec<String>)
    ensures
        out.deep_view() == field@,
{
    proof {
        lemma_items_view(*field);
    }
    let n = field.len();
    let mut out: Vec<String> = Vec::new();
    let mut i: usize = 0;
    while i < n
        invariant
            n == field.items().len(),
            field@.len() == n,
            forall|j: int| 0 <= j < n ==> (#[trigger] field@[j]) == field.items()[j]@,
            i <= n,
            out@.len() == i,
            forall|j: int| 0 <= j < i ==> out@[j]@ == (#[trigger] field.items()[j])@,
        decreases n - i,
    {
        out.push(field.get(i).clone());
        i += 1;
    }
    assert(out.deep_view() =~= field@);
    out
}

/// The handlers that a filetype names itself.
fn own_chain(ft: &Filetype) -> (out: Option<Vec<String>>)
    ensures
        out.deep_view() == own_handlers(ft@),
{
    match &ft.handler {
        Some(field) => {
            proof {
                lemma_items_view(*field);
            }
            if field.len() > 0 {
                Some(items_to_vec(field))
            } else {
                None
            }
        },
        None => None,
    }
}

/// The handlers of the filetype at position `start`.
fn chain_from(filetypes: &Vec<(String, Filetype)>, start: usize) -> (out: Option<Vec<String>>)
    requires
        start < filetypes@.len(),
    ensures
        out.deep_view() == handler_chain(filetypes.deep_view(), start as int, 0),
{
    let ghost fts = filetypes.deep_view();
    let mut at: usize = start;
    let mut steps: usize = 0;
    loop
        invariant
            fts == filetypes.deep_view(),
            at < filetypes@.len(),
            steps <= filetypes@.len(),
            handler_chain(fts, start as int, 0) == handler_chain(fts, at as int, steps as nat),
        decreases filetypes@.len() - steps,
    {
        match own_chain(&filetypes[at].1) {
            Some(list) => {
                return Some(list);
            },
            None => {},
        }
        match &filetypes[at].1.container {
            None => {
                return None;
            },
            Some(container) => match find_filetype(filetypes, container.as_str()) {
                None => {
                    return None;
                },
                Some(next) => {
                    if steps >= filetypes.len() {
                        return None;
                    }
                    at = next;
                    steps += 1;
                },
            },
        }
    }
}

/// The effective handler chain of the filetype with the id `id`: its own
/// handlers or, following `container`, those of the first filetype that names
/// any. `None` where no filetype has the id, or the search finds no handlers.
/// For a filetype of a valid configuration there is always a chain, and it is
/// not empty.
pub fn resolve_handler_chain(root: &Root, id: &str) -> (out: Option<Vec<String>>)
    ensures
        out.deep_view() == chain_of(root@, id@),
        valid(root@) && ids_of(root@.filetypes).contains(id@) ==> out is Some && out->0@.len() > 0,
{
    proof {
        if valid(root@) && ids_of(root@.filetypes).contains(id@) {
            crate::theorems::theorem_valid_id_resolves(root@, id@);
        }
    }
    match find_filetype(&root.filetypes, id) {
        Some(at) => chain_from(&root.filetypes, at),
        None => None,
    }
}

/// Whether `pattern` stands in `data` at position `offset`.
fn has_pattern_at(data: &Vec<u8>, offset: usize, pattern: &Vec<u8>) -> (yes: bool)
    ensures
        yes == pattern_at(data@, offset as int, pattern@),
{
    if offset > data.len() {
        return false;
    }
    if pattern.len() > data.len() - offset {
        return false;
    }
    let mut k: usize = 0;
    while k < pattern.len()
        invariant
            offset + pattern@.len() <= data@.len(),
            data@.len() <= usize::MAX,
            k <= pattern@.len(),
            forall|j: int| 0 <= j < k ==> data@[offset + j] == pattern@[j],
        decreases pattern@.len() - k,
    {
        if data[offset + k] != pattern[k] {
            assert(data@.subrange(offset as int, offset + pattern@.len())[k as int] != pattern@[k as int]);
            return false;
        }
        k += 1;
    }
    assert(data@.subrange(offset as int, offset + pattern@.len()) =~= pattern@);
    true
}

/// Whether a filetype matches a path.
fn filetype_matches(ft: &Filetype, facts: &PathFacts) -> (yes: bool)
    ensures
        yes == matches(ft@, facts@),
{
    match (&facts.extension, &ft.extension) {
        (Some(ext), Some(list)) => {
            proof {
                lemma_items_view(*list);
            }
            let n = list.len();
            let mut i: usize = 0;
            while i < n
                invariant
                    facts@.extension == Some(ext@),
                    ft@.extension == Some(list@),
                    n == list.items().len(),
                    list@.len() == n,
                    i <= n,
                    forall|j: int| 0 <= j < n ==> list@[j] == (#[trigger] list.items()[j])@,
                    forall|j: int| 0 <= j < i ==> list@[j] != ext@,
                decreases n - i,
            {
                if str_eq(list.get(i).as_str(), ext.as_str()) {
                    assert(list@[i as int] == ext@);
                    return true;
                }
                i += 1;
            }
            assert(!extension_matches(ft@, facts@));
        },
        _ => {},
    }
    match &ft.header {
        Some(list) => {
            proof {
                lemma_items_view(*list);
            }
            let n = list.len();
            let mut i: usize = 0;
            while i < n
                invariant
                    !extension_matches(ft@, facts@),
                    ft@.header == Some(list@),
                    n == list.items().len(),
                    list@.len() == n,
                    i <= n,
                    forall|j: int|
                        0 <= j < n ==> list@[j] == (#[trigger] list.items()[j]).deep_view(),
                    forall|j: int|
                        0 <= j < i ==> !pattern_at(
                            facts.header@,
                            ft.header_offset as int,
                            #[trigger] list@[j],
                        ),
                decreases n - i,
            {
                let pattern = list.get(i);
                assert(pattern.deep_view() =~= pattern@);
                if has_pattern_at(&facts.header, ft.header_offset, pattern) {
                    assert(ft@.header->0[i as int] == list@[i as int]);
                    assert(pattern_at(
                        facts@.header,
                        ft@.header_offset as int,
                        ft@.header->0[i as int],
                    ));
                    return true;
                }
                i += 1;
            }
            false
        },
        None => false,
    }
}

/// Whether the filetype at position `i` is the container of a matching filetype.
fn is_outranked(filetypes: &Vec<(String, Filetype)>, facts: &PathFacts, i: usize) -> (yes: bool)
    requires
        i < filetypes@.len(),
    ensures
        yes == outranked(filetypes.deep_view(), facts@, i as int),
{
    let ghost fts = filetypes.deep_view();
    let mut j: usize = 0;
    while j < filetypes.len()
        invariant
            fts == filetypes.deep_view(),
            i < filetypes@.len(),
            j <= filetypes@.len(),
            forall|k: int|
                0 <= k < j ==> !(matches(#[trigger] fts[k].1, facts@) && fts[k].1.container == Some(
                    fts[i as int].0,
                )),
        decreases filetypes@.len() - j,
    {
        let names_it = match &filetypes[j].1.container {
            Some(container) => str_eq(container.as_str(), filetypes[i].0.as_str()),
            None => false,
        };
        if names_it && filetype_matches(&filetypes[j].1, facts) {
            assert(matches(fts[j as int].1, facts@) && fts[j as int].1.container == Some(
                fts[i as int].0,
            ));
            return true;
        }
        j += 1;
    }
    false
}

/// The position of the filetype that a path is detected as.
pub fn detect(root: &Root, facts: &PathFacts) -> (found: Option<usize>)
    ensures
        match found {
            Some(at) => detected(root@.filetypes, facts@) == Some(at as int) && at
                < root.filetypes@.len(),
            None => detected(root@.filetypes, facts@) is None,
        },
{
    let ghost fts = root@.filetypes;
    let mut i: usize = 0;
    while i < root.filetypes.len()
        invariant
            fts == root@.filetypes,
            fts == root.filetypes.deep_view(),
            i <= root.filetypes@.len(),
            detected(fts, facts@) == detected_from(fts, facts@, i as int),
        decreases root.filetypes@.len() - i,
    {
        if filetype_matches(&root.filetypes[i].1, facts) && !is_outranked(
            &root.filetypes,
            facts,
            i,
        ) {
            return Some(i);
        }
        i += 1;
    }
    None
}

/// The position of the first override that matches, by the list of matches `hits`.
pub fn first_match(root: &Root, hits: &Vec<bool>) -> (found: Option<usize>)
    ensures
        match found {
            Some(i) => first_hit_from(hits@, root.overrides@.len() as int, 0) == Some(i as int)
                && i < root.overrides@.len(),
            None => first_hit_from(hits@, root.overrides@.len() as int, 0) is None,
        },
{
    let n = root.overrides.len();
    let mut i: usize = 0;
    while i < n
        invariant
            n == root.overrides@.len(),
            i <= n,
            first_hit_from(hits@, n as int, 0) == first_hit_from(hits@, n as int, i as int),
        decreases n - i,
    {
        if i < hits.len() && hits[i] {
            return Some(i);
        }
        i += 1;
    }
    None
}

/// Decides what is to be done with a path, where `hits` says for each
/// override, by its position, whether its glob matches the path.
pub fn resolve_with(root: &Root, hits: &Vec<bool>, facts: &PathFacts) -> (out: ResolvedChain)
    ensures
        out@ == resolution(root@, hits@, facts@),
{
    match first_match(root, hits) {
        Some(i) => {
            let rule = &root.overrides[i];
            assert(root@.overrides[i as int] == rule@);
            if rule.ignore {
                return ResolvedChain::Skip;
            }
            if !facts.is_directory {
                match &rule.handler {
                    Some(field) => {
                        proof {
                            lemma_items_view(*field);
                        }
                        if field.len() > 0 {
                            return ResolvedChain::Handlers(items_to_vec(field));
                        }
                    },
                    None => {},
                }
            }
        },
        None => {},
    }
    if facts.is_directory {
        return ResolvedChain::Unrecognized;
    }
    match detect(root, facts) {
        Some(at) => match chain_from(&root.filetypes, at) {
            Some(list) => ResolvedChain::Handlers(list),
            None => ResolvedChain::Unrecognized,
        },
        None => ResolvedChain::Unrecognized,
    }
}


/// A matcher of the `ignore` crate for the lines of a gitignore file. Nothing
/// of what it holds is visible here.
#[verifier::external_type_specification]
#[verifier::external_body]
pub struct ExGitignore(ignore::gitignore::Gitignore);

/// Whether a glob matches a path: whether the `ignore` crate's gitignore
/// matcher for the single line `pattern`, rooted at the empty path, ignores
/// `path`.
pub uninterp spec fn glob_match(pattern: Seq<char>, path: Seq<char>, is_directory: bool) -> bool;

/// The line that a matcher was compiled from.
pub uninterp spec fn glob_pattern(matcher: ignore::gitignore::Gitignore) -> Seq<char>;

/// `ignore::gitignore::GitignoreBuilder::new` with the empty path as root,
/// `add_line` with `pattern`, and `build`: the matcher for that single line. A
/// line that the crate refuses gives a matcher without globs, which matches
/// nothing.
#[verifier::external_body]
fn compile_glob(pattern: &str) -> (matcher: ignore::gitignore::Gitignore)
    ensures
        glob_pattern(matcher) == pattern@,
{
    let mut builder = ignore::gitignore::GitignoreBuilder::new("");
    let _ = builder.add_line(None, pattern);
    builder.build().unwrap_or_else(|_| ignore::gitignore::Gitignore::empty())
}

/// `ignore::gitignore::Gitignore::matched`, then `Match::is_ignore`: whether
/// the matcher's line ignores the path. The answer depends on the line, the
/// path and `is_directory` alone.
#[verifier::external_body]
fn glob_hit(matcher: &ignore::gitignore::Gitignore, path: &str, is_directory: bool) -> (hit: bool)
    ensures
        hit == glob_match(glob_pattern(*matcher), path@, is_directory),
{
    matcher.matched(path, is_directory).is_ignore()
}

/// The globs of the override rules, compiled once for all paths.
pub struct OverrideTable {
    matchers: Vec<ignore::gitignore::Gitignore>,
}

impl OverrideTable {
    /// The globs that the table was compiled from, in order.
    pub closed spec fn patterns(&self) -> Seq<Seq<char>> {
        Seq::new(self.matchers@.len(), |i: int| glob_pattern(self.matchers@[i]))
    }

    /// Compiles the globs of the overrides of a configuration.
    pub fn new(root: &Root) -> (table: OverrideTable)
        ensures
            table.patterns() == globs_of(root@.overrides),
    {
        let mut matchers: Vec<ignore::gitignore::Gitignore> = Vec::new();
        let mut i: usize = 0;
        while i < root.overrides.len()
            invariant
                i <= root.overrides@.len(),
                matchers@.len() == i,
                forall|j: int|
                    0 <= j < i ==> glob_pattern(#[trigger] matchers@[j]) == root@.overrides[j].path,
            decreases root.overrides@.len() - i,
        {
            let matcher = compile_glob(root.overrides[i].path.as_str());
            assert(root@.overrides[i as int].path == root.overrides@[i as int].path@);
            matchers.push(matcher);
            i += 1;
        }
        let table = OverrideTable { matchers };
        assert(table.patterns() =~= globs_of(root@.overrides));
        table
    }

    /// Says for each glob of the table whether it matches the path.
    pub fn hits(&self, facts: &PathFacts) -> (hits: Vec<bool>)
        ensures
            hits@ == hits_of(self.patterns(), facts@),
    {
        let mut hits: Vec<bool> = Vec::new();
        let mut i: usize = 0;
        while i < self.matchers.len()
            invariant
                i <= self.matchers@.len(),
                hits@.len() == i,
                forall|j: int|
                    0 <= j < i ==> hits@[j] == glob_match(
                        glob_pattern(self.matchers@[j]),
                        facts@.path,
                        facts@.is_directory,
                    ),
            decreases self.matchers@.len() - i,
        {
            let hit = glob_hit(&self.matchers[i], facts.path.as_str(), facts.is_directory);
            hits.push(hit);
            i += 1;
        }
        assert(hits@ =~= hits_of(self.patterns(), facts@));
        hits
    }
}

/// The globs of a list of overrides, in order.
pub open spec fn globs_of(overrides: Seq<OverrideView>) -> Seq<Seq<char>> {
    overrides.map_values(|rule: OverrideView| rule.path)
}

/// Which globs match a path, by position.
pub open spec fn hits_of(patterns: Seq<Seq<char>>, facts: PathFactsView) -> Seq<bool> {
    Seq::new(patterns.len(), |i: int| glob_match(patterns[i], facts.path, facts.is_directory))
}

/// Decides what is to be done with a path: matches the globs of `table`
/// against it, then decides as [`resolve_with`] does. For a table compiled
/// from `root` these are the globs of the overrides of `root`.
pub fn resolve(root: &Root, table: &OverrideTable, facts: &PathFacts) -> (out: ResolvedChain)
    ensures
        out@ == resolution(root@, hits_of(table.patterns(), facts@), facts@),
{
    let hits = table.hits(facts);
    resolve_with(root, &hits, facts)
}

/// The least of `a + b` and the greatest `usize`.
pub open spec fn capped_sum(a: int, b: int) -> int {
    if a + b > usize::MAX {
        usize::MAX as int
    } else {
        a + b
    }
}

/// The length of the longest of the first `n` patterns.
pub open spec fn longest(patterns: Seq<Seq<u8>>, n: int) -> int
    decreases n,
{
    if n <= 0 {
        0
    } else if patterns[n - 1].len() > longest(patterns, n - 1) {
        patterns[n - 1].len() as int
    } else {
        longest(patterns, n - 1)
    }
}

/// How many bytes from the start of a file a filetype looks at, at most the
/// greatest `usize`; none where it has no header patterns.
pub open spec fn filetype_reach(ft: FiletypeView) -> int {
    match ft.header {
        Some(patterns) => capped_sum(
            ft.header_offset as int,
            longest(patterns, patterns.len() as int),
        ),
        None => 0,
    }
}

/// How many bytes from the start of a file the first `n` filetypes look at.
pub open spec fn reach(fts: Seq<(Seq<char>, FiletypeView)>, n: int) -> int
    decreases n,
{
    if n <= 0 {
        0
    } else if filetype_reach(fts[n - 1].1) > reach(fts, n - 1) {
        filetype_reach(fts[n - 1].1)
    } else {
        reach(fts, n - 1)
    }
}

/// How many bytes from the start of a file detection looks at: with that
/// many bytes as [`PathFacts::header`], or with all the bytes of a shorter
/// file, every header pattern is matched as on the whole file.
pub fn header_reach(root: &Root) -> (bytes: usize)
    ensures
        bytes == reach(root@.filetypes, root@.filetypes.len() as int),
{
    let ghost fts = root@.filetypes;
    let mut bytes: usize = 0;
    let mut i: usize = 0;
    while i < root.filetypes.len()
        invariant
            fts == root@.filetypes,
            fts == root.filetypes.deep_view(),
            i <= root.filetypes@.len(),
            bytes == reach(fts, i as int),
        decreases root.filetypes@.len() - i,
    {
        let ft = &root.filetypes[i].1;
        let mut here: usize = 0;
        match &ft.header {
            Some(list) => {
                proof {
                    lemma_items_view(*list);
                }
                let n = list.len();
                let mut most: usize = 0;
                let mut k: usize = 0;
                while k < n
                    invariant
                        n == list.items().len(),
                        list@.len() == n,
                        forall|j: int|
                            0 <= j < n ==> (#[trigger] list@[j]) == list.items()[j].deep_view(),
                        k <= n,
                        most == longest(list@, k as int),
                    decreases n - k,
                {
                    let pattern = list.get(k);
                    assert(pattern.deep_view().len() == pattern@.len());
                    if pattern.len() > most {
                        most = pattern.len();
                    }
                    k += 1;
                }
                here = if most > usize::MAX - ft.header_offset {
                    usize::MAX
                } else {
                    ft.header_offset + most
                };
            },
            None => {},
        }
        assert(here == filetype_reach(fts[i as int].1));
        if here > bytes {
            bytes = here;
        }
        i += 1;
    }
    bytes
}

} // verus!
