//! The rule on the whole document: every `container` names a filetype, and
//! following `container` from a filetype never comes back to an id already seen.

use vstd::prelude::*;
use crate::config::errors::{ValidationError, ValidationErrorView};
use crate::config::rules::{new_error, outcome, rule_error};
use crate::config::schema::{Filetype, FiletypeView, Root};
use crate::seqs::collect;
use crate::text::{followed_by, join, join_strings, str_eq};

verus! {

/// The ids of a list of filetypes, in order.
pub open spec fn ids_of(fts: Seq<(Seq<char>, FiletypeView)>) -> Seq<Seq<char>> {
    fts.map_values(|e: (Seq<char>, FiletypeView)| e.0)
}

/// Where following `container` from a filetype leads.
pub enum Walk {
    /// To the filetype at this position, which has no container
    End(int),
    /// Back to an id that was already seen; the ids in the order of the walk, the repeated one last
    Cycle(Seq<Seq<char>>),
    /// To an id that names no filetype
    Missing(Seq<char>),
}

/// Follows `container` from the filetype at position `at`, where `chain` holds
/// the ids seen so far, that of `at` last.
///
/// A chain that holds each id once, all of them ids of `fts`, is never as long
/// as the bound that ends the recursion asks ([`lemma_chain_fits`]).
pub open spec fn walk(fts: Seq<(Seq<char>, FiletypeView)>, chain: Seq<Seq<char>>, at: int) -> Walk
    decreases fts.len() - chain.len(),
{
    match fts[at].1.container {
        None => Walk::End(at),
        Some(container) => {
            if chain.contains(container) {
                Walk::Cycle(chain.push(container))
            } else {
                match ids_of(fts).index_of_first(container) {
                    None => Walk::Missing(container),
                    Some(next) => {
                        if chain.len() < fts.len() {
                            walk(fts, chain.push(container), next)
                        } else {
                            Walk::Cycle(chain.push(container))
                        }
                    },
                }
            }
        },
    }
}

/// The violation that a cycle is reported with.
pub open spec fn cycle_error(chain: Seq<Seq<char>>) -> ValidationErrorView {
    rule_error("container_cycle"@, "Cyclical 'container' dependency: "@ + join(chain, " -> "@))
}

/// The violation that a container without a filetype is reported with.
pub open spec fn missing_error(id: Seq<char>, container: Seq<char>) -> ValidationErrorView {
    rule_error(
        "container_not_found"@,
        "'container' for "@ + id + " not found: "@ + container,
    )
}

/// The violation found by following `container` from the filetype at position `start`.
pub open spec fn container_error(fts: Seq<(Seq<char>, FiletypeView)>, start: int) -> Option<
    ValidationErrorView,
> {
    match walk(fts, seq![fts[start].0], start) {
        Walk::End(_) => None,
        Walk::Cycle(chain) => Some(cycle_error(chain)),
        Walk::Missing(container) => Some(missing_error(fts[start].0, container)),
    }
}

/// The violations of all filetypes, in the order of the filetypes.
pub open spec fn container_errors(fts: Seq<(Seq<char>, FiletypeView)>) -> Seq<ValidationErrorView> {
    collect(fts.len() as int, |i: int| container_error(fts, i))
}

/// A chain of distinct ids, all of them ids of `fts`, is no longer than `fts`.
pub proof fn lemma_chain_fits(fts: Seq<(Seq<char>, FiletypeView)>, chain: Seq<Seq<char>>)
    requires
        chain.no_duplicates(),
        forall|k: int| 0 <= k < chain.len() ==> ids_of(fts).contains(#[trigger] chain[k]),
    ensures
        chain.len() <= fts.len(),
{
    let ids = ids_of(fts);
    chain.unique_seq_to_set();
    ids.lemma_cardinality_of_set();
    assert(chain.to_set().subset_of(ids.to_set())) by {
        assert forall|id: Seq<char>| chain.to_set().contains(id) implies ids.to_set().contains(
            id,
        ) by {
            let k = choose|k: int| 0 <= k < chain.len() && chain[k] == id;
            assert(ids.contains(chain[k]));
        }
    }
    vstd::set_lib::lemma_len_subset(chain.to_set(), ids.to_set());
}

/// The position of the first filetype with the id `id`.
pub fn find_filetype(filetypes: &Vec<(String, Filetype)>, id: &str) -> (found: Option<usize>)
    ensures
        match found {
            Some(i) => ids_of(filetypes.deep_view()).index_of_first(id@) == Some(i as int) && i
                < filetypes@.len(),
            None => ids_of(filetypes.deep_view()).index_of_first(id@) is None,
        },
{
    let ghost ids = ids_of(filetypes.deep_view());
    let mut i: usize = 0;
    while i < filetypes.len()
        invariant
            i <= filetypes@.len(),
            ids == ids_of(filetypes.deep_view()),
            forall|j: int| 0 <= j < i ==> ids[j] != id@,
        decreases filetypes@.len() - i,
    {
        if str_eq(filetypes[i].0.as_str(), id) {
            proof {
                assert(ids[i as int] == id@);
                ids.index_of_first_ensures(id@);
            }
            return Some(i);
        }
        assert(ids[i as int] != id@);
        i += 1;
    }
    proof {
        ids.index_of_first_ensures(id@);
    }
    None
}

/// Whether `id` is among `chain`.
fn chain_contains(chain: &Vec<String>, id: &str) -> (found: bool)
    ensures
        found == chain.deep_view().contains(id@),
{
    let mut i: usize = 0;
    while i < chain.len()
        invariant
            i <= chain@.len(),
            forall|j: int| 0 <= j < i ==> chain.deep_view()[j] != id@,
        decreases chain@.len() - i,
    {
        if str_eq(chain[i].as_str(), id) {
            assert(chain.deep_view()[i as int] == id@);
            return true;
        }
        i += 1;
    }
    false
}

/// Follows `container` from the filetype at position `start` and reports a
/// cycle or a container that names no filetype.
pub fn check_container(filetypes: &Vec<(String, Filetype)>, start: usize) -> (result: Result<
    (),
    ValidationError,
>)
    requires
        start < filetypes@.len(),
    ensures
        outcome(result) == container_error(filetypes.deep_view(), start as int),
{
    let ghost fts = filetypes.deep_view();
    let ghost ids = ids_of(fts);
    let mut chain: Vec<String> = Vec::new();
    chain.push(filetypes[start].0.clone());
    let mut at: usize = start;
    proof {
        assert(chain.deep_view() =~= seq![fts[start as int].0]);
        assert(ids[start as int] == fts[start as int].0);
    }
    loop
        invariant
            fts == filetypes.deep_view(),
            ids == ids_of(fts),
            start < filetypes@.len(),
            at < filetypes@.len(),
            chain@.len() >= 1,
            chain.deep_view().no_duplicates(),
            forall|k: int| 0 <= k < chain@.len() ==> ids.contains(#[trigger] chain.deep_view()[k]),
            walk(fts, seq![fts[start as int].0], start as int) == walk(
                fts,
                chain.deep_view(),
                at as int,
            ),
        decreases filetypes@.len() - chain@.len(),
    {
        proof {
            lemma_chain_fits(fts, chain.deep_view());
        }
        let ghost before = chain.deep_view();
        match &filetypes[at].1.container {
            None => {
                return Ok(());
            },
            Some(container) => {
                let cycle = chain_contains(&chain, container.as_str());
                chain.push(container.clone());
                assert(chain.deep_view() =~= before.push(container@));
                if cycle {
                    return Err(
                        new_error(
                            "container_cycle",
                            followed_by(
                                "Cyclical 'container' dependency: ",
                                join_strings(&chain, " -> ").as_str(),
                            ),
                        ),
                    );
                }
                match find_filetype(filetypes, container.as_str()) {
                    None => {
                        let message = followed_by(
                            followed_by(
                                followed_by("'container' for ", filetypes[start].0.as_str()).as_str(),
                                " not found: ",
                            ).as_str(),
                            container.as_str(),
                        );
                        return Err(new_error("container_not_found", message));
                    },
                    Some(next) => {
                        proof {
                            ids.index_of_first_ensures(container@);
                            assert forall|k: int| 0 <= k < chain@.len() implies ids.contains(
                                #[trigger] chain.deep_view()[k],
                            ) by {
                                if k < before.len() {
                                    assert(chain.deep_view()[k] == before[k]);
                                }
                            }
                            lemma_chain_fits(fts, chain.deep_view());
                        }
                        at = next;
                    },
                }
            },
        }
    }
}

/// Checks the `container` rule on every filetype and reports all the
/// violations together: one for each filetype from which following
/// `container` comes back to an id or leads to no filetype, in the order of
/// the filetypes.
pub fn validate_root(input: &Root) -> (result: Result<(), Vec<ValidationError>>)
    ensures
        match result {
            Ok(_) => container_errors(input@.filetypes).len() == 0,
            Err(list) => list.deep_view() == container_errors(input@.filetypes) && list@.len() > 0,
        },
{
    let ghost fts = input@.filetypes;
    let ghost pick = |i: int| container_error(fts, i);
    let mut errors: Vec<ValidationError> = Vec::new();
    let mut i: usize = 0;
    assert(errors.deep_view() =~= collect(0, pick));
    while i < input.filetypes.len()
        invariant
            fts == input@.filetypes,
            fts == input.filetypes.deep_view(),
            pick == |i: int| container_error(fts, i),
            i <= input.filetypes@.len(),
            errors.deep_view() == collect(i as int, pick),
        decreases input.filetypes@.len() - i,
    {
        let ghost before = errors.deep_view();
        match check_container(&input.filetypes, i) {
            Ok(_) => {},
            Err(e) => {
                errors.push(e);
                assert(errors.deep_view() =~= before.push(e@));
            },
        }
        i += 1;
    }
    if errors.len() == 0 {
        Ok(())
    } else {
        Err(errors)
    }
}

} // verus!
