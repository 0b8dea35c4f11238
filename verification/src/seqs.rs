//! Facts about sequences that the loops of this library rest on.

use vstd::prelude::*;

verus! {

/// The items that `pick` yields for the positions below `n`, in order.
pub open spec fn collect<T>(n: int, pick: spec_fn(int) -> Option<T>) -> Seq<T>
    decreases n,
{
    if n <= 0 {
        Seq::empty()
    } else {
        match pick(n - 1) {
            Some(item) => collect(n - 1, pick).push(item),
            None => collect(n - 1, pick),
        }
    }
}

/// Filtering one item more either appends that item or changes nothing.
pub proof fn lemma_filter_step<A>(s: Seq<A>, keep: spec_fn(A) -> bool, n: int)
    requires
        0 <= n < s.len(),
    ensures
        s.take(n + 1).filter(keep) == if keep(s[n]) {
            s.take(n).filter(keep).push(s[n])
        } else {
            s.take(n).filter(keep)
        },
{
    reveal(Seq::filter);
    assert(s.take(n + 1).drop_last() =~= s.take(n));
    assert(s.take(n + 1).last() == s[n]);
}

/// Nothing is collected exactly when nothing is picked.
pub proof fn lemma_collect_empty<T>(n: int, pick: spec_fn(int) -> Option<T>)
    ensures
        collect(n, pick).len() == 0 <==> forall|i: int| 0 <= i < n ==> (#[trigger] pick(i)) is None,
    decreases n,
{
    if n > 0 {
        lemma_collect_empty(n - 1, pick);
        if collect(n, pick).len() == 0 {
            assert(pick(n - 1) is None);
            assert forall|i: int| 0 <= i < n implies (#[trigger] pick(i)) is None by {
                if i < n - 1 {
                }
            }
        }
    }
}

/// Whatever is picked at a position below `n` is among the collected items.
pub proof fn lemma_collect_contains<T>(n: int, pick: spec_fn(int) -> Option<T>, i: int)
    requires
        0 <= i < n,
        pick(i) is Some,
    ensures
        collect(n, pick).contains(pick(i)->0),
    decreases n,
{
    if i == n - 1 {
        let all = collect(n, pick);
        assert(all[all.len() - 1] == pick(i)->0);
    } else {
        lemma_collect_contains(n - 1, pick, i);
        let before = collect(n - 1, pick);
        let k = choose|k: int| 0 <= k < before.len() && before[k] == pick(i)->0;
        assert(collect(n, pick)[k] == pick(i)->0);
    }
}

} // verus!
