//! Results in this crate refer to the entries they were computed from by
//! position. This module holds what the contracts need to speak of positions.

use vstd::prelude::*;

verus! {

/// The positions `0, 1, .., n - 1`, in order.
pub open spec fn positions(n: nat) -> Seq<int> {
    Seq::new(n, |i: int| i)
}

/// A list of positions held as machine integers, read as numbers.
pub open spec fn as_positions(held: Seq<usize>) -> Seq<int> {
    held.map_values(|p: usize| p as int)
}

proof fn lemma_picked_upto<B>(n: nat, each: spec_fn(int) -> Option<B>, m: int)
    requires
        0 <= m <= n,
    ensures
        forall|k: int|
            #![trigger positions(n).take(m).filter_map(each)[k]]
            0 <= k < positions(n).take(m).filter_map(each).len() ==> exists|i: int|
                0 <= i < m && #[trigger] each(i) == Some(
                    positions(n).take(m).filter_map(each)[k],
                ),
        forall|i: int|
            0 <= i < m && (#[trigger] each(i)) is Some ==> positions(n).take(m).filter_map(
                each,
            ).contains(each(i)->0),
    decreases m,
{
    let all = positions(n);
    if m > 0 {
        lemma_picked_upto(n, each, m - 1);
        all.lemma_filter_map_take_succ(each, m - 1);
        let before = all.take(m - 1).filter_map(each);
        let now = all.take(m).filter_map(each);
        assert(all[m - 1] == m - 1);
        assert forall|k: int| #![trigger now[k]] 0 <= k < now.len() implies exists|i: int|
            0 <= i < m && #[trigger] each(i) == Some(now[k]) by {
            if k < before.len() {
                assert(now[k] == before[k]);
                let i = choose|i: int| 0 <= i < m - 1 && #[trigger] each(i) == Some(before[k]);
                assert(0 <= i < m && each(i) == Some(now[k]));
            } else {
                assert(each(m - 1) == Some(now[k]));
            }
        }
        assert forall|i: int| 0 <= i < m && (#[trigger] each(i)) is Some implies now.contains(
            each(i)->0,
        ) by {
            if i < m - 1 {
                let k = choose|k: int| 0 <= k < before.len() && before[k] == each(i)->0;
                assert(now[k] == each(i)->0);
            } else {
                assert(now[now.len() - 1] == each(i)->0);
            }
        }
    }
}

/// What is picked by position is exactly what the choice gives: every entry
/// of `positions(n).filter_map(each)` is what `each` gives for some position
/// below `n`, and whatever `each` gives for such a position is among the
/// entries.
pub proof fn lemma_picked<B>(n: nat, each: spec_fn(int) -> Option<B>)
    ensures
        forall|k: int|
            #![trigger positions(n).filter_map(each)[k]]
            0 <= k < positions(n).filter_map(each).len() ==> exists|i: int|
                0 <= i < n && #[trigger] each(i) == Some(positions(n).filter_map(each)[k]),
        forall|i: int|
            0 <= i < n && (#[trigger] each(i)) is Some ==> positions(n).filter_map(each).contains(
                each(i)->0,
            ),
{
    lemma_picked_upto(n, each, n as int);
    assert(positions(n).take(n as int) =~= positions(n));
}

/// Picking by position looks at the positions only: two choices that agree on
/// the first `m` positions pick the same from them, whatever lies beyond.
pub proof fn lemma_picked_alike<B>(
    n1: nat,
    each1: spec_fn(int) -> Option<B>,
    n2: nat,
    each2: spec_fn(int) -> Option<B>,
    m: int,
)
    requires
        0 <= m <= n1,
        m <= n2,
        forall|i: int| 0 <= i < m ==> #[trigger] each1(i) == each2(i),
    ensures
        positions(n1).take(m).filter_map(each1) == positions(n2).take(m).filter_map(each2),
    decreases m,
{
    if m > 0 {
        lemma_picked_alike(n1, each1, n2, each2, m - 1);
        positions(n1).lemma_filter_map_take_succ(each1, m - 1);
        positions(n2).lemma_filter_map_take_succ(each2, m - 1);
        assert(each1(m - 1) == each2(m - 1));
    } else {
        assert(positions(n1).take(0).filter_map(each1) =~= positions(n2).take(0).filter_map(each2));
    }
}

} // verus!
