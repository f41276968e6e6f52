//! The mathematics of a match chain.
//!
//! A list under a filter is abstracted to a sequence of flags, one per index,
//! set where the item at that index matches. Everything the list and the
//! viewport promise is stated over the functions defined here.

use vstd::prelude::*;

verus! {

/// `r` is the smallest index above `i` whose flag is set, or `None` when no
/// flag above `i` is set.
pub open spec fn is_next_hit(flags: Seq<bool>, i: int, r: Option<int>) -> bool {
    match r {
        Some(j) => i < j < flags.len() && 0 <= j && flags[j] && forall|k: int|
            i < k < j && 0 <= k ==> !#[trigger] flags[k],
        None => forall|k: int| i < k < flags.len() && 0 <= k ==> !#[trigger] flags[k],
    }
}

/// `r` is the largest index below `i` whose flag is set, or `None` when no
/// flag below `i` is set.
pub open spec fn is_prev_hit(flags: Seq<bool>, i: int, r: Option<int>) -> bool {
    match r {
        Some(j) => 0 <= j < i && j < flags.len() && flags[j] && forall|k: int|
            j < k < i && k < flags.len() ==> !#[trigger] flags[k],
        None => forall|k: int| 0 <= k < i && k < flags.len() ==> !#[trigger] flags[k],
    }
}

/// The nearest set flag strictly above `i`, found by scanning upward.
pub open spec fn next_hit(flags: Seq<bool>, i: int) -> Option<int>
    decreases flags.len() - i,
{
    if i + 1 >= flags.len() {
        None
    } else if i + 1 >= 0 && flags[i + 1] {
        Some(i + 1)
    } else {
        next_hit(flags, i + 1)
    }
}

/// The nearest set flag strictly below `i`, found by scanning downward.
pub open spec fn prev_hit(flags: Seq<bool>, i: int) -> Option<int>
    decreases i,
{
    if i <= 0 {
        None
    } else if i - 1 < flags.len() && flags[i - 1] {
        Some(i - 1)
    } else {
        prev_hit(flags, i - 1)
    }
}

/// The first set flag, if any.
pub open spec fn first_hit(flags: Seq<bool>) -> Option<int> {
    next_hit(flags, -1)
}

/// The last set flag, if any.
pub open spec fn last_hit(flags: Seq<bool>) -> Option<int> {
    prev_hit(flags, flags.len() as int)
}

/// No flag is set.
pub open spec fn no_hit(flags: Seq<bool>) -> bool {
    forall|k: int| 0 <= k < flags.len() ==> !#[trigger] flags[k]
}

/// The indices below `n` whose flag is set, in ascending order.
pub open spec fn hits_upto(flags: Seq<bool>, n: int) -> Seq<int>
    decreases n,
{
    if n <= 0 {
        Seq::empty()
    } else if n - 1 < flags.len() && flags[n - 1] {
        hits_upto(flags, n - 1).push(n - 1)
    } else {
        hits_upto(flags, n - 1)
    }
}

/// All indices whose flag is set, in ascending order.
pub open spec fn hits(flags: Seq<bool>) -> Seq<int> {
    hits_upto(flags, flags.len() as int)
}

/// How many flags below `i` are set: the position that `i` has, or would
/// have, in `hits`.
pub open spec fn rank(flags: Seq<bool>, i: int) -> int {
    hits_upto(flags, i).len() as int
}

/// `next_hit` is the least set flag above `i`.
pub proof fn lemma_next_hit_is_least(flags: Seq<bool>, i: int)
    ensures
        is_next_hit(flags, i, next_hit(flags, i)),
    decreases flags.len() - i,
{
    if i + 1 < flags.len() && !(i + 1 >= 0 && flags[i + 1]) {
        lemma_next_hit_is_least(flags, i + 1);
    }
}

/// `prev_hit` is the greatest set flag below `i`.
pub proof fn lemma_prev_hit_is_greatest(flags: Seq<bool>, i: int)
    ensures
        is_prev_hit(flags, i, prev_hit(flags, i)),
    decreases i,
{
    if i > 0 && !(i - 1 < flags.len() && flags[i - 1]) {
        lemma_prev_hit_is_greatest(flags, i - 1);
    }
}

/// Only one answer is the least set flag above `i`.
pub proof fn lemma_next_hit_unique(flags: Seq<bool>, i: int, r: Option<int>)
    requires
        is_next_hit(flags, i, r),
    ensures
        r == next_hit(flags, i),
{
    lemma_next_hit_is_least(flags, i);
}

/// Only one answer is the greatest set flag below `i`.
pub proof fn lemma_prev_hit_unique(flags: Seq<bool>, i: int, r: Option<int>)
    requires
        is_prev_hit(flags, i, r),
    ensures
        r == prev_hit(flags, i),
{
    lemma_prev_hit_is_greatest(flags, i);
}

/// There is a first set flag exactly when there is a last one, and exactly
/// when some flag is set.
pub proof fn lemma_ends_agree(flags: Seq<bool>)
    ensures
        first_hit(flags) is None <==> no_hit(flags),
        last_hit(flags) is None <==> no_hit(flags),
{
    lemma_next_hit_is_least(flags, -1);
    lemma_prev_hit_is_greatest(flags, flags.len() as int);
}

/// Every entry of `hits_upto` is a set flag below `n`, entries ascend
/// strictly, and a shorter prefix of the flags gives a prefix of the hits.
pub proof fn lemma_hits_upto(flags: Seq<bool>, n: int)
    requires
        n <= flags.len(),
    ensures
        forall|k: int|
            0 <= k < hits_upto(flags, n).len() ==> 0 <= #[trigger] hits_upto(flags, n)[k] < n
                && flags[hits_upto(flags, n)[k]],
        forall|a: int, b: int|
            0 <= a < b < hits_upto(flags, n).len() ==> #[trigger] hits_upto(flags, n)[a]
                < #[trigger] hits_upto(flags, n)[b],
        forall|i: int|
            #![trigger hits_upto(flags, i)]
            0 <= i <= n ==> hits_upto(flags, i) == hits_upto(flags, n).take(rank(flags, i)) && rank(
                flags,
                i,
            ) <= rank(flags, n),
        forall|i: int|
            0 <= i < n && #[trigger] flags[i] ==> rank(flags, i) < rank(flags, n) && hits_upto(
                flags,
                n,
            )[rank(flags, i)] == i,
    decreases n,
{
    if n > 0 {
        lemma_hits_upto(flags, n - 1);
    }
}

/// What `hits` holds: exactly the set flags, in strictly ascending order,
/// each at the position that `rank` gives.
pub proof fn lemma_hits(flags: Seq<bool>)
    ensures
        forall|k: int|
            0 <= k < hits(flags).len() ==> 0 <= #[trigger] hits(flags)[k] < flags.len()
                && flags[hits(flags)[k]] && rank(flags, hits(flags)[k]) == k,
        forall|a: int, b: int|
            0 <= a < b < hits(flags).len() ==> #[trigger] hits(flags)[a] < #[trigger] hits(
                flags,
            )[b],
        forall|i: int|
            0 <= i < flags.len() && #[trigger] flags[i] ==> 0 <= rank(flags, i) < hits(flags).len()
                && hits(flags)[rank(flags, i)] == i,
        forall|i: int|
            #![trigger rank(flags, i)]
            0 <= i <= flags.len() ==> 0 <= rank(flags, i) <= hits(flags).len(),
        rank(flags, flags.len() as int) == hits(flags).len(),
        hits(flags).len() <= flags.len(),
{
    let n = flags.len() as int;
    lemma_hits_upto(flags, n);
    lemma_rank_bound(flags, n);
}

/// No more flags are set below `i` than there are indices below `i`.
pub proof fn lemma_rank_bound(flags: Seq<bool>, i: int)
    ensures
        0 <= rank(flags, i),
        i >= 0 ==> rank(flags, i) <= i,
        i <= 0 ==> rank(flags, i) == 0,
    decreases i,
{
    if i > 0 {
        lemma_rank_bound(flags, i - 1);
    }
}

/// One step of `rank`: a set flag at `i` adds one.
pub proof fn lemma_rank_step(flags: Seq<bool>, i: int)
    requires
        0 <= i < flags.len(),
    ensures
        rank(flags, i + 1) == rank(flags, i) + if flags[i] {
            1int
        } else {
            0int
        },
{
}

/// The chain read off the ascending list of hits: the next hit above `i` is
/// the hit at position `rank(i + 1)`, the previous one the hit just before
/// position `rank(i)`.
pub proof fn lemma_chain_by_rank(flags: Seq<bool>, i: int)
    requires
        -1 <= i <= flags.len(),
    ensures
        i < flags.len() ==> next_hit(flags, i) == if rank(flags, i + 1) < hits(flags).len() {
            Some(hits(flags)[rank(flags, i + 1)])
        } else {
            None
        },
        0 <= i ==> prev_hit(flags, i) == if rank(flags, i) > 0 {
            Some(hits(flags)[rank(flags, i) - 1])
        } else {
            None
        },
{
    let m = hits(flags);
    lemma_hits(flags);
    lemma_hits_upto(flags, flags.len() as int);
    lemma_rank_bound(flags, i);
    lemma_rank_bound(flags, i + 1);
    if i < flags.len() {
        let r = rank(flags, i + 1);
        let cand: Option<int> = if r < m.len() {
            Some(m[r])
        } else {
            None
        };
        if r < m.len() {
            let j = m[r];
            // `j` lies above `i`: else it would be counted among the first `r` hits
            if j <= i {
                lemma_rank_mono(flags, j + 1, i + 1);
                lemma_rank_step(flags, j);
            }
            // no hit lies between: it would stand before `j` in the list
            assert forall|k: int| i < k < j && 0 <= k implies !#[trigger] flags[k] by {
                if flags[k] {
                    lemma_rank_mono(flags, i + 1, k);
                }
            }
        } else {
            assert forall|k: int| i < k < flags.len() && 0 <= k implies !#[trigger] flags[k] by {
                if flags[k] {
                    lemma_rank_mono(flags, i + 1, k);
                }
            }
        }
        lemma_next_hit_unique(flags, i, cand);
    }
    if 0 <= i {
        let r = rank(flags, i);
        let cand: Option<int> = if r > 0 {
            Some(m[r - 1])
        } else {
            None
        };
        if r > 0 {
            let j = m[r - 1];
            lemma_hits_upto(flags, i);
            assert forall|k: int| j < k < i && k < flags.len() implies !#[trigger] flags[k] by {
                if flags[k] {
                    lemma_rank_mono(flags, k + 1, i);
                    lemma_rank_step(flags, k);
                }
            }
        } else {
            assert forall|k: int| 0 <= k < i && k < flags.len() implies !#[trigger] flags[k] by {
                if flags[k] {
                    lemma_rank_mono(flags, k + 1, i);
                    lemma_rank_step(flags, k);
                    lemma_rank_bound(flags, k);
                }
            }
        }
        lemma_prev_hit_unique(flags, i, cand);
    }
}

/// `rank` never falls as the index grows.
pub proof fn lemma_rank_mono(flags: Seq<bool>, i: int, j: int)
    requires
        i <= j,
    ensures
        rank(flags, i) <= rank(flags, j),
    decreases j - i,
{
    if i < j {
        lemma_rank_mono(flags, i, j - 1);
    }
}

/// Stepping along the chain from a hit is stepping along `hits`: from the
/// hit at position `c`, the next hit is the one at position `c + 1` and the
/// previous hit the one at position `c - 1`, where there is one.
pub proof fn lemma_walk_hits(flags: Seq<bool>, c: int)
    requires
        0 <= c < hits(flags).len(),
    ensures
        next_hit(flags, hits(flags)[c]) == if c + 1 < hits(flags).len() {
            Some(hits(flags)[c + 1])
        } else {
            None
        },
        prev_hit(flags, hits(flags)[c]) == if c > 0 {
            Some(hits(flags)[c - 1])
        } else {
            None
        },
{
    lemma_hits(flags);
    let i = hits(flags)[c];
    lemma_rank_step(flags, i);
    lemma_chain_by_rank(flags, i);
}

/// The chain's two ends are the two ends of `hits`, and there are no hits
/// exactly when no flag is set.
pub proof fn lemma_ends_of_hits(flags: Seq<bool>)
    ensures
        first_hit(flags) == if hits(flags).len() > 0 {
            Some(hits(flags)[0])
        } else {
            None
        },
        last_hit(flags) == if hits(flags).len() > 0 {
            Some(hits(flags)[hits(flags).len() - 1])
        } else {
            None
        },
        no_hit(flags) <==> hits(flags).len() == 0,
{
    lemma_hits(flags);
    lemma_ends_agree(flags);
    lemma_rank_bound(flags, 0);
    lemma_chain_by_rank(flags, -1);
    lemma_chain_by_rank(flags, flags.len() as int);
}

/// From an index whose flag is not set, the next hit is the hit at the
/// position that the index would have in `hits`.
pub proof fn lemma_snap_forward(flags: Seq<bool>, i: int)
    requires
        0 <= i < flags.len(),
        !flags[i],
    ensures
        next_hit(flags, i) == if rank(flags, i) < hits(flags).len() {
            Some(hits(flags)[rank(flags, i)])
        } else {
            None
        },
{
    lemma_rank_step(flags, i);
    lemma_chain_by_rank(flags, i);
}

/// The hit at position `c` is a set flag, and `c` is its rank.
pub proof fn lemma_hit_at(flags: Seq<bool>, c: int)
    requires
        0 <= c < hits(flags).len(),
    ensures
        0 <= hits(flags)[c] < flags.len(),
        flags[hits(flags)[c]],
        rank(flags, hits(flags)[c]) == c,
{
    lemma_hits(flags);
}

/// A later position in `hits` holds a larger index.
pub proof fn lemma_hits_ascend(flags: Seq<bool>, a: int, b: int)
    requires
        0 <= a < b < hits(flags).len(),
    ensures
        hits(flags)[a] < hits(flags)[b],
{
    lemma_hits(flags);
}

/// A set flag stands in `hits` at the position that its rank gives.
pub proof fn lemma_rank_of_hit(flags: Seq<bool>, i: int)
    requires
        0 <= i < flags.len(),
        flags[i],
    ensures
        0 <= rank(flags, i) < hits(flags).len(),
        hits(flags)[rank(flags, i)] == i,
{
    lemma_hits(flags);
}

/// A rank is a position in `hits`, or its length.
pub proof fn lemma_rank_range(flags: Seq<bool>, i: int)
    requires
        0 <= i <= flags.len(),
    ensures
        0 <= rank(flags, i) <= hits(flags).len(),
{
    lemma_hits(flags);
}

} // verus!
