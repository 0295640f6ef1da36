//! The space-distribution algorithm used by the containers.
//!
//! Containers split one axis of available space among an ordered list of
//! children. Every child starts at its minimum; the leftover is then poured
//! in rounds over the children of the currently favoured sizing policy
//! (`Fill` first, then `Shrink`): each round divides the leftover evenly
//! among the still-growable children, capping each share at the child's
//! remaining room. A child that reaches its maximum drops out of the next
//! round. The algorithm stops when the leftover is exhausted or no eligible
//! child can grow further, which takes at most one round per child.

use vstd::prelude::*;

use crate::units::len_ok;

verus! {

/// The smaller of two mathematical integers.
pub open spec fn spec_min_int(a: int, b: int) -> int {
    if a <= b {
        a
    } else {
        b
    }
}

/// Sum of the first `k` entries of a sequence of lengths.
pub open spec fn sum_prefix(s: Seq<u64>, k: int) -> int
    decreases k,
{
    if k <= 0 {
        0
    } else {
        sum_prefix(s, k - 1) + s[k - 1]
    }
}

/// Sum of all entries of a sequence of lengths.
pub open spec fn seq_sum(s: Seq<u64>) -> int {
    sum_prefix(s, s.len() as int)
}

/// Number of indices below `k` that are eligible to grow: marked as
/// receiving and still below their maximum.
pub open spec fn elig_count(alloc: Seq<u64>, maxs: Seq<u64>, rec: Seq<bool>, k: int) -> int
    decreases k,
{
    if k <= 0 {
        0
    } else {
        elig_count(alloc, maxs, rec, k - 1) + if rec[k - 1] && alloc[k - 1] < maxs[k - 1] {
            1int
        } else {
            0int
        }
    }
}

/// Updating one entry shifts every covering prefix sum by the difference.
pub proof fn lemma_sum_prefix_update(s: Seq<u64>, i: int, v: u64, k: int)
    requires
        0 <= i < s.len(),
        k <= s.len(),
    ensures
        sum_prefix(s.update(i, v), k) == sum_prefix(s, k) + if i < k {
            v - s[i]
        } else {
            0int
        },
    decreases k,
{
    if k > 0 {
        lemma_sum_prefix_update(s, i, v, k - 1);
    }
}

/// A pointwise bound between two sequences carries over to prefix sums.
pub proof fn lemma_sum_prefix_pointwise_le(s1: Seq<u64>, s2: Seq<u64>, k: int)
    requires
        forall|i: int| 0 <= i < k ==> s1[i] <= s2[i],
    ensures
        sum_prefix(s1, k) <= sum_prefix(s2, k),
    decreases k,
{
    if k > 0 {
        lemma_sum_prefix_pointwise_le(s1, s2, k - 1);
    }
}

/// Prefix sums of lengths are non-negative.
pub proof fn lemma_sum_prefix_nonneg(s: Seq<u64>, k: int)
    ensures
        sum_prefix(s, k) >= 0,
    decreases k,
{
    if k > 0 {
        lemma_sum_prefix_nonneg(s, k - 1);
    }
}

/// Eligibility counts grow with the prefix, by at most one per entry.
proof fn lemma_elig_count_monotone(alloc: Seq<u64>, maxs: Seq<u64>, rec: Seq<bool>, j: int, k: int)
    requires
        0 <= j <= k,
    ensures
        elig_count(alloc, maxs, rec, j) <= elig_count(alloc, maxs, rec, k) <= elig_count(
            alloc,
            maxs,
            rec,
            j,
        ) + (k - j),
    decreases k,
{
    if j < k {
        lemma_elig_count_monotone(alloc, maxs, rec, j, k - 1);
    }
}

/// If eligibility weakens pointwise, the count does not grow; if some index
/// that was eligible no longer is, the count strictly shrinks.
proof fn lemma_elig_count_pointwise(
    a1: Seq<u64>,
    a2: Seq<u64>,
    maxs: Seq<u64>,
    rec: Seq<bool>,
    k: int,
    strict_at: int,
)
    requires
        forall|i: int| 0 <= i < k && rec[i] && #[trigger] a2[i] < maxs[i] ==> a1[i] < maxs[i],
        0 <= strict_at < k ==> (rec[strict_at] && a1[strict_at] < maxs[strict_at] && !(
        a2[strict_at] < maxs[strict_at])),
    ensures
        elig_count(a2, maxs, rec, k) <= elig_count(a1, maxs, rec, k) - if 0 <= strict_at < k {
            1int
        } else {
            0int
        },
    decreases k,
{
    if k > 0 {
        lemma_elig_count_pointwise(a1, a2, maxs, rec, k - 1, strict_at);
    }
}

/// Counts the children that are still eligible to grow: marked as receiving
/// and strictly below their maximum.
fn count_eligible(alloc: &Vec<u64>, maxs: &Vec<u64>, receives: &Vec<bool>) -> (c: usize)
    requires
        alloc.len() == maxs.len(),
        alloc.len() == receives.len(),
    ensures
        c == elig_count(alloc@, maxs@, receives@, alloc@.len() as int),
        c <= alloc.len(),
{
    let n = alloc.len();
    let mut c: usize = 0;
    let mut i: usize = 0;
    while i < n
        invariant
            0 <= i <= n,
            n == alloc.len(),
            n == maxs.len(),
            n == receives.len(),
            c == elig_count(alloc@, maxs@, receives@, i as int),
            c <= i,
        decreases n - i,
    {
        if receives[i] && alloc[i] < maxs[i] {
            c = c + 1;
        }
        i = i + 1;
    }
    c
}

/// One distribution round over the children of one sizing policy.
///
/// `alloc` holds the running allocation of each child (starting at its
/// minimum), `maxs` the per-child maximum, and `receives` marks the children
/// of the policy served in this round. The round grows the marked children,
/// never past their maximum, drawing from `leftover`, until the leftover is
/// exhausted or every marked child sits at its maximum. Whatever the marked
/// children could not absorb remains in `leftover`.
pub fn distribute_to_fitting(
    leftover: &mut u64,
    alloc: &mut Vec<u64>,
    maxs: &Vec<u64>,
    receives: &Vec<bool>,
)
    requires
        old(alloc).len() == maxs.len(),
        old(alloc).len() == receives.len(),
        forall|i: int| 0 <= i < maxs@.len() ==> #[trigger] old(alloc)@[i] <= maxs@[i],
        forall|i: int| 0 <= i < maxs@.len() ==> len_ok(#[trigger] maxs@[i]),
        len_ok(*old(leftover)),
    ensures
        final(alloc).len() == old(alloc).len(),
        // Allocations only grow, and never past the maximum.
        forall|i: int|
            0 <= i < maxs@.len() ==> old(alloc)@[i] <= #[trigger] final(alloc)@[i] <= maxs@[i],
        // Unmarked children keep their allocation.
        forall|i: int|
            0 <= i < maxs@.len() && !receives@[i] ==> #[trigger] final(alloc)@[i] == old(
                alloc,
            )@[i],
        // Space is conserved: what the allocations gained, the leftover lost.
        seq_sum(final(alloc)@) + *final(leftover) == seq_sum(old(alloc)@) + *old(leftover),
        *final(leftover) <= *old(leftover),
        // The round stops short of spending the leftover only when every
        // marked child has reached its maximum.
        *final(leftover) == 0 || (forall|i: int|
            0 <= i < maxs@.len() && receives@[i] ==> #[trigger] final(alloc)@[i] == maxs@[i]),
        // A round with nothing to spend changes nothing.
        *old(leftover) == 0 ==> final(alloc)@ == old(alloc)@ && *final(leftover) == 0,
        // Even sharing: when no marked child ran into its maximum, the
        // round was a single pass that gave every marked child the same
        // share, up to the one remainder unit.
        (forall|i: int|
            0 <= i < maxs@.len() && receives@[i] ==> #[trigger] final(alloc)@[i] < maxs@[i])
            ==> (forall|i: int, j: int|
            0 <= i < maxs@.len() && 0 <= j < maxs@.len() && #[trigger] receives@[i]
                && #[trigger] receives@[j] ==> final(alloc)@[i] - old(alloc)@[i] <= final(alloc)@[j] - old(alloc)@[j] + 1),
{
    let n = alloc.len();
    if *leftover == 0 {
        return ;
    }
    let mut count = count_eligible(alloc, maxs, receives);
    if count == 0 {
        proof {
            lemma_all_marked_at_max_when_none_eligible(alloc@, maxs@, receives@, n as int);
        }
        return ;
    }
    loop
        invariant_except_break
            *leftover > 0,
            count == elig_count(alloc@, maxs@, receives@, n as int),
            0 < count,
            count <= n,
            alloc@ == old(alloc)@ || (exists|k: int|
                0 <= k < n && #[trigger] receives@[k] && alloc@[k] == maxs@[k]),
        invariant
            n == alloc.len(),
            n == maxs.len(),
            n == receives.len(),
            old(alloc)@.len() == n,
            forall|i: int| 0 <= i < n ==> old(alloc)@[i] <= #[trigger] alloc@[i] <= maxs@[i],
            forall|i: int|
                0 <= i < n && !receives@[i] ==> #[trigger] alloc@[i] == old(alloc)@[i],
            forall|i: int| 0 <= i < n ==> len_ok(#[trigger] maxs@[i]),
            seq_sum(alloc@) + *leftover == seq_sum(old(alloc)@) + *old(leftover),
            *leftover <= *old(leftover),
            len_ok(*old(leftover)),
        ensures
            n == alloc.len(),
            forall|i: int| 0 <= i < n ==> old(alloc)@[i] <= #[trigger] alloc@[i] <= maxs@[i],
            forall|i: int|
                0 <= i < n && !receives@[i] ==> #[trigger] alloc@[i] == old(alloc)@[i],
            seq_sum(alloc@) + *leftover == seq_sum(old(alloc)@) + *old(leftover),
            *leftover <= *old(leftover),
            *leftover == 0 || (forall|i: int|
                0 <= i < n && receives@[i] ==> #[trigger] alloc@[i] == maxs@[i]),
            (forall|i: int| 0 <= i < n && receives@[i] ==> #[trigger] alloc@[i] < maxs@[i])
                ==> (forall|i: int, j: int|
                0 <= i < n && 0 <= j < n && #[trigger] receives@[i] && #[trigger] receives@[j]
                    ==> alloc@[i] - old(alloc)@[i] <= alloc@[j] - old(alloc)@[j] + 1),
        decreases count,
    {
        let ghost alloc_start = alloc@;
        let ghost leftover_start = *leftover;
        let per = *leftover / (count as u64);
        let rem = *leftover % (count as u64);
        proof {
            vstd::arithmetic::div_mod::lemma_fundamental_div_mod(
                leftover_start as int,
                count as int,
            );
            assert(count * per == per * count) by (nonlinear_arith);
        }

        // One pass: hand each eligible child its share, capped at its room.
        // `rank` is the child's position among the eligible of this pass; the
        // first `rem` of them receive one extra unit of the remainder.
        let ghost mut clamped_at: int = -1;
        let mut rank: u64 = 0;
        let mut i: usize = 0;
        while i < n
            invariant
                n == alloc.len(),
                n == maxs.len(),
                n == receives.len(),
                old(alloc)@.len() == n,
                alloc_start.len() == n,
                0 <= i <= n,
                -1 <= clamped_at < i as int,
                count == elig_count(alloc_start, maxs@, receives@, n as int),
                0 < count,
                count <= n,
                per == leftover_start as int / count as int,
                rem == leftover_start as int % count as int,
                leftover_start == per * count + rem,
                rem < count,
                len_ok(leftover_start),
                forall|j: int| 0 <= j < n ==> alloc_start[j] <= #[trigger] alloc@[j] <= maxs@[j],
                forall|j: int| i <= j < n ==> #[trigger] alloc@[j] == alloc_start[j],
                forall|j: int|
                    0 <= j < n && !receives@[j] ==> #[trigger] alloc@[j] == alloc_start[j],
                forall|j: int| 0 <= j < n ==> len_ok(#[trigger] maxs@[j]),
                forall|j: int| 0 <= j < n ==> old(alloc)@[j] <= #[trigger] alloc@[j],
                seq_sum(alloc@) + *leftover == seq_sum(alloc_start) + leftover_start,
                seq_sum(alloc@) + *leftover == seq_sum(old(alloc)@) + *old(leftover),
                rank == elig_count(alloc_start, maxs@, receives@, i as int),
                rank <= i,
                // Accounting against the shares already handed out.
                seq_sum(alloc@) - seq_sum(alloc_start) <= per * rank + spec_min_int(
                    rank as int,
                    rem as int,
                ),
                clamped_at == -1 ==> seq_sum(alloc@) - seq_sum(alloc_start) == per * rank
                    + spec_min_int(rank as int, rem as int),
                clamped_at >= 0 ==> (clamped_at < i && receives@[clamped_at]
                    && alloc_start[clamped_at] < maxs@[clamped_at] && alloc@[clamped_at]
                    == maxs@[clamped_at]),
                // Each processed, still-eligible child took exactly its
                // share unless it was clamped at its maximum.
                forall|j: int|
                    0 <= j < i && receives@[j] && alloc_start[j] < maxs@[j] ==> (
                    #[trigger] alloc@[j] == maxs@[j] || alloc@[j] - alloc_start[j] == per + (
                    if elig_count(alloc_start, maxs@, receives@, j) < rem {
                        1int
                    } else {
                        0int
                    })),
            decreases n - i,
        {
            let room = maxs[i] - alloc[i];
            if receives[i] && room > 0 {
                proof {
                    lemma_elig_count_monotone(
                        alloc_start,
                        maxs@,
                        receives@,
                        (i + 1) as int,
                        n as int,
                    );
                    // The leftover still covers this child's full share.
                    assert(per * rank + spec_min_int(rank as int, rem as int) + per + (if rank
                        < rem {
                        1int
                    } else {
                        0int
                    }) <= per * count + rem) by (nonlinear_arith)
                        requires
                            0 <= rank,
                            rank + 1 <= count,
                            0 <= rem,
                            rem < count,
                            0 <= per,
                            spec_min_int(rank as int, rem as int) == if rank <= rem {
                                rank as int
                            } else {
                                rem as int
                            },
                    ;
                    lemma_sum_prefix_nonneg(alloc_start, n as int);
                    lemma_sum_prefix_pointwise_le(alloc_start, alloc@, n as int);
                }
                let share = per + (if rank < rem {
                    1
                } else {
                    0
                });
                let growth = if room > share {
                    share
                } else {
                    proof {
                        clamped_at = i as int;
                    }
                    room
                };
                let new_val = alloc[i] + growth;
                proof {
                    lemma_sum_prefix_update(alloc@, i as int, new_val, n as int);
                }
                alloc[i] = new_val;
                *leftover = *leftover - growth;
                proof {
                    assert(per * (rank + 1) == per * rank + per) by (nonlinear_arith);
                }
                rank = rank + 1;
            }
            i = i + 1;
        }

        proof {
            lemma_sum_prefix_pointwise_le(old(alloc)@, alloc@, n as int);
        }
        if *leftover == 0 {
            proof {
                // When no marked child sits at its maximum now, nothing had
                // been distributed before this pass, and every marked child
                // took exactly one share of it.
                if forall|x: int|
                    0 <= x < n && receives@[x] ==> #[trigger] alloc@[x] < maxs@[x] {
                    assert(alloc_start =~= old(alloc)@) by {
                        if alloc_start != old(alloc)@ {
                            let k = choose|k: int|
                                0 <= k < n && #[trigger] receives@[k] && alloc_start[k]
                                    == maxs@[k];
                            assert(alloc@[k] == maxs@[k]);
                        }
                    }
                    assert forall|i: int, j: int|
                        0 <= i < n && 0 <= j < n && #[trigger] receives@[i]
                            && #[trigger] receives@[j] implies alloc@[i] - old(alloc)@[i]
                        <= alloc@[j] - old(alloc)@[j] + 1 by {
                        assert(alloc@[i] < maxs@[i]);
                        assert(alloc@[j] < maxs@[j]);
                    }
                }
            }
            break ;
        }
        proof {
            // A positive leftover means the pass accounting fell short, so
            // some child was clamped at its maximum and the eligible count
            // strictly shrinks.
            assert(clamped_at >= 0);
            lemma_elig_count_pointwise(
                alloc_start,
                alloc@,
                maxs@,
                receives@,
                n as int,
                clamped_at,
            );
        }
        let new_count = count_eligible(alloc, maxs, receives);
        if new_count == 0 {
            proof {
                lemma_all_marked_at_max_when_none_eligible(alloc@, maxs@, receives@, n as int);
            }
            break ;
        }
        count = new_count;
    }
}

/// When no marked child is eligible any more, every marked child sits at its
/// maximum.
proof fn lemma_all_marked_at_max_when_none_eligible(
    alloc: Seq<u64>,
    maxs: Seq<u64>,
    rec: Seq<bool>,
    k: int,
)
    requires
        k <= alloc.len(),
        k <= maxs.len(),
        elig_count(alloc, maxs, rec, k) == 0,
        forall|i: int| 0 <= i < k ==> #[trigger] alloc[i] <= maxs[i],
    ensures
        forall|i: int| 0 <= i < k && rec[i] ==> #[trigger] alloc[i] == maxs[i],
    decreases k,
{
    if k > 0 {
        lemma_elig_count_monotone(alloc, maxs, rec, k - 1, k);
        lemma_elig_count_nonneg(alloc, maxs, rec, k - 1);
        lemma_all_marked_at_max_when_none_eligible(alloc, maxs, rec, k - 1);
    }
}

/// Eligibility counts are non-negative.
proof fn lemma_elig_count_nonneg(alloc: Seq<u64>, maxs: Seq<u64>, rec: Seq<bool>, k: int)
    ensures
        elig_count(alloc, maxs, rec, k) >= 0,
    decreases k,
{
    if k > 0 {
        lemma_elig_count_nonneg(alloc, maxs, rec, k - 1);
    }
}

} // verus!
