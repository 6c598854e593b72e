//! Round-robin partitioning of discovered thread ids into cookie groups.
//!
//! The thread at position `i` (in discovery order) goes to group `i mod k`,
//! so every group receives a thread before any group receives a second one.

use vstd::prelude::*;
use vstd::arithmetic::div_mod::lemma_fundamental_div_mod;
use vstd::arithmetic::div_mod::lemma_fundamental_div_mod_converse;
use vstd::arithmetic::div_mod::lemma_mod_division_less_than_divisor;
use vstd::arithmetic::div_mod::lemma_div_is_ordered;
use vstd::arithmetic::div_mod::lemma_div_multiples_vanish;
use vstd::arithmetic::div_mod::lemma_div_pos_is_pos;
use vstd::arithmetic::mul::lemma_mul_inequality;

verus! {

/// The subsequence of `ids` at positions `start`, `start + k`, `start + 2k`, ...
pub open spec fn arith_slice(ids: Seq<i32>, start: int, k: int) -> Seq<i32>
    decreases
            (if ids.len() - start >= 0 {
                ids.len() - start
            } else {
                0int
            }),
{
    if start < 0 || k <= 0 || start >= ids.len() {
        Seq::empty()
    } else {
        seq![ids[start]] + arith_slice(ids, start + k, k)
    }
}

/// The number of groups a round-robin partition of `n` ids into `k` groups
/// materializes: one per id up to `k`.
pub open spec fn group_count(n: int, k: int) -> int {
    if n < k {
        n
    } else {
        k
    }
}

/// `part` is the round-robin partition of `ids` into `k` groups: group `g`
/// holds the ids at positions `g`, `g + k`, `g + 2k`, ... in discovery order.
pub open spec fn is_round_robin(ids: Seq<i32>, k: int, part: Seq<Seq<i32>>) -> bool {
    &&& part.len() == group_count(ids.len() as int, k)
    &&& forall|g: int| 0 <= g < part.len() ==> part[g] == arith_slice(ids, g, k)
}

/// The views of a sequence of groups.
pub open spec fn group_views(part: Seq<Vec<i32>>) -> Seq<Seq<i32>> {
    part.map_values(|g: Vec<i32>| g@)
}

proof fn lemma_arith_slice_len(ids: Seq<i32>, start: int, k: int)
    requires
        0 <= start,
        k > 0,
    ensures
        arith_slice(ids, start, k).len() == if start >= ids.len() {
            0int
        } else {
            (ids.len() - start - 1) / k + 1
        },
    decreases
            (if ids.len() - start >= 0 {
                ids.len() - start
            } else {
                0int
            }),
{
    let n = ids.len() as int;
    if start < n {
        lemma_arith_slice_len(ids, start + k, k);
        if start + k >= n {
            lemma_fundamental_div_mod_converse(n - start - 1, k, 0, n - start - 1);
        } else {
            let q = (n - start - k - 1) / k;
            let r = (n - start - k - 1) % k;
            lemma_fundamental_div_mod(n - start - k - 1, k);
            lemma_mod_division_less_than_divisor(n - start - k - 1, k);
            lemma_div_pos_is_pos(n - start - k - 1, k);
            assert(n - start - 1 == (q + 1) * k + r) by (nonlinear_arith)
                requires
                    n - start - k - 1 == q * k + r,
            ;
            lemma_fundamental_div_mod_converse(n - start - 1, k, q + 1, r);
        }
    }
}

proof fn lemma_arith_slice_index(ids: Seq<i32>, start: int, k: int, j: int)
    requires
        0 <= start,
        k > 0,
        0 <= j < arith_slice(ids, start, k).len(),
    ensures
        0 <= start + j * k < ids.len(),
        arith_slice(ids, start, k)[j] == ids[start + j * k],
    decreases
            (if ids.len() - start >= 0 {
                ids.len() - start
            } else {
                0int
            }),
{
    if j > 0 {
        lemma_arith_slice_index(ids, start + k, k, j - 1);
        assert((start + k) + (j - 1) * k == start + j * k) by (nonlinear_arith);
    }
}

/// Input position `i` stands at row `i % k`, column `i / k` of the partition.
pub open spec fn id_has_slot(ids: Seq<i32>, k: int, part: Seq<Seq<i32>>, i: int) -> bool {
    &&& 0 <= i % k < part.len()
    &&& 0 <= i / k < part[i % k].len()
    &&& part[i % k][i / k] == ids[i]
}

/// Partition slot `(g, j)` holds the id of the single input position `g + j * k`.
pub open spec fn slot_has_id(ids: Seq<i32>, k: int, part: Seq<Seq<i32>>, g: int, j: int) -> bool {
    &&& 0 <= g + j * k < ids.len()
    &&& (g + j * k) % k == g
    &&& (g + j * k) / k == j
    &&& part[g][j] == ids[g + j * k]
}

/// Law: the round-robin partition is exhaustive and exclusive. The id at
/// position `i` of the input stands at row `i % k`, column `i / k` of the
/// partition, and every partition slot `(g, j)` comes from the single input
/// position `g + j * k`, so each input position appears exactly once across
/// all groups.
pub proof fn lemma_partition_exactly_once(ids: Seq<i32>, k: int, part: Seq<Seq<i32>>)
    requires
        k > 0,
        is_round_robin(ids, k, part),
    ensures
        forall|i: int| 0 <= i < ids.len() ==> #[trigger] id_has_slot(ids, k, part, i),
        forall|g: int, j: int|
            0 <= g < part.len() && 0 <= j < part[g].len() ==> #[trigger] slot_has_id(
                ids,
                k,
                part,
                g,
                j,
            ),
{
    let n = ids.len() as int;
    assert forall|i: int| 0 <= i < n implies #[trigger] id_has_slot(ids, k, part, i) by {
        let g = i % k;
        let j = i / k;
        lemma_fundamental_div_mod(i, k);
        lemma_mod_division_less_than_divisor(i, k);
        lemma_div_pos_is_pos(i, k);
        if n < k {
            vstd::arithmetic::div_mod::lemma_small_mod(i as nat, k as nat);
        }
        assert(g < part.len());
        lemma_arith_slice_len(ids, g, k);
        assert(j * k == i - g) by (nonlinear_arith)
            requires
                i == k * j + g,
        ;
        lemma_div_multiples_vanish(j, k);
        lemma_div_is_ordered(j * k, n - g - 1, k);
        assert(j < part[g].len());
        lemma_arith_slice_index(ids, g, k, j);
    }
    assert forall|g: int, j: int|
        0 <= g < part.len() && 0 <= j < part[g].len() implies #[trigger] slot_has_id(
        ids,
        k,
        part,
        g,
        j,
    ) by {
        lemma_arith_slice_len(ids, g, k);
        assert(j <= (n - g - 1) / k);
        lemma_fundamental_div_mod(n - g - 1, k);
        lemma_mod_division_less_than_divisor(n - g - 1, k);
        lemma_mul_inequality(j, (n - g - 1) / k, k);
        assert(j * k <= n - g - 1);
        lemma_fundamental_div_mod_converse(g + j * k, k, j, g);
        lemma_arith_slice_index(ids, g, k, j);
    }
}

/// Law: every group of the round-robin partition holds either `⌊N/K⌋` or
/// `⌈N/K⌉` ids; group `g` holds the larger count exactly when `g < N % K`.
pub proof fn lemma_partition_sizes(ids: Seq<i32>, k: int, part: Seq<Seq<i32>>)
    requires
        k > 0,
        is_round_robin(ids, k, part),
    ensures
        forall|g: int|
            0 <= g < part.len() ==> #[trigger] part[g].len() == if g < ids.len() as int % k {
                ids.len() as int / k + 1
            } else {
                ids.len() as int / k
            },
        forall|g: int|
            0 <= g < part.len() ==> #[trigger] part[g].len() == ids.len() as int / k
                || part[g].len() == (ids.len() + k - 1) / k,
{
    let n = ids.len() as int;
    let q = n / k;
    let r = n % k;
    lemma_fundamental_div_mod(n, k);
    lemma_mod_division_less_than_divisor(n, k);
    lemma_div_pos_is_pos(n, k);
    assert forall|g: int| 0 <= g < part.len() implies #[trigger] part[g].len() == (if g < r {
        q + 1
    } else {
        q
    }) by {
        lemma_arith_slice_len(ids, g, k);
        assert(g < n);
        if g < r {
            assert(n - g - 1 == q * k + (r - g - 1)) by (nonlinear_arith)
                requires
                    n == q * k + r,
            ;
            lemma_fundamental_div_mod_converse(n - g - 1, k, q, r - g - 1);
        } else {
            assert(n - g - 1 == (q - 1) * k + (k + r - g - 1)) by (nonlinear_arith)
                requires
                    n == q * k + r,
            ;
            lemma_fundamental_div_mod_converse(n - g - 1, k, q - 1, k + r - g - 1);
        }
    }
    assert forall|g: int| 0 <= g < part.len() implies #[trigger] part[g].len() == q || part[g].len()
        == (n + k - 1) / k by {
        if g < r {
            assert(n + k - 1 == (q + 1) * k + (r - 1)) by (nonlinear_arith)
                requires
                    n == q * k + r,
            ;
            lemma_fundamental_div_mod_converse(n + k - 1, k, q + 1, r - 1);
        }
    }
}

/// Law: the round-robin partition of a given input is unique, so repeating
/// the partition on the same thread ids and group count yields the same
/// partition.
pub proof fn lemma_partition_deterministic(
    ids: Seq<i32>,
    k: int,
    p1: Seq<Seq<i32>>,
    p2: Seq<Seq<i32>>,
)
    requires
        k > 0,
        is_round_robin(ids, k, p1),
        is_round_robin(ids, k, p2),
    ensures
        p1 == p2,
{
    assert(p1 =~= p2);
}

/// Partition `ids` round-robin into `k` groups: the id at position `i` goes
/// to group `i mod k`. Groups past the number of ids are not materialized,
/// so the result has `min(ids.len(), k)` groups.
pub fn partition_round_robin(ids: &Vec<i32>, k: u64) -> (part: Vec<Vec<i32>>)
    requires
        k > 0,
    ensures
        part@.len() == group_count(ids@.len() as int, k as int),
        forall|g: int| 0 <= g < part@.len() ==> #[trigger] part@[g]@ == arith_slice(ids@, g, k as int),
        is_round_robin(ids@, k as int, group_views(part@)),
{
    let n = ids.len();
    let mut part: Vec<Vec<i32>> = Vec::new();
    let mut g: usize = 0;
    while g < n && (g as u64) < k
        invariant
            n == ids@.len(),
            g <= n,
            g as u64 <= k,
            part@.len() == g,
            forall|q: int| 0 <= q < g ==> #[trigger] part@[q]@ == arith_slice(ids@, q, k as int),
        decreases n - g,
    {
        let mut grp: Vec<i32> = Vec::new();
        let mut i: usize = g;
        let ghost gpos: int = g as int;
        while i < n
            invariant
                n == ids@.len(),
                g < n,
                k > 0,
                i <= n,
                i < n ==> i == gpos,
                i >= n ==> gpos >= n,
                arith_slice(ids@, g as int, k as int) == grp@ + arith_slice(ids@, gpos, k as int),
            decreases n - i,
        {
            grp.push(ids[i]);
            proof {
                assert(arith_slice(ids@, gpos, k as int) == seq![ids@[gpos]]
                    + arith_slice(ids@, gpos + k as int, k as int));
                assert(grp@ + arith_slice(ids@, gpos + k as int, k as int) == (grp@.drop_last()
                    + seq![ids@[gpos]]) + arith_slice(ids@, gpos + k as int, k as int));
                assert(grp@.drop_last() + (seq![ids@[gpos]] + arith_slice(
                    ids@,
                    gpos + k as int,
                    k as int,
                )) =~= (grp@.drop_last() + seq![ids@[gpos]]) + arith_slice(
                    ids@,
                    gpos + k as int,
                    k as int,
                ));
                assert(grp@ =~= grp@.drop_last() + seq![ids@[gpos]]);
            }
            let rem = n - i;
            if (rem as u64) > k {
                i = i + (k as usize);
            } else {
                i = n;
            }
            proof {
                gpos = gpos + k as int;
                if i < n {
                    assert(i == gpos);
                } else {
                    assert(gpos >= n);
                }
            }
        }
        proof {
            assert(arith_slice(ids@, gpos, k as int) =~= Seq::<i32>::empty());
            assert(grp@ + Seq::<i32>::empty() =~= grp@);
        }
        part.push(grp);
        g = g + 1;
    }
    proof {
        if g < n {
            assert(g as u64 == k);
        }
        assert(part@.len() == group_count(n as int, k as int));
        assert forall|q: int| 0 <= q < group_views(part@).len() implies #[trigger] group_views(
            part@,
        )[q] == arith_slice(ids@, q, k as int) by {
            assert(group_views(part@)[q] == part@[q]@);
        }
    }
    part
}

} // verus!
