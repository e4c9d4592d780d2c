use vstd::prelude::*;

use crate::ranking::{order_key, rank_key};

verus! {

/// Sample `a` comes before sample `b` in value order: by ranking key (NaN
/// last), ties by position.
pub open spec fn value_before(bits: Seq<u64>, a: int, b: int) -> bool {
    rank_key(bits[a]) < rank_key(bits[b]) || (rank_key(bits[a]) == rank_key(bits[b]) && a < b)
}

/// `order` lists the positions `0..m` of `bits` in value order.
pub open spec fn sorts_prefix(bits: Seq<u64>, m: nat, order: Seq<usize>) -> bool {
    &&& order.len() == m
    &&& forall|j: int| 0 <= j < m ==> #[trigger] order[j] < m
    &&& forall|i: int, j: int|
        0 <= i < j < m ==> value_before(bits, #[trigger] order[i] as int, #[trigger] order[j] as int)
}

/// Order statistics of every prefix of a residual series, given as the bit
/// patterns of its values: entry `m` lists the positions of the first `m + 1`
/// values from smallest to largest (NaN last, ties by position). Each
/// expanding-window quantile is read off these lists.
pub fn expanding_order(bits: &Vec<u64>) -> (r: Vec<Vec<usize>>)
    ensures
        r@.len() == bits@.len(),
        forall|m: int| 0 <= m < bits@.len() ==> sorts_prefix(bits@, (m + 1) as nat, #[trigger] r@[m]@),
{
    let n = bits.len();
    let mut r: Vec<Vec<usize>> = Vec::new();
    let mut order: Vec<usize> = Vec::new();
    let mut m: usize = 0;
    while m < n
        invariant
            n == bits@.len(),
            m <= n,
            sorts_prefix(bits@, m as nat, order@),
            r@.len() == m,
            forall|k: int| 0 <= k < m ==> sorts_prefix(bits@, (k + 1) as nat, #[trigger] r@[k]@),
        decreases n - m,
    {
        insert_in_order(bits, &mut order, m);
        r.push(copy_positions(&order));
        m = m + 1;
    }
    r
}

/// Inserts position `m` into the value-ordered list of positions `0..m`.
fn insert_in_order(bits: &Vec<u64>, order: &mut Vec<usize>, m: usize)
    requires
        m < bits@.len(),
        sorts_prefix(bits@, m as nat, old(order)@),
    ensures
        sorts_prefix(bits@, (m + 1) as nat, final(order)@),
{
    let k = order_key(bits[m]);
    let mut p: usize = 0;
    while p < order.len() && order_key(bits[order[p]]) <= k
        invariant
            m < bits@.len(),
            sorts_prefix(bits@, m as nat, order@),
            k as int == rank_key(bits@[m as int]),
            p <= order@.len(),
            forall|j: int| 0 <= j < p ==> rank_key(bits@[#[trigger] order@[j] as int]) <= k,
        decreases order@.len() - p,
    {
        p = p + 1;
    }
    let ghost before = order@;
    order.insert(p, m);
    proof {
        assert forall|j: int| p <= j < m implies rank_key(bits@[m as int]) < rank_key(bits@[#[trigger] before[j] as int]) by {
            if j > p {
                assert(value_before(bits@, before[p as int] as int, before[j] as int));
            }
        }
        assert forall|i: int, j: int| 0 <= i < j < m + 1 implies value_before(
            bits@,
            #[trigger] order@[i] as int,
            #[trigger] order@[j] as int,
        ) by {
            if j < p {
                assert(value_before(bits@, before[i] as int, before[j] as int));
            } else if j == p {
                assert(before[i] < m);
            } else if i < p {
                assert(value_before(bits@, before[i] as int, before[j - 1] as int));
            } else if i == p {
                assert(before[j - 1] < m);
            } else {
                assert(value_before(bits@, before[i - 1] as int, before[j - 1] as int));
            }
        }
    }
}

/// A copy of a list of positions.
fn copy_positions(v: &Vec<usize>) -> (r: Vec<usize>)
    ensures
        r@ == v@,
{
    let mut r: Vec<usize> = Vec::new();
    let mut i: usize = 0;
    while i < v.len()
        invariant
            i <= v@.len(),
            r@ == v@.take(i as int),
        decreases v@.len() - i,
    {
        r.push(v[i]);
        i = i + 1;
        assert(r@ =~= v@.take(i as int));
    }
    assert(r@ =~= v@);
    r
}

} // verus!
