use vstd::prelude::*;

use crate::error::FitError;

verus! {

/// Sign bit of a binary64 bit pattern.
pub const SIGN_BIT: u64 = 0x8000_0000_0000_0000;

/// Exponent and mantissa bits of a binary64 bit pattern.
pub const MAGNITUDE_MASK: u64 = 0x7fff_ffff_ffff_ffff;

/// Mantissa bits of a binary64 bit pattern.
pub const MANTISSA_MASK: u64 = 0x000f_ffff_ffff_ffff;

/// Exponent bits of a binary64 bit pattern.
pub const EXPONENT_MASK: u64 = 0x7ff0_0000_0000_0000;

/// The bit pattern encodes a NaN: all exponent bits set and a non-zero mantissa.
pub open spec fn is_nan_bits(b: u64) -> bool {
    &&& b & EXPONENT_MASK == EXPONENT_MASK
    &&& b & MANTISSA_MASK != 0
}

/// The position of a non-NaN binary64 value on the number line.
///
/// In IEEE-754 binary64 the exponent and mantissa bits, read as one integer,
/// grow with the magnitude of the value, so for two non-NaN patterns `a`, `b`
/// the value of `a` is at most the value of `b` exactly when
/// `ordinal(a) <= ordinal(b)` (both zeros have ordinal 0).
pub open spec fn ordinal(b: u64) -> int {
    if b & SIGN_BIT == 0 {
        (b & MAGNITUDE_MASK) as int
    } else {
        -((b & MAGNITUDE_MASK) as int)
    }
}

/// Order of values used to rank fits: non-NaN values by their position on
/// the number line, every NaN after all of them.
pub open spec fn rank_le(a: u64, b: u64) -> bool {
    is_nan_bits(b) || (!is_nan_bits(a) && ordinal(a) <= ordinal(b))
}

/// The ranking key of a bit pattern: every NaN maps to the largest key, a
/// non-NaN value to a key that grows with its ordinal, -0 just below +0.
pub open spec fn rank_key(b: u64) -> int {
    if is_nan_bits(b) {
        u64::MAX as int
    } else if b & SIGN_BIT == 0 {
        SIGN_BIT as int + ordinal(b)
    } else {
        SIGN_BIT as int - 1 + ordinal(b)
    }
}

/// Maps the bit pattern of a residual to an unsigned key whose order is the
/// ranking order: NaN sorts last, never aborting a comparison.
pub fn order_key(bits: u64) -> (k: u64)
    ensures
        k as int == rank_key(bits),
        !is_nan_bits(bits) ==> k < u64::MAX,
{
    proof {
        lemma_key_arith(bits);
    }
    if bits & EXPONENT_MASK == EXPONENT_MASK && bits & MANTISSA_MASK != 0 {
        u64::MAX
    } else if bits & SIGN_BIT == 0 {
        bits | SIGN_BIT
    } else {
        !bits
    }
}

proof fn lemma_key_arith(b: u64)
    ensures
        b & SIGN_BIT == 0 ==> (b | SIGN_BIT) as int == SIGN_BIT as int + (b & MAGNITUDE_MASK) as int,
        b & SIGN_BIT != 0 ==> (!b) as int == SIGN_BIT as int - 1 - (b & MAGNITUDE_MASK) as int,
        !(b & EXPONENT_MASK == EXPONENT_MASK && b & MANTISSA_MASK != 0) && b & SIGN_BIT == 0
            ==> (b | SIGN_BIT) < u64::MAX,
        b & SIGN_BIT != 0 ==> !b < SIGN_BIT,
{
    assert(b & 0x8000_0000_0000_0000u64 == 0 ==> (b | 0x8000_0000_0000_0000u64) == 0x8000_0000_0000_0000u64 + (b & 0x7fff_ffff_ffff_ffffu64)) by (bit_vector);
    assert(b & 0x8000_0000_0000_0000u64 != 0 ==> !b == 0x7fff_ffff_ffff_ffffu64 - (b & 0x7fff_ffff_ffff_ffffu64)) by (bit_vector);
    assert(!(b & 0x7ff0_0000_0000_0000u64 == 0x7ff0_0000_0000_0000u64 && b & 0x000f_ffff_ffff_ffffu64 != 0) && b & 0x8000_0000_0000_0000u64 == 0
        ==> (b | 0x8000_0000_0000_0000u64) < 0xffff_ffff_ffff_ffffu64) by (bit_vector);
    assert(b & 0x8000_0000_0000_0000u64 != 0 ==> !b < 0x8000_0000_0000_0000u64) by (bit_vector);
}

/// Comparing keys compares values: a key that is not larger belongs to a
/// value that ranks no later, and a value strictly further left on the
/// number line gets a strictly smaller key.
pub proof fn lemma_rank_key_order(a: u64, b: u64)
    ensures
        rank_key(a) <= rank_key(b) ==> rank_le(a, b),
        !is_nan_bits(a) && !is_nan_bits(b) && ordinal(a) < ordinal(b) ==> rank_key(a) < rank_key(b),
        !is_nan_bits(a) && is_nan_bits(b) ==> rank_key(a) < rank_key(b),
{
    lemma_key_arith(a);
    lemma_key_arith(b);
}

/// Sample `i` converged, with a residual whose bit pattern is stored.
pub open spec fn converged(residuals: Seq<Option<u64>>, i: int) -> bool {
    0 <= i < residuals.len() && residuals[i] is Some
}

/// Ranking position of a converged sample: its key, then its sample number,
/// so that equal residuals keep the sampling order.
pub open spec fn precedes(residuals: Seq<Option<u64>>, i: int, j: int) -> bool {
    let ki = rank_key(residuals[i]->0);
    let kj = rank_key(residuals[j]->0);
    ki < kj || (ki == kj && i < j)
}

/// `order` lists converged samples, best first, and every converged sample
/// that ranks before a listed one is listed too.
pub open spec fn is_ranked_prefix(residuals: Seq<Option<u64>>, order: Seq<usize>) -> bool {
    &&& forall|j: int| 0 <= j < order.len() ==> converged(residuals, #[trigger] order[j] as int)
    &&& forall|i: int, j: int|
        0 <= i < j < order.len() ==> precedes(residuals, #[trigger] order[i] as int, #[trigger] order[j] as int)
    &&& forall|s: int, j: int|
        converged(residuals, s) && 0 <= j < order.len() && precedes(residuals, s, #[trigger] order[j] as int)
            ==> #[trigger] order.contains(s as usize)
}

/// `order` is the ranking of the converged samples cut after `reports`
/// entries: the best `reports` of them, or all of them if fewer converged.
pub open spec fn is_ranking(residuals: Seq<Option<u64>>, reports: nat, order: Seq<usize>) -> bool {
    &&& is_ranked_prefix(residuals, order)
    &&& order.len() <= reports
    &&& order.len() < reports ==> forall|s: int| converged(residuals, s) ==> order.contains(s as usize)
}

/// Ranks the outcomes of the random starts. `residuals[i]` is the bit pattern
/// of sample `i`'s total residual, or `None` when its fit did not converge;
/// such samples are discarded. The result lists sample numbers, best first
/// (NaN last, ties in sampling order), at most `reports` of them.
pub fn rank_outcomes(residuals: &Vec<Option<u64>>, reports: usize) -> (r: Result<Vec<usize>, FitError>)
    ensures
        r is Err <==> forall|i: int| 0 <= i < residuals@.len() ==> !converged(residuals@, i),
        r is Err ==> r == Err::<Vec<usize>, FitError>(FitError::NoConvergentFit),
        r matches Ok(order) ==> is_ranking(residuals@, reports as nat, order@),
{
    let n = residuals.len();
    let mut any = false;
    let mut i: usize = 0;
    while i < n
        invariant
            n == residuals@.len(),
            i <= n,
            any <==> exists|s: int| 0 <= s < i && converged(residuals@, s),
        decreases n - i,
    {
        if residuals[i].is_some() {
            any = true;
            assert(converged(residuals@, i as int));
        } else {
            assert forall|s: int| 0 <= s < i + 1 && converged(residuals@, s) implies s < i by {}
        }
        i = i + 1;
    }
    if !any {
        return Err(FitError::NoConvergentFit);
    }
    let mut order: Vec<usize> = Vec::new();
    let mut done = false;
    while order.len() < reports && !done
        invariant
            n == residuals@.len(),
            order@.len() <= reports,
            is_ranked_prefix(residuals@, order@),
            done ==> forall|s: int| converged(residuals@, s) ==> order@.contains(s as usize),
        decreases reports - order@.len() + (if done { 0int } else { 1int }),
    {
        match next_in_rank(residuals, &order) {
            None => {
                done = true;
            },
            Some(b) => {
                proof {
                    lemma_extend_ranked_prefix(residuals@, order@, b);
                }
                order.push(b);
            },
        }
    }
    Ok(order)
}

/// The best converged sample that ranks after the last listed one.
fn next_in_rank(residuals: &Vec<Option<u64>>, order: &Vec<usize>) -> (r: Option<usize>)
    requires
        is_ranked_prefix(residuals@, order@),
    ensures
        r is None ==> forall|s: int| converged(residuals@, s) ==> order@.contains(s as usize),
        r matches Some(b) ==> {
            &&& converged(residuals@, b as int)
            &&& order@.len() > 0 ==> precedes(residuals@, order@.last() as int, b as int)
            &&& forall|s: int|
                converged(residuals@, s) && precedes(residuals@, s, b as int) ==> order@.contains(s as usize)
        },
{
    let n = residuals.len();
    let has_last = order.len() > 0;
    let mut last: usize = 0;
    let mut last_key: u64 = 0;
    if has_last {
        last = order[order.len() - 1];
        match residuals[last] {
            Some(bits) => {
                last_key = order_key(bits);
            },
            None => {},
        }
    }
    let mut best: Option<usize> = None;
    let mut best_key: u64 = 0;
    let mut i: usize = 0;
    while i < n
        invariant
            n == residuals@.len(),
            i <= n,
            is_ranked_prefix(residuals@, order@),
            has_last == (order@.len() > 0),
            has_last ==> last == order@.last() && last_key as int == rank_key(residuals@[last as int]->0),
            best matches Some(b) ==> {
                &&& b < i
                &&& converged(residuals@, b as int)
                &&& best_key as int == rank_key(residuals@[b as int]->0)
                &&& has_last ==> precedes(residuals@, last as int, b as int)
            },
            forall|s: int|
                0 <= s < i && converged(residuals@, s) && (has_last ==> precedes(residuals@, last as int, s))
                    ==> (best matches Some(b) && (s == b || precedes(residuals@, b as int, s))),
        decreases n - i,
    {
        match residuals[i] {
            Some(bits) => {
                let k = order_key(bits);
                let after_last = !has_last || last_key < k || (last_key == k && last < i);
                if after_last {
                    let better = match best {
                        None => true,
                        Some(_) => k < best_key,
                    };
                    if better {
                        best = Some(i);
                        best_key = k;
                    }
                }
            },
            None => {},
        }
        i = i + 1;
    }
    proof {
        if best is None {
            assert forall|s: int| converged(residuals@, s) implies order@.contains(s as usize) by {
                if has_last && s != last as int && !precedes(residuals@, last as int, s) {
                    assert(precedes(residuals@, s, order@[order@.len() - 1] as int));
                }
                if has_last && s == last as int {
                    assert(order@[order@.len() - 1] == s as usize);
                }
            }
        }
    }
    best
}

/// The fits of a ranking come in non-decreasing order of total residual, and
/// a NaN residual only after every number.
pub proof fn lemma_ranking_sorted(residuals: Seq<Option<u64>>, reports: nat, order: Seq<usize>)
    requires
        is_ranking(residuals, reports, order),
    ensures
        forall|i: int, j: int|
            0 <= i < j < order.len() ==> rank_le(
                #[trigger] residuals[order[i] as int]->0,
                #[trigger] residuals[order[j] as int]->0,
            ),
{
    assert forall|i: int, j: int| 0 <= i < j < order.len() implies rank_le(
        #[trigger] residuals[order[i] as int]->0,
        #[trigger] residuals[order[j] as int]->0,
    ) by {
        assert(precedes(residuals, order[i] as int, order[j] as int));
        lemma_rank_key_order(residuals[order[i] as int]->0, residuals[order[j] as int]->0);
    }
}

proof fn lemma_extend_ranked_prefix(residuals: Seq<Option<u64>>, order: Seq<usize>, b: usize)
    requires
        is_ranked_prefix(residuals, order),
        converged(residuals, b as int),
        order.len() > 0 ==> precedes(residuals, order.last() as int, b as int),
        forall|s: int| converged(residuals, s) && precedes(residuals, s, b as int) ==> order.contains(s as usize),
    ensures
        is_ranked_prefix(residuals, order.push(b)),
{
    let o2 = order.push(b);
    assert forall|i: int, j: int| 0 <= i < j < o2.len() implies precedes(residuals, #[trigger] o2[i] as int, #[trigger] o2[j] as int) by {
        if j == order.len() && i < order.len() - 1 {
            assert(precedes(residuals, order[i] as int, order[order.len() - 1] as int));
        }
    }
    assert forall|s: int, j: int|
        converged(residuals, s) && 0 <= j < o2.len() && precedes(residuals, s, #[trigger] o2[j] as int)
        implies #[trigger] o2.contains(s as usize) by {
        if j < order.len() {
            assert(order.contains(s as usize));
        } else {
            assert(order.contains(s as usize));
        }
        let k = choose|k: int| 0 <= k < order.len() && order[k] == s as usize;
        assert(o2[k] == s as usize);
    }
}

} // verus!
