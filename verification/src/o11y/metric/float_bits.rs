//! Comparisons on `f64` values held as their bit patterns (`f64::to_bits`), so that bucket bounds can be sorted and
//! values filed into buckets without the library doing any floating-point arithmetic.
//!
//! An IEEE 754 double is a sign bit, an 11-bit exponent and a 52-bit fraction. Its bit pattern is NaN when the
//! exponent is all ones and the fraction is not zero, and zero (of either sign) when everything but the sign is
//! zero.

use vstd::prelude::*;

verus! {

/// The bits holding an `f64`'s exponent.
pub const EXPONENT_MASK: u64 = 0x7ff0_0000_0000_0000;

/// The bits holding an `f64`'s fraction.
pub const FRACTION_MASK: u64 = 0x000f_ffff_ffff_ffff;

/// Everything but an `f64`'s sign bit.
pub const MAGNITUDE_MASK: u64 = 0x7fff_ffff_ffff_ffff;

/// The sign bit: set for negative values, `-0.0` among them.
pub const SIGN_BIT: u64 = 0x8000_0000_0000_0000;

/// Whether `bits` is a NaN.
pub open spec fn is_nan(bits: u64) -> bool {
    (bits & EXPONENT_MASK) == EXPONENT_MASK && (bits & FRACTION_MASK) != 0
}

/// Whether `bits` is `0.0` or `-0.0`.
pub open spec fn is_zero(bits: u64) -> bool {
    (bits & MAGNITUDE_MASK) == 0
}

/// The key `f64::total_cmp` orders by, as its documentation gives it: the bit pattern read as a signed integer,
/// with every bit but the sign flipped when the sign is set. Negative values thereby order below positive ones and
/// by decreasing magnitude, `-0.0` just below `0.0`, and NaNs at the ends.
pub open spec fn total_key(bits: u64) -> int {
    if bits >= SIGN_BIT {
        MAGNITUDE_MASK - bits
    } else {
        bits as int
    }
}

/// IEEE 754 `a <= b`: false when either is a NaN, true for two zeros whatever their signs, and otherwise the order
/// of the total-order keys, which agrees with the numeric order on everything but NaNs and the sign of zero.
pub open spec fn float_le(a: u64, b: u64) -> bool {
    !is_nan(a) && !is_nan(b) && ((is_zero(a) && is_zero(b)) || total_key(a) <= total_key(b))
}

/// Whether `s` ascends in the order `f64::total_cmp` gives.
pub open spec fn sorted_by_total_order(s: Seq<u64>) -> bool {
    forall|i: int, j: int| 0 <= i < j < s.len() ==> total_key(s[i]) <= total_key(s[j])
}

/// The total-order key of `bits`.
pub fn key_of(bits: u64) -> (k: i128)
    ensures
        k == total_key(bits),
{
    if bits >= SIGN_BIT {
        MAGNITUDE_MASK as i128 - bits as i128
    } else {
        bits as i128
    }
}

/// Whether the `f64` with bit pattern `a` is at most the one with bit pattern `b`, as `<=` on `f64` decides it.
pub fn le_bits(a: u64, b: u64) -> (r: bool)
    ensures
        r == float_le(a, b),
{
    let a_nan = (a & EXPONENT_MASK) == EXPONENT_MASK && (a & FRACTION_MASK) != 0;
    let b_nan = (b & EXPONENT_MASK) == EXPONENT_MASK && (b & FRACTION_MASK) != 0;
    if a_nan || b_nan {
        return false;
    }
    if (a & MAGNITUDE_MASK) == 0 && (b & MAGNITUDE_MASK) == 0 {
        return true;
    }
    key_of(a) <= key_of(b)
}

/// `values`, sorted as `sort_by(f64::total_cmp)` sorts them: the same values, ascending by [`total_key`].
pub fn sort_by_total_order(values: &[u64]) -> (r: Vec<u64>)
    ensures
        sorted_by_total_order(r@),
        r@.to_multiset() == values@.to_multiset(),
{
    broadcast use vstd::seq_lib::group_to_multiset_ensures;
    let mut r: Vec<u64> = Vec::new();
    let mut i: usize = 0;
    while i < values.len()
        invariant
            i <= values@.len(),
            sorted_by_total_order(r@),
            r@.to_multiset() == values@.subrange(0, i as int).to_multiset(),
        decreases values@.len() - i,
    {
        let x = values[i];
        let kx = key_of(x);
        let mut p: usize = 0;
        while p < r.len() && key_of(r[p]) <= kx
            invariant
                p <= r@.len(),
                kx == total_key(x),
                forall|q: int| 0 <= q < p ==> total_key(#[trigger] r@[q]) <= total_key(x),
            decreases r@.len() - p,
        {
            p += 1;
        }
        let ghost before = r@;
        proof {
            if p < before.len() {
                assert forall|q: int| p <= q < before.len() implies total_key(x) < total_key(
                    #[trigger] before[q],
                ) by {
                    assert(total_key(before[p as int]) <= total_key(before[q]));
                }
            }
            vstd::seq_lib::to_multiset_insert(before, p as int, x);
            vstd::seq_lib::to_multiset_build(values@.subrange(0, i as int), x);
            assert(values@.subrange(0, i + 1) =~= values@.subrange(0, i as int).push(x));
        }
        r.insert(p, x);
        assert(r@ =~= before.insert(p as int, x));
        assert forall|a: int, b: int| 0 <= a < b < r@.len() implies total_key(r@[a]) <= total_key(r@[b]) by {
            if b < p {
            } else if b == p {
            } else if a < p {
                assert(total_key(before[a]) <= total_key(x));
                assert(r@[b] == before[b - 1]);
            } else if a == p {
                assert(r@[b] == before[b - 1]);
            } else {
                assert(r@[a] == before[a - 1]);
                assert(r@[b] == before[b - 1]);
            }
        }
        i += 1;
    }
    assert(values@.subrange(0, values@.len() as int) =~= values@);
    r
}

} // verus!
