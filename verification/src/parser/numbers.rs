//! Whole numbers from the IEEE-754 bit patterns that number tokens carry.

use vstd::prelude::*;
use vstd::arithmetic::power2::{pow2, lemma_pow2_pos, lemma_pow2_unfold, lemma_pow2_strictly_increases, lemma2_to64};
use vstd::bits::{lemma_u64_shl_is_mul, lemma_u64_pow2_no_overflow};

verus! {

/// `2^52`, the weight of the implicit leading bit of a normal `f64`.
pub open spec fn implicit_bit() -> nat {
    0x10_0000_0000_0000
}

/// The value of the `f64` with bit pattern `bits` when it is a finite,
/// non-negative whole number (`-0.0` counting as `0`); `None` when it is
/// negative, has a fractional part, or is infinite or NaN.
pub open spec fn f64_whole_number(bits: u64) -> Option<nat> {
    let exp = (bits as nat / implicit_bit()) % 0x800;
    let mant = bits as nat % implicit_bit();
    let negative = bits >= 0x8000_0000_0000_0000;
    if exp == 0x7ff {
        None
    } else if exp == 0 {
        if mant == 0 { Some(0) } else { None }
    } else if negative || exp < 1023 {
        None
    } else if exp >= 1075 {
        Some((implicit_bit() + mant) * pow2((exp - 1075) as nat))
    } else if mant % pow2((1075 - exp) as nat) == 0 {
        Some((implicit_bit() + mant) / pow2((1075 - exp) as nat))
    } else {
        None
    }
}

/// `n` as a `usize`, or `usize::MAX` when it does not fit.
pub open spec fn saturate(n: nat) -> usize {
    if n > usize::MAX { usize::MAX } else { n as usize }
}

/// The number of places a `precision` statement asks for, given the bit
/// pattern of its number: the number when it is a finite non-negative whole
/// number (as `f64 as usize` converts it, saturating), `None` otherwise.
pub fn whole_number_places(bits: u64) -> (r: Option<usize>)
    ensures
        r == match f64_whole_number(bits) {
            Some(n) => Some(saturate(n)),
            None => None,
        },
{
    let exp: u64 = (bits / 0x10_0000_0000_0000) % 0x800;
    let mant: u64 = bits % 0x10_0000_0000_0000;
    if exp == 0x7ff {
        return None;
    }
    if exp == 0 {
        return if mant == 0 { Some(0) } else { None };
    }
    if bits >= 0x8000_0000_0000_0000 || exp < 1023 {
        return None;
    }
    let m: u64 = 0x10_0000_0000_0000 + mant;
    if exp >= 1075 {
        let e: u64 = exp - 1075;
        proof {
            lemma2_to64();
            lemma_pow2_pos(e as nat);
            assert(m * 1 <= m * pow2(e as nat)) by (nonlinear_arith)
                requires pow2(e as nat) >= 1;
        }
        if m > usize::MAX as u64 {
            return Some(usize::MAX);
        }
        let mut v: u64 = m;
        let mut k: u64 = 0;
        assert(f64_whole_number(bits) == Some((m * pow2(e as nat)) as nat));
        while k < e
            invariant
                k <= e,
                e == exp - 1075,
                exp < 0x7ff,
                m == implicit_bit() + mant,
                v as nat == m * pow2(k as nat),
                v <= usize::MAX,
                f64_whole_number(bits) == Some((m * pow2(e as nat)) as nat),
            decreases e - k,
        {
            if v > (usize::MAX / 2) as u64 {
                proof {
                    lemma_pow2_unfold((k + 1) as nat);
                    if k + 1 < e {
                        lemma_pow2_strictly_increases((k + 1) as nat, e as nat);
                    }
                    assert(m * pow2((k + 1) as nat) <= m * pow2(e as nat)) by (nonlinear_arith)
                        requires pow2((k + 1) as nat) <= pow2(e as nat);
                    assert(m * pow2((k + 1) as nat) == 2 * (m * pow2(k as nat))) by (nonlinear_arith)
                        requires pow2((k + 1) as nat) == 2 * pow2(k as nat);
                    assert(2 * (v as int) > usize::MAX);
                    assert(saturate((m * pow2(e as nat)) as nat) == usize::MAX);
                }
                return Some(usize::MAX);
            }
            proof {
                lemma_pow2_unfold((k + 1) as nat);
                assert(m * pow2((k + 1) as nat) == 2 * (m * pow2(k as nat))) by (nonlinear_arith)
                    requires pow2((k + 1) as nat) == 2 * pow2(k as nat);
            }
            v = v * 2;
            k = k + 1;
        }
        return Some(v as usize);
    }
    let s: u64 = 1075 - exp;
    let p: u64 = 1u64 << s;
    proof {
        lemma_u64_pow2_no_overflow(s as nat);
        lemma_u64_shl_is_mul(1, s);
        lemma_pow2_pos(s as nat);
    }
    if mant % p != 0 {
        return None;
    }
    let q: u64 = m / p;
    if q > usize::MAX as u64 {
        return Some(usize::MAX);
    }
    Some(q as usize)
}

} // verus!
