//! Validation of a submitted rating, read from the bit pattern of a
//! single-precision float.
use vstd::arithmetic::power2::*;
use vstd::prelude::*;

verus! {

pub open spec fn sign_bit(b: u32) -> nat {
    (b / 0x8000_0000) as nat
}

pub open spec fn exponent_field(b: u32) -> nat {
    ((b / 0x80_0000) % 0x100) as nat
}

pub open spec fn fraction_field(b: u32) -> nat {
    (b % 0x80_0000) as nat
}

/// The integer significand: the fraction, with the hidden bit of a normal
/// number added.
pub open spec fn significand(b: u32) -> nat {
    if exponent_field(b) == 0 {
        fraction_field(b)
    } else {
        fraction_field(b) + 0x80_0000
    }
}

/// The effective exponent, with which the encoded magnitude is
/// `significand(b) * 2^(binary_exponent(b) - 150)`.
pub open spec fn binary_exponent(b: u32) -> nat {
    if exponent_field(b) == 0 {
        1
    } else {
        exponent_field(b)
    }
}

/// `b` encodes a finite number whose double is the natural number `k`.
pub open spec fn encodes_half_steps(b: u32, k: nat) -> bool {
    &&& exponent_field(b) != 0xff
    &&& if significand(b) == 0 {
        k == 0
    } else {
        sign_bit(b) == 0 && significand(b) * pow2(binary_exponent(b)) == k * pow2(149)
    }
}

/// `b` encodes one of `0, 0.5, 1, ..., 5`: a finite number between zero and
/// five whose fractional part is zero or one half.
pub open spec fn is_valid_rating(b: u32) -> bool {
    exists|k: nat| k <= 10 && #[trigger] encodes_half_steps(b, k)
}

proof fn lemma_exact_steps(b: u32, e: nat, unit: nat)
    requires
        significand(b) != 0,
        sign_bit(b) == 0,
        exponent_field(b) == e,
        126 <= e <= 129,
        unit == pow2((149 - e) as nat),
    ensures
        is_valid_rating(b) == (significand(b) % unit == 0 && significand(b) / unit <= 10),
{
    let s = significand(b);
    lemma_pow2_adds(e, (149 - e) as nat);
    lemma_pow2_pos(e);
    lemma_pow2_pos((149 - e) as nat);
    let p = pow2(e);
    if s % unit == 0 && s / unit <= 10 {
        let k = s / unit;
        assert(s == k * unit) by (nonlinear_arith)
            requires
                s % unit == 0,
                k == s / unit,
                unit > 0,
        ;
        assert(s * p == k * (p * unit)) by (nonlinear_arith)
            requires
                s == k * unit,
        ;
        assert(encodes_half_steps(b, k));
    }
    if is_valid_rating(b) {
        let k = choose|k: nat| k <= 10 && #[trigger] encodes_half_steps(b, k);
        assert(s * p == k * (p * unit));
        assert(s == k * unit) by (nonlinear_arith)
            requires
                s * p == k * (p * unit),
                p > 0,
        ;
        assert(s % unit == 0 && s / unit == k) by (nonlinear_arith)
            requires
                s == k * unit,
                unit > 0,
        ;
    }
}

proof fn lemma_out_of_range(b: u32)
    requires
        significand(b) != 0,
        exponent_field(b) != 0xff,
        exponent_field(b) < 126 || exponent_field(b) > 129,
    ensures
        !is_valid_rating(b),
{
    let s = significand(b);
    let e = binary_exponent(b);
    lemma_pow2_pos(e);
    lemma2_to64();
    if is_valid_rating(b) {
        let k = choose|k: nat| k <= 10 && #[trigger] encodes_half_steps(b, k);
        lemma_pow2_pos(149);
        assert(s * pow2(e) > 0) by (nonlinear_arith)
            requires
                s > 0,
                pow2(e) > 0,
        ;
        assert(s * pow2(e) == k * pow2(149));
        assert(k >= 1) by (nonlinear_arith)
            requires
                s * pow2(e) == k * pow2(149),
                s * pow2(e) > 0,
        ;
        if e < 126 {
            lemma_pow2_adds(24, 125);
            lemma_pow2_increases(e, 125);
            assert(s < pow2(24));
            assert(s * pow2(e) < pow2(24) * pow2(125)) by (nonlinear_arith)
                requires
                    s < pow2(24),
                    pow2(e) <= pow2(125),
                    pow2(e) > 0,
            ;
            assert(k * pow2(149) >= pow2(149)) by (nonlinear_arith)
                requires
                    k >= 1,
            ;
        } else {
            lemma_pow2_adds(23, 130);
            lemma_pow2_adds(4, 149);
            lemma_pow2_increases(130, e);
            assert(s >= pow2(23));
            assert(s * pow2(e) >= pow2(23) * pow2(130)) by (nonlinear_arith)
                requires
                    s >= pow2(23),
                    pow2(e) >= pow2(130),
            ;
            assert(k * pow2(149) < pow2(4) * pow2(149)) by (nonlinear_arith)
                requires
                    k <= 10,
                    pow2(4) == 16,
                    pow2(149) > 0,
            ;
        }
    }
}

proof fn lemma_pow2_increases(e1: nat, e2: nat)
    requires
        e1 <= e2,
    ensures
        pow2(e1) <= pow2(e2),
{
    if e1 < e2 {
        lemma_pow2_strictly_increases(e1, e2);
    }
}

/// Whether `bits`, read as a single-precision float, is an acceptable
/// rating: one of `0, 0.5, 1, ..., 5` (negative zero included).
pub fn validate_rating(bits: u32) -> (r: bool)
    ensures
        r == is_valid_rating(bits),
{
    let exponent: u32 = (bits / 0x80_0000) % 0x100;
    let fraction: u32 = bits % 0x80_0000;
    let sig: u32 = if exponent == 0 { fraction } else { fraction + 0x80_0000 };
    proof {
        lemma2_to64();
    }
    if exponent == 0xff {
        assert forall|k: nat| k <= 10 implies !encodes_half_steps(bits, k) by {}
        false
    } else if sig == 0 {
        assert(encodes_half_steps(bits, 0));
        true
    } else if bits >= 0x8000_0000 {
        assert forall|k: nat| k <= 10 implies !encodes_half_steps(bits, k) by {}
        false
    } else if 126 <= exponent && exponent <= 129 {
        let unit: u32 = if exponent == 126 {
            0x80_0000
        } else if exponent == 127 {
            0x40_0000
        } else if exponent == 128 {
            0x20_0000
        } else {
            0x10_0000
        };
        proof {
            lemma_exact_steps(bits, exponent as nat, unit as nat);
        }
        sig % unit == 0 && sig / unit <= 10
    } else {
        proof {
            lemma_out_of_range(bits);
        }
        false
    }
}

} // verus!
