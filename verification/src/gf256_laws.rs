//! Field laws of GF(2^8).
//!
//! The lemmas here establish that the table-driven arithmetic of [`crate::gf256`]
//! forms a field: the tables invert each other, multiplication is commutative,
//! associative and distributive over addition, division inverts multiplication,
//! and the quadratic used to build GF(2^16) has no root.

use vstd::prelude::*;
use crate::gf256::{exp_at, log_at, gf256_add, gf256_mul, gf256_div, xtime, xtime_pow};

verus! {

/// The two tables invert each other: the logarithm of a nonzero byte is below
/// 255 and exponentiates back to the byte, and the powers x^j for j in 0..255
/// are nonzero with logarithm j.
#[verifier::rlimit(100)]
pub proof fn lemma_gf256_tables()
    ensures
        forall|b: int| 1 <= b < 256 ==> (#[trigger] log_at(b)) < 255,
        forall|b: int| 1 <= b < 256 ==> exp_at(#[trigger] log_at(b) as int) == b,
        forall|j: int| 0 <= j < 255 ==> (#[trigger] exp_at(j)) != 0,
        forall|j: int| 0 <= j < 255 ==> log_at(#[trigger] exp_at(j) as int) == j,
{
    reveal(exp_at);
    reveal(log_at);
}

/// Consecutive entries of the exponential table are related by [`xtime`],
/// and the powers of x wrap around after 255 steps.
#[verifier::rlimit(100)]
pub proof fn lemma_gf256_exp_step()
    ensures
        forall|j: int| 0 <= j < 254 ==> exp_at(j + 1) == #[trigger] xtime(exp_at(j)),
        exp_at(0) == xtime(exp_at(254)),
{
    reveal(exp_at);
    assert({
        xtime(0x01u8) == 0x02 &&
        xtime(0x02u8) == 0x04 &&
        xtime(0x04u8) == 0x08 &&
        xtime(0x08u8) == 0x10 &&
        xtime(0x10u8) == 0x20 &&
        xtime(0x20u8) == 0x40 &&
        xtime(0x40u8) == 0x80 &&
        xtime(0x80u8) == 0x1d &&
        xtime(0x1du8) == 0x3a &&
        xtime(0x3au8) == 0x74 &&
        xtime(0x74u8) == 0xe8 &&
        xtime(0xe8u8) == 0xcd &&
        xtime(0xcdu8) == 0x87 &&
        xtime(0x87u8) == 0x13 &&
        xtime(0x13u8) == 0x26 &&
        xtime(0x26u8) == 0x4c &&
        xtime(0x4cu8) == 0x98 &&
        xtime(0x98u8) == 0x2d &&
        xtime(0x2du8) == 0x5a &&
        xtime(0x5au8) == 0xb4 &&
        xtime(0xb4u8) == 0x75 &&
        xtime(0x75u8) == 0xea &&
        xtime(0xeau8) == 0xc9 &&
        xtime(0xc9u8) == 0x8f &&
        xtime(0x8fu8) == 0x03 &&
        xtime(0x03u8) == 0x06 &&
        xtime(0x06u8) == 0x0c &&
        xtime(0x0cu8) == 0x18 &&
        xtime(0x18u8) == 0x30 &&
        xtime(0x30u8) == 0x60 &&
        xtime(0x60u8) == 0xc0 &&
        xtime(0xc0u8) == 0x9d &&
        xtime(0x9du8) == 0x27 &&
        xtime(0x27u8) == 0x4e &&
        xtime(0x4eu8) == 0x9c &&
        xtime(0x9cu8) == 0x25 &&
        xtime(0x25u8) == 0x4a &&
        xtime(0x4au8) == 0x94 &&
        xtime(0x94u8) == 0x35 &&
        xtime(0x35u8) == 0x6a &&
        xtime(0x6au8) == 0xd4 &&
        xtime(0xd4u8) == 0xb5 &&
        xtime(0xb5u8) == 0x77 &&
        xtime(0x77u8) == 0xee &&
        xtime(0xeeu8) == 0xc1 &&
        xtime(0xc1u8) == 0x9f &&
        xtime(0x9fu8) == 0x23 &&
        xtime(0x23u8) == 0x46 &&
        xtime(0x46u8) == 0x8c &&
        xtime(0x8cu8) == 0x05 &&
        xtime(0x05u8) == 0x0a &&
        xtime(0x0au8) == 0x14 &&
        xtime(0x14u8) == 0x28 &&
        xtime(0x28u8) == 0x50 &&
        xtime(0x50u8) == 0xa0 &&
        xtime(0xa0u8) == 0x5d &&
        xtime(0x5du8) == 0xba &&
        xtime(0xbau8) == 0x69 &&
        xtime(0x69u8) == 0xd2 &&
        xtime(0xd2u8) == 0xb9 &&
        xtime(0xb9u8) == 0x6f &&
        xtime(0x6fu8) == 0xde &&
        xtime(0xdeu8) == 0xa1 &&
        xtime(0xa1u8) == 0x5f &&
        xtime(0x5fu8) == 0xbe &&
        xtime(0xbeu8) == 0x61 &&
        xtime(0x61u8) == 0xc2 &&
        xtime(0xc2u8) == 0x99 &&
        xtime(0x99u8) == 0x2f &&
        xtime(0x2fu8) == 0x5e &&
        xtime(0x5eu8) == 0xbc &&
        xtime(0xbcu8) == 0x65 &&
        xtime(0x65u8) == 0xca &&
        xtime(0xcau8) == 0x89 &&
        xtime(0x89u8) == 0x0f &&
        xtime(0x0fu8) == 0x1e &&
        xtime(0x1eu8) == 0x3c &&
        xtime(0x3cu8) == 0x78 &&
        xtime(0x78u8) == 0xf0 &&
        xtime(0xf0u8) == 0xfd &&
        xtime(0xfdu8) == 0xe7 &&
        xtime(0xe7u8) == 0xd3 &&
        xtime(0xd3u8) == 0xbb &&
        xtime(0xbbu8) == 0x6b &&
        xtime(0x6bu8) == 0xd6 &&
        xtime(0xd6u8) == 0xb1 &&
        xtime(0xb1u8) == 0x7f &&
        xtime(0x7fu8) == 0xfe &&
        xtime(0xfeu8) == 0xe1 &&
        xtime(0xe1u8) == 0xdf &&
        xtime(0xdfu8) == 0xa3 &&
        xtime(0xa3u8) == 0x5b &&
        xtime(0x5bu8) == 0xb6 &&
        xtime(0xb6u8) == 0x71 &&
        xtime(0x71u8) == 0xe2 &&
        xtime(0xe2u8) == 0xd9 &&
        xtime(0xd9u8) == 0xaf &&
        xtime(0xafu8) == 0x43 &&
        xtime(0x43u8) == 0x86 &&
        xtime(0x86u8) == 0x11 &&
        xtime(0x11u8) == 0x22 &&
        xtime(0x22u8) == 0x44 &&
        xtime(0x44u8) == 0x88 &&
        xtime(0x88u8) == 0x0d &&
        xtime(0x0du8) == 0x1a &&
        xtime(0x1au8) == 0x34 &&
        xtime(0x34u8) == 0x68 &&
        xtime(0x68u8) == 0xd0 &&
        xtime(0xd0u8) == 0xbd &&
        xtime(0xbdu8) == 0x67 &&
        xtime(0x67u8) == 0xce &&
        xtime(0xceu8) == 0x81 &&
        xtime(0x81u8) == 0x1f &&
        xtime(0x1fu8) == 0x3e &&
        xtime(0x3eu8) == 0x7c &&
        xtime(0x7cu8) == 0xf8 &&
        xtime(0xf8u8) == 0xed &&
        xtime(0xedu8) == 0xc7 &&
        xtime(0xc7u8) == 0x93 &&
        xtime(0x93u8) == 0x3b &&
        xtime(0x3bu8) == 0x76 &&
        xtime(0x76u8) == 0xec &&
        xtime(0xecu8) == 0xc5 &&
        xtime(0xc5u8) == 0x97 &&
        xtime(0x97u8) == 0x33 &&
        xtime(0x33u8) == 0x66 &&
        xtime(0x66u8) == 0xcc &&
        xtime(0xccu8) == 0x85 &&
        xtime(0x85u8) == 0x17 &&
        xtime(0x17u8) == 0x2e &&
        xtime(0x2eu8) == 0x5c &&
        xtime(0x5cu8) == 0xb8 &&
        xtime(0xb8u8) == 0x6d &&
        xtime(0x6du8) == 0xda &&
        xtime(0xdau8) == 0xa9 &&
        xtime(0xa9u8) == 0x4f &&
        xtime(0x4fu8) == 0x9e &&
        xtime(0x9eu8) == 0x21 &&
        xtime(0x21u8) == 0x42 &&
        xtime(0x42u8) == 0x84 &&
        xtime(0x84u8) == 0x15 &&
        xtime(0x15u8) == 0x2a &&
        xtime(0x2au8) == 0x54 &&
        xtime(0x54u8) == 0xa8 &&
        xtime(0xa8u8) == 0x4d &&
        xtime(0x4du8) == 0x9a &&
        xtime(0x9au8) == 0x29 &&
        xtime(0x29u8) == 0x52 &&
        xtime(0x52u8) == 0xa4 &&
        xtime(0xa4u8) == 0x55 &&
        xtime(0x55u8) == 0xaa &&
        xtime(0xaau8) == 0x49 &&
        xtime(0x49u8) == 0x92 &&
        xtime(0x92u8) == 0x39 &&
        xtime(0x39u8) == 0x72 &&
        xtime(0x72u8) == 0xe4 &&
        xtime(0xe4u8) == 0xd5 &&
        xtime(0xd5u8) == 0xb7 &&
        xtime(0xb7u8) == 0x73 &&
        xtime(0x73u8) == 0xe6 &&
        xtime(0xe6u8) == 0xd1 &&
        xtime(0xd1u8) == 0xbf &&
        xtime(0xbfu8) == 0x63 &&
        xtime(0x63u8) == 0xc6 &&
        xtime(0xc6u8) == 0x91 &&
        xtime(0x91u8) == 0x3f &&
        xtime(0x3fu8) == 0x7e &&
        xtime(0x7eu8) == 0xfc &&
        xtime(0xfcu8) == 0xe5 &&
        xtime(0xe5u8) == 0xd7 &&
        xtime(0xd7u8) == 0xb3 &&
        xtime(0xb3u8) == 0x7b &&
        xtime(0x7bu8) == 0xf6 &&
        xtime(0xf6u8) == 0xf1 &&
        xtime(0xf1u8) == 0xff &&
        xtime(0xffu8) == 0xe3 &&
        xtime(0xe3u8) == 0xdb &&
        xtime(0xdbu8) == 0xab &&
        xtime(0xabu8) == 0x4b &&
        xtime(0x4bu8) == 0x96 &&
        xtime(0x96u8) == 0x31 &&
        xtime(0x31u8) == 0x62 &&
        xtime(0x62u8) == 0xc4 &&
        xtime(0xc4u8) == 0x95 &&
        xtime(0x95u8) == 0x37 &&
        xtime(0x37u8) == 0x6e &&
        xtime(0x6eu8) == 0xdc &&
        xtime(0xdcu8) == 0xa5 &&
        xtime(0xa5u8) == 0x57 &&
        xtime(0x57u8) == 0xae &&
        xtime(0xaeu8) == 0x41 &&
        xtime(0x41u8) == 0x82 &&
        xtime(0x82u8) == 0x19 &&
        xtime(0x19u8) == 0x32 &&
        xtime(0x32u8) == 0x64 &&
        xtime(0x64u8) == 0xc8 &&
        xtime(0xc8u8) == 0x8d &&
        xtime(0x8du8) == 0x07 &&
        xtime(0x07u8) == 0x0e &&
        xtime(0x0eu8) == 0x1c &&
        xtime(0x1cu8) == 0x38 &&
        xtime(0x38u8) == 0x70 &&
        xtime(0x70u8) == 0xe0 &&
        xtime(0xe0u8) == 0xdd &&
        xtime(0xddu8) == 0xa7 &&
        xtime(0xa7u8) == 0x53 &&
        xtime(0x53u8) == 0xa6 &&
        xtime(0xa6u8) == 0x51 &&
        xtime(0x51u8) == 0xa2 &&
        xtime(0xa2u8) == 0x59 &&
        xtime(0x59u8) == 0xb2 &&
        xtime(0xb2u8) == 0x79 &&
        xtime(0x79u8) == 0xf2 &&
        xtime(0xf2u8) == 0xf9 &&
        xtime(0xf9u8) == 0xef &&
        xtime(0xefu8) == 0xc3 &&
        xtime(0xc3u8) == 0x9b &&
        xtime(0x9bu8) == 0x2b &&
        xtime(0x2bu8) == 0x56 &&
        xtime(0x56u8) == 0xac &&
        xtime(0xacu8) == 0x45 &&
        xtime(0x45u8) == 0x8a &&
        xtime(0x8au8) == 0x09 &&
        xtime(0x09u8) == 0x12 &&
        xtime(0x12u8) == 0x24 &&
        xtime(0x24u8) == 0x48 &&
        xtime(0x48u8) == 0x90 &&
        xtime(0x90u8) == 0x3d &&
        xtime(0x3du8) == 0x7a &&
        xtime(0x7au8) == 0xf4 &&
        xtime(0xf4u8) == 0xf5 &&
        xtime(0xf5u8) == 0xf7 &&
        xtime(0xf7u8) == 0xf3 &&
        xtime(0xf3u8) == 0xfb &&
        xtime(0xfbu8) == 0xeb &&
        xtime(0xebu8) == 0xcb &&
        xtime(0xcbu8) == 0x8b &&
        xtime(0x8bu8) == 0x0b &&
        xtime(0x0bu8) == 0x16 &&
        xtime(0x16u8) == 0x2c &&
        xtime(0x2cu8) == 0x58 &&
        xtime(0x58u8) == 0xb0 &&
        xtime(0xb0u8) == 0x7d &&
        xtime(0x7du8) == 0xfa &&
        xtime(0xfau8) == 0xe9 &&
        xtime(0xe9u8) == 0xcf &&
        xtime(0xcfu8) == 0x83 &&
        xtime(0x83u8) == 0x1b &&
        xtime(0x1bu8) == 0x36 &&
        xtime(0x36u8) == 0x6c &&
        xtime(0x6cu8) == 0xd8 &&
        xtime(0xd8u8) == 0xad &&
        xtime(0xadu8) == 0x47 &&
        xtime(0x47u8) == 0x8e &&
        xtime(0x8eu8) == 0x01 &&
        true
    }) by (bit_vector);
}

/// XOR on bytes is an abelian group operation in which every element is its
/// own inverse; it is the addition of GF(2^8).
pub proof fn lemma_xor_basic()
    by (bit_vector)
    ensures
        forall|a: u8, b: u8| #[trigger] (a ^ b) == b ^ a,
        forall|a: u8, b: u8, c: u8| #[trigger] ((a ^ b) ^ c) == a ^ (b ^ c),
        forall|a: u8| #[trigger] (a ^ 0) == a,
        forall|a: u8| #[trigger] (a ^ a) == 0,
{
}

/// [`xtime`] is linear over XOR and annihilates zero.
pub proof fn lemma_xtime_linear()
    by (bit_vector)
    ensures
        forall|a: u8, b: u8| #[trigger] xtime(a ^ b) == xtime(a) ^ xtime(b),
        xtime(0) == 0,
{
}

/// [`xtime_pow`] is linear over XOR and annihilates zero.
proof fn lemma_xtime_pow_linear(n: nat, a: u8, b: u8)
    ensures
        xtime_pow(n, a ^ b) == xtime_pow(n, a) ^ xtime_pow(n, b),
        xtime_pow(n, 0) == 0,
    decreases n,
{
    lemma_xtime_linear();
    if n > 0 {
        lemma_xtime_pow_linear((n - 1) as nat, a, b);
    }
}

/// Multiplying by the power x^j is the j-fold doubling map.
#[verifier::rlimit(100)]
#[verifier::spinoff_prover]
proof fn lemma_gf256_mul_is_xtime_pow(w: u8, j: int)
    requires
        0 <= j < 255,
    ensures
        gf256_mul(w, exp_at(j)) == xtime_pow(j as nat, w),
    decreases j,
{
    if j == 0 {
        assert(exp_at(0) == 1 && log_at(1) == 0) by {
            reveal(exp_at);
            reveal(log_at);
        }
        if w != 0 {
            let lw: int = log_at(w as int) as int;
            assert(lw < 255 && exp_at(lw) == w) by {
                lemma_gf256_tables();
            }
        }
    } else {
        lemma_gf256_mul_is_xtime_pow(w, j - 1);
        lemma_xtime_linear();
        if w == 0 {
        } else {
            let lw: int = log_at(w as int) as int;
            assert(lw < 255 && exp_at(lw) == w) by {
                lemma_gf256_tables();
            }
            assert(log_at(exp_at(j) as int) == j && exp_at(j) != 0) by {
                lemma_gf256_tables();
            }
            assert(log_at(exp_at(j - 1) as int) == j - 1 && exp_at(j - 1) != 0) by {
                lemma_gf256_tables();
            }
            let s: int = lw + j - 1;
            let sw: int = if s >= 255 {
                s - 255
            } else {
                s
            };
            assert(gf256_mul(w, exp_at(j - 1)) == exp_at(sw));
            if sw < 254 {
                assert(exp_at(sw + 1) == xtime(exp_at(sw))) by {
                    lemma_gf256_exp_step();
                }
            } else {
                assert(exp_at(0) == xtime(exp_at(254))) by {
                    lemma_gf256_exp_step();
                }
            }
            assert(xtime_pow(j as nat, w) == xtime(gf256_mul(w, exp_at(j - 1))));
            assert(gf256_mul(w, exp_at(j)) == exp_at(
                if s + 1 >= 255 {
                    s + 1 - 255
                } else {
                    s + 1
                },
            ));
        }
    }
}

/// Multiplication in GF(2^8) distributes over addition.
pub proof fn lemma_gf256_distrib(a: u8, b: u8, c: u8)
    ensures
        gf256_mul(gf256_add(a, b), c) == gf256_add(gf256_mul(a, c), gf256_mul(b, c)),
{
    lemma_xor_basic();
    if c != 0 {
        lemma_gf256_tables();
        let lc: int = log_at(c as int) as int;
        assert(exp_at(lc) == c);
        lemma_gf256_mul_is_xtime_pow(a ^ b, lc);
        lemma_gf256_mul_is_xtime_pow(a, lc);
        lemma_gf256_mul_is_xtime_pow(b, lc);
        lemma_xtime_pow_linear(lc as nat, a, b);
    }
}

/// Multiplication in GF(2^8) is commutative, has 0 as absorbing element and
/// 1 as neutral element, and a product of nonzero elements is nonzero.
pub proof fn lemma_gf256_mul_basic()
    ensures
        forall|a: u8, b: u8| #[trigger] gf256_mul(a, b) == gf256_mul(b, a),
        forall|a: u8| #[trigger] gf256_mul(a, 1) == a,
        forall|a: u8| #[trigger] gf256_mul(a, 0) == 0,
        forall|a: u8, b: u8| a != 0 && b != 0 ==> #[trigger] gf256_mul(a, b) != 0,
{
    lemma_gf256_tables();
    assert(log_at(1) == 0) by {
        reveal(log_at);
    }
    assert forall|a: u8| #[trigger] gf256_mul(a, 1) == a by {
        if a != 0 {
            assert(exp_at(log_at(a as int) as int) == a);
        }
    }
}

/// Multiplication in GF(2^8) is associative.
pub proof fn lemma_gf256_mul_assoc(a: u8, b: u8, c: u8)
    ensures
        gf256_mul(gf256_mul(a, b), c) == gf256_mul(a, gf256_mul(b, c)),
{
    lemma_gf256_tables();
}

/// Dividing by a nonzero element and multiplying by it returns the dividend:
/// division is the inverse of multiplication.
pub proof fn lemma_gf256_div_mul(a: u8, b: u8)
    requires
        b != 0,
    ensures
        gf256_mul(gf256_div(a, b), b) == a,
{
    lemma_gf256_tables();
}

/// Multiplying by a nonzero element and dividing by it returns the original
/// factor.
pub proof fn lemma_gf256_mul_div(a: u8, b: u8)
    requires
        b != 0,
    ensures
        gf256_div(gf256_mul(a, b), b) == a,
{
    lemma_gf256_tables();
}

/// Squaring in GF(2^8) is additive: the field has characteristic 2, so the
/// square of a sum is the sum of the squares (the Frobenius endomorphism).
pub proof fn lemma_gf256_frobenius(a: u8, b: u8)
    ensures
        gf256_mul(gf256_add(a, b), gf256_add(a, b)) == gf256_add(
            gf256_mul(a, a),
            gf256_mul(b, b),
        ),
{
    lemma_xor_basic();
    lemma_gf256_mul_basic();
    let s: u8 = gf256_add(a, b);
    lemma_gf256_distrib(a, b, s);
    lemma_gf256_distrib(a, b, a);
    lemma_gf256_distrib(a, b, b);
    let aa: u8 = gf256_mul(a, a);
    let ab: u8 = gf256_mul(a, b);
    let bb: u8 = gf256_mul(b, b);
    assert(gf256_mul(s, s) == gf256_add(gf256_mul(a, s), gf256_mul(b, s)));
    assert(gf256_mul(a, s) == gf256_mul(s, a));
    assert(gf256_mul(s, a) == (aa ^ ab));
    assert(gf256_mul(b, s) == gf256_mul(s, b));
    assert(gf256_mul(s, b) == (ab ^ bb));
    assert(((aa ^ ab) ^ (ab ^ bb)) == (aa ^ bb)) by {
        assert(((aa ^ ab) ^ (ab ^ bb)) == aa ^ (ab ^ (ab ^ bb)));
        assert((ab ^ (ab ^ bb)) == ((ab ^ ab) ^ bb));
    }
}

/// Dividing a sum by a nonzero element is the sum of the quotients.
pub proof fn lemma_gf256_div_linear(a: u8, b: u8, c: u8)
    requires
        c != 0,
    ensures
        gf256_div(gf256_add(a, b), c) == gf256_add(gf256_div(a, c), gf256_div(b, c)),
{
    lemma_gf256_div_mul(a, c);
    lemma_gf256_div_mul(b, c);
    lemma_gf256_distrib(gf256_div(a, c), gf256_div(b, c), c);
    lemma_gf256_mul_div(gf256_add(gf256_div(a, c), gf256_div(b, c)), c);
}

/// Scaling a quotient multiplies the dividend: (x / d) * c == (x * c) / d.
pub proof fn lemma_gf256_div_scale(x: u8, c: u8, d: u8)
    requires
        d != 0,
    ensures
        gf256_mul(gf256_div(x, d), c) == gf256_div(gf256_mul(x, c), d),
{
    lemma_gf256_mul_basic();
    let u: u8 = gf256_div(x, d);
    lemma_gf256_div_mul(x, d);
    lemma_gf256_mul_assoc(u, c, d);
    lemma_gf256_mul_assoc(u, d, c);
    assert(gf256_mul(c, d) == gf256_mul(d, c));
    assert(gf256_mul(gf256_mul(u, c), d) == gf256_mul(x, c));
    lemma_gf256_mul_div(gf256_mul(u, c), d);
}

/// A nonzero element of GF(2^8) and its inverse never add up to x^3: in the
/// exponential table, entry j and entry 255 - j are inverse to each other,
/// and their sum differs from 8 everywhere.
#[verifier::rlimit(100)]
#[verifier::spinoff_prover]
proof fn lemma_gf256_exp_inv_pairs()
    ensures
        forall|j: int| 1 <= j < 255 ==> (#[trigger] (exp_at(j) ^ exp_at(255 - j))) != 8,
{
    reveal(exp_at);
    assert({
        (0x02u8 ^ 0x8e) != 8 &&
        (0x04u8 ^ 0x47) != 8 &&
        (0x08u8 ^ 0xad) != 8 &&
        (0x10u8 ^ 0xd8) != 8 &&
        (0x20u8 ^ 0x6c) != 8 &&
        (0x40u8 ^ 0x36) != 8 &&
        (0x80u8 ^ 0x1b) != 8 &&
        (0x1du8 ^ 0x83) != 8 &&
        (0x3au8 ^ 0xcf) != 8 &&
        (0x74u8 ^ 0xe9) != 8 &&
        (0xe8u8 ^ 0xfa) != 8 &&
        (0xcdu8 ^ 0x7d) != 8 &&
        (0x87u8 ^ 0xb0) != 8 &&
        (0x13u8 ^ 0x58) != 8 &&
        (0x26u8 ^ 0x2c) != 8 &&
        (0x4cu8 ^ 0x16) != 8 &&
        (0x98u8 ^ 0x0b) != 8 &&
        (0x2du8 ^ 0x8b) != 8 &&
        (0x5au8 ^ 0xcb) != 8 &&
        (0xb4u8 ^ 0xeb) != 8 &&
        (0x75u8 ^ 0xfb) != 8 &&
        (0xeau8 ^ 0xf3) != 8 &&
        (0xc9u8 ^ 0xf7) != 8 &&
        (0x8fu8 ^ 0xf5) != 8 &&
        (0x03u8 ^ 0xf4) != 8 &&
        (0x06u8 ^ 0x7a) != 8 &&
        (0x0cu8 ^ 0x3d) != 8 &&
        (0x18u8 ^ 0x90) != 8 &&
        (0x30u8 ^ 0x48) != 8 &&
        (0x60u8 ^ 0x24) != 8 &&
        (0xc0u8 ^ 0x12) != 8 &&
        (0x9du8 ^ 0x09) != 8 &&
        (0x27u8 ^ 0x8a) != 8 &&
        (0x4eu8 ^ 0x45) != 8 &&
        (0x9cu8 ^ 0xac) != 8 &&
        (0x25u8 ^ 0x56) != 8 &&
        (0x4au8 ^ 0x2b) != 8 &&
        (0x94u8 ^ 0x9b) != 8 &&
        (0x35u8 ^ 0xc3) != 8 &&
        (0x6au8 ^ 0xef) != 8 &&
        (0xd4u8 ^ 0xf9) != 8 &&
        (0xb5u8 ^ 0xf2) != 8 &&
        (0x77u8 ^ 0x79) != 8 &&
        (0xeeu8 ^ 0xb2) != 8 &&
        (0xc1u8 ^ 0x59) != 8 &&
        (0x9fu8 ^ 0xa2) != 8 &&
        (0x23u8 ^ 0x51) != 8 &&
        (0x46u8 ^ 0xa6) != 8 &&
        (0x8cu8 ^ 0x53) != 8 &&
        (0x05u8 ^ 0xa7) != 8 &&
        (0x0au8 ^ 0xdd) != 8 &&
        (0x14u8 ^ 0xe0) != 8 &&
        (0x28u8 ^ 0x70) != 8 &&
        (0x50u8 ^ 0x38) != 8 &&
        (0xa0u8 ^ 0x1c) != 8 &&
        (0x5du8 ^ 0x0e) != 8 &&
        (0xbau8 ^ 0x07) != 8 &&
        (0x69u8 ^ 0x8d) != 8 &&
        (0xd2u8 ^ 0xc8) != 8 &&
        (0xb9u8 ^ 0x64) != 8 &&
        (0x6fu8 ^ 0x32) != 8 &&
        (0xdeu8 ^ 0x19) != 8 &&
        (0xa1u8 ^ 0x82) != 8 &&
        (0x5fu8 ^ 0x41) != 8 &&
        (0xbeu8 ^ 0xae) != 8 &&
        (0x61u8 ^ 0x57) != 8 &&
        (0xc2u8 ^ 0xa5) != 8 &&
        (0x99u8 ^ 0xdc) != 8 &&
        (0x2fu8 ^ 0x6e) != 8 &&
        (0x5eu8 ^ 0x37) != 8 &&
        (0xbcu8 ^ 0x95) != 8 &&
        (0x65u8 ^ 0xc4) != 8 &&
        (0xcau8 ^ 0x62) != 8 &&
        (0x89u8 ^ 0x31) != 8 &&
        (0x0fu8 ^ 0x96) != 8 &&
        (0x1eu8 ^ 0x4b) != 8 &&
        (0x3cu8 ^ 0xab) != 8 &&
        (0x78u8 ^ 0xdb) != 8 &&
        (0xf0u8 ^ 0xe3) != 8 &&
        (0xfdu8 ^ 0xff) != 8 &&
        (0xe7u8 ^ 0xf1) != 8 &&
        (0xd3u8 ^ 0xf6) != 8 &&
        (0xbbu8 ^ 0x7b) != 8 &&
        (0x6bu8 ^ 0xb3) != 8 &&
        (0xd6u8 ^ 0xd7) != 8 &&
        (0xb1u8 ^ 0xe5) != 8 &&
        (0x7fu8 ^ 0xfc) != 8 &&
        (0xfeu8 ^ 0x7e) != 8 &&
        (0xe1u8 ^ 0x3f) != 8 &&
        (0xdfu8 ^ 0x91) != 8 &&
        (0xa3u8 ^ 0xc6) != 8 &&
        (0x5bu8 ^ 0x63) != 8 &&
        (0xb6u8 ^ 0xbf) != 8 &&
        (0x71u8 ^ 0xd1) != 8 &&
        (0xe2u8 ^ 0xe6) != 8 &&
        (0xd9u8 ^ 0x73) != 8 &&
        (0xafu8 ^ 0xb7) != 8 &&
        (0x43u8 ^ 0xd5) != 8 &&
        (0x86u8 ^ 0xe4) != 8 &&
        (0x11u8 ^ 0x72) != 8 &&
        (0x22u8 ^ 0x39) != 8 &&
        (0x44u8 ^ 0x92) != 8 &&
        (0x88u8 ^ 0x49) != 8 &&
        (0x0du8 ^ 0xaa) != 8 &&
        (0x1au8 ^ 0x55) != 8 &&
        (0x34u8 ^ 0xa4) != 8 &&
        (0x68u8 ^ 0x52) != 8 &&
        (0xd0u8 ^ 0x29) != 8 &&
        (0xbdu8 ^ 0x9a) != 8 &&
        (0x67u8 ^ 0x4d) != 8 &&
        (0xceu8 ^ 0xa8) != 8 &&
        (0x81u8 ^ 0x54) != 8 &&
        (0x1fu8 ^ 0x2a) != 8 &&
        (0x3eu8 ^ 0x15) != 8 &&
        (0x7cu8 ^ 0x84) != 8 &&
        (0xf8u8 ^ 0x42) != 8 &&
        (0xedu8 ^ 0x21) != 8 &&
        (0xc7u8 ^ 0x9e) != 8 &&
        (0x93u8 ^ 0x4f) != 8 &&
        (0x3bu8 ^ 0xa9) != 8 &&
        (0x76u8 ^ 0xda) != 8 &&
        (0xecu8 ^ 0x6d) != 8 &&
        (0xc5u8 ^ 0xb8) != 8 &&
        (0x97u8 ^ 0x5c) != 8 &&
        (0x33u8 ^ 0x2e) != 8 &&
        (0x66u8 ^ 0x17) != 8 &&
        (0xccu8 ^ 0x85) != 8 &&
        (0x85u8 ^ 0xcc) != 8 &&
        (0x17u8 ^ 0x66) != 8 &&
        (0x2eu8 ^ 0x33) != 8 &&
        (0x5cu8 ^ 0x97) != 8 &&
        (0xb8u8 ^ 0xc5) != 8 &&
        (0x6du8 ^ 0xec) != 8 &&
        (0xdau8 ^ 0x76) != 8 &&
        (0xa9u8 ^ 0x3b) != 8 &&
        (0x4fu8 ^ 0x93) != 8 &&
        (0x9eu8 ^ 0xc7) != 8 &&
        (0x21u8 ^ 0xed) != 8 &&
        (0x42u8 ^ 0xf8) != 8 &&
        (0x84u8 ^ 0x7c) != 8 &&
        (0x15u8 ^ 0x3e) != 8 &&
        (0x2au8 ^ 0x1f) != 8 &&
        (0x54u8 ^ 0x81) != 8 &&
        (0xa8u8 ^ 0xce) != 8 &&
        (0x4du8 ^ 0x67) != 8 &&
        (0x9au8 ^ 0xbd) != 8 &&
        (0x29u8 ^ 0xd0) != 8 &&
        (0x52u8 ^ 0x68) != 8 &&
        (0xa4u8 ^ 0x34) != 8 &&
        (0x55u8 ^ 0x1a) != 8 &&
        (0xaau8 ^ 0x0d) != 8 &&
        (0x49u8 ^ 0x88) != 8 &&
        (0x92u8 ^ 0x44) != 8 &&
        (0x39u8 ^ 0x22) != 8 &&
        (0x72u8 ^ 0x11) != 8 &&
        (0xe4u8 ^ 0x86) != 8 &&
        (0xd5u8 ^ 0x43) != 8 &&
        (0xb7u8 ^ 0xaf) != 8 &&
        (0x73u8 ^ 0xd9) != 8 &&
        (0xe6u8 ^ 0xe2) != 8 &&
        (0xd1u8 ^ 0x71) != 8 &&
        (0xbfu8 ^ 0xb6) != 8 &&
        (0x63u8 ^ 0x5b) != 8 &&
        (0xc6u8 ^ 0xa3) != 8 &&
        (0x91u8 ^ 0xdf) != 8 &&
        (0x3fu8 ^ 0xe1) != 8 &&
        (0x7eu8 ^ 0xfe) != 8 &&
        (0xfcu8 ^ 0x7f) != 8 &&
        (0xe5u8 ^ 0xb1) != 8 &&
        (0xd7u8 ^ 0xd6) != 8 &&
        (0xb3u8 ^ 0x6b) != 8 &&
        (0x7bu8 ^ 0xbb) != 8 &&
        (0xf6u8 ^ 0xd3) != 8 &&
        (0xf1u8 ^ 0xe7) != 8 &&
        (0xffu8 ^ 0xfd) != 8 &&
        (0xe3u8 ^ 0xf0) != 8 &&
        (0xdbu8 ^ 0x78) != 8 &&
        (0xabu8 ^ 0x3c) != 8 &&
        (0x4bu8 ^ 0x1e) != 8 &&
        (0x96u8 ^ 0x0f) != 8 &&
        (0x31u8 ^ 0x89) != 8 &&
        (0x62u8 ^ 0xca) != 8 &&
        (0xc4u8 ^ 0x65) != 8 &&
        (0x95u8 ^ 0xbc) != 8 &&
        (0x37u8 ^ 0x5e) != 8 &&
        (0x6eu8 ^ 0x2f) != 8 &&
        (0xdcu8 ^ 0x99) != 8 &&
        (0xa5u8 ^ 0xc2) != 8 &&
        (0x57u8 ^ 0x61) != 8 &&
        (0xaeu8 ^ 0xbe) != 8 &&
        (0x41u8 ^ 0x5f) != 8 &&
        (0x82u8 ^ 0xa1) != 8 &&
        (0x19u8 ^ 0xde) != 8 &&
        (0x32u8 ^ 0x6f) != 8 &&
        (0x64u8 ^ 0xb9) != 8 &&
        (0xc8u8 ^ 0xd2) != 8 &&
        (0x8du8 ^ 0x69) != 8 &&
        (0x07u8 ^ 0xba) != 8 &&
        (0x0eu8 ^ 0x5d) != 8 &&
        (0x1cu8 ^ 0xa0) != 8 &&
        (0x38u8 ^ 0x50) != 8 &&
        (0x70u8 ^ 0x28) != 8 &&
        (0xe0u8 ^ 0x14) != 8 &&
        (0xddu8 ^ 0x0a) != 8 &&
        (0xa7u8 ^ 0x05) != 8 &&
        (0x53u8 ^ 0x8c) != 8 &&
        (0xa6u8 ^ 0x46) != 8 &&
        (0x51u8 ^ 0x23) != 8 &&
        (0xa2u8 ^ 0x9f) != 8 &&
        (0x59u8 ^ 0xc1) != 8 &&
        (0xb2u8 ^ 0xee) != 8 &&
        (0x79u8 ^ 0x77) != 8 &&
        (0xf2u8 ^ 0xb5) != 8 &&
        (0xf9u8 ^ 0xd4) != 8 &&
        (0xefu8 ^ 0x6a) != 8 &&
        (0xc3u8 ^ 0x35) != 8 &&
        (0x9bu8 ^ 0x94) != 8 &&
        (0x2bu8 ^ 0x4a) != 8 &&
        (0x56u8 ^ 0x25) != 8 &&
        (0xacu8 ^ 0x9c) != 8 &&
        (0x45u8 ^ 0x4e) != 8 &&
        (0x8au8 ^ 0x27) != 8 &&
        (0x09u8 ^ 0x9d) != 8 &&
        (0x12u8 ^ 0xc0) != 8 &&
        (0x24u8 ^ 0x60) != 8 &&
        (0x48u8 ^ 0x30) != 8 &&
        (0x90u8 ^ 0x18) != 8 &&
        (0x3du8 ^ 0x0c) != 8 &&
        (0x7au8 ^ 0x06) != 8 &&
        (0xf4u8 ^ 0x03) != 8 &&
        (0xf5u8 ^ 0x8f) != 8 &&
        (0xf7u8 ^ 0xc9) != 8 &&
        (0xf3u8 ^ 0xea) != 8 &&
        (0xfbu8 ^ 0x75) != 8 &&
        (0xebu8 ^ 0xb4) != 8 &&
        (0xcbu8 ^ 0x5a) != 8 &&
        (0x8bu8 ^ 0x2d) != 8 &&
        (0x0bu8 ^ 0x98) != 8 &&
        (0x16u8 ^ 0x4c) != 8 &&
        (0x2cu8 ^ 0x26) != 8 &&
        (0x58u8 ^ 0x13) != 8 &&
        (0xb0u8 ^ 0x87) != 8 &&
        (0x7du8 ^ 0xcd) != 8 &&
        (0xfau8 ^ 0xe8) != 8 &&
        (0xe9u8 ^ 0x74) != 8 &&
        (0xcfu8 ^ 0x3a) != 8 &&
        (0x83u8 ^ 0x1d) != 8 &&
        (0x1bu8 ^ 0x80) != 8 &&
        (0x36u8 ^ 0x40) != 8 &&
        (0x6cu8 ^ 0x20) != 8 &&
        (0xd8u8 ^ 0x10) != 8 &&
        (0xadu8 ^ 0x08) != 8 &&
        (0x47u8 ^ 0x04) != 8 &&
        (0x8eu8 ^ 0x02) != 8 &&
        true
    }) by (bit_vector);
}

/// The quadratic t^2 + x^3 t + 1 has no root in GF(2^8), so the polynomial
/// used to build GF(2^16) as a degree-two extension is irreducible.
pub proof fn lemma_gf256_quadratic_no_root()
    ensures
        forall|t: u8|
            gf256_add(gf256_add(#[trigger] gf256_mul(t, t), gf256_mul(8, t)), 1) != 0,
{
    lemma_gf256_tables();
    lemma_gf256_exp_inv_pairs();
    lemma_xor_basic();
    assert forall|t: u8|
        gf256_add(gf256_add(#[trigger] gf256_mul(t, t), gf256_mul(8, t)), 1) != 0 by {
        if t == 0 {
            assert((0u8 ^ 0u8) == 0);
            assert((0u8 ^ 1u8) == 1) by (bit_vector);
        } else {
            let sq: u8 = gf256_mul(t, t);
            let lin: u8 = gf256_mul(8, t);
            let e: u8 = gf256_add(gf256_add(sq, lin), 1);
            if e == 0 {
                assert(log_at(1) == 0) by {
                    reveal(log_at);
                }
                // Divide the vanishing quadratic by t: its terms become
                // t, 8 and the inverse of t, so t plus its inverse is 8,
                // which no entry pair of the exponential table allows.
                let inv: u8 = gf256_div(1, t);
                lemma_gf256_div_linear(gf256_add(sq, lin), 1, t);
                lemma_gf256_div_linear(sq, lin, t);
                lemma_gf256_mul_div(t, t);
                lemma_gf256_mul_div(8, t);
                assert(gf256_div(e, t) == 0);
                assert(gf256_add(gf256_add(t, 8), inv) == 0);
                assert(gf256_add(gf256_add(t, inv), 8) == 0);
                assert(gf256_add(t, inv) == 8) by {
                    let z: u8 = gf256_add(t, inv);
                    assert(((z ^ 8u8) ^ 8u8) == z ^ (8u8 ^ 8u8));
                }
                let lt: int = log_at(t as int) as int;
                assert(exp_at(lt) == t);
                if lt == 0 {
                    assert(exp_at(0) == 1) by {
                        reveal(exp_at);
                    }
                    assert(t == 1);
                    assert(inv == 1);
                    assert((1u8 ^ 1u8) == 0);
                } else {
                    assert(inv == exp_at(255 - lt));
                }
            }
        }
    }
}

} // verus!
