//! Arithmetic in GF(2^16).
//!
//! The field GF(2^16) is built as a degree-two extension of GF(2^8): the
//! quotient GF(2^8)[y] / (y^2 + x^3 y + 1), where x is the generator of
//! GF(2^8). An element is an ordered pair (hi, lo) standing for hi*y + lo,
//! and the arithmetic uses the ad-hoc formulas for a quadratic extension;
//! division solves a 2x2 linear system by Cramer's rule.

use vstd::prelude::*;
use crate::gf256::{GF256, gf256_add, gf256_mul, gf256_div};
use crate::gf256_laws::{
    lemma_xor_basic, lemma_gf256_mul_basic, lemma_gf256_mul_assoc, lemma_gf256_div_mul,
    lemma_gf256_mul_div, lemma_gf256_div_linear, lemma_gf256_div_scale,
    lemma_gf256_quadratic_no_root, lemma_gf256_frobenius, lemma_gf256_distrib,
};

verus! {

/// GF(2^16) field element: the pair (hi, lo) stands for hi*y + lo.
#[derive(Debug, Copy, Clone, Eq, PartialEq, Hash, Structural)]
pub struct GF64K(pub GF256, pub GF256);

/// The y coefficient of the reduction polynomial y^2 + x^3 y + 1, as a byte:
/// the GF(2^8) element x^3.
pub const GF64K_POLY_XCOEFF: u8 = 8;

/// Addition in GF(2^16): componentwise addition in GF(2^8).
pub open spec fn gf64k_add(a: GF64K, b: GF64K) -> GF64K {
    GF64K(GF256(gf256_add(a.0.0, b.0.0)), GF256(gf256_add(a.1.0, b.1.0)))
}

/// Multiplication in GF(2^16): multiply the linear polynomials and reduce the
/// y^2 term by y^2 = x^3 y + 1.
pub open spec fn gf64k_mul(a: GF64K, b: GF64K) -> GF64K {
    let over: u8 = gf256_mul(a.0.0, b.0.0);
    GF64K(
        GF256(
            gf256_add(
                gf256_add(gf256_mul(a.0.0, b.1.0), gf256_mul(a.1.0, b.0.0)),
                gf256_mul(GF64K_POLY_XCOEFF, over),
            ),
        ),
        GF256(gf256_add(gf256_mul(a.1.0, b.1.0), over)),
    )
}

/// The discriminant of the 2x2 linear system solved when dividing by
/// b = (bh, bl): the norm bl^2 + x^3 bh bl + bh^2.
pub open spec fn gf64k_discr(b: GF64K) -> u8 {
    gf256_add(
        gf256_add(
            gf256_mul(b.1.0, b.1.0),
            gf256_mul(gf256_mul(GF64K_POLY_XCOEFF, b.0.0), b.1.0),
        ),
        gf256_mul(b.0.0, b.0.0),
    )
}

/// Division in GF(2^16) by Cramer's rule. Only meaningful when the divisor is
/// nonzero; every executable divider requires that.
pub open spec fn gf64k_div(a: GF64K, b: GF64K) -> GF64K {
    let d: u8 = gf64k_discr(b);
    GF64K(
        GF256(gf256_div(gf256_add(gf256_mul(a.0.0, b.1.0), gf256_mul(a.1.0, b.0.0)), d)),
        GF256(
            gf256_div(
                gf256_add(
                    gf256_mul(a.1.0, gf256_add(b.1.0, gf256_mul(GF64K_POLY_XCOEFF, b.0.0))),
                    gf256_mul(a.0.0, b.0.0),
                ),
                d,
            ),
        ),
    )
}

/// The GF(2^16) element attached to a 16-bit integer: the high byte becomes
/// the y coefficient and the low byte the constant term.
pub open spec fn gf64k_from_u16(v: u16) -> GF64K {
    GF64K(GF256((v / 256) as u8), GF256((v % 256) as u8))
}

/// The 16-bit integer encoding of a GF(2^16) element: high byte then low byte.
pub open spec fn gf64k_to_u16(a: GF64K) -> u16 {
    ((a.0.0 as int) * 256 + (a.1.0 as int)) as u16
}

/// Products of four elements can be regrouped pairwise: multiplication in
/// GF(2^8) is associative and commutative.
proof fn lemma_gf256_mul_four(a: u8, b: u8, c: u8, d: u8)
    ensures
        gf256_mul(gf256_mul(a, b), gf256_mul(c, d)) == gf256_mul(
            gf256_mul(a, c),
            gf256_mul(b, d),
        ),
{
    lemma_gf256_mul_basic();
    lemma_gf256_mul_assoc(a, b, gf256_mul(c, d));
    lemma_gf256_mul_assoc(b, c, d);
    lemma_gf256_mul_assoc(c, b, d);
    lemma_gf256_mul_assoc(a, c, gf256_mul(b, d));
    assert(gf256_mul(b, gf256_mul(c, d)) == gf256_mul(gf256_mul(b, c), d));
    assert(gf256_mul(gf256_mul(b, c), d) == gf256_mul(gf256_mul(c, b), d));
    assert(gf256_mul(gf256_mul(c, b), d) == gf256_mul(c, gf256_mul(b, d)));
}

/// The discriminant of a nonzero divisor is nonzero: otherwise the quadratic
/// y^2 + x^3 y + 1 would have the root bl / bh in GF(2^8).
pub proof fn lemma_gf64k_discr_nonzero(b: GF64K)
    requires
        b.0.0 != 0 || b.1.0 != 0,
    ensures
        gf64k_discr(b) != 0,
{
    lemma_xor_basic();
    lemma_gf256_mul_basic();
    let bh: u8 = b.0.0;
    let bl: u8 = b.1.0;
    if bh == 0 {
        assert(gf256_mul(gf256_mul(GF64K_POLY_XCOEFF, 0u8), bl) == 0);
        assert(gf256_mul(bl, bl) != 0);
        assert((gf256_mul(bl, bl) ^ 0u8) == gf256_mul(bl, bl));
    } else {
        let t: u8 = gf256_div(bl, bh);
        lemma_gf256_quadratic_no_root();
        lemma_gf256_div_mul(bl, bh);
        let q: u8 = gf256_add(gf256_add(gf256_mul(t, t), gf256_mul(8, t)), 1);
        assert(q != 0);
        let bh2: u8 = gf256_mul(bh, bh);
        assert(bh2 != 0);
        // Expand q * bh^2 term by term into the discriminant.
        crate::gf256_laws::lemma_gf256_distrib(gf256_add(gf256_mul(t, t), gf256_mul(8, t)), 1, bh2);
        crate::gf256_laws::lemma_gf256_distrib(gf256_mul(t, t), gf256_mul(8, t), bh2);
        lemma_gf256_mul_four(t, t, bh, bh);
        assert(gf256_mul(t, bh) == bl);
        assert(gf256_mul(gf256_mul(t, t), bh2) == gf256_mul(bl, bl));
        lemma_gf256_mul_four(8, t, bh, bh);
        assert(gf256_mul(gf256_mul(8, t), bh2) == gf256_mul(gf256_mul(8, bh), gf256_mul(t, bh)));
        assert(gf256_mul(gf256_mul(8, t), bh2) == gf256_mul(gf256_mul(8, bh), bl));
        assert(gf256_mul(1, bh2) == bh2);
        assert(gf256_mul(q, bh2) == gf64k_discr(b));
        assert(gf256_mul(q, bh2) != 0);
    }
}

/// Dividing by a nonzero element of GF(2^16) and multiplying by it returns
/// the dividend: Cramer's rule indeed inverts multiplication, so every
/// nonzero element has an inverse and GF(2^16) is a field.
#[verifier::rlimit(100)]
#[verifier::spinoff_prover]
pub proof fn lemma_gf64k_div_mul(a: GF64K, b: GF64K)
    requires
        b.0.0 != 0 || b.1.0 != 0,
    ensures
        (gf64k_mul(gf64k_div(a, b), b)) == a,
{
    lemma_gf64k_discr_nonzero(b);
    let ah: u8 = a.0.0;
    let al: u8 = a.1.0;
    let bh: u8 = b.0.0;
    let bl: u8 = b.1.0;
    let d: u8 = gf64k_discr(b);
    let m8: u8 = gf256_mul(8, bh);
    let xn: u8 = gf256_add(gf256_mul(ah, bl), gf256_mul(al, bh));
    let yn: u8 = gf256_add(gf256_mul(al, gf256_add(bl, m8)), gf256_mul(ah, bh));
    let qh: u8 = gf256_div(xn, d);
    let ql: u8 = gf256_div(yn, d);
    // The products that appear once the numerators are multiplied out.
    let ta: u8 = gf256_mul(gf256_mul(ah, bl), bl);
    let tb: u8 = gf256_mul(gf256_mul(al, bh), bl);
    let tc: u8 = gf256_mul(gf256_mul(bl, al), bh);
    let td: u8 = gf256_mul(gf256_mul(m8, al), bh);
    let te: u8 = gf256_mul(gf256_mul(ah, bh), bh);
    let tf: u8 = gf256_mul(gf256_mul(gf256_mul(ah, bl), bh), 8);
    let tg: u8 = gf256_mul(gf256_mul(gf256_mul(al, bh), bh), 8);
    let c2: u8 = gf256_mul(gf256_mul(bl, al), bl);
    let d2: u8 = gf256_mul(gf256_mul(m8, al), bl);
    let e2: u8 = gf256_mul(gf256_mul(ah, bh), bl);
    let f2: u8 = gf256_mul(gf256_mul(ah, bl), bh);
    let g2: u8 = gf256_mul(gf256_mul(al, bh), bh);
    // The products that appear once ah * d and al * d are multiplied out.
    let p1: u8 = gf256_mul(gf256_mul(bl, bl), ah);
    let p2: u8 = gf256_mul(gf256_mul(m8, bl), ah);
    let p3: u8 = gf256_mul(gf256_mul(bh, bh), ah);
    let q1: u8 = gf256_mul(gf256_mul(bl, bl), al);
    let q2: u8 = gf256_mul(gf256_mul(m8, bl), al);
    let q3: u8 = gf256_mul(gf256_mul(bh, bh), al);
    // Each component of (a / b) * b is a quotient over the discriminant.
    lemma_gf256_div_scale(xn, bl, d);
    lemma_gf256_div_scale(yn, bh, d);
    lemma_gf256_div_scale(yn, bl, d);
    lemma_gf256_div_scale(xn, bh, d);
    lemma_gf256_div_scale(gf256_mul(xn, bh), 8, d);
    assert(gf256_mul(8, gf256_mul(qh, bh)) == gf256_mul(gf256_mul(qh, bh), 8)) by {
        lemma_gf256_mul_basic();
    }
    lemma_gf256_div_linear(gf256_mul(xn, bl), gf256_mul(yn, bh), d);
    lemma_gf256_div_linear(
        gf256_add(gf256_mul(xn, bl), gf256_mul(yn, bh)),
        gf256_mul(gf256_mul(xn, bh), 8),
        d,
    );
    lemma_gf256_div_linear(gf256_mul(yn, bl), gf256_mul(xn, bh), d);
    // Multiply the numerators out, term by term.
    assert(yn == gf256_add(gf256_add(gf256_mul(bl, al), gf256_mul(m8, al)), gf256_mul(ah, bh)))
        by {
        lemma_gf256_mul_basic();
        lemma_gf256_distrib(bl, m8, al);
    }
    assert(gf256_mul(xn, bl) == (ta ^ tb)) by {
        lemma_gf256_distrib(gf256_mul(ah, bl), gf256_mul(al, bh), bl);
    }
    assert(gf256_mul(yn, bh) == ((tc ^ td) ^ te)) by {
        lemma_gf256_distrib(
            gf256_add(gf256_mul(bl, al), gf256_mul(m8, al)),
            gf256_mul(ah, bh),
            bh,
        );
        lemma_gf256_distrib(gf256_mul(bl, al), gf256_mul(m8, al), bh);
    }
    assert(gf256_mul(xn, bh) == (f2 ^ g2)) by {
        lemma_gf256_distrib(gf256_mul(ah, bl), gf256_mul(al, bh), bh);
    }
    assert(gf256_mul(gf256_mul(xn, bh), 8) == (tf ^ tg)) by {
        lemma_gf256_distrib(f2, g2, 8);
    }
    assert(gf256_mul(yn, bl) == ((c2 ^ d2) ^ e2)) by {
        lemma_gf256_distrib(
            gf256_add(gf256_mul(bl, al), gf256_mul(m8, al)),
            gf256_mul(ah, bh),
            bl,
        );
        lemma_gf256_distrib(gf256_mul(bl, al), gf256_mul(m8, al), bl);
    }
    assert(gf256_mul(ah, d) == ((p1 ^ p2) ^ p3)) by {
        lemma_gf256_mul_basic();
        lemma_gf256_distrib(
            gf256_add(gf256_mul(bl, bl), gf256_mul(m8, bl)),
            gf256_mul(bh, bh),
            ah,
        );
        lemma_gf256_distrib(gf256_mul(bl, bl), gf256_mul(m8, bl), ah);
    }
    assert(gf256_mul(al, d) == ((q1 ^ q2) ^ q3)) by {
        lemma_gf256_mul_basic();
        lemma_gf256_distrib(
            gf256_add(gf256_mul(bl, bl), gf256_mul(m8, bl)),
            gf256_mul(bh, bh),
            al,
        );
        lemma_gf256_distrib(gf256_mul(bl, bl), gf256_mul(m8, bl), al);
    }
    // Equal products, rearranged by commutativity and associativity.
    assert(tb == tc) by {
        lemma_gf256_mul_basic();
        lemma_gf256_mul_assoc(al, bh, bl);
        lemma_gf256_mul_assoc(al, bl, bh);
        assert(gf256_mul(gf256_mul(bl, al), bh) == gf256_mul(gf256_mul(al, bl), bh));
        assert(gf256_mul(bh, bl) == gf256_mul(bl, bh));
    }
    assert(td == tg) by {
        lemma_gf256_mul_basic();
        lemma_gf256_mul_assoc(gf256_mul(8, bh), al, bh);
        lemma_gf256_mul_four(8, bh, al, bh);
        lemma_gf256_mul_assoc(al, bh, bh);
        assert(tg == gf256_mul(8, g2));
        lemma_gf256_mul_assoc(8, al, gf256_mul(bh, bh));
        assert(g2 == gf256_mul(al, gf256_mul(bh, bh)));
        assert(td == gf256_mul(gf256_mul(8, al), gf256_mul(bh, bh)));
    }
    assert(ta == p1) by {
        lemma_gf256_mul_basic();
        lemma_gf256_mul_assoc(ah, bl, bl);
    }
    assert(te == p3) by {
        lemma_gf256_mul_basic();
        lemma_gf256_mul_assoc(ah, bh, bh);
    }
    assert(tf == p2) by {
        lemma_gf256_mul_basic();
        lemma_gf256_mul_assoc(gf256_mul(ah, bl), bh, 8);
        lemma_gf256_mul_four(ah, bl, bh, 8);
        assert(tf == gf256_mul(gf256_mul(ah, bh), gf256_mul(bl, 8)));
        assert(p2 == gf256_mul(ah, gf256_mul(gf256_mul(8, bh), bl)));
        lemma_gf256_mul_assoc(ah, gf256_mul(8, bh), bl);
        lemma_gf256_mul_assoc(ah, 8, bh);
        assert(p2 == gf256_mul(gf256_mul(gf256_mul(ah, 8), bh), bl));
        lemma_gf256_mul_assoc(gf256_mul(ah, 8), bh, bl);
        lemma_gf256_mul_four(ah, 8, bh, bl);
        assert(p2 == gf256_mul(gf256_mul(ah, bh), gf256_mul(8, bl)));
        assert(gf256_mul(bl, 8) == gf256_mul(8, bl));
    }
    assert(e2 == f2) by {
        lemma_gf256_mul_basic();
        lemma_gf256_mul_assoc(ah, bh, bl);
        lemma_gf256_mul_assoc(ah, bl, bh);
        assert(gf256_mul(bh, bl) == gf256_mul(bl, bh));
    }
    assert(c2 == q1) by {
        lemma_gf256_mul_basic();
        lemma_gf256_mul_assoc(bl, al, bl);
        lemma_gf256_mul_assoc(bl, bl, al);
        assert(gf256_mul(al, bl) == gf256_mul(bl, al));
    }
    assert(d2 == q2) by {
        lemma_gf256_mul_basic();
        lemma_gf256_mul_assoc(m8, al, bl);
        lemma_gf256_mul_assoc(m8, bl, al);
        assert(gf256_mul(al, bl) == gf256_mul(bl, al));
    }
    assert(g2 == q3) by {
        lemma_gf256_mul_basic();
        lemma_gf256_mul_assoc(al, bh, bh);
    }
    // The high numerator: the cross terms cancel and ah * d remains.
    let nh: u8 = gf256_add(
        gf256_add(gf256_mul(xn, bl), gf256_mul(yn, bh)),
        gf256_mul(gf256_mul(xn, bh), 8),
    );
    assert(nh == gf256_mul(ah, d)) by {
        lemma_xor_basic();
        assert(nh == (((ta ^ tb) ^ ((tb ^ tg) ^ te)) ^ (tf ^ tg)));
        assert(((ta ^ tb) ^ ((tb ^ tg) ^ te)) == ((ta ^ te) ^ tg)) by {
            assert((tb ^ ((tb ^ tg) ^ te)) == ((tb ^ (tb ^ tg)) ^ te));
            assert((tb ^ (tb ^ tg)) == ((tb ^ tb) ^ tg));
        }
        assert((((ta ^ te) ^ tg) ^ (tf ^ tg)) == ((ta ^ te) ^ tf)) by {
            assert((((ta ^ te) ^ tg) ^ (tf ^ tg)) == ((ta ^ te) ^ (tg ^ (tf ^ tg))));
            assert((tg ^ (tf ^ tg)) == (tg ^ (tg ^ tf)));
            assert((tg ^ (tg ^ tf)) == ((tg ^ tg) ^ tf));
        }
        assert(((ta ^ te) ^ tf) == ((p1 ^ p2) ^ p3)) by {
            assert(((ta ^ te) ^ tf) == ((p1 ^ p3) ^ p2));
            assert(((p1 ^ p3) ^ p2) == (p1 ^ (p3 ^ p2)));
            assert((p3 ^ p2) == (p2 ^ p3));
            assert((p1 ^ (p2 ^ p3)) == ((p1 ^ p2) ^ p3));
        }
    }
    // The low numerator: one cross pair cancels and al * d remains.
    let nl: u8 = gf256_add(gf256_mul(yn, bl), gf256_mul(xn, bh));
    assert(nl == gf256_mul(al, d)) by {
        lemma_xor_basic();
        assert(nl == (((c2 ^ d2) ^ e2) ^ (e2 ^ g2)));
        assert((((c2 ^ d2) ^ e2) ^ (e2 ^ g2)) == ((c2 ^ d2) ^ (e2 ^ (e2 ^ g2))));
        assert((e2 ^ (e2 ^ g2)) == ((e2 ^ e2) ^ g2));
        assert(((c2 ^ d2) ^ g2) == ((q1 ^ q2) ^ q3));
    }
    lemma_gf256_mul_div(ah, d);
    lemma_gf256_mul_div(al, d);
    assert((gf64k_mul(gf64k_div(a, b), b)).0.0 == ah);
    assert((gf64k_mul(gf64k_div(a, b), b)).1.0 == al);
}

/// Multiplying by the inverse of a nonzero element is dividing by it: the
/// product with the reciprocal of w equals the quotient by w.
#[verifier::rlimit(100)]
#[verifier::spinoff_prover]
pub proof fn lemma_gf64k_mul_by_inverse(y: GF64K, w: GF64K)
    requires
        w.0.0 != 0 || w.1.0 != 0,
    ensures
        (gf64k_mul(y, gf64k_div(GF64K(GF256(0), GF256(1)), w))) == (gf64k_div(y, w)),
{
    lemma_gf64k_discr_nonzero(w);
    let yh: u8 = y.0.0;
    let yl: u8 = y.1.0;
    let wh: u8 = w.0.0;
    let wl: u8 = w.1.0;
    let d: u8 = gf64k_discr(w);
    let m8: u8 = gf256_mul(8, wh);
    let q: GF64K = gf64k_div(GF64K(GF256(0), GF256(1)), w);
    // The reciprocal's components, simplified: 0 and 1 factors drop out.
    let nh: u8 = gf256_add(gf256_mul(0, wl), gf256_mul(1, wh));
    let nl: u8 = gf256_add(gf256_mul(1, gf256_add(wl, m8)), gf256_mul(0, wh));
    assert(q.0.0 == gf256_div(nh, d));
    assert(q.1.0 == gf256_div(nl, d));
    assert(nh == wh) by {
        lemma_gf256_mul_basic();
        lemma_xor_basic();
        assert(gf256_mul(1, wh) == gf256_mul(wh, 1));
        assert((0u8 ^ wh) == (wh ^ 0u8));
    }
    assert(nl == gf256_add(wl, m8)) by {
        lemma_gf256_mul_basic();
        lemma_xor_basic();
        assert(gf256_mul(1, gf256_add(wl, m8)) == gf256_mul(gf256_add(wl, m8), 1));
    }
    // Each component of y * q is a quotient over the discriminant.
    lemma_gf256_div_scale(nl, yh, d);
    lemma_gf256_div_scale(nh, yl, d);
    lemma_gf256_div_scale(nh, yh, d);
    lemma_gf256_div_scale(nl, yl, d);
    lemma_gf256_div_scale(gf256_mul(nh, yh), 8, d);
    assert(gf256_mul(yh, q.1.0) == gf256_div(gf256_mul(nl, yh), d)) by {
        lemma_gf256_mul_basic();
    }
    assert(gf256_mul(yl, q.0.0) == gf256_div(gf256_mul(nh, yl), d)) by {
        lemma_gf256_mul_basic();
    }
    assert(gf256_mul(yh, q.0.0) == gf256_div(gf256_mul(nh, yh), d)) by {
        lemma_gf256_mul_basic();
    }
    assert(gf256_mul(8, gf256_mul(yh, q.0.0)) == gf256_div(
        gf256_mul(gf256_mul(nh, yh), 8),
        d,
    )) by {
        lemma_gf256_mul_basic();
    }
    assert(gf256_mul(yl, q.1.0) == gf256_div(gf256_mul(nl, yl), d)) by {
        lemma_gf256_mul_basic();
    }
    lemma_gf256_div_linear(gf256_mul(nl, yh), gf256_mul(nh, yl), d);
    lemma_gf256_div_linear(
        gf256_add(gf256_mul(nl, yh), gf256_mul(nh, yl)),
        gf256_mul(gf256_mul(nh, yh), 8),
        d,
    );
    lemma_gf256_div_linear(gf256_mul(nl, yl), gf256_mul(nh, yh), d);
    // The high numerator: the two terms in x^3 wh yh cancel, leaving the
    // numerator of the quotient y / w.
    let ha: u8 = gf256_mul(wl, yh);
    let hb: u8 = gf256_mul(m8, yh);
    let hc: u8 = gf256_mul(wh, yl);
    let hd: u8 = gf256_mul(gf256_mul(wh, yh), 8);
    assert(gf256_mul(nl, yh) == (ha ^ hb)) by {
        lemma_gf256_distrib(wl, m8, yh);
    }
    assert(gf256_mul(nh, yl) == hc);
    assert(gf256_mul(gf256_mul(nh, yh), 8) == hd);
    assert(hb == hd) by {
        lemma_gf256_mul_basic();
        lemma_gf256_mul_assoc(8, wh, yh);
        lemma_gf256_mul_assoc(wh, yh, 8);
        assert(gf256_mul(8, gf256_mul(wh, yh)) == gf256_mul(gf256_mul(wh, yh), 8));
        assert(hb == gf256_mul(8, gf256_mul(wh, yh)));
    }
    let hn: u8 = gf256_add(
        gf256_add(gf256_mul(nl, yh), gf256_mul(nh, yl)),
        gf256_mul(gf256_mul(nh, yh), 8),
    );
    assert(hn == gf256_add(gf256_mul(yh, wl), gf256_mul(yl, wh))) by {
        lemma_xor_basic();
        lemma_gf256_mul_basic();
        assert(hn == (((ha ^ hb) ^ hc) ^ hb));
        assert((((ha ^ hb) ^ hc) ^ hb) == ((ha ^ hc) ^ (hb ^ hb))) by {
            assert(((ha ^ hb) ^ hc) == ((ha ^ hc) ^ hb));
            assert((((ha ^ hc) ^ hb) ^ hb) == ((ha ^ hc) ^ (hb ^ hb)));
        }
        assert(ha == gf256_mul(yh, wl));
        assert(hc == gf256_mul(yl, wh));
    }
    // The low numerator matches the quotient's low numerator directly.
    let ln: u8 = gf256_add(gf256_mul(nl, yl), gf256_mul(nh, yh));
    assert(ln == gf256_add(gf256_mul(yl, gf256_add(wl, m8)), gf256_mul(yh, wh))) by {
        lemma_gf256_mul_basic();
        assert(gf256_mul(nl, yl) == gf256_mul(yl, nl));
        assert(gf256_mul(nh, yh) == gf256_mul(yh, wh));
    }
    assert((gf64k_mul(y, q)).0.0 == (gf64k_div(y, w)).0.0);
    assert((gf64k_mul(y, q)).1.0 == (gf64k_div(y, w)).1.0);
}

/// GF(2^16) has no zero divisors: the product of nonzero elements is
/// nonzero, since a vanishing product forces both components of one factor
/// to vanish through the nonzero discriminant.
#[verifier::rlimit(100)]
#[verifier::spinoff_prover]
pub proof fn lemma_gf64k_mul_nonzero(s: GF64K, v: GF64K)
    requires
        s.0.0 != 0 || s.1.0 != 0,
        v.0.0 != 0 || v.1.0 != 0,
    ensures
        (gf64k_mul(s, v)).0.0 != 0 || (gf64k_mul(s, v)).1.0 != 0,
{
    lemma_gf64k_discr_nonzero(v);
    let sh: u8 = s.0.0;
    let sl: u8 = s.1.0;
    let vh: u8 = v.0.0;
    let vl: u8 = v.1.0;
    let d: u8 = gf64k_discr(v);
    let t1: u8 = gf256_mul(sh, vl);
    let t2: u8 = gf256_mul(sl, vh);
    let t3: u8 = gf256_mul(8, gf256_mul(sh, vh));
    let u1: u8 = gf256_mul(sl, vl);
    let u2: u8 = gf256_mul(sh, vh);
    if (gf64k_mul(s, v)).0.0 == 0 && (gf64k_mul(s, v)).1.0 == 0 {
        assert(((t1 ^ t2) ^ t3) == 0);
        assert((u1 ^ u2) == 0);
        assert(u1 == u2) by {
            lemma_xor_basic();
            assert(((u1 ^ u2) ^ u2) == (u1 ^ (u2 ^ u2)));
        }
        // Multiply the vanished high component by vl: the cross term turns
        // into the low component times vh, and sh times the discriminant
        // remains.
        lemma_gf256_distrib(gf256_add(t1, t2), t3, vl);
        lemma_gf256_distrib(t1, t2, vl);
        assert(gf256_mul(((t1 ^ t2) ^ t3), vl) == 0);
        assert(((gf256_mul(t1, vl) ^ gf256_mul(t2, vl)) ^ gf256_mul(t3, vl)) == 0);
        assert(gf256_mul(t2, vl) == gf256_mul(u1, vh)) by {
            lemma_gf256_mul_basic();
            lemma_gf256_mul_assoc(sl, vh, vl);
            lemma_gf256_mul_assoc(sl, vl, vh);
            assert(gf256_mul(vh, vl) == gf256_mul(vl, vh));
        }
        assert(gf256_mul(t1, vl) == gf256_mul(gf256_mul(vl, vl), sh)) by {
            lemma_gf256_mul_basic();
            lemma_gf256_mul_assoc(sh, vl, vl);
        }
        assert(gf256_mul(u2, vh) == gf256_mul(gf256_mul(vh, vh), sh)) by {
            lemma_gf256_mul_basic();
            lemma_gf256_mul_assoc(sh, vh, vh);
        }
        assert(gf256_mul(t3, vl) == gf256_mul(gf256_mul(gf256_mul(8, vh), vl), sh)) by {
            lemma_gf256_mul_basic();
            lemma_gf256_mul_assoc(8, gf256_mul(sh, vh), vl);
            lemma_gf256_mul_assoc(sh, vh, vl);
            lemma_gf256_mul_assoc(gf256_mul(8, vh), vl, sh);
            lemma_gf256_mul_four(8, vh, vl, sh);
            assert(t3 == gf256_mul(8, gf256_mul(sh, vh)));
            assert(gf256_mul(t3, vl) == gf256_mul(gf256_mul(8, gf256_mul(sh, vh)), vl));
            lemma_gf256_mul_assoc(8, sh, gf256_mul(vh, vl));
            assert(gf256_mul(sh, gf256_mul(vh, vl)) == gf256_mul(gf256_mul(sh, vh), vl));
            lemma_gf256_mul_assoc(8, gf256_mul(sh, vh), vl);
            assert(gf256_mul(t3, vl) == gf256_mul(8, gf256_mul(gf256_mul(sh, vh), vl)));
            assert(gf256_mul(t3, vl) == gf256_mul(gf256_mul(8, sh), gf256_mul(vh, vl)));
            lemma_gf256_mul_four(8, sh, vh, vl);
            assert(gf256_mul(gf256_mul(8, vh), vl) == gf256_mul(8, gf256_mul(vh, vl))) by {
                lemma_gf256_mul_assoc(8, vh, vl);
            }
            lemma_gf256_mul_assoc(gf256_mul(8, vh), vl, sh);
            assert(gf256_mul(gf256_mul(gf256_mul(8, vh), vl), sh) == gf256_mul(
                gf256_mul(8, vh),
                gf256_mul(vl, sh),
            ));
            lemma_gf256_mul_four(8, vh, vl, sh);
            assert(gf256_mul(gf256_mul(8, vh), gf256_mul(vl, sh)) == gf256_mul(
                gf256_mul(8, vl),
                gf256_mul(vh, sh),
            ));
            lemma_gf256_mul_four(8, sh, vh, vl);
            assert(gf256_mul(gf256_mul(8, sh), gf256_mul(vh, vl)) == gf256_mul(
                gf256_mul(8, vh),
                gf256_mul(sh, vl),
            ));
            assert(gf256_mul(vl, sh) == gf256_mul(sh, vl));
            lemma_gf256_mul_four(8, vh, sh, vl);
        }
        // sh times the discriminant vanishes, so sh vanishes.
        assert(gf256_mul(sh, d) == ((gf256_mul(gf256_mul(vl, vl), sh) ^ gf256_mul(
            gf256_mul(gf256_mul(8, vh), vl),
            sh,
        )) ^ gf256_mul(gf256_mul(vh, vh), sh))) by {
            lemma_gf256_mul_basic();
            lemma_gf256_distrib(
                gf256_add(gf256_mul(vl, vl), gf256_mul(gf256_mul(8, vh), vl)),
                gf256_mul(vh, vh),
                sh,
            );
            lemma_gf256_distrib(gf256_mul(vl, vl), gf256_mul(gf256_mul(8, vh), vl), sh);
        }
        assert(gf256_mul(sh, d) == 0) by {
            lemma_xor_basic();
            assert(((gf256_mul(t1, vl) ^ gf256_mul(u2, vh)) ^ gf256_mul(t3, vl)) == 0);
        }
        assert(sh == 0) by {
            lemma_gf256_mul_basic();
        }
        assert(u2 == 0);
        assert(u1 == 0);
        assert(t1 == 0);
        assert(t3 == 0) by {
            lemma_gf256_mul_basic();
        }
        assert(t2 == 0) by {
            lemma_xor_basic();
            assert(((0u8 ^ t2) ^ 0u8) == t2) by {
                assert((0u8 ^ t2) == (t2 ^ 0u8));
            }
        }
        assert(sl == 0) by {
            lemma_gf256_mul_basic();
            if vl != 0 {
                assert(u1 == gf256_mul(sl, vl));
            } else {
                assert(t2 == gf256_mul(sl, vh));
            }
        }
        assert(false);
    }
}

/// Squaring in GF(2^16) is additive: the Frobenius endomorphism of a field
/// of characteristic 2.
pub proof fn lemma_gf64k_frobenius(a: GF64K, b: GF64K)
    ensures
        (gf64k_mul(gf64k_add(a, b), gf64k_add(a, b))) == (gf64k_add(
            gf64k_mul(a, a),
            gf64k_mul(b, b),
        )),
{
    lemma_xor_basic();
    lemma_gf256_mul_basic();
    let sh: u8 = gf256_add(a.0.0, b.0.0);
    let sl: u8 = gf256_add(a.1.0, b.1.0);
    lemma_gf256_frobenius(a.0.0, b.0.0);
    lemma_gf256_frobenius(a.1.0, b.1.0);
    let ah2: u8 = gf256_mul(a.0.0, a.0.0);
    let bh2: u8 = gf256_mul(b.0.0, b.0.0);
    let al2: u8 = gf256_mul(a.1.0, a.1.0);
    let bl2: u8 = gf256_mul(b.1.0, b.1.0);
    // The high byte of any square collapses to x^3 times the squared high
    // byte: the cross terms are equal and cancel.
    assert(gf256_mul(sh, sl) == gf256_mul(sl, sh));
    assert(gf256_mul(a.0.0, a.1.0) == gf256_mul(a.1.0, a.0.0));
    assert(gf256_mul(b.0.0, b.1.0) == gf256_mul(b.1.0, b.0.0));
    // x^3 distributes over the sum of the squared high bytes.
    lemma_gf256_distrib(ah2, bh2, GF64K_POLY_XCOEFF);
    assert(gf256_mul(GF64K_POLY_XCOEFF, gf256_mul(sh, sh)) == gf256_mul(
        gf256_add(ah2, bh2),
        GF64K_POLY_XCOEFF,
    ));
    assert(gf256_mul(ah2, GF64K_POLY_XCOEFF) == gf256_mul(GF64K_POLY_XCOEFF, ah2));
    assert(gf256_mul(bh2, GF64K_POLY_XCOEFF) == gf256_mul(GF64K_POLY_XCOEFF, bh2));
    // The low byte is a four-term XOR shuffle.
    assert(((al2 ^ bl2) ^ (ah2 ^ bh2)) == ((al2 ^ ah2) ^ (bl2 ^ bh2))) by {
        assert(((al2 ^ bl2) ^ (ah2 ^ bh2)) == al2 ^ (bl2 ^ (ah2 ^ bh2)));
        assert((bl2 ^ (ah2 ^ bh2)) == ((bl2 ^ ah2) ^ bh2));
        assert((bl2 ^ ah2) == (ah2 ^ bl2));
        assert(((ah2 ^ bl2) ^ bh2) == (ah2 ^ (bl2 ^ bh2)));
        assert(al2 ^ (ah2 ^ (bl2 ^ bh2)) == ((al2 ^ ah2) ^ (bl2 ^ bh2)));
    }
}

/// Converting an element to its 16-bit encoding and back returns the
/// element: the encoding splits into the high and the low byte exactly.
pub proof fn lemma_gf64k_u16_roundtrip(a: GF64K)
    ensures
        gf64k_from_u16(gf64k_to_u16(a)) == a,
{
    let v: int = (a.0.0 as int) * 256 + (a.1.0 as int);
    assert(0 <= v < 0x10000);
    assert(v / 256 == a.0.0 as int);
    assert(v % 256 == a.1.0 as int);
}

/// The element y = (1, 0) is a root of the reduction polynomial:
/// y^2 + x^3 y + 1 == 0 in GF(2^16), as befits the quotient construction.
pub proof fn lemma_gf64k_poly_root()
    ensures
        (gf64k_add(
            gf64k_add(
                gf64k_mul(GF64K(GF256(1), GF256(0)), GF64K(GF256(1), GF256(0))),
                gf64k_mul(GF64K(GF256(0), GF256(GF64K_POLY_XCOEFF)), GF64K(GF256(1), GF256(0))),
            ),
            GF64K(GF256(0), GF256(1)),
        )) == (GF64K(GF256(0), GF256(0))),
{
    lemma_xor_basic();
    lemma_gf256_mul_basic();
    assert(gf256_mul(1, 1) == 1);
    assert(gf256_mul(8, 1) == 8);
    assert(gf256_mul(1, 0) == 0);
    assert(gf256_mul(0, 1) == 0);
    assert(gf256_mul(0, 0) == 0);
    assert(gf256_mul(8, 0) == 0);
    assert(((0u8 ^ 0u8) ^ 8u8) == 8u8) by {
        assert((0u8 ^ 0u8) == 0);
        assert((0u8 ^ 8u8) == (8u8 ^ 0u8));
    }
    assert(((0u8 ^ 8u8) ^ 0u8) == 8u8) by {
        assert((0u8 ^ 8u8) == (8u8 ^ 0u8));
    }
    assert((0u8 ^ 1u8) == 1u8) by {
        assert((0u8 ^ 1u8) == (1u8 ^ 0u8));
    }
    assert((8u8 ^ 8u8) == 0u8);
    assert((1u8 ^ 0u8) == 1u8);
    assert((1u8 ^ 1u8) == 0u8);
    assert((0u8 ^ 0u8) == 0u8);
}

impl GF64K {
    /// The GF(2^16) element attached to a 16-bit integer.
    pub fn from_u16(v: u16) -> (r: GF64K)
        ensures
            r == (gf64k_from_u16(v)),
    {
        GF64K(GF256((v / 256) as u8), GF256((v % 256) as u8))
    }

    /// The 16-bit integer encoding of this element.
    pub fn to_u16(self) -> (r: u16)
        ensures
            r == gf64k_to_u16(self),
    {
        (self.0.0 as u16) * 256 + (self.1.0 as u16)
    }

    /// Addition in GF(2^16).
    pub fn add(self, rhs: GF64K) -> (r: GF64K)
        ensures
            r == (gf64k_add(self, rhs)),
    {
        GF64K(self.0.add(rhs.0), self.1.add(rhs.1))
    }

    /// Subtraction in GF(2^16); the field has characteristic 2, so it is the
    /// same as addition.
    pub fn sub(self, rhs: GF64K) -> (r: GF64K)
        ensures
            r == (gf64k_add(self, rhs)),
    {
        self.add(rhs)
    }

    /// Negation in GF(2^16); the field has characteristic 2, so it is the
    /// identity.
    pub fn neg(self) -> (r: GF64K)
        ensures
            r == self,
    {
        self
    }

    /// Multiplication in GF(2^16).
    pub fn mul(self, rhs: GF64K) -> (r: GF64K)
        ensures
            r == (gf64k_mul(self, rhs)),
    {
        let overflow = self.0.mul(rhs.0);
        GF64K(
            self.0.mul(rhs.1).add(self.1.mul(rhs.0)).add(GF256(GF64K_POLY_XCOEFF).mul(overflow)),
            self.1.mul(rhs.1).add(overflow),
        )
    }

    /// Division in GF(2^16). The divisor must be nonzero: zero has no inverse.
    pub fn div(self, rhs: GF64K) -> (r: GF64K)
        requires
            rhs.0.0 != 0 || rhs.1.0 != 0,
        ensures
            r == (gf64k_div(self, rhs)),
    {
        proof {
            lemma_gf64k_discr_nonzero(rhs);
        }
        let discr = rhs.1.mul(rhs.1).add(GF256(GF64K_POLY_XCOEFF).mul(rhs.0).mul(rhs.1)).add(
            rhs.0.mul(rhs.0),
        );
        GF64K(
            self.0.mul(rhs.1).add(self.1.mul(rhs.0)).div(discr),
            self.1.mul(rhs.1.add(GF256(GF64K_POLY_XCOEFF).mul(rhs.0))).add(self.0.mul(rhs.0)).div(
                discr,
            ),
        )
    }

    /// Whether this element is zero.
    pub fn is_zero(self) -> (r: bool)
        ensures
            r == (self.0.0 == 0 && self.1.0 == 0),
    {
        self.0.0 == 0 && self.1.0 == 0
    }
}

} // verus!
