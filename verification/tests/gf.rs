use ssdv_fec::gf256::GF256;
use ssdv_fec::gf64k::{GF64K, GF64K_POLY_XCOEFF};

#[test]
fn powers_gf256() {
    let mut a = GF256(1);
    for j in 0..8 {
        assert_eq!(a, GF256(1 << j));
        a = a.mul(GF256(2));
    }
    assert_eq!(a, GF256(0b11101)); // x^8 = x^4 + x^3 + x^2 + 1
}

#[test]
fn div_gf256() {
    let a = GF256(123);
    let b = GF256(187);
    let c = a.div(b);
    assert_eq!(c.mul(b), a);
}

#[test]
fn div_gf64k() {
    let a = GF64K(GF256(87), GF256(34));
    let b = GF64K(GF256(153), GF256(221));
    let c = a.div(b);
    assert_eq!(c.mul(b), a);
    let b = GF64K(GF256(13), GF256(0));
    let c = a.div(b);
    assert_eq!(c.mul(b), a);
    let b = GF64K(GF256(0), GF256(174));
    let c = a.div(b);
    assert_eq!(c.mul(b), a);
}

#[test]
fn gf64k_poly_root() {
    let y = GF64K(GF256(1), GF256(0));
    let alpha = GF64K(GF256(0), GF256(GF64K_POLY_XCOEFF));
    let one = GF64K::from_u16(1);
    assert_eq!(y.mul(y).add(alpha.mul(y)).add(one), GF64K::from_u16(0));
}

#[test]
fn gf64k_poly_irreducible_over_gf256() {
    for j in 0..=255 {
        let x = GF256(j);
        let alpha = GF256(GF64K_POLY_XCOEFF);
        assert_ne!(x.mul(x).add(alpha.mul(x)).add(GF256(1)), GF256(0));
    }
}

#[test]
fn frobenius_gf256() {
    let a = GF256(27);
    let b = GF256(94);
    assert_eq!(a.add(b).mul(a.add(b)), a.mul(a).add(b.mul(b)));
}

#[test]
fn frobenius_gf64k() {
    let a = GF64K(GF256(143), GF256(239));
    let b = GF64K(GF256(28), GF256(147));
    assert_eq!(a.add(b).mul(a.add(b)), a.mul(a).add(b.mul(b)));
}

#[test]
fn gf256_mul_commutes_on_samples() {
    for a in [0u8, 1, 2, 13, 87, 200, 255] {
        for b in [0u8, 1, 7, 99, 254] {
            assert_eq!(GF256(a).mul(GF256(b)), GF256(b).mul(GF256(a)));
        }
    }
}

#[test]
fn gf64k_u16_roundtrip() {
    for v in [0u16, 1, 255, 256, 0x1234, 0xFFFF] {
        assert_eq!(GF64K::from_u16(v).to_u16(), v);
    }
}
