//! Single bits of an eight-bit register.

use vstd::prelude::*;

verus! {

/// Bit `p` of `v` is set. Meant for `p < 8`.
pub open spec fn bit(v: u8, p: u8) -> bool {
    v & (1u8 << p) != 0
}

/// The register whose bit `p` is `f(p)`, for each of the eight places.
pub open spec fn pack(f: spec_fn(u8) -> bool) -> u8 {
    (if f(0) { 0x01u8 } else { 0 }) | (if f(1) { 0x02u8 } else { 0 }) | (if f(2) { 0x04u8 } else { 0 })
        | (if f(3) { 0x08u8 } else { 0 }) | (if f(4) { 0x10u8 } else { 0 }) | (if f(5) { 0x20u8 } else { 0 })
        | (if f(6) { 0x40u8 } else { 0 }) | (if f(7) { 0x80u8 } else { 0 })
}

/// How the bitwise operators act on each bit.
pub proof fn lemma_bit_algebra()
    by (bit_vector)
    ensures
        forall|a: u8, b: u8, q: u8| q < 8 ==> #[trigger] bit(a & b, q) == (bit(a, q) && bit(b, q)),
        forall|a: u8, b: u8, q: u8| q < 8 ==> #[trigger] bit(a | b, q) == (bit(a, q) || bit(b, q)),
        forall|a: u8, b: u8, q: u8| q < 8 ==> #[trigger] bit(a ^ b, q) == (bit(a, q) != bit(b, q)),
        forall|a: u8, q: u8| q < 8 ==> #[trigger] bit(!a, q) == !bit(a, q),
        forall|p: u8, q: u8| p < 8 && q < 8 ==> #[trigger] bit(1u8 << p, q) == (p == q),
{
}

/// Two registers with the same eight bits are the same register.
pub proof fn lemma_bits_decide(a: u8, b: u8)
    requires
        forall|q: u8| q < 8 ==> bit(a, q) == bit(b, q),
    ensures
        a == b,
{
    assert(bit(a, 0) == bit(b, 0) && bit(a, 1) == bit(b, 1) && bit(a, 2) == bit(b, 2) && bit(a, 3)
        == bit(b, 3) && bit(a, 4) == bit(b, 4) && bit(a, 5) == bit(b, 5) && bit(a, 6) == bit(b, 6)
        && bit(a, 7) == bit(b, 7));
    assert(a == b) by (bit_vector)
        requires
            bit(a, 0) == bit(b, 0) && bit(a, 1) == bit(b, 1) && bit(a, 2) == bit(b, 2) && bit(a, 3)
                == bit(b, 3) && bit(a, 4) == bit(b, 4) && bit(a, 5) == bit(b, 5) && bit(a, 6) == bit(
                b,
                6,
            ) && bit(a, 7) == bit(b, 7),
    ;
}

/// Each bit of a packed register is what the function gives for its place.
pub proof fn lemma_pack_bit(f: spec_fn(u8) -> bool, q: u8)
    requires
        q < 8,
    ensures
        bit(pack(f), q) == f(q),
{
    let b0 = f(0);
    let b1 = f(1);
    let b2 = f(2);
    let b3 = f(3);
    let b4 = f(4);
    let b5 = f(5);
    let b6 = f(6);
    let b7 = f(7);
    let v: u8 = (if b0 { 0x01u8 } else { 0 }) | (if b1 { 0x02u8 } else { 0 }) | (if b2 { 0x04u8 } else { 0 })
        | (if b3 { 0x08u8 } else { 0 }) | (if b4 { 0x10u8 } else { 0 }) | (if b5 { 0x20u8 } else { 0 })
        | (if b6 { 0x40u8 } else { 0 }) | (if b7 { 0x80u8 } else { 0 });
    assert(v == pack(f));
    assert(q < 8 ==> ((v & (1u8 << q) != 0) == (if q == 0 {
        b0
    } else if q == 1 {
        b1
    } else if q == 2 {
        b2
    } else if q == 3 {
        b3
    } else if q == 4 {
        b4
    } else if q == 5 {
        b5
    } else if q == 6 {
        b6
    } else {
        b7
    }))) by (bit_vector)
        requires
            v == (if b0 { 0x01u8 } else { 0 }) | (if b1 { 0x02u8 } else { 0 }) | (if b2 { 0x04u8 } else { 0 })
                | (if b3 { 0x08u8 } else { 0 }) | (if b4 { 0x10u8 } else { 0 }) | (if b5 { 0x20u8 } else { 0 })
                | (if b6 { 0x40u8 } else { 0 }) | (if b7 { 0x80u8 } else { 0 }),
    ;
}

} // verus!
