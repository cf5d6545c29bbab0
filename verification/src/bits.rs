use vstd::prelude::*;

verus! {

/// Whether bit `k` of a 16-bit mask is set.
pub open spec fn has_bit(mask: u16, k: nat) -> bool {
    mask & (1u16 << (k as u16)) != 0
}

/// Setting bit `p` of a mask sets exactly that bit and leaves the others as they were.
pub proof fn lemma_or_bit(mask: u16, p: u16, k: u16)
    requires
        p < 16,
        k < 16,
    ensures
        has_bit(mask | (1u16 << p), k as nat) <==> (has_bit(mask, k as nat) || p == k),
{
    assert(((mask | (1u16 << p)) & (1u16 << k)) != 0 <==> ((mask & (1u16 << k)) != 0 || p == k))
        by (bit_vector)
        requires
            p < 16,
            k < 16,
    ;
}

/// A bit of the union of two masks is set exactly when it is set in either.
pub proof fn lemma_union_bit(a: u16, b: u16, k: u16)
    requires
        k < 16,
    ensures
        has_bit(a | b, k as nat) <==> (has_bit(a, k as nat) || has_bit(b, k as nat)),
{
    assert(((a | b) & (1u16 << k)) != 0 <==> ((a & (1u16 << k)) != 0 || (b & (1u16 << k)) != 0))
        by (bit_vector)
        requires
            k < 16,
    ;
}

/// The empty mask has no bit set.
pub proof fn lemma_zero_has_no_bit(k: u16)
    requires
        k < 16,
    ensures
        !has_bit(0, k as nat),
{
    assert((0u16 & (1u16 << k)) == 0) by (bit_vector);
}

/// Two 16-bit masks with the same bits are equal.
pub proof fn lemma_bits_determine_mask(a: u16, b: u16)
    requires
        forall|k: nat| k < 16 ==> (has_bit(a, k) <==> has_bit(b, k)),
    ensures
        a == b,
{
    assert(has_bit(a, 0) <==> has_bit(b, 0));
    assert(has_bit(a, 1) <==> has_bit(b, 1));
    assert(has_bit(a, 2) <==> has_bit(b, 2));
    assert(has_bit(a, 3) <==> has_bit(b, 3));
    assert(has_bit(a, 4) <==> has_bit(b, 4));
    assert(has_bit(a, 5) <==> has_bit(b, 5));
    assert(has_bit(a, 6) <==> has_bit(b, 6));
    assert(has_bit(a, 7) <==> has_bit(b, 7));
    assert(has_bit(a, 8) <==> has_bit(b, 8));
    assert(has_bit(a, 9) <==> has_bit(b, 9));
    assert(has_bit(a, 10) <==> has_bit(b, 10));
    assert(has_bit(a, 11) <==> has_bit(b, 11));
    assert(has_bit(a, 12) <==> has_bit(b, 12));
    assert(has_bit(a, 13) <==> has_bit(b, 13));
    assert(has_bit(a, 14) <==> has_bit(b, 14));
    assert(has_bit(a, 15) <==> has_bit(b, 15));
    assert(a == b) by (bit_vector)
        requires
            (a & (1u16 << 0u16)) != 0 <==> (b & (1u16 << 0u16)) != 0,
            (a & (1u16 << 1u16)) != 0 <==> (b & (1u16 << 1u16)) != 0,
            (a & (1u16 << 2u16)) != 0 <==> (b & (1u16 << 2u16)) != 0,
            (a & (1u16 << 3u16)) != 0 <==> (b & (1u16 << 3u16)) != 0,
            (a & (1u16 << 4u16)) != 0 <==> (b & (1u16 << 4u16)) != 0,
            (a & (1u16 << 5u16)) != 0 <==> (b & (1u16 << 5u16)) != 0,
            (a & (1u16 << 6u16)) != 0 <==> (b & (1u16 << 6u16)) != 0,
            (a & (1u16 << 7u16)) != 0 <==> (b & (1u16 << 7u16)) != 0,
            (a & (1u16 << 8u16)) != 0 <==> (b & (1u16 << 8u16)) != 0,
            (a & (1u16 << 9u16)) != 0 <==> (b & (1u16 << 9u16)) != 0,
            (a & (1u16 << 10u16)) != 0 <==> (b & (1u16 << 10u16)) != 0,
            (a & (1u16 << 11u16)) != 0 <==> (b & (1u16 << 11u16)) != 0,
            (a & (1u16 << 12u16)) != 0 <==> (b & (1u16 << 12u16)) != 0,
            (a & (1u16 << 13u16)) != 0 <==> (b & (1u16 << 13u16)) != 0,
            (a & (1u16 << 14u16)) != 0 <==> (b & (1u16 << 14u16)) != 0,
            (a & (1u16 << 15u16)) != 0 <==> (b & (1u16 << 15u16)) != 0,
    ;
}

} // verus!
