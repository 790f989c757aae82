use vstd::prelude::*;

verus! {

/// Whether bit `bit` of `value` is one.
pub open spec fn bit_of(value: u8, bit: u8) -> bool {
    value & (1u8 << bit) != 0
}

/// `value` with bit `bit` forced to `on`.
pub open spec fn with_bit(value: u8, bit: u8, on: bool) -> u8 {
    if on {
        value | (1u8 << bit)
    } else {
        value & !(1u8 << bit)
    }
}

/// `value` with bit `bit` inverted.
pub open spec fn flip_bit(value: u8, bit: u8) -> u8 {
    value ^ (1u8 << bit)
}

/// The number of one-bits in `value`.
pub open spec fn ones(value: u8) -> nat {
    ((value / 1) % 2 + (value / 2) % 2 + (value / 4) % 2 + (value / 8) % 2 + (value / 16) % 2 + (
    value / 32) % 2 + (value / 64) % 2 + (value / 128) % 2) as nat
}

/// Whether `value` holds an odd number of one-bits.
pub open spec fn odd_parity(value: u8) -> bool {
    ones(value) % 2 == 1
}

/// Writing a bit makes that bit read back as written and leaves the other
/// seven bits of the byte as they were.
pub proof fn lemma_with_bit(value: u8, bit: u8, on: bool)
    requires
        bit < 8,
    ensures
        bit_of(with_bit(value, bit, on), bit) == on,
        forall|other: u8| other < 8 && other != bit ==> bit_of(with_bit(value, bit, on), other) == bit_of(value, other),
{
    assert((value | (1u8 << bit)) & (1u8 << bit) != 0) by (bit_vector)
        requires
            bit < 8,
    ;
    assert((value & !(1u8 << bit)) & (1u8 << bit) == 0) by (bit_vector)
        requires
            bit < 8,
    ;
    assert forall|other: u8| other < 8 && other != bit implies bit_of(with_bit(value, bit, on), other)
        == bit_of(value, other) by {
        assert((value | (1u8 << bit)) & (1u8 << other) == value & (1u8 << other)) by (bit_vector)
            requires
                bit < 8,
                other < 8,
                other != bit,
        ;
        assert((value & !(1u8 << bit)) & (1u8 << other) == value & (1u8 << other)) by (bit_vector)
            requires
                bit < 8,
                other < 8,
                other != bit,
        ;
    }
}

/// Inverting a bit changes that bit and no other.
pub proof fn lemma_flip_bit(value: u8, bit: u8)
    requires
        bit < 8,
    ensures
        bit_of(flip_bit(value, bit), bit) == !bit_of(value, bit),
        forall|other: u8| other < 8 && other != bit ==> bit_of(flip_bit(value, bit), other) == bit_of(value, other),
{
    assert(((value ^ (1u8 << bit)) & (1u8 << bit) != 0) == !(value & (1u8 << bit) != 0)) by (bit_vector)
        requires
            bit < 8,
    ;
    assert forall|other: u8| other < 8 && other != bit implies bit_of(flip_bit(value, bit), other)
        == bit_of(value, other) by {
        assert((value ^ (1u8 << bit)) & (1u8 << other) == value & (1u8 << other)) by (bit_vector)
            requires
                bit < 8,
                other < 8,
                other != bit,
        ;
    }
}

/// Two bytes whose eight bits agree are the same byte.
pub proof fn lemma_bits_determine_byte(a: u8, b: u8)
    requires
        forall|bit: u8| bit < 8 ==> bit_of(a, bit) == bit_of(b, bit),
    ensures
        a == b,
{
    assert(bit_of(a, 0) == bit_of(b, 0));
    assert(bit_of(a, 1) == bit_of(b, 1));
    assert(bit_of(a, 2) == bit_of(b, 2));
    assert(bit_of(a, 3) == bit_of(b, 3));
    assert(bit_of(a, 4) == bit_of(b, 4));
    assert(bit_of(a, 5) == bit_of(b, 5));
    assert(bit_of(a, 6) == bit_of(b, 6));
    assert(bit_of(a, 7) == bit_of(b, 7));
    assert(a == b) by (bit_vector)
        requires
            (a & (1u8 << 0u8) != 0) == (b & (1u8 << 0u8) != 0),
            (a & (1u8 << 1u8) != 0) == (b & (1u8 << 1u8) != 0),
            (a & (1u8 << 2u8) != 0) == (b & (1u8 << 2u8) != 0),
            (a & (1u8 << 3u8) != 0) == (b & (1u8 << 3u8) != 0),
            (a & (1u8 << 4u8) != 0) == (b & (1u8 << 4u8) != 0),
            (a & (1u8 << 5u8) != 0) == (b & (1u8 << 5u8) != 0),
            (a & (1u8 << 6u8) != 0) == (b & (1u8 << 6u8) != 0),
            (a & (1u8 << 7u8) != 0) == (b & (1u8 << 7u8) != 0),
    ;
}

/// Bits 4 and 3 of a byte, read as a number, are the quotient by eight taken
/// modulo four.
pub proof fn lemma_bank_bits(value: u8)
    ensures
        (0x18u8 & value) >> 3u8 == (value / 8) % 4,
{
    assert((0x18u8 & value) >> 3u8 == (value / 8) % 4) by (bit_vector);
}

/// The nibble swap and the four rotations of a byte, written with shifts and
/// masks, are what arithmetic says they are.
pub proof fn lemma_shift_forms(value: u8)
    ensures
        ((value & 0x0F) << 4u8) | ((value & 0xF0) >> 4u8) == (value % 16) * 16 + value / 16,
        ((value & 0x80) >> 7u8) | (value << 1u8) == (value * 2) % 256 + value / 128,
        ((value & 0x01) << 7u8) | (value >> 1u8) == value / 2 + (value % 2) * 128,
        (value << 1u8) | 1u8 == (value * 2) % 256 + 1,
        (value << 1u8) | 0u8 == (value * 2) % 256,
        (value >> 1u8) | 0x80u8 == value / 2 + 128,
        (value >> 1u8) | 0u8 == value / 2,
        value >> 7u8 == value / 128,
        value & 0x01 == value % 2,
{
    assert(((value & 0x0F) << 4u8) | ((value & 0xF0) >> 4u8) == (value % 16) * 16 + value / 16) by (bit_vector);
    assert(((value & 0x80) >> 7u8) | (value << 1u8) == (value * 2) % 256 + value / 128) by (bit_vector);
    assert(((value & 0x01) << 7u8) | (value >> 1u8) == value / 2 + (value % 2) * 128) by (bit_vector);
    assert((value << 1u8) | 1u8 == (value * 2) % 256 + 1) by (bit_vector);
    assert((value << 1u8) | 0u8 == (value * 2) % 256) by (bit_vector);
    assert((value >> 1u8) | 0x80u8 == value / 2 + 128) by (bit_vector);
    assert((value >> 1u8) | 0u8 == value / 2) by (bit_vector);
    assert(value >> 7u8 == value / 128) by (bit_vector);
    assert(value & 0x01 == value % 2) by (bit_vector);
}

/// The parity of a byte, by folding it onto its lowest bit.
pub fn parity(value: u8) -> (odd: bool)
    ensures
        odd == odd_parity(value),
{
    let folded4: u8 = value ^ (value >> 4);
    let folded2: u8 = folded4 ^ (folded4 >> 2);
    let folded1: u8 = folded2 ^ (folded2 >> 1);
    proof {
        assert(((value ^ (value >> 4)) ^ ((value ^ (value >> 4)) >> 2) ^ (((value ^ (value >> 4)) ^ ((
        value ^ (value >> 4)) >> 2)) >> 1)) & 1 == ((value / 1) % 2 + (value / 2) % 2 + (value / 4) % 2
            + (value / 8) % 2 + (value / 16) % 2 + (value / 32) % 2 + (value / 64) % 2 + (value / 128)
            % 2) % 2) by (bit_vector);
    }
    folded1 & 1 == 1
}

} // verus!
