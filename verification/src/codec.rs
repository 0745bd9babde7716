//! Fixed-width binary codec: one IPv4 address to and from a 4-byte
//! big-endian record.

use vstd::prelude::*;

verus! {

/// The 4-byte big-endian record encoding the address `a`.
pub open spec fn record_of(a: u32) -> Seq<u8> {
    seq![
        (a / 0x1000000) as u8,
        ((a / 0x10000) % 0x100) as u8,
        ((a / 0x100) % 0x100) as u8,
        (a % 0x100) as u8,
    ]
}

/// Encodes an address as its 4-byte big-endian record.
pub fn encode_address(a: u32) -> (r: [u8; 4])
    ensures
        r@ == record_of(a),
{
    let r = [(a >> 24) as u8, (a >> 16) as u8, (a >> 8) as u8, a as u8];
    proof {
        assert((a >> 24) as u8 == (a / 0x1000000) as u8) by (bit_vector);
        assert((a >> 16) as u8 == ((a / 0x10000) % 0x100) as u8) by (bit_vector);
        assert((a >> 8) as u8 == ((a / 0x100) % 0x100) as u8) by (bit_vector);
        assert(a as u8 == (a % 0x100) as u8) by (bit_vector);
        assert(r@ =~= record_of(a));
    }
    r
}

/// The address encoded by the big-endian record `b0 b1 b2 b3`.
pub open spec fn address_of(b0: u8, b1: u8, b2: u8, b3: u8) -> u32 {
    (b0 * 0x1000000 + b1 * 0x10000 + b2 * 0x100 + b3) as u32
}

/// Decodes a 4-byte big-endian record back into the address it encodes.
pub fn decode_address(b0: u8, b1: u8, b2: u8, b3: u8) -> (r: u32)
    ensures
        r == address_of(b0, b1, b2, b3),
{
    let r = ((b0 as u32) << 24) | ((b1 as u32) << 16) | ((b2 as u32) << 8) | (b3 as u32);
    proof {
        assert(((b0 as u32) << 24) | ((b1 as u32) << 16) | ((b2 as u32) << 8) | (b3 as u32)
            == (b0 * 0x1000000 + b1 * 0x10000 + b2 * 0x100 + b3) as u32) by (bit_vector);
    }
    r
}

/// Decoding inverts encoding: the record of `a` decodes back to `a`.
pub proof fn lemma_codec_roundtrip(a: u32)
    ensures
        address_of(record_of(a)[0], record_of(a)[1], record_of(a)[2], record_of(a)[3]) == a,
{
    assert(((a / 0x1000000) as u8) * 0x1000000 + (((a / 0x10000) % 0x100) as u8) * 0x10000
        + (((a / 0x100) % 0x100) as u8) * 0x100 + ((a % 0x100) as u8) == a) by (bit_vector);
}

} // verus!
