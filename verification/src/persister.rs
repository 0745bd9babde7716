//! The persisted record stream: the full address collection as a flat
//! sequence of 4-byte big-endian records.
//!
//! The byte-level work lives here; the process around the library reads and
//! writes the single backing file and hands the bytes through unchanged. A
//! stream whose length is not a multiple of four decodes to every complete
//! leading record, and the incomplete tail is dropped without an error.

use vstd::prelude::*;

use crate::codec::{address_of, decode_address, encode_address, lemma_codec_roundtrip, record_of};

verus! {

/// The byte stream that encodes the addresses `addrs`, in order.
pub open spec fn records_of(addrs: Seq<u32>) -> Seq<u8>
    decreases addrs.len(),
{
    if addrs.len() == 0 {
        Seq::empty()
    } else {
        record_of(addrs[0]) + records_of(addrs.drop_first())
    }
}

/// The addresses held by the complete leading 4-byte records of `bytes`;
/// an incomplete trailing record is ignored.
pub open spec fn addresses_of(bytes: Seq<u8>) -> Seq<u32>
    decreases bytes.len(),
{
    if bytes.len() < 4 {
        Seq::empty()
    } else {
        seq![address_of(bytes[0], bytes[1], bytes[2], bytes[3])] + addresses_of(bytes.skip(4))
    }
}

/// Encodes and decodes the persisted record stream.
pub struct BlocklistPersister {}

impl BlocklistPersister {
    /// The record stream to be written to the backing file: each address as
    /// a 4-byte big-endian record, in the order given.
    pub fn persist(&self, addresses: &Vec<u32>) -> (r: Vec<u8>)
        ensures
            r@ == records_of(addresses@),
    {
        let mut r: Vec<u8> = Vec::new();
        let mut i: usize = 0;
        while i < addresses.len()
            invariant
                i <= addresses.len(),
                r@ == records_of(addresses@.take(i as int)),
            decreases addresses.len() - i,
        {
            let record = encode_address(addresses[i]);
            r.push(record[0]);
            r.push(record[1]);
            r.push(record[2]);
            r.push(record[3]);
            proof {
                lemma_records_of_push(addresses@.take(i as int), addresses@[i as int]);
                assert(addresses@.take(i + 1) =~= addresses@.take(i as int).push(
                    addresses@[i as int],
                ));
            }
            i = i + 1;
        }
        proof {
            assert(addresses@.take(addresses@.len() as int) =~= addresses@);
        }
        r
    }

    /// The addresses read back from a record stream: one address per
    /// complete 4-byte record, stopping cleanly at an incomplete tail.
    pub fn load(&self, bytes: &[u8]) -> (r: Vec<u32>)
        ensures
            r@ == addresses_of(bytes@),
    {
        let mut r: Vec<u32> = Vec::new();
        let mut i: usize = 0;
        proof {
            assert(bytes@.skip(0) =~= bytes@);
            assert(r@ + addresses_of(bytes@) =~= addresses_of(bytes@));
        }
        while bytes.len() - i >= 4
            invariant
                i <= bytes.len(),
                addresses_of(bytes@) == r@ + addresses_of(bytes@.skip(i as int)),
            decreases bytes.len() - i,
        {
            let ghost prev = r@;
            let a = decode_address(bytes[i], bytes[i + 1], bytes[i + 2], bytes[i + 3]);
            r.push(a);
            proof {
                let rest = bytes@.skip(i as int);
                assert(rest[0] == bytes@[i as int]);
                assert(rest[1] == bytes@[i + 1]);
                assert(rest[2] == bytes@[i + 2]);
                assert(rest[3] == bytes@[i + 3]);
                assert(rest.skip(4) =~= bytes@.skip(i + 4));
                assert(addresses_of(rest) == seq![a] + addresses_of(bytes@.skip(i + 4)));
                assert(r@ + addresses_of(bytes@.skip(i + 4)) =~= prev + addresses_of(rest));
            }
            i = i + 4;
        }
        proof {
            assert(addresses_of(bytes@.skip(i as int)) =~= Seq::empty());
            assert(r@ =~= r@ + Seq::empty());
        }
        r
    }
}

/// Appending one address to a sequence appends its record to the stream.
proof fn lemma_records_of_push(addrs: Seq<u32>, a: u32)
    ensures
        records_of(addrs.push(a)) == records_of(addrs) + record_of(a),
    decreases addrs.len(),
{
    if addrs.len() == 0 {
        assert(records_of(Seq::<u32>::empty()) == Seq::<u8>::empty());
        assert(addrs.push(a).drop_first() =~= Seq::<u32>::empty());
        assert(records_of(addrs.push(a)) =~= record_of(a) + Seq::<u8>::empty());
        assert(record_of(a) + Seq::<u8>::empty() =~= record_of(a));
        assert(records_of(addrs) + record_of(a) =~= record_of(a));
    } else {
        assert(addrs.push(a).drop_first() =~= addrs.drop_first().push(a));
        lemma_records_of_push(addrs.drop_first(), a);
        assert(records_of(addrs.push(a)) =~= records_of(addrs) + record_of(a));
    }
}

/// Round trip: the record stream of a sequence of addresses decodes back to
/// exactly that sequence, so a persisted set reads back with exactly its
/// elements.
pub proof fn lemma_persist_roundtrip(addrs: Seq<u32>)
    ensures
        addresses_of(records_of(addrs)) == addrs,
    decreases addrs.len(),
{
    lemma_truncation_tolerance(addrs, Seq::empty());
    assert(records_of(addrs) + Seq::empty() =~= records_of(addrs));
}

/// Truncation tolerance: fewer than four trailing bytes after a record
/// stream never change what the stream decodes to.
pub proof fn lemma_truncation_tolerance(addrs: Seq<u32>, tail: Seq<u8>)
    requires
        tail.len() < 4,
    ensures
        addresses_of(records_of(addrs) + tail) == addrs,
    decreases addrs.len(),
{
    let bytes = records_of(addrs) + tail;
    if addrs.len() == 0 {
        assert(bytes =~= tail);
        assert(addresses_of(bytes) =~= Seq::empty());
    } else {
        let a = addrs[0];
        lemma_codec_roundtrip(a);
        assert(bytes[0] == record_of(a)[0]);
        assert(bytes[1] == record_of(a)[1]);
        assert(bytes[2] == record_of(a)[2]);
        assert(bytes[3] == record_of(a)[3]);
        lemma_truncation_tolerance(addrs.drop_first(), tail);
        assert(bytes.skip(4) =~= records_of(addrs.drop_first()) + tail);
        assert(addresses_of(bytes) =~= seq![a] + addresses_of(bytes.skip(4)));
        assert(seq![a] + addrs.drop_first() =~= addrs);
    }
}

} // verus!
