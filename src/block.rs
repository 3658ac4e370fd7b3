//! A record of the ledger and the commitment that binds its fields.

use vstd::prelude::*;
use vstd::utf8::{encode_utf8, encode_utf8_decode_utf8};

use crate::encoding::{
    be_bytes_u128, be_bytes_u64, hex_of, lemma_be_bytes_u128_injective, lemma_be_bytes_u64_injective,
    push_be_u128, push_be_u64, to_hex,
};

verus! {

/// The longest input, in bytes, that SHA-256 accepts: its bit length must fit in a `u64`.
pub const MAX_DIGEST_INPUT: u64 = 0x1fff_ffff_ffff_ffff;

/// The longest payload, in UTF-8 bytes, that a record linked to a
/// 64-character commitment can carry.
pub const MAX_PAYLOAD_BYTES: u64 = MAX_DIGEST_INPUT - 88;

/// The SHA-256 digest of a byte sequence.
pub uninterp spec fn sha256_of(b: Seq<u8>) -> Seq<u8>;

/// Relies on ring::digest::digest with SHA256: the 32-byte digest of the input. It
/// panics only when the input's bit length overflows a `u64`, which `requires` leaves out.
#[verifier::external_body]
fn sha256(b: &[u8]) -> (r: Vec<u8>)
    requires
        b@.len() <= MAX_DIGEST_INPUT,
    ensures
        r@ == sha256_of(b@),
        r@.len() == 32,
{
    ring::digest::digest(&ring::digest::SHA256, b).as_ref().to_vec()
}

/// Relies on std's SystemTime::now and UNIX_EPOCH: the wall-clock time in milliseconds.
/// A clock set before the epoch is a fatal condition and panics.
#[verifier::external_body]
fn now_millis() -> (r: u128) {
    std::time::SystemTime::now().duration_since(std::time::UNIX_EPOCH).unwrap().as_millis()
}

/// The bytes that a commitment digests: the index and the timestamp big-endian, then the
/// UTF-8 bytes of the previous commitment and of the payload, with no separator.
pub open spec fn hash_input(index: u64, timestamp: u128, prev: Seq<char>, data: Seq<char>) -> Seq<
    u8,
> {
    be_bytes_u64(index) + be_bytes_u128(timestamp) + encode_utf8(prev) + encode_utf8(data)
}

/// Whether the digest input of these texts is within what SHA-256 accepts.
pub open spec fn digestible(prev: Seq<char>, data: Seq<char>) -> bool {
    24 + encode_utf8(prev).len() + encode_utf8(data).len() <= MAX_DIGEST_INPUT
}

/// The commitment of a record's fields: the lowercase hex of the SHA-256 digest.
pub open spec fn commitment(index: u64, timestamp: u128, prev: Seq<char>, data: Seq<char>) -> Seq<
    char,
> {
    hex_of(sha256_of(hash_input(index, timestamp, prev, data)))
}

/// The digest input fixes the index and the timestamp, and the previous
/// commitment together with the payload: so argument tuples that differ in a
/// single argument never hand the digest the same bytes. That their digests
/// then differ rests on SHA-256 itself and is not stated here.
pub proof fn lemma_hash_input_separates(
    i1: u64,
    t1: u128,
    p1: Seq<char>,
    d1: Seq<char>,
    i2: u64,
    t2: u128,
    p2: Seq<char>,
    d2: Seq<char>,
)
    requires
        hash_input(i1, t1, p1, d1) == hash_input(i2, t2, p2, d2),
    ensures
        i1 == i2,
        t1 == t2,
        p1 == p2 <==> d1 == d2,
{
    let x = hash_input(i1, t1, p1, d1);
    let (e1, f1, e2, f2) = (encode_utf8(p1), encode_utf8(d1), encode_utf8(p2), encode_utf8(d2));
    assert(x.subrange(0, 8) =~= be_bytes_u64(i1));
    assert(x.subrange(0, 8) =~= be_bytes_u64(i2));
    lemma_be_bytes_u64_injective(i1, i2);
    assert(x.subrange(8, 24) =~= be_bytes_u128(t1));
    assert(x.subrange(8, 24) =~= be_bytes_u128(t2));
    lemma_be_bytes_u128_injective(t1, t2);
    assert(x.subrange(24, x.len() as int) =~= e1 + f1);
    assert(x.subrange(24, x.len() as int) =~= e2 + f2);
    encode_utf8_decode_utf8(p1);
    encode_utf8_decode_utf8(p2);
    encode_utf8_decode_utf8(d1);
    encode_utf8_decode_utf8(d2);
    if p1 == p2 {
        assert((e1 + f1).subrange(e1.len() as int, (e1 + f1).len() as int) =~= f1);
        assert((e2 + f2).subrange(e2.len() as int, (e2 + f2).len() as int) =~= f2);
    }
    if d1 == d2 {
        assert((e1 + f1).subrange(0, e1.len() as int) =~= e1);
        assert((e2 + f2).subrange(0, e2.len() as int) =~= e2);
    }
}

/// One entry of the ledger.
#[derive(Debug)]
pub struct Block {
    pub index: u64,
    pub timestamp: u128,
    pub previous_hash: String,
    pub hash: String,
    pub data: String,
}

impl Block {
    /// The stored commitment equals the one recomputed from the other fields.
    pub open spec fn certified(&self) -> bool {
        self.hash@ == commitment(self.index, self.timestamp, self.previous_hash@, self.data@)
    }

    /// The record's texts can be digested.
    pub open spec fn digestible(&self) -> bool {
        digestible(self.previous_hash@, self.data@)
    }

    /// Builds a record stamped with the current time.
    pub fn new(index: u64, previous_hash: String, data: String) -> (r: Self)
        requires
            digestible(previous_hash@, data@),
        ensures
            r.index == index,
            r.previous_hash@ == previous_hash@,
            r.data@ == data@,
            r.certified(),
            r.hash@.len() == 64,
    {
        let timestamp = now_millis();
        Self::with_timestamp(index, timestamp, previous_hash, data)
    }

    /// Builds a record with the given timestamp.
    pub fn with_timestamp(index: u64, timestamp: u128, previous_hash: String, data: String) -> (r:
        Self)
        requires
            digestible(previous_hash@, data@),
        ensures
            r.index == index,
            r.timestamp == timestamp,
            r.previous_hash@ == previous_hash@,
            r.data@ == data@,
            r.certified(),
            r.hash@.len() == 64,
    {
        let hash = Self::calculate_hash(index, timestamp, previous_hash.as_str(), data.as_str());
        Block { index, timestamp, previous_hash, hash, data }
    }

    /// The commitment of the given fields, as lowercase hexadecimal.
    pub fn calculate_hash(index: u64, timestamp: u128, previous_hash: &str, data: &str) -> (r:
        String)
        requires
            digestible(previous_hash@, data@),
        ensures
            r@ == commitment(index, timestamp, previous_hash@, data@),
            r@.len() == 64,
    {
        let mut bytes: Vec<u8> = Vec::new();
        push_be_u64(&mut bytes, index);
        push_be_u128(&mut bytes, timestamp);
        bytes.extend_from_slice(previous_hash.as_bytes());
        bytes.extend_from_slice(data.as_bytes());
        assert(bytes@ =~= hash_input(index, timestamp, previous_hash@, data@));
        let digest = sha256(bytes.as_slice());
        to_hex(digest.as_slice())
    }
}

} // verus!
