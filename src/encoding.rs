//! Byte-level encodings that feed a record's commitment: fixed-width
//! big-endian integers, and lowercase hexadecimal text.

use vstd::prelude::*;
use vstd::utf8::{encode_utf8, is_ascii_chars, is_ascii_chars_encode_utf8};

verus! {

/// The eight bytes of `n`, most significant first.
pub open spec fn be_bytes_u64(n: u64) -> Seq<u8> {
    Seq::new(8, |k: int| (n >> ((56 - 8 * k) as u64)) as u8)
}

/// The sixteen bytes of `n`, most significant first.
pub open spec fn be_bytes_u128(n: u128) -> Seq<u8> {
    Seq::new(16, |k: int| (n >> ((120 - 8 * k) as u128)) as u8)
}

/// The lowercase hexadecimal digit of a value below sixteen.
pub open spec fn hex_digit(v: u8) -> char {
    if v < 10 {
        ((v + 48) as u8) as char
    } else {
        ((v + 87) as u8) as char
    }
}

/// Two lowercase hexadecimal digits per byte, high nibble first.
pub open spec fn hex_of(b: Seq<u8>) -> Seq<char> {
    Seq::new(
        2 * b.len(),
        |i: int|
            if i % 2 == 0 {
                hex_digit(b[i / 2] / 16)
            } else {
                hex_digit(b[i / 2] % 16)
            },
    )
}

/// Distinct integers have distinct big-endian bytes.
pub proof fn lemma_be_bytes_u64_injective(a: u64, b: u64)
    requires
        be_bytes_u64(a) == be_bytes_u64(b),
    ensures
        a == b,
{
    assert(be_bytes_u64(a)[0] == (a >> 56u64) as u8 && be_bytes_u64(b)[0] == (b >> 56u64) as u8);
    assert(be_bytes_u64(a)[1] == (a >> 48u64) as u8 && be_bytes_u64(b)[1] == (b >> 48u64) as u8);
    assert(be_bytes_u64(a)[2] == (a >> 40u64) as u8 && be_bytes_u64(b)[2] == (b >> 40u64) as u8);
    assert(be_bytes_u64(a)[3] == (a >> 32u64) as u8 && be_bytes_u64(b)[3] == (b >> 32u64) as u8);
    assert(be_bytes_u64(a)[4] == (a >> 24u64) as u8 && be_bytes_u64(b)[4] == (b >> 24u64) as u8);
    assert(be_bytes_u64(a)[5] == (a >> 16u64) as u8 && be_bytes_u64(b)[5] == (b >> 16u64) as u8);
    assert(be_bytes_u64(a)[6] == (a >> 8u64) as u8 && be_bytes_u64(b)[6] == (b >> 8u64) as u8);
    assert(be_bytes_u64(a)[7] == (a >> 0u64) as u8 && be_bytes_u64(b)[7] == (b >> 0u64) as u8);
    assert(a == b) by (bit_vector)
        requires
            (a >> 56u64) as u8 == (b >> 56u64) as u8,
            (a >> 48u64) as u8 == (b >> 48u64) as u8,
            (a >> 40u64) as u8 == (b >> 40u64) as u8,
            (a >> 32u64) as u8 == (b >> 32u64) as u8,
            (a >> 24u64) as u8 == (b >> 24u64) as u8,
            (a >> 16u64) as u8 == (b >> 16u64) as u8,
            (a >> 8u64) as u8 == (b >> 8u64) as u8,
            (a >> 0u64) as u8 == (b >> 0u64) as u8,
    ;
}

/// Distinct integers have distinct big-endian bytes.
pub proof fn lemma_be_bytes_u128_injective(a: u128, b: u128)
    requires
        be_bytes_u128(a) == be_bytes_u128(b),
    ensures
        a == b,
{
    assert(be_bytes_u128(a)[0] == (a >> 120u128) as u8 && be_bytes_u128(b)[0] == (b >> 120u128) as u8);
    assert(be_bytes_u128(a)[1] == (a >> 112u128) as u8 && be_bytes_u128(b)[1] == (b >> 112u128) as u8);
    assert(be_bytes_u128(a)[2] == (a >> 104u128) as u8 && be_bytes_u128(b)[2] == (b >> 104u128) as u8);
    assert(be_bytes_u128(a)[3] == (a >> 96u128) as u8 && be_bytes_u128(b)[3] == (b >> 96u128) as u8);
    assert(be_bytes_u128(a)[4] == (a >> 88u128) as u8 && be_bytes_u128(b)[4] == (b >> 88u128) as u8);
    assert(be_bytes_u128(a)[5] == (a >> 80u128) as u8 && be_bytes_u128(b)[5] == (b >> 80u128) as u8);
    assert(be_bytes_u128(a)[6] == (a >> 72u128) as u8 && be_bytes_u128(b)[6] == (b >> 72u128) as u8);
    assert(be_bytes_u128(a)[7] == (a >> 64u128) as u8 && be_bytes_u128(b)[7] == (b >> 64u128) as u8);
    assert(be_bytes_u128(a)[8] == (a >> 56u128) as u8 && be_bytes_u128(b)[8] == (b >> 56u128) as u8);
    assert(be_bytes_u128(a)[9] == (a >> 48u128) as u8 && be_bytes_u128(b)[9] == (b >> 48u128) as u8);
    assert(be_bytes_u128(a)[10] == (a >> 40u128) as u8 && be_bytes_u128(b)[10] == (b >> 40u128) as u8);
    assert(be_bytes_u128(a)[11] == (a >> 32u128) as u8 && be_bytes_u128(b)[11] == (b >> 32u128) as u8);
    assert(be_bytes_u128(a)[12] == (a >> 24u128) as u8 && be_bytes_u128(b)[12] == (b >> 24u128) as u8);
    assert(be_bytes_u128(a)[13] == (a >> 16u128) as u8 && be_bytes_u128(b)[13] == (b >> 16u128) as u8);
    assert(be_bytes_u128(a)[14] == (a >> 8u128) as u8 && be_bytes_u128(b)[14] == (b >> 8u128) as u8);
    assert(be_bytes_u128(a)[15] == (a >> 0u128) as u8 && be_bytes_u128(b)[15] == (b >> 0u128) as u8);
    assert(a == b) by (bit_vector)
        requires
            (a >> 120u128) as u8 == (b >> 120u128) as u8,
            (a >> 112u128) as u8 == (b >> 112u128) as u8,
            (a >> 104u128) as u8 == (b >> 104u128) as u8,
            (a >> 96u128) as u8 == (b >> 96u128) as u8,
            (a >> 88u128) as u8 == (b >> 88u128) as u8,
            (a >> 80u128) as u8 == (b >> 80u128) as u8,
            (a >> 72u128) as u8 == (b >> 72u128) as u8,
            (a >> 64u128) as u8 == (b >> 64u128) as u8,
            (a >> 56u128) as u8 == (b >> 56u128) as u8,
            (a >> 48u128) as u8 == (b >> 48u128) as u8,
            (a >> 40u128) as u8 == (b >> 40u128) as u8,
            (a >> 32u128) as u8 == (b >> 32u128) as u8,
            (a >> 24u128) as u8 == (b >> 24u128) as u8,
            (a >> 16u128) as u8 == (b >> 16u128) as u8,
            (a >> 8u128) as u8 == (b >> 8u128) as u8,
            (a >> 0u128) as u8 == (b >> 0u128) as u8,
    ;
}

/// Hexadecimal text is ASCII, so its UTF-8 encoding has one byte per character.
pub proof fn lemma_hex_is_ascii(b: Seq<u8>)
    ensures
        is_ascii_chars(hex_of(b)),
        encode_utf8(hex_of(b)).len() == hex_of(b).len(),
{
    assert forall|i: int| 0 <= i < hex_of(b).len() implies '\0' <= #[trigger] hex_of(b)[i]
        <= '\u{7f}' by {
        let v = if i % 2 == 0 { b[i / 2] / 16 } else { b[i / 2] % 16 };
        assert(v < 16);
    }
    is_ascii_chars_encode_utf8(hex_of(b));
}

/// Appends the big-endian bytes of `n` to `buf`.
pub fn push_be_u64(buf: &mut Vec<u8>, n: u64)
    ensures
        final(buf)@ == old(buf)@ + be_bytes_u64(n),
{
    let ghost start = buf@;
    let mut k: usize = 0;
    while k < 8
        invariant
            k <= 8,
            buf@ == start + be_bytes_u64(n).take(k as int),
        decreases 8 - k,
    {
        buf.push((n >> ((56 - 8 * k) as u64)) as u8);
        k = k + 1;
        assert(be_bytes_u64(n).take(k as int) =~= be_bytes_u64(n).take(k - 1).push(
            be_bytes_u64(n)[k - 1],
        ));
    }
    assert(be_bytes_u64(n).take(8) =~= be_bytes_u64(n));
}

/// Appends the big-endian bytes of `n` to `buf`.
pub fn push_be_u128(buf: &mut Vec<u8>, n: u128)
    ensures
        final(buf)@ == old(buf)@ + be_bytes_u128(n),
{
    let ghost start = buf@;
    let mut k: usize = 0;
    while k < 16
        invariant
            k <= 16,
            buf@ == start + be_bytes_u128(n).take(k as int),
        decreases 16 - k,
    {
        buf.push((n >> ((120 - 8 * k) as u128)) as u8);
        k = k + 1;
        assert(be_bytes_u128(n).take(k as int) =~= be_bytes_u128(n).take(k - 1).push(
            be_bytes_u128(n)[k - 1],
        ));
    }
    assert(be_bytes_u128(n).take(16) =~= be_bytes_u128(n));
}

/// Relies on hex::encode: each byte becomes two characters from
/// "0123456789abcdef", the high nibble's first, in the order of the bytes.
#[verifier::external_body]
pub(crate) fn to_hex(b: &[u8]) -> (r: String)
    ensures
        r@ == hex_of(b@),
{
    hex::encode(b)
}

} // verus!
