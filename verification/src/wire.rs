//! The wire-format boundary: specification of the byte shapes the codec
//! produces (base-128 varints, length-delimited framing, lowercase hex) and
//! the trusted wrappers around the external codec primitives.

use vstd::arithmetic::power2::{lemma2_to64, lemma_pow2_adds, pow2};
use vstd::prelude::*;

verus! {

/// Canonical base-128 varint encoding of `x`: seven bits per byte, least
/// significant group first, continuation bit set on every byte but the last.
pub open spec fn varint(x: u64) -> Seq<u8>
    decreases x,
{
    if x < 128 {
        seq![x as u8]
    } else {
        seq![(x % 128 + 128) as u8] + varint(x / 128)
    }
}

/// Length-delimited framing: the byte length of the message encoding as a
/// varint, followed by the encoding itself.
pub open spec fn framed(enc: Seq<u8>) -> Seq<u8> {
    varint(enc.len() as u64) + enc
}

/// The UTF-8 encoding of a character sequence.  Left abstract: the byte
/// shape is fixed by the UTF-8 standard and is a function of the characters
/// alone; the trusted wrappers below state how the external calls relate
/// exec strings to it.
pub uninterp spec fn utf8_of(s: Seq<char>) -> Seq<u8>;

/// Lowercase hexadecimal digit for a value below 16.
pub open spec fn hex_digit(n: u8) -> char
    recommends
        n < 16,
{
    if n < 10 {
        (n + 48) as char
    } else {
        (n + 87) as char
    }
}

/// Lowercase hexadecimal rendering of a byte sequence, two digits per byte,
/// high nibble first.
pub open spec fn hex_seq(bytes: Seq<u8>) -> Seq<char>
    decreases bytes.len(),
{
    if bytes.len() == 0 {
        Seq::empty()
    } else {
        seq![hex_digit(bytes[0] / 16), hex_digit(bytes[0] % 16)] + hex_seq(bytes.drop_first())
    }
}

/// Whether the buffer begins with a varint the codec accepts, looking at no
/// more than `budget` further bytes: a terminating byte (below 128) must
/// appear before the budget runs out, and a terminator in the last allowed
/// position (the tenth byte overall) may be at most 1, since a `u64` holds
/// no more bits.
pub open spec fn leb128_ok_from(b: Seq<u8>, budget: nat) -> bool
    decreases budget,
{
    if b.len() == 0 || budget == 0 {
        false
    } else if b[0] < 128 {
        budget > 1 || b[0] <= 1
    } else {
        leb128_ok_from(b.drop_first(), (budget - 1) as nat)
    }
}

/// Whether the buffer begins with a varint the codec accepts: a terminator
/// within ten bytes, and a tenth-byte terminator of at most 1.
pub open spec fn leb128_ok(b: Seq<u8>) -> bool {
    leb128_ok_from(b, 10)
}

/// The byte length of the varint at the front of the buffer: everything up
/// to and including the first terminating byte.
pub open spec fn leb128_len(b: Seq<u8>) -> nat
    decreases b.len(),
{
    if b.len() == 0 {
        0
    } else if b[0] < 128 {
        1
    } else {
        1 + leb128_len(b.drop_first())
    }
}

/// The value of the varint at the front of the buffer: seven bits per byte,
/// least significant group first.
pub open spec fn leb128_value(b: Seq<u8>) -> nat
    decreases b.len(),
{
    if b.len() == 0 {
        0
    } else if b[0] < 128 {
        b[0] as nat
    } else {
        (b[0] - 128) as nat + 128 * leb128_value(b.drop_first())
    }
}

proof fn lemma_leb128_of_varint_from(x: u64, rest: Seq<u8>, budget: nat)
    requires
        1 <= budget <= 10,
        (x as nat) < pow2((7 * (budget - 1) + 1) as nat),
    ensures
        leb128_ok_from(varint(x) + rest, budget),
        leb128_len(varint(x) + rest) == varint(x).len(),
        leb128_value(varint(x) + rest) == x,
    decreases x,
{
    lemma2_to64();
    let b = varint(x) + rest;
    if x < 128 {
        assert(b[0] == x as u8);
        assert(b.drop_first() =~= rest);
    } else {
        assert(b[0] == (x % 128 + 128) as u8);
        assert(b.drop_first() =~= varint(x / 128) + rest);
        assert(budget >= 2);
        let e2 = (7 * (budget - 2) + 1) as nat;
        lemma_pow2_adds(7, e2);
        vstd::arithmetic::div_mod::lemma_multiply_divide_lt(x as int, 128, pow2(e2) as int);
        lemma_leb128_of_varint_from(x / 128, rest, (budget - 1) as nat);
    }
}

/// A buffer that begins with the canonical varint of `x` is accepted by the
/// codec's varint reader, which returns exactly `x` and consumes exactly
/// that canonical prefix.
pub proof fn lemma_leb128_of_varint(x: u64, rest: Seq<u8>)
    ensures
        leb128_ok(varint(x) + rest),
        leb128_len(varint(x) + rest) == varint(x).len(),
        leb128_value(varint(x) + rest) == x,
{
    lemma2_to64();
    lemma_leb128_of_varint_from(x, rest, 10);
}

/// Splitting a concatenation after its first part yields the second part.
pub proof fn lemma_concat_parts(p: Seq<u8>, q: Seq<u8>)
    ensures
        (p + q).len() == p.len() + q.len(),
        (p + q).subrange(p.len() as int, (p + q).len() as int) == q,
        (p + q).subrange(0, p.len() as int) == p,
{
    assert((p + q).subrange(p.len() as int, (p + q).len() as int) =~= q);
    assert((p + q).subrange(0, p.len() as int) =~= p);
}

/// Relies on `prost::encoding::encode_varint`: appends the base-128 varint
/// encoding of `x` to the buffer.
#[verifier::external_body]
pub fn put_varint(x: u64, buf: &mut Vec<u8>)
    ensures
        final(buf)@ == old(buf)@ + varint(x),
{
    prost::encoding::encode_varint(x, buf);
}

/// Relies on `prost::encoding::decode_varint`: reads one varint from the
/// front of the buffer and reports how many bytes remain.  Its behavior is
/// a function of the buffer alone: it succeeds exactly on the buffers
/// `leb128_ok` accepts (a terminator within ten bytes, a tenth-byte
/// terminator of at most 1), returning the base-128 value of the prefix and
/// consuming exactly `leb128_len` bytes.
#[verifier::external_body]
pub fn take_varint(bytes: &[u8]) -> (res: Result<(u64, usize), String>)
    ensures
        match res {
            Ok(p) => leb128_ok(bytes@) && p.0 as nat == leb128_value(bytes@) && p.1
                + leb128_len(bytes@) == bytes@.len(),
            Err(_) => !leb128_ok(bytes@),
        },
{
    let mut b: &[u8] = bytes;
    match prost::encoding::decode_varint(&mut b) {
        Ok(x) => Ok((x, b.len())),
        Err(e) => Err(format!("{}", e)),
    }
}

/// Relies on `prost::encoding::uint64::encode`: appends the field key
/// (`tag` with wire type 0, as a varint) followed by the varint encoding of
/// the value.
#[verifier::external_body]
pub fn put_u64_field(tag: u32, value: u64, buf: &mut Vec<u8>)
    requires
        1 <= tag <= 0x1FFF_FFFF,
    ensures
        final(buf)@ == old(buf)@ + varint((tag as u64) << 3) + varint(value),
{
    prost::encoding::uint64::encode(tag, &value, buf);
}

/// Relies on `prost::encoding::uint64::encoded_len`: the byte length of the
/// field key plus that of the varint-encoded value.
#[verifier::external_body]
pub fn u64_field_len(tag: u32, value: u64) -> (n: usize)
    requires
        1 <= tag <= 0x1FFF_FFFF,
    ensures
        n == varint((tag as u64) << 3).len() + varint(value).len(),
{
    prost::encoding::uint64::encoded_len(tag, &value)
}

/// Relies on `prost::encoding::string::encode`: appends the field key
/// (`tag` with wire type 2), the UTF-8 byte length of the string as a
/// varint, and the UTF-8 bytes themselves.
#[verifier::external_body]
pub fn put_string_field(tag: u32, value: &String, buf: &mut Vec<u8>)
    requires
        1 <= tag <= 0x1FFF_FFFF,
    ensures
        final(buf)@ == old(buf)@ + varint(((tag as u64) << 3) | 2) + varint(
            utf8_of(value@).len() as u64,
        ) + utf8_of(value@),
{
    prost::encoding::string::encode(tag, value, buf);
}

/// Relies on `prost::encoding::string::encoded_len`: the byte length of the
/// field key, of the varint length prefix, and of the UTF-8 bytes.
#[verifier::external_body]
pub fn string_field_len(tag: u32, value: &String) -> (n: usize)
    requires
        1 <= tag <= 0x1FFF_FFFF,
    ensures
        n == varint(((tag as u64) << 3) | 2).len() + varint(utf8_of(value@).len() as u64).len()
            + utf8_of(value@).len(),
{
    prost::encoding::string::encoded_len(tag, value)
}

/// Relies on `String::from_utf8`: succeeds exactly on well-formed UTF-8 and
/// returns the unique string whose UTF-8 encoding is the input.
#[verifier::external_body]
pub fn utf8_to_string(bytes: &[u8]) -> (res: Result<String, String>)
    ensures
        res matches Ok(s) ==> utf8_of(s@) == bytes@,
        match res {
            Ok(s) => forall|t: Seq<char>| bytes@ == #[trigger] utf8_of(t) ==> s@ == t,
            Err(_) => forall|t: Seq<char>| bytes@ != #[trigger] utf8_of(t),
        },
{
    match String::from_utf8(bytes.to_vec()) {
        Ok(s) => Ok(s),
        Err(e) => Err(format!("{}", e)),
    }
}

/// Relies on `subtle_encoding::hex::encode`: renders each byte as two
/// lowercase hexadecimal digits, high nibble first.  The rendering is ASCII,
/// so turning it into a `String` cannot fail.
#[verifier::external_body]
pub fn hex_string(bytes: &[u8]) -> (res: String)
    ensures
        res@ == hex_seq(bytes@),
{
    let encoded = subtle_encoding::hex::encode(bytes);
    String::from_utf8(encoded).expect("hex rendering is ASCII")
}

} // verus!
