//! The laws of the validated codec, proved once for every domain/raw
//! pairing from the operation contracts and the per-pairing consistency
//! obligation.

use vstd::prelude::*;

use crate::erased;
use crate::message::Message;
use crate::wire::{framed, hex_seq};
use crate::{decode_length_delimited_outcome, decode_outcome, decode_parse_outcome, Error, Protobuf};

verus! {

/// Round trip: for every domain value `dv` satisfying the domain
/// invariant, whatever `decode` may return on the bytes `encode` produced
/// for `dv` is success with exactly `dv` again.
pub proof fn lemma_round_trip<R: Message, D: Protobuf<R>>(d: &D, res: Result<D, Error>)
    requires
        D::valid(d@),
        decode_outcome::<R, D>(R::wire(erased::CloneInto::<R>::to_raw(d)), res),
    ensures
        res matches Ok(d2) && d2@ == d@,
{
    D::transcoding_lossless(d);
}

/// Round trip through the length-delimited forms: as [`lemma_round_trip`],
/// for the framed encoding and `decode_length_delimited`.
pub proof fn lemma_round_trip_length_delimited<R: Message, D: Protobuf<R>>(
    d: &D,
    res: Result<D, Error>,
)
    requires
        D::valid(d@),
        decode_length_delimited_outcome::<R, D>(
            framed(R::wire(erased::CloneInto::<R>::to_raw(d))),
            res,
        ),
    ensures
        res matches Ok(d2) && d2@ == d@,
{
    let w = R::wire(erased::CloneInto::<R>::to_raw(d));
    assert(framed(w) =~= framed(w) + Seq::<u8>::empty());
    D::transcoding_lossless(d);
}

/// Length consistency: `encoded_len` returns exactly the length of the
/// byte vector `encode_vec` produces for the same domain value.
pub proof fn lemma_length_consistency<R: Message, D: Protobuf<R>>(
    d: &D,
    n: usize,
    out: Seq<u8>,
)
    requires
        n == R::wire(erased::CloneInto::<R>::to_raw(d)).len(),
        out == R::wire(erased::CloneInto::<R>::to_raw(d)),
    ensures
        n == out.len(),
{
}

/// Validation propagation: on bytes that canonically encode a raw value
/// rejected by the domain invariant check, `decode` returns a try-from
/// error naming both types, never success and never a defaulted value.
pub proof fn lemma_validation_propagation<R: Message, D: Protobuf<R>>(
    rv: R::V,
    res: Result<D, Error>,
)
    requires
        !D::raw_ok(rv),
        decode_outcome::<R, D>(R::wire(rv), res),
        match res {
            Err(Error::TryFromRaw { raw_type, domain_type, .. }) => raw_type@
                == R::type_label_spec() && domain_type@ == D::type_label_spec(),
            _ => true,
        },
    ensures
        res matches Err(e) && (e matches Error::TryFromRaw { raw_type, domain_type, .. }
            && raw_type@ == R::type_label_spec() && domain_type@ == D::type_label_spec()),
{
}

/// Malformed-bytes propagation: on bytes the raw type's parser rejects
/// (truncated, garbage, or any other shape outside its acceptance), decode
/// returns a decode-message error: never a panic, never success, and never
/// a defaulted domain value.
pub proof fn lemma_malformed_propagation<R: Message, D: Protobuf<R>>(
    bytes: Seq<u8>,
    res: Result<D, Error>,
)
    requires
        R::parse(bytes) is None,
        decode_parse_outcome::<R, D>(bytes, res),
    ensures
        res matches Err(e) && (e matches Error::DecodeMessage { .. }),
{
}

/// Whether a character is a lowercase hexadecimal digit.
pub open spec fn is_lower_hex_digit(c: char) -> bool {
    (48 <= c as int && c as int <= 57) || (97 <= c as int && c as int <= 102)
}

/// Hex rendering shape: the rendering of any byte sequence has two
/// characters per byte and uses only lowercase hexadecimal digits; being a
/// function of the bytes alone, it is deterministic.
pub proof fn lemma_hex_shape(bytes: Seq<u8>)
    ensures
        hex_seq(bytes).len() == 2 * bytes.len(),
        forall|i: int|
            0 <= i < hex_seq(bytes).len() ==> is_lower_hex_digit(#[trigger] hex_seq(bytes)[i]),
    decreases bytes.len(),
{
    if bytes.len() > 0 {
        lemma_hex_shape(bytes.drop_first());
    }
}

/// Hex determinism: the text `encode_to_hex_string` promises is exactly
/// the lowercase hex rendering of the bytes `encode_vec` promises.
pub proof fn lemma_hex_matches_encoding<R: Message, D: Protobuf<R>>(
    d: &D,
    s: Seq<char>,
    out: Seq<u8>,
)
    requires
        s == hex_seq(R::wire(erased::CloneInto::<R>::to_raw(d))),
        out == R::wire(erased::CloneInto::<R>::to_raw(d)),
    ensures
        s == hex_seq(out),
        s.len() == 2 * out.len(),
        forall|i: int| 0 <= i < s.len() ==> is_lower_hex_digit(#[trigger] s[i]),
{
    lemma_hex_shape(out);
}

} // verus!
