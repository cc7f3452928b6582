//! A validated serialization adapter for Protocol Buffers messages.
//!
//! A *raw* type is a plain wire message with no invariants of its own; a
//! *domain* type is an application value whose invariants are enforced at
//! construction.  The [`Protobuf`] trait lets a domain type acquire
//! encode/decode operations for one raw-type pairing: encoding converts the
//! domain value to its raw counterpart and delegates byte production to the
//! wire codec, while decoding parses a raw value from the bytes and then
//! validates it into a domain value.
//!
//! Domain types implementing [`Protobuf`] are expected to implement
//! [`convert::TryFromRaw`] and [`convert::IntoRaw`] for their raw type; the
//! object-safe [`erased`] counterparts have blanket implementations and are
//! derived automatically.

use vstd::prelude::*;

pub mod convert;
pub mod erased;
pub mod error;
pub mod laws;
pub mod message;
pub mod pair;
pub mod wire;

pub use error::Error;
pub use vstd::prelude::Seq;
pub use vstd::view::View;
pub use message::Message;

use crate::message::parse_length_delimited;
use crate::wire::{framed, hex_seq};

verus! {

/// Everything `decode` may do with one input, stated against the canonical
/// wire encodings: bytes that canonically encode an accepted raw value must
/// decode to the domain value built from it, and bytes that canonically
/// encode a rejected raw value must surface a validation error.
pub open spec fn decode_outcome<R: Message, D: erased::TryFromRaw<R>>(
    bytes: Seq<u8>,
    res: Result<D, Error>,
) -> bool {
    forall|rv: R::V|
        bytes == #[trigger] R::wire(rv) ==> match res {
            Ok(d) => D::raw_ok(rv) && d@ == D::of_raw(rv),
            Err(e) => !D::raw_ok(rv) && (e matches Error::TryFromRaw { .. }),
        }
}

/// As [`decode_outcome`], for the length-delimited framing: the length
/// prefix governs consumption, so anything may follow the frame.
pub open spec fn decode_length_delimited_outcome<R: Message, D: erased::TryFromRaw<R>>(
    bytes: Seq<u8>,
    res: Result<D, Error>,
) -> bool {
    forall|rv: R::V, junk: Seq<u8>|
        bytes == #[trigger] (framed(R::wire(rv)) + junk) ==> match res {
            Ok(d) => D::raw_ok(rv) && d@ == D::of_raw(rv),
            Err(e) => !D::raw_ok(rv) && (e matches Error::TryFromRaw { .. }),
        }
}

/// The full decode equation, against the raw type's complete parse
/// function: on bytes the parser rejects, decoding fails with a
/// decode-message error; on bytes it accepts as the raw value `rv`,
/// decoding succeeds with the domain value built from `rv` exactly when
/// `rv` passes validation, and otherwise fails with a try-from error.
pub open spec fn decode_parse_outcome<R: Message, D: erased::TryFromRaw<R>>(
    bytes: Seq<u8>,
    res: Result<D, Error>,
) -> bool {
    match R::parse(bytes) {
        Some(rv) => match res {
            Ok(d) => D::raw_ok(rv) && d@ == D::of_raw(rv),
            Err(e) => !D::raw_ok(rv) && (e matches Error::TryFromRaw { .. }),
        },
        None => res matches Err(e) && (e matches Error::DecodeMessage { .. }),
    }
}

/// As [`decode_parse_outcome`], for the length-delimited framing.
pub open spec fn decode_length_delimited_parse_outcome<R: Message, D: erased::TryFromRaw<R>>(
    bytes: Seq<u8>,
    res: Result<D, Error>,
) -> bool {
    match parse_length_delimited::<R>(bytes) {
        Some(rv) => match res {
            Ok(d) => D::raw_ok(rv) && d@ == D::of_raw(rv),
            Err(e) => !D::raw_ok(rv) && (e matches Error::TryFromRaw { .. }),
        },
        None => res matches Err(e) && (e matches Error::DecodeMessage { .. }),
    }
}

/// The validated codec capability: a domain type acquires encode/decode
/// operations for one raw-type pairing.
///
/// The trait is object safe: every operation is expressed through the
/// erased conversions, and the decoding constructors are excluded from
/// abstract handles.  Implementors declare the domain invariant (`valid`)
/// and prove `transcoding_lossless`, the consistency of the two directed
/// conversions; everything else is provided.
pub trait Protobuf<R: Message>: erased::TryFromRaw<R> + erased::CloneInto<R> {
    /// The domain invariant, at the level of views.
    spec fn valid(dv: Self::V) -> bool where Self: Sized;

    /// A diagnostic name for the domain type, as a specification value.
    spec fn type_label_spec() -> Seq<char> where Self: Sized;

    /// A diagnostic name for the domain type, used in error reports.
    fn type_label() -> (s: String) where Self: Sized
        ensures
            s@ == Self::type_label_spec(),
    ;

    /// The two directed conversions are consistent: a valid domain value
    /// survives the round trip through its raw form.
    proof fn transcoding_lossless(d: &Self) where Self: Sized
        requires
            Self::valid(d@),
        ensures
            Self::raw_ok(d.to_raw()),
            Self::of_raw(d.to_raw()) == d@,
    ;

    /// Encode into a buffer in wire format, appending to its contents.
    /// Any codec-reported failure leaves the buffer unchanged and surfaces
    /// as an encode-message error.
    fn encode(&self, buf: &mut Vec<u8>) -> (res: Result<(), Error>)
        ensures
            match res {
                Ok(()) => final(buf)@ == old(buf)@ + R::wire(self.to_raw()),
                Err(e) => final(buf)@ == old(buf)@ && (e matches Error::EncodeMessage { .. }),
            },
    {
        let raw = self.clone_into();
        match raw.encode_msg(buf) {
            Ok(()) => Ok(()),
            Err(c) => Err(Error::encode_message(c)),
        }
    }

    /// Encode with a length delimiter into a buffer, appending to its
    /// contents.
    fn encode_length_delimited(&self, buf: &mut Vec<u8>) -> (res: Result<(), Error>)
        ensures
            match res {
                Ok(()) => final(buf)@ == old(buf)@ + framed(R::wire(self.to_raw())),
                Err(e) => final(buf)@ == old(buf)@ && (e matches Error::EncodeMessage { .. }),
            },
    {
        let raw = self.clone_into();
        match raw.encode_length_delimited_msg(buf) {
            Ok(()) => Ok(()),
            Err(c) => Err(Error::encode_message(c)),
        }
    }

    /// Constructor that attempts to decode an instance from the entire
    /// buffer: wire-format failures surface as decode-message errors,
    /// validation failures as try-from errors naming both types.
    fn decode(bytes: &[u8]) -> (res: Result<Self, Error>) where Self: Sized
        ensures
            decode_outcome::<R, Self>(bytes@, res),
            decode_parse_outcome::<R, Self>(bytes@, res),
            match res {
                Err(Error::TryFromRaw { raw_type, domain_type, .. }) => raw_type@
                    == R::type_label_spec() && domain_type@ == Self::type_label_spec(),
                _ => true,
            },
    {
        match R::decode_msg(bytes) {
            Err(c) => Err(Error::decode_message(c)),
            Ok(raw) => match Self::try_from_raw(raw) {
                Ok(d) => Ok(d),
                Err(c) => Err(Error::try_from_raw(R::type_label(), Self::type_label(), c)),
            },
        }
    }

    /// Constructor that attempts to decode a length-delimited instance
    /// from the front of the buffer: the length prefix governs how much of
    /// the input is consumed, and bytes after the frame are left alone.
    fn decode_length_delimited(bytes: &[u8]) -> (res: Result<Self, Error>) where Self: Sized
        ensures
            decode_length_delimited_outcome::<R, Self>(bytes@, res),
            decode_length_delimited_parse_outcome::<R, Self>(bytes@, res),
            match res {
                Err(Error::TryFromRaw { raw_type, domain_type, .. }) => raw_type@
                    == R::type_label_spec() && domain_type@ == Self::type_label_spec(),
                _ => true,
            },
    {
        match R::decode_length_delimited_msg(bytes) {
            Err(c) => Err(Error::decode_message(c)),
            Ok(raw) => match Self::try_from_raw(raw) {
                Ok(d) => Ok(d),
                Err(c) => Err(Error::try_from_raw(R::type_label(), Self::type_label(), c)),
            },
        }
    }

    /// The encoded length of the message without a length delimiter.
    fn encoded_len(&self) -> (n: usize)
        requires
            R::wire(self.to_raw()).len() <= usize::MAX,
        ensures
            n == R::wire(self.to_raw()).len(),
    {
        let raw = self.clone_into();
        raw.encoded_len_msg()
    }

    /// Encode into a fresh wire-format byte vector.
    fn encode_vec(&self) -> (v: Vec<u8>)
        ensures
            v@ == R::wire(self.to_raw()),
    {
        let raw = self.clone_into();
        raw.encode_to_vec_msg()
    }

    /// Constructor that attempts to decode an instance from a byte vector
    /// or equivalent.
    fn decode_vec(v: &[u8]) -> (res: Result<Self, Error>) where Self: Sized
        ensures
            decode_outcome::<R, Self>(v@, res),
            decode_parse_outcome::<R, Self>(v@, res),
            match res {
                Err(Error::TryFromRaw { raw_type, domain_type, .. }) => raw_type@
                    == R::type_label_spec() && domain_type@ == Self::type_label_spec(),
                _ => true,
            },
    {
        Self::decode(v)
    }

    /// Encode with a length delimiter into a fresh byte vector.
    fn encode_length_delimited_vec(&self) -> (v: Vec<u8>)
        ensures
            v@ == framed(R::wire(self.to_raw())),
    {
        let raw = self.clone_into();
        raw.encode_length_delimited_to_vec_msg()
    }

    /// Constructor that attempts to decode a length-delimited instance
    /// from a byte vector or equivalent.
    fn decode_length_delimited_vec(v: &[u8]) -> (res: Result<Self, Error>) where Self: Sized
        ensures
            decode_length_delimited_outcome::<R, Self>(v@, res),
            decode_length_delimited_parse_outcome::<R, Self>(v@, res),
            match res {
                Err(Error::TryFromRaw { raw_type, domain_type, .. }) => raw_type@
                    == R::type_label_spec() && domain_type@ == Self::type_label_spec(),
                _ => true,
            },
    {
        Self::decode_length_delimited(v)
    }

    /// Encode to bytes and render them as lowercase hexadecimal text;
    /// hexadecimal rendering of arbitrary bytes cannot fail.
    fn encode_to_hex_string(&self) -> (s: String)
        ensures
            s@ == hex_seq(R::wire(self.to_raw())),
    {
        let bytes = self.encode_vec();
        wire::hex_string(bytes.as_slice())
    }
}

} // verus!
