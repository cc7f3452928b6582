//! The wire-message capability: what the codec can do with a raw type.
//!
//! A raw type declares its canonical wire encoding and its complete parse
//! function as specifications over its view, and supplies encode/length/
//! decode operations against them.  The length-delimited operations are
//! derived here once, for every raw type.

use vstd::prelude::*;
use vstd::slice::slice_subrange;

use crate::wire::{
    framed, leb128_len, leb128_ok, leb128_value, lemma_concat_parts, lemma_leb128_of_varint,
    put_varint, take_varint, varint,
};

verus! {

/// A plain wire message: a value with a canonical byte encoding, a complete
/// parse function, a byte-length computation, and a decoder that behaves
/// exactly as the parse function says.
///
/// `parse` fixes the decoder completely: which byte sequences are accepted
/// and the value each one denotes, so decoding is a function of the bytes
/// alone.  `decode_msg` must in addition accept every canonical encoding,
/// so `parse` inverts `wire`; a decoder remains free to accept
/// non-canonical spellings of the same message.
pub trait Message: View + Sized {
    /// The canonical wire encoding of a message value.
    spec fn wire(v: Self::V) -> Seq<u8>;

    /// The complete parse function of this type's decoder: which byte
    /// sequences it accepts, and the message value each one denotes.
    spec fn parse(bytes: Seq<u8>) -> Option<Self::V>;

    /// A diagnostic name for the message type, as a specification value.
    spec fn type_label_spec() -> Seq<char>;

    /// A diagnostic name for the message type, used in error reports.
    fn type_label() -> (s: String)
        ensures
            s@ == Self::type_label_spec(),
    ;

    /// Append the wire encoding of `self` to `buf`.  A codec may report a
    /// write failure, in which case the buffer is left unchanged.
    fn encode_msg(&self, buf: &mut Vec<u8>) -> (res: Result<(), String>)
        ensures
            match res {
                Ok(()) => final(buf)@ == old(buf)@ + Self::wire(self@),
                Err(_) => final(buf)@ == old(buf)@,
            },
    ;

    /// The wire encoding of `self` as a fresh byte vector; writing into an
    /// unbounded vector cannot fail.
    fn encode_to_vec_msg(&self) -> (v: Vec<u8>)
        ensures
            v@ == Self::wire(self@),
    ;

    /// The byte length of the wire encoding, computed without producing the
    /// bytes.
    fn encoded_len_msg(&self) -> (n: usize)
        requires
            Self::wire(self@).len() <= usize::MAX,
        ensures
            n == Self::wire(self@).len(),
    ;

    /// Parse a message from the entire buffer: the result is exactly what
    /// `parse` says of the bytes, and every canonical encoding is accepted.
    fn decode_msg(bytes: &[u8]) -> (res: Result<Self, String>)
        ensures
            forall|v: Self::V|
                bytes@ == #[trigger] Self::wire(v) ==> (res matches Ok(m) && m@ == v),
            match res {
                Ok(m) => Self::parse(bytes@) == Some(m@),
                Err(_) => Self::parse(bytes@) is None,
            },
    ;

    /// Append the length-delimited framing of `self` to `buf`: the byte
    /// length of the encoding as a varint, then the encoding.
    fn encode_length_delimited_msg(&self, buf: &mut Vec<u8>) -> (res: Result<(), String>)
        ensures
            match res {
                Ok(()) => final(buf)@ == old(buf)@ + framed(Self::wire(self@)),
                Err(_) => final(buf)@ == old(buf)@,
            },
    {
        let body = self.encode_to_vec_msg();
        put_varint(body.len() as u64, buf);
        let mut tail = body;
        buf.append(&mut tail);
        proof {
            assert(buf@ =~= old(buf)@ + framed(Self::wire(self@)));
        }
        Ok(())
    }

    /// The length-delimited framing of `self` as a fresh byte vector.
    fn encode_length_delimited_to_vec_msg(&self) -> (v: Vec<u8>)
        ensures
            v@ == framed(Self::wire(self@)),
    {
        let mut buf: Vec<u8> = Vec::new();
        let body = self.encode_to_vec_msg();
        put_varint(body.len() as u64, &mut buf);
        let mut tail = body;
        buf.append(&mut tail);
        proof {
            assert(buf@ =~= framed(Self::wire(self@)));
        }
        buf
    }

    /// Parse one length-delimited message from the front of the buffer: the
    /// length prefix governs how much of the input is consumed, and bytes
    /// after the frame are left alone.
    fn decode_length_delimited_msg(bytes: &[u8]) -> (res: Result<Self, String>)
        ensures
            forall|v: Self::V, junk: Seq<u8>|
                bytes@ == #[trigger] (framed(Self::wire(v)) + junk) ==> (res matches Ok(m) && m@
                    == v),
            match res {
                Ok(m) => leb128_ok(bytes@) && ({
                    let l = leb128_value(bytes@);
                    let rest = bytes@.subrange(leb128_len(bytes@) as int, bytes@.len() as int);
                    &&& l <= rest.len()
                    &&& Self::parse(rest.subrange(0, l as int)) == Some(m@)
                }),
                Err(_) => !leb128_ok(bytes@) || ({
                    let l = leb128_value(bytes@);
                    let rest = bytes@.subrange(leb128_len(bytes@) as int, bytes@.len() as int);
                    ||| l > rest.len()
                    ||| Self::parse(rest.subrange(0, l as int)) is None
                }),
            },
    {
        proof {
            assert forall|v: Self::V, junk: Seq<u8>|
                bytes@ == #[trigger] (framed(Self::wire(v)) + junk) implies {
                let w = Self::wire(v);
                &&& bytes@ == varint(w.len() as u64) + (w + junk)
                &&& leb128_ok(bytes@)
                &&& leb128_value(bytes@) == w.len() as u64
                &&& leb128_len(bytes@) == varint(w.len() as u64).len()
            } by {
                let w = Self::wire(v);
                assert(bytes@ =~= varint(w.len() as u64) + (w + junk));
                lemma_leb128_of_varint(w.len() as u64, w + junk);
            }
        }
        match take_varint(bytes) {
            Err(c) => Err(c),
            Ok((len, rem)) => {
                let start = bytes.len() - rem;
                let rest = slice_subrange(bytes, start, bytes.len());
                proof {
                    assert forall|v: Self::V, junk: Seq<u8>|
                        bytes@ == #[trigger] (framed(Self::wire(v)) + junk) implies {
                        let w = Self::wire(v);
                        &&& len == w.len() as u64
                        &&& rest@ == w + junk
                        &&& w.len() <= rest@.len()
                    } by {
                        let w = Self::wire(v);
                        assert(bytes@ == varint(w.len() as u64) + (w + junk));
                        lemma_concat_parts(varint(w.len() as u64), w + junk);
                        assert(rest@ =~= w + junk);
                    }
                }
                if (rest.len() as u64) < len {
                    Err("length delimiter overruns the buffer".to_owned())
                } else {
                    let payload = slice_subrange(rest, 0, len as usize);
                    proof {
                        assert forall|v: Self::V, junk: Seq<u8>|
                            bytes@ == #[trigger] (framed(Self::wire(v)) + junk) implies payload@
                            == Self::wire(v) by {
                            let w = Self::wire(v);
                            lemma_concat_parts(w, junk);
                            assert(payload@ =~= w);
                        }
                    }
                    Self::decode_msg(payload)
                }
            },
        }
    }
}

/// The complete parse function of the length-delimited framing: a length
/// prefix the codec's varint reader accepts, declaring no more bytes than
/// follow it; the message is parsed from exactly that many bytes, and
/// trailing bytes are ignored.
pub open spec fn parse_length_delimited<M: Message>(bytes: Seq<u8>) -> Option<M::V> {
    if !leb128_ok(bytes) {
        None
    } else {
        let l = leb128_value(bytes);
        let rest = bytes.subrange(leb128_len(bytes) as int, bytes.len() as int);
        if l > rest.len() {
            None
        } else {
            M::parse(rest.subrange(0, l as int))
        }
    }
}

} // verus!
