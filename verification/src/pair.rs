//! A reference instantiation of the codec: a two-field wire message
//! (`a: uint64` at tag 1, `b: string` at tag 2) together with two domain
//! types paired with it, one enforcing `a >= 1` and one holding only
//! non-empty text.

use vstd::prelude::*;
use vstd::slice::slice_subrange;

use crate::convert;
use crate::message::Message;
use crate::wire::{
    leb128_len, leb128_ok, leb128_value, lemma_concat_parts, lemma_leb128_of_varint,
    put_string_field, put_u64_field, string_field_len, take_varint, u64_field_len, utf8_of,
    utf8_to_string, varint,
};
use crate::Protobuf;

verus! {

/// The mathematical value of a [`RawPair`] (and of the domain types paired
/// with it): a number and a character sequence.
#[verifier::ext_equal]
pub struct RawPairV {
    pub a: u64,
    pub b: Seq<char>,
}

/// A plain two-field wire message with no invariants: `a: uint64` at tag 1
/// and `b: string` at tag 2.
#[derive(Debug)]
pub struct RawPair {
    pub a: u64,
    pub b: String,
}

impl View for RawPair {
    type V = RawPairV;

    open spec fn view(&self) -> RawPairV {
        RawPairV { a: self.a, b: self.b@ }
    }
}

/// Canonical encoding of the text field: key `0x12` (tag 2, wire type 2),
/// the UTF-8 byte length as a varint, then the UTF-8 bytes; an empty string
/// is a default value and is omitted.
pub open spec fn wire_pair_text(b: Seq<char>) -> Seq<u8> {
    if b.len() != 0 {
        varint(0x12) + (varint(utf8_of(b).len() as u64) + utf8_of(b))
    } else {
        Seq::empty()
    }
}

/// Canonical encoding of a [`RawPair`] value: key `0x08` (tag 1, wire
/// type 0) and the varint of `a` unless `a` is 0, then the text field.
pub open spec fn wire_pair(v: RawPairV) -> Seq<u8> {
    if v.a != 0 {
        varint(8) + (varint(v.a) + wire_pair_text(v.b))
    } else {
        wire_pair_text(v.b)
    }
}

/// Append the canonical encoding of `p` to `buf`.
fn encode_pair(p: &RawPair, buf: &mut Vec<u8>)
    ensures
        final(buf)@ == old(buf)@ + wire_pair(p@),
{
    if p.a != 0 {
        put_u64_field(1, p.a, buf);
        proof {
            assert((1u64 << 3) == 8) by (bit_vector);
        }
        if !p.b.as_str().is_empty() {
            put_string_field(2, &p.b, buf);
            proof {
                assert(((2u64 << 3) | 2) == 0x12) by (bit_vector);
                assert(buf@ =~= old(buf)@ + wire_pair(p@));
            }
        } else {
            proof {
                assert(buf@ =~= old(buf)@ + wire_pair(p@));
            }
        }
    } else {
        if !p.b.as_str().is_empty() {
            put_string_field(2, &p.b, buf);
            proof {
                assert(((2u64 << 3) | 2) == 0x12) by (bit_vector);
                assert(buf@ =~= old(buf)@ + wire_pair(p@));
            }
        } else {
            proof {
                assert(buf@ =~= old(buf)@ + wire_pair(p@));
            }
        }
    }
}

/// Parse of the optional `a` field: `None` when the codec's varint reader
/// rejects the key or the value, otherwise the field value (0 when the
/// field is absent) and the bytes that remain.
pub open spec fn parse_field_a(bytes: Seq<u8>) -> Option<(u64, Seq<u8>)> {
    if bytes.len() == 0 {
        Some((0u64, bytes))
    } else if !leb128_ok(bytes) {
        None
    } else {
        let rest = bytes.subrange(leb128_len(bytes) as int, bytes.len() as int);
        if leb128_value(bytes) == 8 {
            if leb128_ok(rest) {
                Some(
                    (
                        leb128_value(rest) as u64,
                        rest.subrange(leb128_len(rest) as int, rest.len() as int),
                    ),
                )
            } else {
                None
            }
        } else {
            Some((0u64, bytes))
        }
    }
}

/// Parse of the optional text field, which must account for the entire
/// rest of the buffer: key `0x12`, a length that covers exactly the
/// remaining bytes, and a well-formed UTF-8 payload.
pub open spec fn parse_field_b(bytes: Seq<u8>) -> Option<Seq<char>> {
    if bytes.len() == 0 {
        Some(Seq::empty())
    } else if !leb128_ok(bytes) {
        None
    } else if leb128_value(bytes) != 0x12 {
        None
    } else {
        let r1 = bytes.subrange(leb128_len(bytes) as int, bytes.len() as int);
        if !leb128_ok(r1) {
            None
        } else {
            let r2 = r1.subrange(leb128_len(r1) as int, r1.len() as int);
            if leb128_value(r1) != r2.len() {
                None
            } else if exists|t: Seq<char>| r2 == #[trigger] utf8_of(t) {
                Some(choose|t: Seq<char>| r2 == #[trigger] utf8_of(t))
            } else {
                None
            }
        }
    }
}

/// The complete parse function of the [`RawPair`] decoder: an optional `a`
/// field, then an optional text field accounting for everything left.
pub open spec fn parse_pair(bytes: Seq<u8>) -> Option<RawPairV> {
    match parse_field_a(bytes) {
        None => None,
        Some((a, rest)) => match parse_field_b(rest) {
            None => None,
            Some(b) => Some(RawPairV { a, b }),
        },
    }
}

/// Read the optional `a` field from the front of the buffer, exactly as
/// [`parse_field_a`] says; on bytes that canonically encode some pair this
/// yields that pair's `a` and leaves exactly the canonical text field.
fn split_field_a<'a>(bytes: &'a [u8]) -> (res: Result<(u64, &'a [u8]), String>)
    ensures
        match res {
            Ok(p) => parse_field_a(bytes@) == Some((p.0, p.1@)) && (forall|v: RawPairV|
                bytes@ == #[trigger] wire_pair(v) ==> p.0 == v.a && p.1@ == wire_pair_text(v.b)),
            Err(_) => parse_field_a(bytes@) is None && (forall|v: RawPairV|
                bytes@ != #[trigger] wire_pair(v)),
        },
{
    if bytes.len() == 0 {
        proof {
            assert forall|v: RawPairV| bytes@ == wire_pair(v) implies 0u64 == v.a && bytes@
                == wire_pair_text(v.b) by {
                assert(varint(8).len() == 1);
            }
        }
        return Ok((0, bytes));
    }
    proof {
        assert forall|v: RawPairV| bytes@ == wire_pair(v) && v.a != 0 implies {
            &&& leb128_ok(bytes@)
            &&& leb128_value(bytes@) == 8
            &&& leb128_len(bytes@) == varint(8).len()
        } by {
            assert(bytes@ == varint(8) + (varint(v.a) + wire_pair_text(v.b)));
            lemma_leb128_of_varint(8, varint(v.a) + wire_pair_text(v.b));
        }
        assert forall|v: RawPairV| bytes@ == wire_pair(v) && v.a == 0 implies leb128_ok(bytes@)
            && leb128_value(bytes@) == 0x12 by {
            assert(v.b.len() != 0);
            assert(bytes@ == varint(0x12) + (varint(utf8_of(v.b).len() as u64) + utf8_of(v.b)));
            lemma_leb128_of_varint(0x12, varint(utf8_of(v.b).len() as u64) + utf8_of(v.b));
        }
    }
    match take_varint(bytes) {
        Err(c) => Err(c),
        Ok((key, rem)) => {
            if key == 8 {
                let rest1 = slice_subrange(bytes, bytes.len() - rem, bytes.len());
                proof {
                    assert forall|v: RawPairV|
                        bytes@ == wire_pair(v) implies v.a != 0 && rest1@ == varint(v.a)
                        + wire_pair_text(v.b) && leb128_ok(rest1@) && leb128_value(rest1@) == v.a
                        && leb128_len(rest1@) == varint(v.a).len() by {
                        let tail = varint(v.a) + wire_pair_text(v.b);
                        assert(bytes@ == varint(8) + tail);
                        lemma_concat_parts(varint(8), tail);
                        assert(rest1@ =~= tail);
                        lemma_leb128_of_varint(v.a, wire_pair_text(v.b));
                    }
                }
                match take_varint(rest1) {
                    Err(c) => Err(c),
                    Ok((av, rem2)) => {
                        let rest2 = slice_subrange(rest1, rest1.len() - rem2, rest1.len());
                        proof {
                            assert(parse_field_a(bytes@) == Some((av, rest2@)));
                            assert forall|v: RawPairV|
                                bytes@ == wire_pair(v) implies av == v.a && rest2@
                                == wire_pair_text(v.b) by {
                                lemma_concat_parts(varint(v.a), wire_pair_text(v.b));
                                assert(rest2@ =~= wire_pair_text(v.b));
                            }
                        }
                        Ok((av, rest2))
                    },
                }
            } else {
                proof {
                    assert forall|v: RawPairV|
                        bytes@ == wire_pair(v) implies 0u64 == v.a && bytes@ == wire_pair_text(
                        v.b,
                    ) by {
                        if v.a != 0 {
                            assert(false);
                        }
                    }
                }
                Ok((0, bytes))
            }
        },
    }
}

/// Parse the optional text field, exactly as [`parse_field_b`] says; the
/// field must account for the entire rest of the buffer.
fn parse_text_tail(rest: &[u8]) -> (res: Result<String, String>)
    ensures
        match res {
            Ok(s) => parse_field_b(rest@) == Some(s@) && (forall|t: Seq<char>|
                rest@ == #[trigger] wire_pair_text(t) ==> s@ == t),
            Err(_) => parse_field_b(rest@) is None && (forall|t: Seq<char>|
                rest@ != #[trigger] wire_pair_text(t)),
        },
{
    if rest.len() == 0 {
        let s = String::new();
        proof {
            assert forall|t: Seq<char>| rest@ == wire_pair_text(t) implies s@ == t by {
                assert(varint(0x12).len() == 1);
                assert(t.len() == 0);
                assert(s@ =~= t);
            }
            assert(s@ =~= Seq::<char>::empty());
        }
        return Ok(s);
    }
    proof {
        assert forall|t: Seq<char>| rest@ == wire_pair_text(t) implies {
            &&& t.len() != 0
            &&& leb128_ok(rest@)
            &&& leb128_value(rest@) == 0x12
            &&& leb128_len(rest@) == varint(0x12).len()
        } by {
            assert(t.len() != 0);
            assert(rest@ == varint(0x12) + (varint(utf8_of(t).len() as u64) + utf8_of(t)));
            lemma_leb128_of_varint(0x12, varint(utf8_of(t).len() as u64) + utf8_of(t));
        }
    }
    match take_varint(rest) {
        Err(c) => Err(c),
        Ok((key, rem)) => {
            if key != 0x12 {
                return Err("unexpected field key".to_owned());
            }
            let r1 = slice_subrange(rest, rest.len() - rem, rest.len());
            proof {
                assert forall|t: Seq<char>|
                    rest@ == wire_pair_text(t) implies r1@ == varint(utf8_of(t).len() as u64)
                    + utf8_of(t) && leb128_ok(r1@) && leb128_value(r1@) == utf8_of(
                    t,
                ).len() as u64 && leb128_len(r1@) == varint(utf8_of(t).len() as u64).len() by {
                    let r1v = varint(utf8_of(t).len() as u64) + utf8_of(t);
                    assert(rest@ == varint(0x12) + r1v);
                    lemma_concat_parts(varint(0x12), r1v);
                    assert(r1@ =~= r1v);
                    lemma_leb128_of_varint(utf8_of(t).len() as u64, utf8_of(t));
                }
            }
            match take_varint(r1) {
                Err(c) => Err(c),
                Ok((len, rem2)) => {
                    let r2 = slice_subrange(r1, r1.len() - rem2, r1.len());
                    proof {
                        assert forall|t: Seq<char>|
                            rest@ == wire_pair_text(t) implies len == utf8_of(t).len() as u64
                            && r2@ == utf8_of(t) by {
                            assert(r1@ == varint(utf8_of(t).len() as u64) + utf8_of(t));
                            lemma_concat_parts(varint(utf8_of(t).len() as u64), utf8_of(t));
                            assert(r2@ =~= utf8_of(t));
                        }
                    }
                    if len > r2.len() as u64 {
                        return Err("truncated string field".to_owned());
                    }
                    let lu = len as usize;
                    let payload = slice_subrange(r2, 0, lu);
                    let r3 = slice_subrange(r2, lu, r2.len());
                    if r3.len() > 0 {
                        proof {
                            assert forall|t: Seq<char>| rest@ != wire_pair_text(t) by {
                                if rest@ == wire_pair_text(t) {
                                    assert(false);
                                }
                            }
                        }
                        return Err("trailing bytes after the message".to_owned());
                    }
                    proof {
                        assert(payload@ =~= r2@);
                        assert forall|t: Seq<char>|
                            rest@ == wire_pair_text(t) implies payload@ == utf8_of(t) by {}
                    }
                    match utf8_to_string(payload) {
                        Err(c) => {
                            proof {
                                assert(!(exists|t: Seq<char>| r2@ == #[trigger] utf8_of(t)));
                            }
                            Err(c)
                        },
                        Ok(s) => {
                            proof {
                                assert(exists|t: Seq<char>| r2@ == #[trigger] utf8_of(t));
                                let tc = choose|t: Seq<char>| r2@ == #[trigger] utf8_of(t);
                                assert(s@ == tc);
                                assert(parse_field_b(rest@) == Some(s@));
                            }
                            Ok(s)
                        },
                    }
                },
            }
        },
    }
}

impl Message for RawPair {
    open spec fn wire(v: RawPairV) -> Seq<u8> {
        wire_pair(v)
    }

    open spec fn parse(bytes: Seq<u8>) -> Option<RawPairV> {
        parse_pair(bytes)
    }

    open spec fn type_label_spec() -> Seq<char> {
        "RawPair"@
    }

    fn type_label() -> (s: String) {
        "RawPair".to_owned()
    }

    fn encode_msg(&self, buf: &mut Vec<u8>) -> (res: Result<(), String>) {
        encode_pair(self, buf);
        Ok(())
    }

    fn encode_to_vec_msg(&self) -> (v: Vec<u8>) {
        let mut buf: Vec<u8> = Vec::new();
        encode_pair(self, &mut buf);
        proof {
            assert(buf@ =~= wire_pair(self@));
        }
        buf
    }

    fn encoded_len_msg(&self) -> (n: usize) {
        if self.a != 0 {
            let na = u64_field_len(1, self.a);
            proof {
                assert((1u64 << 3) == 8) by (bit_vector);
            }
            if !self.b.as_str().is_empty() {
                proof {
                    assert(((2u64 << 3) | 2) == 0x12) by (bit_vector);
                }
                let nb = string_field_len(2, &self.b);
                proof {
                    assert(wire_pair(self@).len() == na + nb);
                }
                na + nb
            } else {
                proof {
                    assert(wire_pair(self@).len() == na);
                }
                na
            }
        } else {
            if !self.b.as_str().is_empty() {
                proof {
                    assert(((2u64 << 3) | 2) == 0x12) by (bit_vector);
                }
                let nb = string_field_len(2, &self.b);
                proof {
                    assert(wire_pair(self@).len() == nb);
                }
                nb
            } else {
                0
            }
        }
    }

    fn decode_msg(bytes: &[u8]) -> (res: Result<RawPair, String>) {
        match split_field_a(bytes) {
            Err(c) => Err(c),
            Ok((a, rest)) => match parse_text_tail(rest) {
                Err(c) => {
                    proof {
                        assert forall|v: RawPairV| bytes@ != wire_pair(v) by {
                            if bytes@ == wire_pair(v) {
                                assert(rest@ == wire_pair_text(v.b));
                                assert(false);
                            }
                        }
                    }
                    Err(c)
                },
                Ok(s) => {
                    let m = RawPair { a, b: s };
                    proof {
                        assert forall|v: RawPairV| bytes@ == wire_pair(v) implies m@ == v by {
                            assert(rest@ == wire_pair_text(v.b));
                            assert(m@ =~= v);
                        }
                        assert(m@ =~= RawPairV { a, b: s@ });
                        assert(parse_pair(bytes@) == Some(m@));
                    }
                    Ok(m)
                },
            },
        }
    }
}

/// A domain value over [`RawPair`] whose invariant is that `a` is at
/// least 1.
#[derive(Debug)]
pub struct DomainPair {
    a: u64,
    b: String,
}

impl View for DomainPair {
    type V = RawPairV;

    closed spec fn view(&self) -> RawPairV {
        RawPairV { a: self.a, b: self.b@ }
    }
}

impl DomainPair {
    /// Constructor with validation: `a` must be at least 1.
    pub fn new(a: u64, b: String) -> (res: Result<DomainPair, String>)
        ensures
            match res {
                Ok(d) => a >= 1 && d@ == (RawPairV { a, b: b@ }),
                Err(_) => a < 1,
            },
    {
        if a < 1 {
            Err("a must be greater than 0".to_owned())
        } else {
            Ok(DomainPair { a, b })
        }
    }

    pub fn a(&self) -> (r: u64)
        ensures
            r == self@.a,
    {
        self.a
    }

    pub fn b(&self) -> (r: &String)
        ensures
            r@ == self@.b,
    {
        &self.b
    }
}

impl Clone for DomainPair {
    fn clone(&self) -> (res: Self)
        ensures
            res == *self,
    {
        DomainPair { a: self.a, b: self.b.clone() }
    }
}

impl convert::TryFromRaw<RawPair> for DomainPair {
    open spec fn accepts(rv: RawPairV) -> bool {
        rv.a >= 1
    }

    open spec fn domain_of(rv: RawPairV) -> RawPairV {
        rv
    }

    fn try_from_raw(raw: RawPair) -> (res: Result<Self, String>) {
        DomainPair::new(raw.a, raw.b)
    }
}

impl convert::IntoRaw<RawPair> for DomainPair {
    open spec fn raw_of(dv: RawPairV) -> RawPairV {
        dv
    }

    fn into_raw(self) -> (raw: RawPair) {
        RawPair { a: self.a, b: self.b }
    }

    proof fn clone_preserves_view(a: Self, b: Self) {
        assert(b == a);
    }
}

impl Protobuf<RawPair> for DomainPair {
    open spec fn valid(dv: RawPairV) -> bool {
        dv.a >= 1
    }

    open spec fn type_label_spec() -> Seq<char> {
        "DomainPair"@
    }

    fn type_label() -> (s: String) {
        "DomainPair".to_owned()
    }

    proof fn transcoding_lossless(d: &Self) {
    }
}

/// A domain value over [`RawPair`] holding only non-empty text; it rejects
/// raw values whose `a` field is set.
#[derive(Debug)]
pub struct DomainText {
    b: String,
}

impl View for DomainText {
    type V = RawPairV;

    closed spec fn view(&self) -> RawPairV {
        RawPairV { a: 0, b: self.b@ }
    }
}

impl DomainText {
    /// Constructor with validation: the text must not be empty.
    pub fn new(b: String) -> (res: Result<DomainText, String>)
        ensures
            match res {
                Ok(d) => b@.len() >= 1 && d@ == (RawPairV { a: 0, b: b@ }),
                Err(_) => b@.len() == 0,
            },
    {
        if b.as_str().is_empty() {
            Err("text must not be empty".to_owned())
        } else {
            Ok(DomainText { b })
        }
    }

    pub fn text(&self) -> (r: &String)
        ensures
            r@ == self@.b,
    {
        &self.b
    }
}

impl Clone for DomainText {
    fn clone(&self) -> (res: Self)
        ensures
            res == *self,
    {
        DomainText { b: self.b.clone() }
    }
}

impl convert::TryFromRaw<RawPair> for DomainText {
    open spec fn accepts(rv: RawPairV) -> bool {
        rv.a == 0 && rv.b.len() >= 1
    }

    open spec fn domain_of(rv: RawPairV) -> RawPairV {
        RawPairV { a: 0, b: rv.b }
    }

    fn try_from_raw(raw: RawPair) -> (res: Result<Self, String>) {
        if raw.a != 0 {
            Err("a must be 0 for a text-only value".to_owned())
        } else {
            DomainText::new(raw.b)
        }
    }
}

impl convert::IntoRaw<RawPair> for DomainText {
    open spec fn raw_of(dv: RawPairV) -> RawPairV {
        RawPairV { a: 0, b: dv.b }
    }

    fn into_raw(self) -> (raw: RawPair) {
        RawPair { a: 0, b: self.b }
    }

    proof fn clone_preserves_view(a: Self, b: Self) {
        assert(b == a);
    }
}

impl Protobuf<RawPair> for DomainText {
    open spec fn valid(dv: RawPairV) -> bool {
        dv.a == 0 && dv.b.len() >= 1
    }

    open spec fn type_label_spec() -> Seq<char> {
        "DomainText"@
    }

    fn type_label() -> (s: String) {
        "DomainText".to_owned()
    }

    proof fn transcoding_lossless(d: &Self) {
        assert(<Self as crate::erased::TryFromRaw<RawPair>>::of_raw(
            crate::erased::CloneInto::<RawPair>::to_raw(d),
        ) =~= d@);
    }
}

} // verus!

