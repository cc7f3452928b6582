use protobuf_codec::pair::{DomainPair, DomainText, RawPair, RawPairV};
use protobuf_codec::{convert, Protobuf};

#[test]
fn test_protobuf_object_safety() {
    let _test: Option<Box<dyn Protobuf<RawPair, V = RawPairV>>> = None;
}

// A domain type written outside the library: it only supplies the ordinary
// conversions and a label; the erased capabilities and the whole codec
// surface come from the blanket implementations and provided methods.
#[derive(Clone)]
struct Domain;

trait Foo: Protobuf<RawPair> {}

impl Foo for Domain {}

impl protobuf_codec::View for Domain {
    type V = RawPairV;

    fn view(&self) -> RawPairV {
        unreachable!()
    }
}

impl Protobuf<RawPair> for Domain {
    fn valid(_: RawPairV) -> bool {
        unreachable!()
    }

    fn type_label_spec() -> protobuf_codec::Seq<char> {
        unreachable!()
    }

    fn type_label() -> String {
        "Domain".to_string()
    }

    fn transcoding_lossless(_: &Self) {
        unreachable!()
    }
}

impl convert::TryFromRaw<RawPair> for Domain {
    fn accepts(_: RawPairV) -> bool {
        unreachable!()
    }

    fn domain_of(_: RawPairV) -> RawPairV {
        unreachable!()
    }

    fn try_from_raw(_: RawPair) -> Result<Self, String> {
        unreachable!()
    }
}

impl convert::IntoRaw<RawPair> for Domain {
    fn raw_of(_: RawPairV) -> RawPairV {
        unreachable!()
    }

    fn into_raw(self) -> RawPair {
        unreachable!()
    }

    fn clone_preserves_view(_: Self, _: Self) {
        unreachable!()
    }
}

#[test]
fn test_protobuf_blanket_impls() {}

#[test]
fn test_heterogeneous_handles() {
    // One abstract handle type holding values of two distinct pairings,
    // used without knowing which is stored.
    let handles: Vec<Box<dyn Protobuf<RawPair, V = RawPairV>>> = vec![
        Box::new(DomainPair::new(5, "x".to_string()).unwrap()),
        Box::new(DomainText::new("hi".to_string()).unwrap()),
    ];
    let encodings: Vec<Vec<u8>> = handles.iter().map(|h| h.encode_vec()).collect();
    assert_eq!(encodings[0], vec![0x08, 0x05, 0x12, 0x01, 0x78]);
    assert_eq!(encodings[1], vec![0x12, 0x02, 0x68, 0x69]);
    for (h, e) in handles.iter().zip(encodings.iter()) {
        assert_eq!(h.encoded_len(), e.len());
    }
}
