use relayer_core::error::Error;
use relayer_core::header::{
    downcast_header, downcast_mock_header, mock_header_type_url, tendermint_header_type_url, Any,
    AnyHeader, ClientType, Header, MockHeader, TendermintHeader,
};
use relayer_core::ids::Height;

fn bytes(s: &str) -> Vec<u8> {
    s.as_bytes().to_vec()
}

fn hex_upper(v: &[u8]) -> Vec<u8> {
    let s: String = v.iter().map(|b| format!("{:02X}", b)).collect();
    s.into_bytes()
}

#[test]
fn type_urls_are_stable() {
    assert_eq!(
        tendermint_header_type_url(),
        bytes("/ibc.lightclients.tendermint.v1.Header")
    );
    assert_eq!(mock_header_type_url(), bytes("/ibc.mock.Header"));
}

#[test]
fn tendermint_header_envelope_round_trip() {
    let h = AnyHeader::Tendermint(TendermintHeader {
        height: Height::new(1, 42),
        timestamp: 99,
    });
    let any = h.into_any();
    assert_eq!(any.type_url, bytes("/ibc.lightclients.tendermint.v1.Header"));
    assert_eq!(any.value, bytes("1/42/99"));
    assert_eq!(AnyHeader::try_from_any(&any).unwrap(), h);
}

#[test]
fn mock_header_envelope_round_trip() {
    let h = AnyHeader::Mock(MockHeader {
        height: Height::new(0, 5),
        timestamp: 7,
    });
    let any = h.into_any();
    assert_eq!(any.type_url, bytes("/ibc.mock.Header"));
    assert_eq!(any.value, bytes("0/5/7"));
    assert_eq!(AnyHeader::try_from_any(&any).unwrap(), h);
}

#[test]
fn unknown_type_url_is_typed_error() {
    let any = Any {
        type_url: bytes("/x"),
        value: bytes("0/1/2"),
    };
    match AnyHeader::try_from_any(&any) {
        Err(Error::UnknownHeaderType { type_url }) => assert_eq!(type_url, bytes("/x")),
        other => panic!("expected UnknownHeaderType, got {:?}", other),
    }
}

#[test]
fn damaged_payload_is_invalid_raw_header() {
    let any = Any {
        type_url: bytes("/ibc.mock.Header"),
        value: bytes("junk"),
    };
    assert!(matches!(
        AnyHeader::try_from_any(&any),
        Err(Error::InvalidRawHeader)
    ));
}

#[test]
fn header_accessors_dispatch_on_variant() {
    let t = AnyHeader::Tendermint(TendermintHeader {
        height: Height::new(2, 9),
        timestamp: 3,
    });
    assert_eq!(t.client_type(), ClientType::Tendermint);
    assert_eq!(t.height(), Height::new(2, 9));
    assert_eq!(t.timestamp(), 3);
    let m = AnyHeader::Mock(MockHeader {
        height: Height::new(0, 1),
        timestamp: 4,
    });
    assert_eq!(m.client_type(), ClientType::Mock);
    assert_eq!(m.height(), Height::new(0, 1));
    assert_eq!(m.timestamp(), 4);
}

#[test]
fn downcasts_pick_the_right_variant() {
    let inner = TendermintHeader {
        height: Height::new(0, 8),
        timestamp: 1,
    };
    let t = AnyHeader::Tendermint(inner);
    assert_eq!(downcast_header(&t), Some(&inner));
    assert_eq!(downcast_mock_header(&t), None);
    let mi = MockHeader {
        height: Height::new(0, 2),
        timestamp: 6,
    };
    let m = AnyHeader::Mock(mi);
    assert_eq!(downcast_header(&m), None);
    assert_eq!(downcast_mock_header(&m), Some(&mi));
}

#[test]
fn hex_string_form_round_trip() {
    let h = AnyHeader::Mock(MockHeader {
        height: Height::new(0, 5),
        timestamp: 7,
    });
    let s = h.encode_to_string();
    let mut envelope = bytes("16:/ibc.mock.Header");
    envelope.extend_from_slice(&bytes("0/5/7"));
    assert_eq!(s, hex_upper(&envelope));
    assert_eq!(AnyHeader::decode_from_string(&s).unwrap(), h);

    let t = AnyHeader::Tendermint(TendermintHeader {
        height: Height::new(3, 77),
        timestamp: 123456,
    });
    let st = t.encode_to_string();
    assert_eq!(AnyHeader::decode_from_string(&st).unwrap(), t);
}

#[test]
fn malformed_hex_string_errors() {
    assert!(matches!(
        AnyHeader::decode_from_string(&bytes("zz")),
        Err(Error::BadHex)
    ));
    assert!(matches!(
        AnyHeader::decode_from_string(&bytes("ABC")),
        Err(Error::BadHex)
    ));
    // Valid hex, but no envelope inside.
    let s = hex_upper(&bytes("no-colon-here"));
    assert!(matches!(
        AnyHeader::decode_from_string(&s),
        Err(Error::InvalidRawHeader)
    ));
    // A good envelope whose URL no client kind claims.
    let s = hex_upper(&bytes("2:/x0/1/2"));
    assert!(matches!(
        AnyHeader::decode_from_string(&s),
        Err(Error::UnknownHeaderType { .. })
    ));
    // A length prefix pointing past the end of the envelope.
    let s = hex_upper(&bytes("99:/ibc.mock.Header0/1/2"));
    assert!(matches!(
        AnyHeader::decode_from_string(&s),
        Err(Error::InvalidRawHeader)
    ));
    // A non-canonical length prefix.
    let s = hex_upper(&bytes("016:/ibc.mock.Header0/1/2"));
    assert!(matches!(
        AnyHeader::decode_from_string(&s),
        Err(Error::InvalidRawHeader)
    ));
}
