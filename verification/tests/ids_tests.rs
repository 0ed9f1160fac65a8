use relayer_core::codec::{dec_of_u64, hex_of, parse_dec, parse_hex};
use relayer_core::error::Error;
use relayer_core::ids::{bytes_eq, check_id, Height, Key, PacketId, PortChannelId};

fn bytes(s: &str) -> Vec<u8> {
    s.as_bytes().to_vec()
}

#[test]
fn packet_id_string_form_round_trip() {
    let p = PacketId {
        port_id: bytes("transfer"),
        channel_id: bytes("channel-0"),
        sequence: 7,
    };
    let enc = p.encode();
    assert_eq!(enc, bytes("transfer/channel-0/7"));
    let q = PacketId::parse(&enc).unwrap();
    assert_eq!(q, p);
}

#[test]
fn packet_id_round_trip_largest_sequence() {
    let p = PacketId {
        port_id: bytes("p"),
        channel_id: bytes("c"),
        sequence: u64::MAX,
    };
    let enc = p.encode();
    assert_eq!(enc, bytes("p/c/18446744073709551615"));
    assert_eq!(PacketId::parse(&enc).unwrap(), p);
}

#[test]
fn packet_id_malformed_strings_error() {
    for s in [
        "",
        "noslash",
        "one/slash",
        "a/b/",
        "a/b/x1",
        "/b/1",
        "a//1",
        "a/b/18446744073709551616",
        "a/b/1:2",
    ] {
        let r = PacketId::parse(&bytes(s));
        assert!(matches!(r, Err(Error::MalformedPacketId)), "{}", s);
    }
}

#[test]
fn port_channel_key_round_trip() {
    let k = Key(PortChannelId {
        channel_id: bytes("channel-0"),
        port_id: bytes("transfer"),
    });
    let enc = k.encode();
    assert_eq!(enc, bytes("channel-0:transfer"));
    let q = Key::<PortChannelId>::parse(&enc).unwrap();
    assert_eq!(q, k);
}

#[test]
fn port_channel_key_malformed_strings_error() {
    for s in ["", "nosep", ":x", "x:", "a:b:c", "a:b/c"] {
        let r = Key::<PortChannelId>::parse(&bytes(s));
        assert!(matches!(r, Err(Error::MalformedPortChannelId)), "{}", s);
    }
}

#[test]
fn height_ordering_is_lexicographic() {
    let a = Height::new(1, 5);
    let b = Height::new(2, 1);
    let c = Height::new(1, 6);
    assert!(a.lt(&b));
    assert!(a.lt(&c));
    assert!(!b.lt(&a));
    assert!(a.le(&a));
    assert!(!a.lt(&a));
}

#[test]
fn byte_string_equality() {
    assert!(bytes_eq(&bytes("abc"), &bytes("abc")));
    assert!(!bytes_eq(&bytes("abc"), &bytes("abd")));
    assert!(!bytes_eq(&bytes("abc"), &bytes("ab")));
    assert!(bytes_eq(&bytes(""), &bytes("")));
}

#[test]
fn identifier_charset() {
    assert!(check_id(&bytes("transfer")));
    assert!(check_id(&bytes("channel-0")));
    assert!(check_id(&bytes("a.b_C9")));
    assert!(!check_id(&bytes("")));
    assert!(!check_id(&bytes("a/b")));
    assert!(!check_id(&bytes("a:b")));
    assert!(!check_id(&bytes("a\"b")));
}

#[test]
fn decimal_codec_round_trip() {
    assert_eq!(dec_of_u64(0), bytes("0"));
    assert_eq!(dec_of_u64(10), bytes("10"));
    assert_eq!(dec_of_u64(u64::MAX), bytes("18446744073709551615"));
    assert_eq!(parse_dec(&bytes("0")), Some(0));
    assert_eq!(parse_dec(&bytes("007")), Some(7));
    assert_eq!(parse_dec(&bytes("18446744073709551615")), Some(u64::MAX));
    assert_eq!(parse_dec(&bytes("18446744073709551616")), None);
    assert_eq!(parse_dec(&bytes("")), None);
    assert_eq!(parse_dec(&bytes("12a")), None);
}

#[test]
fn hex_codec_round_trip() {
    let data = vec![0x00u8, 0xAA, 0x0F, 0xF0, 0xFF];
    let enc = hex_of(&data);
    assert_eq!(enc, bytes("00AA0FF0FF"));
    assert_eq!(parse_hex(&enc), Some(data));
    assert_eq!(parse_hex(&bytes("")), Some(vec![]));
    assert_eq!(parse_hex(&bytes("A")), None);
    assert_eq!(parse_hex(&bytes("aa")), None);
    assert_eq!(parse_hex(&bytes("ZZ")), None);
}
