use relayer_core::ids::{Height, Key, PacketId, PortChannelId};
use relayer_core::json::{ibc_data_to_json, snapshot_row};
use relayer_core::snapshot::{
    ChainStatus, ChannelEnd, ClientState, ConnectionEnd, ConsensusStateAtHeight, IbcData,
    IbcSnapshot, Packet,
};

fn bytes(s: &str) -> Vec<u8> {
    s.as_bytes().to_vec()
}

fn empty_data() -> IbcData {
    IbcData {
        app_status: ChainStatus {
            height: Height::new(0, 42),
            timestamp: 9,
        },
        connections: vec![],
        channels: vec![],
        client_states: vec![],
        consensus_states: vec![],
        pending_sent_packets: vec![],
    }
}

#[test]
fn empty_document_is_exact() {
    let d = empty_data();
    let doc = ibc_data_to_json(&d);
    let expected = "{\"app_status\":{\"height\":{\"revision\":0,\"height\":42},\"timestamp\":9},\
\"connections\":{},\"channels\":{},\"client_states\":{},\
\"consensus_states\":{},\"pending_sent_packets\":{}}";
    assert_eq!(String::from_utf8(doc).unwrap(), expected);
}

#[test]
fn document_renders_both_key_forms() {
    let mut d = empty_data();
    d.connections = vec![(
        bytes("connection-0"),
        ConnectionEnd {
            client_id: bytes("client-0"),
            state: 3,
        },
    )];
    d.channels = vec![(
        Key(PortChannelId {
            channel_id: bytes("channel-0"),
            port_id: bytes("transfer"),
        }),
        ChannelEnd {
            state: 3,
            ordering: 1,
        },
    )];
    d.client_states = vec![(
        bytes("client-0"),
        ClientState {
            latest_height: Height::new(1, 7),
        },
    )];
    d.consensus_states = vec![(
        bytes("client-0"),
        vec![ConsensusStateAtHeight {
            height: Height::new(1, 6),
        }],
    )];
    d.pending_sent_packets = vec![(
        PacketId {
            port_id: bytes("transfer"),
            channel_id: bytes("channel-0"),
            sequence: 1,
        },
        Packet {
            src_port: bytes("transfer"),
            src_channel: bytes("channel-0"),
            dst_port: bytes("transfer"),
            dst_channel: bytes("channel-1"),
            sequence: 1,
            data: vec![0xAA],
            timeout_height: Some(Height::new(0, 1000)),
            timeout_timestamp: 0,
        },
    )];
    let doc = String::from_utf8(ibc_data_to_json(&d)).unwrap();
    let expected = "{\"app_status\":{\"height\":{\"revision\":0,\"height\":42},\"timestamp\":9},\
\"connections\":{\"connection-0\":{\"client_id\":\"client-0\",\"state\":3}},\
\"channels\":{\"channel-0:transfer\":{\"state\":3,\"ordering\":1}},\
\"client_states\":{\"client-0\":{\"height\":{\"revision\":1,\"height\":7}}},\
\"consensus_states\":{\"client-0\":[{\"height\":{\"revision\":1,\"height\":6}}]},\
\"pending_sent_packets\":{\"transfer/channel-0/1\":{\
\"src_port\":\"transfer\",\"src_channel\":\"channel-0\",\
\"dst_port\":\"transfer\",\"dst_channel\":\"channel-1\",\
\"sequence\":1,\"data\":\"AA\",\
\"timeout_height\":{\"revision\":0,\"height\":1000},\
\"timeout_timestamp\":0}}}";
    assert_eq!(doc, expected);
}

#[test]
fn absent_timeout_height_is_null() {
    let mut d = empty_data();
    d.pending_sent_packets = vec![(
        PacketId {
            port_id: bytes("p"),
            channel_id: bytes("c"),
            sequence: 1,
        },
        Packet {
            src_port: bytes("p"),
            src_channel: bytes("c"),
            dst_port: bytes("p"),
            dst_channel: bytes("c2"),
            sequence: 1,
            data: vec![],
            timeout_height: None,
            timeout_timestamp: 5,
        },
    )];
    let doc = String::from_utf8(ibc_data_to_json(&d)).unwrap();
    assert!(doc.contains("\"timeout_height\":null"));
    assert!(doc.contains("\"timeout_timestamp\":5"));
    assert!(doc.contains("\"data\":\"\""));
}

#[test]
fn snapshot_row_pairs_height_with_document() {
    let s = IbcSnapshot {
        height: 7,
        data: empty_data(),
    };
    let (height, doc) = snapshot_row(&s);
    assert_eq!(height, bytes("7"));
    assert_eq!(doc, ibc_data_to_json(&s.data));
}

#[test]
fn equal_data_gives_equal_documents() {
    let a = empty_data();
    let b = empty_data();
    assert_eq!(ibc_data_to_json(&a), ibc_data_to_json(&b));
}
