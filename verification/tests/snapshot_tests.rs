use relayer_core::error::Error;
use relayer_core::ids::{Height, PacketId};
use relayer_core::snapshot::{
    ChainStatus, ConsensusStateAtHeight, IbcData, IbcSnapshot, MemorySnapshotManager, Packet,
    QueryHeight, KEEP_SNAPSHOTS,
};

fn bytes(s: &str) -> Vec<u8> {
    s.as_bytes().to_vec()
}

fn empty_data(height: u64) -> IbcData {
    IbcData {
        app_status: ChainStatus {
            height: Height::new(0, height),
            timestamp: 1,
        },
        connections: vec![],
        channels: vec![],
        client_states: vec![],
        consensus_states: vec![],
        pending_sent_packets: vec![],
    }
}

fn snap(height: u64) -> IbcSnapshot {
    IbcSnapshot {
        height,
        data: empty_data(height),
    }
}

#[test]
fn retention_keeps_only_the_window() {
    // Update snapshots at heights 1..10 in order: afterwards only
    // heights 3..10 are retrievable.
    assert_eq!(KEEP_SNAPSHOTS, 8);
    let mut m = MemorySnapshotManager::new();
    for h in 1..=10u64 {
        m.update_snapshot(snap(h));
    }
    assert!(matches!(
        m.fetch_snapshot(QueryHeight::At(2)),
        Err(Error::SnapshotNotFound)
    ));
    for h in 3..=10u64 {
        let s = m.fetch_snapshot(QueryHeight::At(h)).unwrap();
        assert_eq!(s.height, h);
    }
    let latest = m.fetch_snapshot(QueryHeight::Latest).unwrap();
    assert_eq!(latest.height, 10);
}

#[test]
fn latest_follows_the_greatest_height() {
    let mut m = MemorySnapshotManager::new();
    m.update_snapshot(snap(5));
    m.update_snapshot(snap(9));
    assert_eq!(m.fetch_snapshot(QueryHeight::Latest).unwrap().height, 9);
    // An update below the top does not change the latest.
    m.update_snapshot(snap(7));
    assert_eq!(m.fetch_snapshot(QueryHeight::Latest).unwrap().height, 9);
}

#[test]
fn empty_store_has_no_latest() {
    let m = MemorySnapshotManager::new();
    assert!(matches!(
        m.fetch_snapshot(QueryHeight::Latest),
        Err(Error::SnapshotNotFound)
    ));
    assert!(matches!(
        m.fetch_snapshot(QueryHeight::At(1)),
        Err(Error::SnapshotNotFound)
    ));
}

#[test]
fn update_at_same_height_overwrites() {
    let mut m = MemorySnapshotManager::new();
    m.update_snapshot(snap(4));
    let mut again = snap(4);
    again.data.app_status.timestamp = 42;
    m.update_snapshot(again);
    let s = m.fetch_snapshot(QueryHeight::At(4)).unwrap();
    assert_eq!(s.data.app_status.timestamp, 42);
    // Still exactly one entry at that height.
    assert_eq!(m.fetch_snapshot(QueryHeight::Latest).unwrap().height, 4);
}

#[test]
fn vacuum_of_everything_empties_the_store() {
    let mut m = MemorySnapshotManager::new();
    m.update_snapshot(snap(3));
    m.update_snapshot(snap(5));
    m.vacuum_snapshots(5);
    assert!(matches!(
        m.fetch_snapshot(QueryHeight::Latest),
        Err(Error::SnapshotNotFound)
    ));
}

#[test]
fn vacuum_deletes_at_or_below() {
    let mut m = MemorySnapshotManager::new();
    for h in [2u64, 4, 6] {
        m.update_snapshot(snap(h));
    }
    m.vacuum_snapshots(4);
    assert!(matches!(
        m.fetch_snapshot(QueryHeight::At(2)),
        Err(Error::SnapshotNotFound)
    ));
    assert!(matches!(
        m.fetch_snapshot(QueryHeight::At(4)),
        Err(Error::SnapshotNotFound)
    ));
    assert_eq!(m.fetch_snapshot(QueryHeight::At(6)).unwrap().height, 6);
}

#[test]
fn consensus_states_bounded_by_snapshot_height() {
    // A well-formed snapshot carries consensus states at or below its
    // own height, and survives the store round trip unchanged.
    let mut data = empty_data(20);
    data.consensus_states = vec![(
        bytes("client-0"),
        vec![
            ConsensusStateAtHeight {
                height: Height::new(0, 5),
            },
            ConsensusStateAtHeight {
                height: Height::new(0, 20),
            },
        ],
    )];
    let s = IbcSnapshot { height: 20, data };
    let mut m = MemorySnapshotManager::new();
    m.update_snapshot(s);
    let got = m.fetch_snapshot(QueryHeight::At(20)).unwrap();
    for (_, states) in &got.data.consensus_states {
        for cs in states {
            assert!(cs.height.height <= got.height);
        }
    }
}

#[test]
fn recording_sent_packets_keeps_the_invariants() {
    let mut data = empty_data(9);
    for seq in 1..=4u64 {
        let key = PacketId {
            port_id: bytes("transfer"),
            channel_id: bytes("channel-0"),
            sequence: seq,
        };
        let pkt = Packet {
            src_port: bytes("transfer"),
            src_channel: bytes("channel-0"),
            dst_port: bytes("transfer"),
            dst_channel: bytes("channel-1"),
            sequence: seq,
            data: vec![0xAA],
            timeout_height: None,
            timeout_timestamp: 0,
        };
        data.record_sent_packet(key, pkt);
    }
    assert_eq!(data.pending_sent_packets.len(), 4);
    let seqs: Vec<u64> = data
        .pending_sent_packets
        .iter()
        .map(|(k, _)| k.sequence)
        .collect();
    assert_eq!(seqs, vec![1, 2, 3, 4]);
    // The snapshot built from it is accepted by the store.
    let mut m = MemorySnapshotManager::new();
    m.update_snapshot(IbcSnapshot { height: 9, data });
    assert_eq!(m.fetch_snapshot(QueryHeight::Latest).unwrap().height, 9);
}

#[test]
fn pending_packets_contiguous_from_one() {
    // Sequences 1..=3 in one (port, channel) bucket: no gaps below
    // the largest observed.
    let mut data = empty_data(9);
    let mut pending = vec![];
    for seq in 1..=3u64 {
        let key = PacketId {
            port_id: bytes("transfer"),
            channel_id: bytes("channel-0"),
            sequence: seq,
        };
        let pkt = Packet {
            src_port: bytes("transfer"),
            src_channel: bytes("channel-0"),
            dst_port: bytes("transfer"),
            dst_channel: bytes("channel-1"),
            sequence: seq,
            data: vec![0xAA],
            timeout_height: Some(Height::new(0, 1000)),
            timeout_timestamp: 0,
        };
        pending.push((key, pkt));
    }
    data.pending_sent_packets = pending;
    let s = IbcSnapshot { height: 9, data };
    let mut m = MemorySnapshotManager::new();
    m.update_snapshot(s);
    let got = m.fetch_snapshot(QueryHeight::Latest).unwrap();
    let pend = &got.data.pending_sent_packets;
    for (key, _) in pend {
        for below in 1..key.sequence {
            assert!(pend.iter().any(|(k, _)| {
                k.port_id == key.port_id && k.channel_id == key.channel_id && k.sequence == below
            }));
        }
    }
}
