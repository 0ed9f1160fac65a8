use relayer_core::batch::OfaBatchContext;
use relayer_core::ids::Height;
use relayer_core::message::{Message, WriteAcknowledgementEvent};
use relayer_core::relay::{
    packet_timed_out, step, FullRelayer, MockChain, OfaPacket, OfaRelayContext,
    OfaUpdateClientMessageBuilder, PacketState, RelayAction, RelayEvent,
};
use relayer_core::snapshot::{ChainStatus, ClientState, Packet};

fn bytes(s: &str) -> Vec<u8> {
    s.as_bytes().to_vec()
}

fn chain(name: &str, height: u64, ts: u64, client_at: u64) -> MockChain {
    MockChain {
        chain_id: bytes(name),
        status: ChainStatus {
            height: Height::new(0, height),
            timestamp: ts,
        },
        client: ClientState {
            latest_height: Height::new(0, client_at),
        },
        batch: OfaBatchContext::new(),
    }
}

fn pair(src_h: u64, dst_h: u64, dst_client_at: u64) -> OfaRelayContext {
    OfaRelayContext {
        src_chain: chain("chain-a", src_h, 1_000, 5),
        dst_chain: chain("chain-b", dst_h, 2_000, dst_client_at),
        src_client_id: bytes("client-src"),
        dst_client_id: bytes("client-dst"),
    }
}

fn packet(seq: u64, timeout_h: u64, timeout_ts: u64) -> OfaPacket {
    OfaPacket {
        packet: Packet {
            src_port: bytes("transfer"),
            src_channel: bytes("channel-0"),
            dst_port: bytes("transfer"),
            dst_channel: bytes("channel-1"),
            sequence: seq,
            data: vec![0xAA],
            timeout_height: Some(Height::new(0, timeout_h)),
            timeout_timestamp: timeout_ts,
        },
    }
}

#[test]
fn state_machine_follows_the_table() {
    assert_eq!(
        step(PacketState::Observed, RelayEvent::RecvSubmitSucceeded),
        (PacketState::AwaitingAck, RelayAction::Nothing)
    );
    assert_eq!(
        step(PacketState::Observed, RelayEvent::RecvSubmitTimedOut),
        (PacketState::TimedOut, RelayAction::SubmitTimeoutToSrc)
    );
    assert_eq!(
        step(PacketState::Observed, RelayEvent::FatalError),
        (PacketState::Failed, RelayAction::SurfaceError)
    );
    assert_eq!(
        step(PacketState::AwaitingAck, RelayEvent::AckSeen),
        (PacketState::AwaitingAck, RelayAction::SubmitAckToSrc)
    );
    assert_eq!(
        step(PacketState::AwaitingAck, RelayEvent::TimeoutReached),
        (PacketState::TimedOut, RelayAction::SubmitTimeoutToSrc)
    );
    assert_eq!(
        step(PacketState::AwaitingAck, RelayEvent::SrcSubmitSucceeded),
        (PacketState::Done, RelayAction::Nothing)
    );
    assert_eq!(
        step(PacketState::TimedOut, RelayEvent::SrcSubmitSucceeded),
        (PacketState::Done, RelayAction::Nothing)
    );
    // Terminal states absorb everything.
    for e in [
        RelayEvent::RecvSubmitSucceeded,
        RelayEvent::RecvSubmitTimedOut,
        RelayEvent::AckSeen,
        RelayEvent::TimeoutReached,
        RelayEvent::SrcSubmitSucceeded,
        RelayEvent::FatalError,
    ] {
        assert_eq!(
            step(PacketState::Done, e),
            (PacketState::Done, RelayAction::Nothing)
        );
        assert_eq!(
            step(PacketState::Failed, e),
            (PacketState::Failed, RelayAction::Nothing)
        );
    }
}

#[test]
fn timeout_check_is_against_destination_status() {
    let st = ChainStatus {
        height: Height::new(0, 51),
        timestamp: 500,
    };
    assert!(packet_timed_out(&packet(1, 50, 0).packet, &st));
    assert!(packet_timed_out(&packet(1, 51, 0).packet, &st));
    assert!(!packet_timed_out(&packet(1, 52, 0).packet, &st));
    assert!(packet_timed_out(&packet(1, 1000, 400).packet, &st));
    assert!(!packet_timed_out(&packet(1, 1000, 501).packet, &st));
    // A zero timestamp means no timestamp timeout.
    assert!(!packet_timed_out(&packet(1, 1000, 0).packet, &st));
}

#[test]
fn update_client_builder_is_idempotent() {
    // A client already at the target height yields no messages.
    let client = ClientState {
        latest_height: Height::new(0, 42),
    };
    let chain = chain("chain-a", 42, 0, 0);
    let header = chain.query_header_at(Height::new(0, 42));
    let cid = bytes("client-dst");
    let msgs = OfaUpdateClientMessageBuilder::build_update_client_messages(
        &client,
        &cid,
        Height::new(0, 42),
        header,
    );
    assert!(msgs.is_empty());
    // A client behind the target yields exactly one UpdateClient.
    let behind = ClientState {
        latest_height: Height::new(0, 10),
    };
    let header2 = chain.query_header_at(Height::new(0, 42));
    let msgs2 = OfaUpdateClientMessageBuilder::build_update_client_messages(
        &behind,
        &cid,
        Height::new(0, 42),
        header2,
    );
    assert_eq!(msgs2.len(), 1);
    match &msgs2[0] {
        Message::UpdateClient { client_id, header } => {
            assert_eq!(client_id, &bytes("client-dst"));
            assert_eq!(relayer_core::header::Header::height(header), Height::new(0, 42));
        }
        other => panic!("expected UpdateClient, got {:?}", other),
    }
}

#[test]
fn happy_path_submits_update_and_recv_then_ack() {
    // Src at height 42, dst client behind: UpdateClient(42) +
    // RecvPacket to dst; on the ack at dst height 30, UpdateClient +
    // AckPacket to src.
    let mut ctx = pair(42, 30, 10);
    let p = packet(1, 1000, 0);
    let ack = WriteAcknowledgementEvent {
        packet: p.packet.clone(),
        ack: vec![0xBB],
        height: Height::new(0, 30),
    };
    let st = FullRelayer::relay_packet(&mut ctx, &p, Some(&ack)).unwrap();
    assert_eq!(st, PacketState::Done);

    assert_eq!(ctx.dst_chain.batch.pending.len(), 1);
    let dst_msgs = &ctx.dst_chain.batch.pending[0].messages;
    assert_eq!(dst_msgs.len(), 2);
    match &dst_msgs[0] {
        Message::UpdateClient { client_id, header } => {
            assert_eq!(client_id, &bytes("client-dst"));
            assert_eq!(relayer_core::header::Header::height(header), Height::new(0, 42));
        }
        other => panic!("expected UpdateClient, got {:?}", other),
    }
    match &dst_msgs[1] {
        Message::RecvPacket {
            packet,
            proof_height,
        } => {
            assert_eq!(packet.sequence, 1);
            assert_eq!(*proof_height, Height::new(0, 42));
        }
        other => panic!("expected RecvPacket, got {:?}", other),
    }

    assert_eq!(ctx.src_chain.batch.pending.len(), 1);
    let src_msgs = &ctx.src_chain.batch.pending[0].messages;
    match src_msgs.last().unwrap() {
        Message::AckPacket {
            packet,
            ack,
            proof_height,
        } => {
            assert_eq!(packet.sequence, 1);
            assert_eq!(ack, &vec![0xBB]);
            assert_eq!(*proof_height, Height::new(0, 30));
        }
        other => panic!("expected AckPacket, got {:?}", other),
    }
}

#[test]
fn current_client_sends_recv_only() {
    // The src client on dst is already at height 42: the submission
    // holds only the RecvPacket.
    let mut ctx = pair(42, 30, 42);
    let p = packet(1, 1000, 0);
    let st = FullRelayer::relay_packet(&mut ctx, &p, None).unwrap();
    assert_eq!(st, PacketState::AwaitingAck);
    assert_eq!(ctx.dst_chain.batch.pending.len(), 1);
    let dst_msgs = &ctx.dst_chain.batch.pending[0].messages;
    assert_eq!(dst_msgs.len(), 1);
    assert!(matches!(dst_msgs[0], Message::RecvPacket { .. }));
    assert!(ctx.src_chain.batch.pending.is_empty());
}

#[test]
fn timed_out_packet_never_reaches_destination() {
    // timeout_height (0, 50), dst already at 51: nothing goes to dst;
    // the timeout (with its client update) goes to src.
    let mut ctx = pair(42, 51, 10);
    let p = packet(1, 50, 0);
    let st = FullRelayer::relay_packet(&mut ctx, &p, None).unwrap();
    assert_eq!(st, PacketState::TimedOut);
    assert!(ctx.dst_chain.batch.pending.is_empty());
    assert_eq!(ctx.src_chain.batch.pending.len(), 1);
    let src_msgs = &ctx.src_chain.batch.pending[0].messages;
    match src_msgs.last().unwrap() {
        Message::TimeoutPacket {
            packet,
            proof_height,
        } => {
            assert_eq!(packet.sequence, 1);
            assert_eq!(*proof_height, Height::new(0, 51));
        }
        other => panic!("expected TimeoutPacket, got {:?}", other),
    }
    assert!(src_msgs.len() >= 2, "client update precedes the timeout");
    assert!(matches!(src_msgs[0], Message::UpdateClient { .. }));
}

#[test]
fn quiescent_relay_serves_every_slot() {
    let mut ctx = pair(42, 30, 10);
    let p = packet(1, 1000, 0);
    let ack = WriteAcknowledgementEvent {
        packet: p.packet.clone(),
        ack: vec![0xBB],
        height: Height::new(0, 30),
    };
    let st = FullRelayer::relay_packet_to_quiescence(&mut ctx, &p, Some(&ack), 5).unwrap();
    assert_eq!(st, PacketState::Done);
    assert!(ctx.src_chain.batch.pending.is_empty());
    assert!(ctx.dst_chain.batch.pending.is_empty());
    assert!(ctx.src_chain.batch.replies.iter().all(|r| r.is_some()));
    assert!(ctx.dst_chain.batch.replies.iter().all(|r| r.is_some()));
}

#[test]
fn packet_accessors_expose_the_fields() {
    let p = packet(9, 77, 88);
    assert_eq!(p.source_port(), &bytes("transfer"));
    assert_eq!(p.source_channel_id(), &bytes("channel-0"));
    assert_eq!(p.destination_port(), &bytes("transfer"));
    assert_eq!(p.destination_channel_id(), &bytes("channel-1"));
    assert_eq!(p.sequence(), 9);
    assert_eq!(p.timeout_height(), Some(Height::new(0, 77)));
    assert_eq!(p.timeout_timestamp(), 88);
}

#[test]
fn context_accessors_expose_the_pair() {
    let ctx = pair(1, 2, 3);
    assert_eq!(ctx.source_chain().chain_id, bytes("chain-a"));
    assert_eq!(ctx.destination_chain().chain_id, bytes("chain-b"));
    assert_eq!(ctx.source_client_id(), &bytes("client-src"));
    assert_eq!(ctx.destination_client_id(), &bytes("client-dst"));
}
