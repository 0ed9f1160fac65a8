//! The per-(source, destination) relay engine: the per-packet state
//! machine, the message builders, and the full-relay composition that
//! drives a packet from `SendPacket` to acknowledgement or timeout.
use vstd::prelude::*;

use crate::batch::OfaBatchContext;
use crate::error::Error;
use crate::header::{AnyHeader, Header, MockHeader};
use crate::ids::{bytes_eq, ChainId, ChannelId, ClientId, Height, PortId, Sequence, Timestamp};
use crate::message::{Event, Message, WriteAcknowledgementEvent};
use crate::snapshot::{ChainStatus, ClientState, Packet};

verus! {

/// Field-wise equality of two packets, with byte fields compared by
/// content.
pub open spec fn packet_view_eq(a: Packet, b: Packet) -> bool {
    &&& a.src_port@ == b.src_port@
    &&& a.src_channel@ == b.src_channel@
    &&& a.dst_port@ == b.dst_port@
    &&& a.dst_channel@ == b.dst_channel@
    &&& a.sequence == b.sequence
    &&& a.data@ == b.data@
    &&& a.timeout_height == b.timeout_height
    &&& a.timeout_timestamp == b.timeout_timestamp
}

/// Copies a byte string.
pub fn clone_bytes(v: &Vec<u8>) -> (r: Vec<u8>)
    ensures
        r@ == v@,
{
    let r = crate::codec::subvec(v, 0, v.len());
    proof {
        assert(v@.subrange(0, v@.len() as int) =~= v@);
    }
    r
}

/// Copies a packet.
pub fn clone_packet(p: &Packet) -> (r: Packet)
    ensures
        packet_view_eq(r, *p),
{
    Packet {
        src_port: clone_bytes(&p.src_port),
        src_channel: clone_bytes(&p.src_channel),
        dst_port: clone_bytes(&p.dst_port),
        dst_channel: clone_bytes(&p.dst_channel),
        sequence: p.sequence,
        data: clone_bytes(&p.data),
        timeout_height: p.timeout_height,
        timeout_timestamp: p.timeout_timestamp,
    }
}

/// Where a packet stands in its lifecycle.
#[derive(Clone, Copy, Debug, PartialEq, Eq, Structural)]
pub enum PacketState {
    /// A `SendPacket` was seen at the source.
    Observed,
    /// The receive submission was accepted by the destination.
    AwaitingAck,
    /// The destination rejected or outran the packet's timeout.
    TimedOut,
    /// A fatal error; surfaced, never retried at this layer.
    Failed,
    /// The packet left `pending_sent_packets`.
    Done,
}

/// What the engine learns between steps of one packet's relay.
#[derive(Clone, Copy, Debug, PartialEq, Eq, Structural)]
pub enum RelayEvent {
    /// The destination accepted the receive submission.
    RecvSubmitSucceeded,
    /// The destination rejected the submission as timed out.
    RecvSubmitTimedOut,
    /// The acknowledgement for this packet was seen on the
    /// destination.
    AckSeen,
    /// The packet's timeout passed on the destination.
    TimeoutReached,
    /// The source accepted the ack or timeout submission.
    SrcSubmitSucceeded,
    /// A fatal, non-recoverable error.
    FatalError,
}

/// What the engine must do next for this packet.
#[derive(Clone, Copy, Debug, PartialEq, Eq, Structural)]
pub enum RelayAction {
    Nothing,
    /// Build `UpdateClient(dst->src)` + `AckPacket` for the source.
    SubmitAckToSrc,
    /// Build `UpdateClient(dst->src)` + `TimeoutPacket` for the
    /// source.
    SubmitTimeoutToSrc,
    /// Report the error to the packet's originator.
    SurfaceError,
}

/// The packet state machine, as one table: terminal states absorb
/// every event; `Observed` resolves on the receive submission;
/// `AwaitingAck` resolves on the acknowledgement or the timeout.
pub open spec fn spec_step(s: PacketState, e: RelayEvent) -> (PacketState, RelayAction) {
    match s {
        PacketState::Observed => match e {
            RelayEvent::RecvSubmitSucceeded => (PacketState::AwaitingAck, RelayAction::Nothing),
            RelayEvent::RecvSubmitTimedOut => (
                PacketState::TimedOut,
                RelayAction::SubmitTimeoutToSrc,
            ),
            RelayEvent::FatalError => (PacketState::Failed, RelayAction::SurfaceError),
            _ => (PacketState::Observed, RelayAction::Nothing),
        },
        PacketState::AwaitingAck => match e {
            RelayEvent::AckSeen => (PacketState::AwaitingAck, RelayAction::SubmitAckToSrc),
            RelayEvent::TimeoutReached => (
                PacketState::TimedOut,
                RelayAction::SubmitTimeoutToSrc,
            ),
            RelayEvent::SrcSubmitSucceeded => (PacketState::Done, RelayAction::Nothing),
            RelayEvent::FatalError => (PacketState::Failed, RelayAction::SurfaceError),
            _ => (PacketState::AwaitingAck, RelayAction::Nothing),
        },
        PacketState::TimedOut => match e {
            RelayEvent::SrcSubmitSucceeded => (PacketState::Done, RelayAction::Nothing),
            RelayEvent::FatalError => (PacketState::Failed, RelayAction::SurfaceError),
            _ => (PacketState::TimedOut, RelayAction::Nothing),
        },
        PacketState::Failed => (PacketState::Failed, RelayAction::Nothing),
        PacketState::Done => (PacketState::Done, RelayAction::Nothing),
    }
}

/// Executes one transition of the packet state machine.
pub fn step(s: PacketState, e: RelayEvent) -> (r: (PacketState, RelayAction))
    ensures
        r == spec_step(s, e),
{
    match s {
        PacketState::Observed => match e {
            RelayEvent::RecvSubmitSucceeded => (PacketState::AwaitingAck, RelayAction::Nothing),
            RelayEvent::RecvSubmitTimedOut => (
                PacketState::TimedOut,
                RelayAction::SubmitTimeoutToSrc,
            ),
            RelayEvent::FatalError => (PacketState::Failed, RelayAction::SurfaceError),
            _ => (PacketState::Observed, RelayAction::Nothing),
        },
        PacketState::AwaitingAck => match e {
            RelayEvent::AckSeen => (PacketState::AwaitingAck, RelayAction::SubmitAckToSrc),
            RelayEvent::TimeoutReached => (
                PacketState::TimedOut,
                RelayAction::SubmitTimeoutToSrc,
            ),
            RelayEvent::SrcSubmitSucceeded => (PacketState::Done, RelayAction::Nothing),
            RelayEvent::FatalError => (PacketState::Failed, RelayAction::SurfaceError),
            _ => (PacketState::AwaitingAck, RelayAction::Nothing),
        },
        PacketState::TimedOut => match e {
            RelayEvent::SrcSubmitSucceeded => (PacketState::Done, RelayAction::Nothing),
            RelayEvent::FatalError => (PacketState::Failed, RelayAction::SurfaceError),
            _ => (PacketState::TimedOut, RelayAction::Nothing),
        },
        PacketState::Failed => (PacketState::Failed, RelayAction::Nothing),
        PacketState::Done => (PacketState::Done, RelayAction::Nothing),
    }
}

/// Terminal states stay terminal under every event.
pub proof fn lemma_terminal_states_absorb(s: PacketState, e: RelayEvent)
    requires
        s == PacketState::Done || s == PacketState::Failed,
    ensures
        spec_step(s, e).0 == s,
        spec_step(s, e).1 == RelayAction::Nothing,
{
}

/// A packet is timed out against a chain status when its timeout
/// height is reached, or its timeout timestamp (0 meaning none) is
/// reached.
pub open spec fn spec_packet_timed_out(p: Packet, status: ChainStatus) -> bool {
    ||| (p.timeout_height matches Some(th) && th.spec_le(status.height))
    ||| (p.timeout_timestamp != 0 && p.timeout_timestamp <= status.timestamp)
}

/// Checks a packet's timeout against the destination's latest status.
pub fn packet_timed_out(p: &Packet, status: &ChainStatus) -> (r: bool)
    ensures
        r == spec_packet_timed_out(*p, *status),
{
    let by_height = match p.timeout_height {
        Some(th) => th.le(&status.height),
        None => false,
    };
    by_height || (p.timeout_timestamp != 0 && p.timeout_timestamp <= status.timestamp)
}

/// A deterministic in-memory chain, the test driver: a fixed status,
/// a tracked counterparty client, and a batching ingress as its
/// message sink.
pub struct MockChain {
    pub chain_id: ChainId,
    pub status: ChainStatus,
    pub client: ClientState,
    pub batch: OfaBatchContext,
}

impl MockChain {
    /// Latest finalised height and block time.
    pub fn query_chain_status(&self) -> (r: ChainStatus)
        ensures
            r == self.status,
    {
        self.status
    }

    /// The batching ingress that serialises this chain's
    /// transactions.
    pub fn batch_context(&self) -> (r: &OfaBatchContext)
        ensures
            r == &self.batch,
    {
        &self.batch
    }

    /// The header that brings a counterparty client up to `h`; for
    /// the mock kind it is synthesised from the chain's clock.
    pub fn query_header_at(&self, h: Height) -> (r: AnyHeader)
        ensures
            r.spec_height() == h,
            r.spec_timestamp() == self.status.timestamp,
    {
        AnyHeader::Mock(MockHeader { height: h, timestamp: self.status.timestamp })
    }
}

/// Builds the `UpdateClient` messages that bring a client to
/// `target_height`: none when the client is already at or past it,
/// one otherwise.
pub struct OfaUpdateClientMessageBuilder;

impl OfaUpdateClientMessageBuilder {
    /// Idempotent: a client already at or past the target height
    /// yields the empty vector.
    pub fn build_update_client_messages(
        client: &ClientState,
        client_id: &ClientId,
        target_height: Height,
        header: AnyHeader,
    ) -> (r: Vec<Message>)
        requires
            header.spec_height() == target_height,
        ensures
            target_height.spec_le(client.latest_height) ==> r@.len() == 0,
            !target_height.spec_le(client.latest_height) ==> r@.len() == 1 && (r@[0] matches
                Message::UpdateClient { client_id: cid, header: hd } && cid@ == client_id@ && hd
                == header),
    {
        if target_height.le(&client.latest_height) {
            Vec::new()
        } else {
            let mut r: Vec<Message> = Vec::new();
            r.push(
                Message::UpdateClient { client_id: clone_bytes(client_id), header },
            );
            r
        }
    }
}

/// The packet being relayed, as the engine carries it.
pub struct OfaPacket {
    pub packet: Packet,
}

impl OfaPacket {
    pub fn source_port(&self) -> (r: &PortId)
        ensures
            r == &self.packet.src_port,
    {
        &self.packet.src_port
    }

    pub fn source_channel_id(&self) -> (r: &ChannelId)
        ensures
            r == &self.packet.src_channel,
    {
        &self.packet.src_channel
    }

    pub fn destination_port(&self) -> (r: &PortId)
        ensures
            r == &self.packet.dst_port,
    {
        &self.packet.dst_port
    }

    pub fn destination_channel_id(&self) -> (r: &ChannelId)
        ensures
            r == &self.packet.dst_channel,
    {
        &self.packet.dst_channel
    }

    pub fn sequence(&self) -> (r: Sequence)
        ensures
            r == self.packet.sequence,
    {
        self.packet.sequence
    }

    pub fn timeout_height(&self) -> (r: Option<Height>)
        ensures
            r == self.packet.timeout_height,
    {
        self.packet.timeout_height
    }

    pub fn timeout_timestamp(&self) -> (r: Timestamp)
        ensures
            r == self.packet.timeout_timestamp,
    {
        self.packet.timeout_timestamp
    }
}

/// One directed relay pair: the two chains and the client each tracks
/// of the other.
pub struct OfaRelayContext {
    pub src_chain: MockChain,
    pub dst_chain: MockChain,
    pub src_client_id: ClientId,
    pub dst_client_id: ClientId,
}

impl OfaRelayContext {
    pub fn source_chain(&self) -> (r: &MockChain)
        ensures
            r == &self.src_chain,
    {
        &self.src_chain
    }

    pub fn destination_chain(&self) -> (r: &MockChain)
        ensures
            r == &self.dst_chain,
    {
        &self.dst_chain
    }

    pub fn source_client_id(&self) -> (r: &ClientId)
        ensures
            r == &self.src_client_id,
    {
        &self.src_client_id
    }

    pub fn destination_client_id(&self) -> (r: &ClientId)
        ensures
            r == &self.dst_client_id,
    {
        &self.dst_client_id
    }

    /// Builds the `RecvPacket` bound for the destination, carrying
    /// the commitment proof height.
    pub fn build_receive_packet_message(&self, height: Height, packet: &OfaPacket) -> (r: Message)
        ensures
            r matches Message::RecvPacket { packet: p, proof_height } && packet_view_eq(
                p,
                packet.packet,
            ) && proof_height == height,
    {
        Message::RecvPacket { packet: clone_packet(&packet.packet), proof_height: height }
    }

    /// Builds the `AckPacket` bound for the source, carrying the
    /// acknowledgement and its proof height.
    pub fn build_ack_packet_message(
        &self,
        destination_height: Height,
        packet: &OfaPacket,
        ack: &WriteAcknowledgementEvent,
    ) -> (r: Message)
        ensures
            r matches Message::AckPacket { packet: p, ack: a, proof_height } && packet_view_eq(
                p,
                packet.packet,
            ) && a@ == ack.ack@ && proof_height == destination_height,
    {
        Message::AckPacket {
            packet: clone_packet(&packet.packet),
            ack: clone_bytes(&ack.ack),
            proof_height: destination_height,
        }
    }

    /// Builds the `TimeoutPacket` (proof of non-receipt) bound for
    /// the source.
    pub fn build_timeout_packet_message(&self, destination_height: Height, packet: &OfaPacket) -> (r:
        Message)
        ensures
            r matches Message::TimeoutPacket { packet: p, proof_height } && packet_view_eq(
                p,
                packet.packet,
            ) && proof_height == destination_height,
    {
        Message::TimeoutPacket { packet: clone_packet(&packet.packet), proof_height: destination_height }
    }
}

/// Composes the receive stage with the acknowledgement stage: one
/// call drives a packet as far as the observed events allow.
pub struct FullRelayer;

impl FullRelayer {
    /// Relays one packet.  A packet already timed out against the
    /// destination's latest status is never submitted there: the
    /// timeout goes to the source instead.  Otherwise the receive
    /// submission goes to the destination (with an `UpdateClient`
    /// only when the client is behind), and — when the
    /// acknowledgement has been observed — the ack submission goes to
    /// the source.
    pub fn relay_packet(
        context: &mut OfaRelayContext,
        packet: &OfaPacket,
        write_ack: Option<&WriteAcknowledgementEvent>,
    ) -> (r: Result<PacketState, Error>)
        requires
            old(context).src_chain.batch.wf(),
            old(context).dst_chain.batch.wf(),
        ensures
            final(context).src_chain.batch.wf(),
            final(context).dst_chain.batch.wf(),
            final(context).src_chain.status == old(context).src_chain.status,
            final(context).dst_chain.status == old(context).dst_chain.status,
            r matches Ok(st) ==> st == (if spec_packet_timed_out(
                packet.packet,
                old(context).dst_chain.status,
            ) {
                PacketState::TimedOut
            } else if write_ack is Some {
                PacketState::Done
            } else {
                PacketState::AwaitingAck
            }),
            r is Ok,
            final(context).src_chain.batch@.len() >= old(context).src_chain.batch@.len()
                && final(context).src_chain.batch@.subrange(
                0,
                old(context).src_chain.batch@.len() as int,
            ) == old(context).src_chain.batch@,
            final(context).dst_chain.batch@.len() >= old(context).dst_chain.batch@.len()
                && final(context).dst_chain.batch@.subrange(
                0,
                old(context).dst_chain.batch@.len() as int,
            ) == old(context).dst_chain.batch@,
            spec_packet_timed_out(packet.packet, old(context).dst_chain.status) ==> {
                &&& final(context).dst_chain.batch@ == old(context).dst_chain.batch@
                &&& final(context).src_chain.batch@.len() == old(
                    context,
                ).src_chain.batch@.len() + 1
                &&& ({
                    let msgs = final(context).src_chain.batch@.last().messages@;
                    msgs.len() >= 1 && (msgs.last() matches Message::TimeoutPacket {
                        packet: p,
                        proof_height,
                    } && packet_view_eq(p, packet.packet) && proof_height == old(
                        context,
                    ).dst_chain.status.height)
                })
            },
            !spec_packet_timed_out(packet.packet, old(context).dst_chain.status) ==> {
                &&& final(context).dst_chain.batch@.len() == old(
                    context,
                ).dst_chain.batch@.len() + 1
                &&& ({
                    let msgs = final(context).dst_chain.batch@.last().messages@;
                    let target = old(context).src_chain.status.height;
                    let current = target.spec_le(
                        old(context).dst_chain.client.latest_height,
                    );
                    &&& (msgs.last() matches Message::RecvPacket { packet: p, proof_height }
                        && packet_view_eq(p, packet.packet) && proof_height == target)
                    &&& (current ==> msgs.len() == 1)
                    &&& (!current ==> msgs.len() == 2 && (msgs[0] matches Message::UpdateClient {
                        client_id,
                        header,
                    } && client_id@ == old(context).dst_client_id@ && header.spec_height()
                        == target))
                })
            },
            !spec_packet_timed_out(packet.packet, old(context).dst_chain.status) && write_ack
                is None ==> final(context).src_chain.batch@ == old(context).src_chain.batch@,
            write_ack matches Some(a) ==> !spec_packet_timed_out(
                packet.packet,
                old(context).dst_chain.status,
            ) ==> {
                &&& final(context).src_chain.batch@.len() == old(
                    context,
                ).src_chain.batch@.len() + 1
                &&& ({
                    let msgs = final(context).src_chain.batch@.last().messages@;
                    msgs.len() >= 1 && (msgs.last() matches Message::AckPacket {
                        packet: p,
                        ack,
                        proof_height,
                    } && packet_view_eq(p, packet.packet) && ack@ == a.ack@ && proof_height
                        == old(context).dst_chain.status.height)
                })
            },
    {
        let src_status = context.src_chain.query_chain_status();
        let dst_status = context.dst_chain.query_chain_status();
        if packet_timed_out(&packet.packet, &dst_status) {
            // Timeout path: proof of non-receipt goes to the source.
            let header = context.dst_chain.query_header_at(dst_status.height);
            let mut msgs = OfaUpdateClientMessageBuilder::build_update_client_messages(
                &context.src_chain.client,
                &context.src_client_id,
                dst_status.height,
                header,
            );
            let timeout_msg = context.build_timeout_packet_message(dst_status.height, packet);
            msgs.push(timeout_msg);
            let slot = context.src_chain.batch.new_result_channel();
            context.src_chain.batch.send_messages(msgs, slot);
            let (state, _action) = step(PacketState::Observed, RelayEvent::RecvSubmitTimedOut);
            Ok(state)
        } else {
            // Receive path: update the source's client on the
            // destination, then deliver the packet.
            let header = context.src_chain.query_header_at(src_status.height);
            let mut msgs = OfaUpdateClientMessageBuilder::build_update_client_messages(
                &context.dst_chain.client,
                &context.dst_client_id,
                src_status.height,
                header,
            );
            let recv_msg = context.build_receive_packet_message(src_status.height, packet);
            msgs.push(recv_msg);
            let slot = context.dst_chain.batch.new_result_channel();
            context.dst_chain.batch.send_messages(msgs, slot);
            // The sink accepted the receive submission.
            let (state, _action) = step(PacketState::Observed, RelayEvent::RecvSubmitSucceeded);
            match write_ack {
                Some(ack) => {
                    // Ack path: deliver the acknowledgement to the
                    // source with the destination's client update.
                    let header_d = context.dst_chain.query_header_at(dst_status.height);
                    let mut ack_msgs = OfaUpdateClientMessageBuilder::build_update_client_messages(
                        &context.src_chain.client,
                        &context.src_client_id,
                        dst_status.height,
                        header_d,
                    );
                    let ack_msg = context.build_ack_packet_message(dst_status.height, packet, ack);
                    ack_msgs.push(ack_msg);
                    let slot2 = context.src_chain.batch.new_result_channel();
                    context.src_chain.batch.send_messages(ack_msgs, slot2);
                    // The ack was built and the sink took it.
                    let (with_ack, _a) = step(state, RelayEvent::AckSeen);
                    let (done, _b) = step(with_ack, RelayEvent::SrcSubmitSucceeded);
                    Ok(done)
                },
                None => Ok(state),
            }
        }
    }

    /// Relays one packet, then runs both chains' dispatcher workers
    /// to quiescence under the deterministic driver: both queues
    /// drain, and every reply slot that was pending — the new
    /// submissions included — receives its result.
    pub fn relay_packet_to_quiescence(
        context: &mut OfaRelayContext,
        packet: &OfaPacket,
        write_ack: Option<&WriteAcknowledgementEvent>,
        batch_cap: usize,
    ) -> (r: Result<PacketState, Error>)
        requires
            old(context).src_chain.batch.wf(),
            old(context).dst_chain.batch.wf(),
        ensures
            final(context).src_chain.batch.wf(),
            final(context).dst_chain.batch.wf(),
            final(context).src_chain.batch@.len() == 0,
            final(context).dst_chain.batch@.len() == 0,
            r is Ok,
            r matches Ok(st) ==> st == (if spec_packet_timed_out(
                packet.packet,
                old(context).dst_chain.status,
            ) {
                PacketState::TimedOut
            } else if write_ack is Some {
                PacketState::Done
            } else {
                PacketState::AwaitingAck
            }),
            forall|i: int|
                0 <= i < old(context).src_chain.batch@.len()
                    ==> final(context).src_chain.batch.replies@[(
                #[trigger] old(context).src_chain.batch@[i]).reply_slot as int] is Some,
            forall|i: int|
                0 <= i < old(context).dst_chain.batch@.len()
                    ==> final(context).dst_chain.batch.replies@[(
                #[trigger] old(context).dst_chain.batch@[i]).reply_slot as int] is Some,
    {
        let ghost src0 = old(context).src_chain.batch@;
        let ghost dst0 = old(context).dst_chain.batch@;
        let state = match Self::relay_packet(context, packet, write_ack) {
            Ok(s) => s,
            Err(e) => {
                proof {
                    assert(false);
                }
                return Err(e);
            },
        };
        let ghost mid_src = context.src_chain.batch@;
        let ghost mid_dst = context.dst_chain.batch@;
        context.src_chain.batch.run_to_completion(batch_cap);
        context.dst_chain.batch.run_to_completion(batch_cap);
        proof {
            assert forall|i: int|
                0 <= i < src0.len() implies final(context).src_chain.batch.replies@[(
            #[trigger] src0[i]).reply_slot as int] is Some by {
                assert(mid_src.subrange(0, src0.len() as int)[i] == mid_src[i]);
                assert(mid_src[i] == src0[i]);
            }
            assert forall|i: int|
                0 <= i < dst0.len() implies final(context).dst_chain.batch.replies@[(
            #[trigger] dst0[i]).reply_slot as int] is Some by {
                assert(mid_dst.subrange(0, dst0.len() as int)[i] == mid_dst[i]);
                assert(mid_dst[i] == dst0[i]);
            }
        }
        Ok(state)
    }
}

} // verus!
