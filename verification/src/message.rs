//! Transaction-ready messages and the chain events they produce.
use vstd::prelude::*;

use crate::header::AnyHeader;
use crate::ids::{ClientId, Height};
use crate::snapshot::Packet;

verus! {

/// A message bound for one chain's transaction lane.
#[derive(Clone, Debug, PartialEq, Eq)]
pub enum Message {
    /// Brings a counterparty client up to the header's height.
    UpdateClient { client_id: ClientId, header: AnyHeader },
    /// Delivers a packet with its commitment proof.
    RecvPacket { packet: Packet, proof_height: Height },
    /// Delivers an acknowledgement with its proof.
    AckPacket { packet: Packet, ack: Vec<u8>, proof_height: Height },
    /// Proof of non-receipt, closing a timed-out packet.
    TimeoutPacket { packet: Packet, proof_height: Height },
}

/// The acknowledgement event a destination chain writes.
#[derive(Clone, Debug, PartialEq, Eq)]
pub struct WriteAcknowledgementEvent {
    pub packet: Packet,
    pub ack: Vec<u8>,
    pub height: Height,
}

/// An event observed on a chain's subscription stream.
#[derive(Clone, Debug, PartialEq, Eq)]
pub enum Event {
    SendPacket { packet: Packet, height: Height },
    WriteAcknowledgement(WriteAcknowledgementEvent),
    TimeoutPacket { packet: Packet, height: Height },
    NewBlock { height: Height },
}

} // verus!
