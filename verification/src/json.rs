//! The persisted form of a snapshot: `IbcData` as one JSON
//! document, with `PortChannelId` map keys rendered `channel:port`
//! and `PacketId` map keys rendered `port/channel/sequence`.  The
//! encoding is deterministic: equal data gives equal documents.
use vstd::prelude::*;

use crate::codec::{dec_of_u64, hex_of, push_all, spec_dec, spec_hex};
use crate::ids::{Height, Key, PacketId, PortChannelId};
use crate::snapshot::{
    ChainStatus, ChannelEnd, ClientState, ConnectionEnd, ConsensusStateAtHeight, IbcData,
    IbcSnapshot, Packet,
};

verus! {

/// `app_status`, as bytes.
pub open spec fn lit_app_status() -> Seq<u8> {
    seq![0x61u8, 0x70u8, 0x70u8, 0x5Fu8, 0x73u8, 0x74u8, 0x61u8, 0x74u8, 0x75u8, 0x73u8]
}

fn push_lit_app_status(dst: &mut Vec<u8>)
    ensures
        final(dst)@ == old(dst)@ + lit_app_status(),
{
    dst.push(0x61);
    dst.push(0x70);
    dst.push(0x70);
    dst.push(0x5F);
    dst.push(0x73);
    dst.push(0x74);
    dst.push(0x61);
    dst.push(0x74);
    dst.push(0x75);
    dst.push(0x73);
    assert(dst@ =~= old(dst)@ + lit_app_status());
}

/// `connections`, as bytes.
pub open spec fn lit_connections() -> Seq<u8> {
    seq![0x63u8, 0x6Fu8, 0x6Eu8, 0x6Eu8, 0x65u8, 0x63u8, 0x74u8, 0x69u8, 0x6Fu8, 0x6Eu8, 0x73u8]
}

fn push_lit_connections(dst: &mut Vec<u8>)
    ensures
        final(dst)@ == old(dst)@ + lit_connections(),
{
    dst.push(0x63);
    dst.push(0x6F);
    dst.push(0x6E);
    dst.push(0x6E);
    dst.push(0x65);
    dst.push(0x63);
    dst.push(0x74);
    dst.push(0x69);
    dst.push(0x6F);
    dst.push(0x6E);
    dst.push(0x73);
    assert(dst@ =~= old(dst)@ + lit_connections());
}

/// `channels`, as bytes.
pub open spec fn lit_channels() -> Seq<u8> {
    seq![0x63u8, 0x68u8, 0x61u8, 0x6Eu8, 0x6Eu8, 0x65u8, 0x6Cu8, 0x73u8]
}

fn push_lit_channels(dst: &mut Vec<u8>)
    ensures
        final(dst)@ == old(dst)@ + lit_channels(),
{
    dst.push(0x63);
    dst.push(0x68);
    dst.push(0x61);
    dst.push(0x6E);
    dst.push(0x6E);
    dst.push(0x65);
    dst.push(0x6C);
    dst.push(0x73);
    assert(dst@ =~= old(dst)@ + lit_channels());
}

/// `client_states`, as bytes.
pub open spec fn lit_client_states() -> Seq<u8> {
    seq![0x63u8, 0x6Cu8, 0x69u8, 0x65u8, 0x6Eu8, 0x74u8, 0x5Fu8, 0x73u8, 0x74u8, 0x61u8, 0x74u8, 0x65u8, 0x73u8]
}

fn push_lit_client_states(dst: &mut Vec<u8>)
    ensures
        final(dst)@ == old(dst)@ + lit_client_states(),
{
    dst.push(0x63);
    dst.push(0x6C);
    dst.push(0x69);
    dst.push(0x65);
    dst.push(0x6E);
    dst.push(0x74);
    dst.push(0x5F);
    dst.push(0x73);
    dst.push(0x74);
    dst.push(0x61);
    dst.push(0x74);
    dst.push(0x65);
    dst.push(0x73);
    assert(dst@ =~= old(dst)@ + lit_client_states());
}

/// `consensus_states`, as bytes.
pub open spec fn lit_consensus_states() -> Seq<u8> {
    seq![0x63u8, 0x6Fu8, 0x6Eu8, 0x73u8, 0x65u8, 0x6Eu8, 0x73u8, 0x75u8, 0x73u8, 0x5Fu8, 0x73u8, 0x74u8, 0x61u8, 0x74u8, 0x65u8, 0x73u8]
}

fn push_lit_consensus_states(dst: &mut Vec<u8>)
    ensures
        final(dst)@ == old(dst)@ + lit_consensus_states(),
{
    dst.push(0x63);
    dst.push(0x6F);
    dst.push(0x6E);
    dst.push(0x73);
    dst.push(0x65);
    dst.push(0x6E);
    dst.push(0x73);
    dst.push(0x75);
    dst.push(0x73);
    dst.push(0x5F);
    dst.push(0x73);
    dst.push(0x74);
    dst.push(0x61);
    dst.push(0x74);
    dst.push(0x65);
    dst.push(0x73);
    assert(dst@ =~= old(dst)@ + lit_consensus_states());
}

/// `pending_sent_packets`, as bytes.
pub open spec fn lit_pending_sent_packets() -> Seq<u8> {
    seq![0x70u8, 0x65u8, 0x6Eu8, 0x64u8, 0x69u8, 0x6Eu8, 0x67u8, 0x5Fu8, 0x73u8, 0x65u8, 0x6Eu8, 0x74u8, 0x5Fu8, 0x70u8, 0x61u8, 0x63u8, 0x6Bu8, 0x65u8, 0x74u8, 0x73u8]
}

fn push_lit_pending_sent_packets(dst: &mut Vec<u8>)
    ensures
        final(dst)@ == old(dst)@ + lit_pending_sent_packets(),
{
    dst.push(0x70);
    dst.push(0x65);
    dst.push(0x6E);
    dst.push(0x64);
    dst.push(0x69);
    dst.push(0x6E);
    dst.push(0x67);
    dst.push(0x5F);
    dst.push(0x73);
    dst.push(0x65);
    dst.push(0x6E);
    dst.push(0x74);
    dst.push(0x5F);
    dst.push(0x70);
    dst.push(0x61);
    dst.push(0x63);
    dst.push(0x6B);
    dst.push(0x65);
    dst.push(0x74);
    dst.push(0x73);
    assert(dst@ =~= old(dst)@ + lit_pending_sent_packets());
}

/// `revision`, as bytes.
pub open spec fn lit_revision() -> Seq<u8> {
    seq![0x72u8, 0x65u8, 0x76u8, 0x69u8, 0x73u8, 0x69u8, 0x6Fu8, 0x6Eu8]
}

fn push_lit_revision(dst: &mut Vec<u8>)
    ensures
        final(dst)@ == old(dst)@ + lit_revision(),
{
    dst.push(0x72);
    dst.push(0x65);
    dst.push(0x76);
    dst.push(0x69);
    dst.push(0x73);
    dst.push(0x69);
    dst.push(0x6F);
    dst.push(0x6E);
    assert(dst@ =~= old(dst)@ + lit_revision());
}

/// `height`, as bytes.
pub open spec fn lit_height() -> Seq<u8> {
    seq![0x68u8, 0x65u8, 0x69u8, 0x67u8, 0x68u8, 0x74u8]
}

fn push_lit_height(dst: &mut Vec<u8>)
    ensures
        final(dst)@ == old(dst)@ + lit_height(),
{
    dst.push(0x68);
    dst.push(0x65);
    dst.push(0x69);
    dst.push(0x67);
    dst.push(0x68);
    dst.push(0x74);
    assert(dst@ =~= old(dst)@ + lit_height());
}

/// `timestamp`, as bytes.
pub open spec fn lit_timestamp() -> Seq<u8> {
    seq![0x74u8, 0x69u8, 0x6Du8, 0x65u8, 0x73u8, 0x74u8, 0x61u8, 0x6Du8, 0x70u8]
}

fn push_lit_timestamp(dst: &mut Vec<u8>)
    ensures
        final(dst)@ == old(dst)@ + lit_timestamp(),
{
    dst.push(0x74);
    dst.push(0x69);
    dst.push(0x6D);
    dst.push(0x65);
    dst.push(0x73);
    dst.push(0x74);
    dst.push(0x61);
    dst.push(0x6D);
    dst.push(0x70);
    assert(dst@ =~= old(dst)@ + lit_timestamp());
}

/// `client_id`, as bytes.
pub open spec fn lit_client_id() -> Seq<u8> {
    seq![0x63u8, 0x6Cu8, 0x69u8, 0x65u8, 0x6Eu8, 0x74u8, 0x5Fu8, 0x69u8, 0x64u8]
}

fn push_lit_client_id(dst: &mut Vec<u8>)
    ensures
        final(dst)@ == old(dst)@ + lit_client_id(),
{
    dst.push(0x63);
    dst.push(0x6C);
    dst.push(0x69);
    dst.push(0x65);
    dst.push(0x6E);
    dst.push(0x74);
    dst.push(0x5F);
    dst.push(0x69);
    dst.push(0x64);
    assert(dst@ =~= old(dst)@ + lit_client_id());
}

/// `state`, as bytes.
pub open spec fn lit_state() -> Seq<u8> {
    seq![0x73u8, 0x74u8, 0x61u8, 0x74u8, 0x65u8]
}

fn push_lit_state(dst: &mut Vec<u8>)
    ensures
        final(dst)@ == old(dst)@ + lit_state(),
{
    dst.push(0x73);
    dst.push(0x74);
    dst.push(0x61);
    dst.push(0x74);
    dst.push(0x65);
    assert(dst@ =~= old(dst)@ + lit_state());
}

/// `ordering`, as bytes.
pub open spec fn lit_ordering() -> Seq<u8> {
    seq![0x6Fu8, 0x72u8, 0x64u8, 0x65u8, 0x72u8, 0x69u8, 0x6Eu8, 0x67u8]
}

fn push_lit_ordering(dst: &mut Vec<u8>)
    ensures
        final(dst)@ == old(dst)@ + lit_ordering(),
{
    dst.push(0x6F);
    dst.push(0x72);
    dst.push(0x64);
    dst.push(0x65);
    dst.push(0x72);
    dst.push(0x69);
    dst.push(0x6E);
    dst.push(0x67);
    assert(dst@ =~= old(dst)@ + lit_ordering());
}

/// `src_port`, as bytes.
pub open spec fn lit_src_port() -> Seq<u8> {
    seq![0x73u8, 0x72u8, 0x63u8, 0x5Fu8, 0x70u8, 0x6Fu8, 0x72u8, 0x74u8]
}

fn push_lit_src_port(dst: &mut Vec<u8>)
    ensures
        final(dst)@ == old(dst)@ + lit_src_port(),
{
    dst.push(0x73);
    dst.push(0x72);
    dst.push(0x63);
    dst.push(0x5F);
    dst.push(0x70);
    dst.push(0x6F);
    dst.push(0x72);
    dst.push(0x74);
    assert(dst@ =~= old(dst)@ + lit_src_port());
}

/// `src_channel`, as bytes.
pub open spec fn lit_src_channel() -> Seq<u8> {
    seq![0x73u8, 0x72u8, 0x63u8, 0x5Fu8, 0x63u8, 0x68u8, 0x61u8, 0x6Eu8, 0x6Eu8, 0x65u8, 0x6Cu8]
}

fn push_lit_src_channel(dst: &mut Vec<u8>)
    ensures
        final(dst)@ == old(dst)@ + lit_src_channel(),
{
    dst.push(0x73);
    dst.push(0x72);
    dst.push(0x63);
    dst.push(0x5F);
    dst.push(0x63);
    dst.push(0x68);
    dst.push(0x61);
    dst.push(0x6E);
    dst.push(0x6E);
    dst.push(0x65);
    dst.push(0x6C);
    assert(dst@ =~= old(dst)@ + lit_src_channel());
}

/// `dst_port`, as bytes.
pub open spec fn lit_dst_port() -> Seq<u8> {
    seq![0x64u8, 0x73u8, 0x74u8, 0x5Fu8, 0x70u8, 0x6Fu8, 0x72u8, 0x74u8]
}

fn push_lit_dst_port(dst: &mut Vec<u8>)
    ensures
        final(dst)@ == old(dst)@ + lit_dst_port(),
{
    dst.push(0x64);
    dst.push(0x73);
    dst.push(0x74);
    dst.push(0x5F);
    dst.push(0x70);
    dst.push(0x6F);
    dst.push(0x72);
    dst.push(0x74);
    assert(dst@ =~= old(dst)@ + lit_dst_port());
}

/// `dst_channel`, as bytes.
pub open spec fn lit_dst_channel() -> Seq<u8> {
    seq![0x64u8, 0x73u8, 0x74u8, 0x5Fu8, 0x63u8, 0x68u8, 0x61u8, 0x6Eu8, 0x6Eu8, 0x65u8, 0x6Cu8]
}

fn push_lit_dst_channel(dst: &mut Vec<u8>)
    ensures
        final(dst)@ == old(dst)@ + lit_dst_channel(),
{
    dst.push(0x64);
    dst.push(0x73);
    dst.push(0x74);
    dst.push(0x5F);
    dst.push(0x63);
    dst.push(0x68);
    dst.push(0x61);
    dst.push(0x6E);
    dst.push(0x6E);
    dst.push(0x65);
    dst.push(0x6C);
    assert(dst@ =~= old(dst)@ + lit_dst_channel());
}

/// `sequence`, as bytes.
pub open spec fn lit_sequence() -> Seq<u8> {
    seq![0x73u8, 0x65u8, 0x71u8, 0x75u8, 0x65u8, 0x6Eu8, 0x63u8, 0x65u8]
}

fn push_lit_sequence(dst: &mut Vec<u8>)
    ensures
        final(dst)@ == old(dst)@ + lit_sequence(),
{
    dst.push(0x73);
    dst.push(0x65);
    dst.push(0x71);
    dst.push(0x75);
    dst.push(0x65);
    dst.push(0x6E);
    dst.push(0x63);
    dst.push(0x65);
    assert(dst@ =~= old(dst)@ + lit_sequence());
}

/// `data`, as bytes.
pub open spec fn lit_data() -> Seq<u8> {
    seq![0x64u8, 0x61u8, 0x74u8, 0x61u8]
}

fn push_lit_data(dst: &mut Vec<u8>)
    ensures
        final(dst)@ == old(dst)@ + lit_data(),
{
    dst.push(0x64);
    dst.push(0x61);
    dst.push(0x74);
    dst.push(0x61);
    assert(dst@ =~= old(dst)@ + lit_data());
}

/// `timeout_height`, as bytes.
pub open spec fn lit_timeout_height() -> Seq<u8> {
    seq![0x74u8, 0x69u8, 0x6Du8, 0x65u8, 0x6Fu8, 0x75u8, 0x74u8, 0x5Fu8, 0x68u8, 0x65u8, 0x69u8, 0x67u8, 0x68u8, 0x74u8]
}

fn push_lit_timeout_height(dst: &mut Vec<u8>)
    ensures
        final(dst)@ == old(dst)@ + lit_timeout_height(),
{
    dst.push(0x74);
    dst.push(0x69);
    dst.push(0x6D);
    dst.push(0x65);
    dst.push(0x6F);
    dst.push(0x75);
    dst.push(0x74);
    dst.push(0x5F);
    dst.push(0x68);
    dst.push(0x65);
    dst.push(0x69);
    dst.push(0x67);
    dst.push(0x68);
    dst.push(0x74);
    assert(dst@ =~= old(dst)@ + lit_timeout_height());
}

/// `timeout_timestamp`, as bytes.
pub open spec fn lit_timeout_timestamp() -> Seq<u8> {
    seq![0x74u8, 0x69u8, 0x6Du8, 0x65u8, 0x6Fu8, 0x75u8, 0x74u8, 0x5Fu8, 0x74u8, 0x69u8, 0x6Du8, 0x65u8, 0x73u8, 0x74u8, 0x61u8, 0x6Du8, 0x70u8]
}

fn push_lit_timeout_timestamp(dst: &mut Vec<u8>)
    ensures
        final(dst)@ == old(dst)@ + lit_timeout_timestamp(),
{
    dst.push(0x74);
    dst.push(0x69);
    dst.push(0x6D);
    dst.push(0x65);
    dst.push(0x6F);
    dst.push(0x75);
    dst.push(0x74);
    dst.push(0x5F);
    dst.push(0x74);
    dst.push(0x69);
    dst.push(0x6D);
    dst.push(0x65);
    dst.push(0x73);
    dst.push(0x74);
    dst.push(0x61);
    dst.push(0x6D);
    dst.push(0x70);
    assert(dst@ =~= old(dst)@ + lit_timeout_timestamp());
}

/// `null`, as bytes.
pub open spec fn lit_null() -> Seq<u8> {
    seq![0x6Eu8, 0x75u8, 0x6Cu8, 0x6Cu8]
}

fn push_lit_null(dst: &mut Vec<u8>)
    ensures
        final(dst)@ == old(dst)@ + lit_null(),
{
    dst.push(0x6E);
    dst.push(0x75);
    dst.push(0x6C);
    dst.push(0x6C);
    assert(dst@ =~= old(dst)@ + lit_null());
}

/// A JSON string literal around `s` (no escaping: identifier and hex
/// content never holds `"` or `\`).
pub open spec fn jstr(s: Seq<u8>) -> Seq<u8> {
    seq![0x22u8] + s + seq![0x22u8]
}

/// An object key: `"name":`.
pub open spec fn jkey(name: Seq<u8>) -> Seq<u8> {
    seq![0x22u8] + name + seq![0x22u8, 0x3Au8]
}

fn push_quote(dst: &mut Vec<u8>)
    ensures
        final(dst)@ == old(dst)@ + seq![0x22u8],
{
    dst.push(0x22);
    assert(dst@ =~= old(dst)@ + seq![0x22u8]);
}

/// `{"revision":R,"height":H}`.
pub open spec fn spec_json_height(h: Height) -> Seq<u8> {
    seq![0x7Bu8] + jkey(lit_revision()) + spec_dec(h.revision as nat) + seq![0x2Cu8] + jkey(
        lit_height(),
    ) + spec_dec(h.height as nat) + seq![0x7Du8]
}

fn push_json_height(dst: &mut Vec<u8>, h: &Height)
    ensures
        final(dst)@ == old(dst)@ + spec_json_height(*h),
{
    dst.push(0x7B);
    push_quote(dst);
    push_lit_revision(dst);
    dst.push(0x22);
    dst.push(0x3A);
    let r = dec_of_u64(h.revision);
    push_all(dst, &r);
    dst.push(0x2C);
    push_quote(dst);
    push_lit_height(dst);
    dst.push(0x22);
    dst.push(0x3A);
    let hh = dec_of_u64(h.height);
    push_all(dst, &hh);
    dst.push(0x7D);
    assert(dst@ =~= old(dst)@ + spec_json_height(*h));
}

/// `{"height":{...},"timestamp":T}`.
pub open spec fn spec_json_status(st: ChainStatus) -> Seq<u8> {
    seq![0x7Bu8] + jkey(lit_height()) + spec_json_height(st.height) + seq![0x2Cu8] + jkey(
        lit_timestamp(),
    ) + spec_dec(st.timestamp as nat) + seq![0x7Du8]
}

fn push_json_status(dst: &mut Vec<u8>, st: &ChainStatus)
    ensures
        final(dst)@ == old(dst)@ + spec_json_status(*st),
{
    dst.push(0x7B);
    push_quote(dst);
    push_lit_height(dst);
    dst.push(0x22);
    dst.push(0x3A);
    push_json_height(dst, &st.height);
    dst.push(0x2C);
    push_quote(dst);
    push_lit_timestamp(dst);
    dst.push(0x22);
    dst.push(0x3A);
    let t = dec_of_u64(st.timestamp);
    push_all(dst, &t);
    dst.push(0x7D);
    assert(dst@ =~= old(dst)@ + spec_json_status(*st));
}

/// `{"client_id":"...","state":N}`.
pub open spec fn spec_json_connection_end(c: ConnectionEnd) -> Seq<u8> {
    seq![0x7Bu8] + jkey(lit_client_id()) + jstr(c.client_id@) + seq![0x2Cu8] + jkey(lit_state())
        + spec_dec(c.state as nat) + seq![0x7Du8]
}

fn push_json_connection_end(dst: &mut Vec<u8>, c: &ConnectionEnd)
    ensures
        final(dst)@ == old(dst)@ + spec_json_connection_end(*c),
{
    dst.push(0x7B);
    push_quote(dst);
    push_lit_client_id(dst);
    dst.push(0x22);
    dst.push(0x3A);
    push_quote(dst);
    push_all(dst, &c.client_id);
    push_quote(dst);
    dst.push(0x2C);
    push_quote(dst);
    push_lit_state(dst);
    dst.push(0x22);
    dst.push(0x3A);
    let s = dec_of_u64(c.state);
    push_all(dst, &s);
    dst.push(0x7D);
    assert(dst@ =~= old(dst)@ + spec_json_connection_end(*c));
}

/// `{"state":N,"ordering":N}`.
pub open spec fn spec_json_channel_end(c: ChannelEnd) -> Seq<u8> {
    seq![0x7Bu8] + jkey(lit_state()) + spec_dec(c.state as nat) + seq![0x2Cu8] + jkey(
        lit_ordering(),
    ) + spec_dec(c.ordering as nat) + seq![0x7Du8]
}

fn push_json_channel_end(dst: &mut Vec<u8>, c: &ChannelEnd)
    ensures
        final(dst)@ == old(dst)@ + spec_json_channel_end(*c),
{
    dst.push(0x7B);
    push_quote(dst);
    push_lit_state(dst);
    dst.push(0x22);
    dst.push(0x3A);
    let s = dec_of_u64(c.state);
    push_all(dst, &s);
    dst.push(0x2C);
    push_quote(dst);
    push_lit_ordering(dst);
    dst.push(0x22);
    dst.push(0x3A);
    let o = dec_of_u64(c.ordering);
    push_all(dst, &o);
    dst.push(0x7D);
    assert(dst@ =~= old(dst)@ + spec_json_channel_end(*c));
}

/// `{"height":{...}}` for a tracked client's latest height.
pub open spec fn spec_json_client_state(c: ClientState) -> Seq<u8> {
    seq![0x7Bu8] + jkey(lit_height()) + spec_json_height(c.latest_height) + seq![0x7Du8]
}

fn push_json_client_state(dst: &mut Vec<u8>, c: &ClientState)
    ensures
        final(dst)@ == old(dst)@ + spec_json_client_state(*c),
{
    dst.push(0x7B);
    push_quote(dst);
    push_lit_height(dst);
    dst.push(0x22);
    dst.push(0x3A);
    push_json_height(dst, &c.latest_height);
    dst.push(0x7D);
    assert(dst@ =~= old(dst)@ + spec_json_client_state(*c));
}

/// `{"height":{...}}` for one consensus state.
pub open spec fn spec_json_consensus(c: ConsensusStateAtHeight) -> Seq<u8> {
    seq![0x7Bu8] + jkey(lit_height()) + spec_json_height(c.height) + seq![0x7Du8]
}

fn push_json_consensus(dst: &mut Vec<u8>, c: &ConsensusStateAtHeight)
    ensures
        final(dst)@ == old(dst)@ + spec_json_consensus(*c),
{
    dst.push(0x7B);
    push_quote(dst);
    push_lit_height(dst);
    dst.push(0x22);
    dst.push(0x3A);
    push_json_height(dst, &c.height);
    dst.push(0x7D);
    assert(dst@ =~= old(dst)@ + spec_json_consensus(*c));
}

/// A consensus-state array, oldest first.
pub open spec fn spec_json_consensus_items(l: Seq<ConsensusStateAtHeight>) -> Seq<u8>
    decreases l.len(),
{
    if l.len() == 0 {
        Seq::empty()
    } else if l.len() == 1 {
        spec_json_consensus(l[0])
    } else {
        spec_json_consensus_items(l.drop_last()) + seq![0x2Cu8] + spec_json_consensus(l.last())
    }
}

fn push_json_consensus_list(dst: &mut Vec<u8>, l: &Vec<ConsensusStateAtHeight>)
    ensures
        final(dst)@ == old(dst)@ + seq![0x5Bu8] + spec_json_consensus_items(l@) + seq![0x5Du8],
{
    dst.push(0x5B);
    let ghost base = dst@;
    let n = l.len();
    let mut i: usize = 0;
    proof {
        assert(l@.subrange(0, 0) =~= Seq::<ConsensusStateAtHeight>::empty());
        assert(dst@ =~= base + spec_json_consensus_items(l@.subrange(0, 0)));
    }
    while i < n
        invariant
            n == l@.len(),
            i <= n,
            dst@ == base + spec_json_consensus_items(l@.subrange(0, i as int)),
        decreases n - i,
    {
        if i > 0 {
            dst.push(0x2C);
        }
        push_json_consensus(dst, &l[i]);
        proof {
            let t = l@.subrange(0, i + 1);
            assert(t.drop_last() =~= l@.subrange(0, i as int));
            assert(t.last() == l@[i as int]);
            assert(dst@ =~= base + spec_json_consensus_items(t));
        }
        i += 1;
    }
    proof {
        assert(l@.subrange(0, n as int) =~= l@);
        assert(dst@ =~= old(dst)@ + seq![0x5Bu8] + spec_json_consensus_items(l@));
    }
    dst.push(0x5D);
    assert(dst@ =~= old(dst)@ + seq![0x5Bu8] + spec_json_consensus_items(l@) + seq![0x5Du8]);
}

/// `null`, or the timeout height object.
pub open spec fn spec_json_timeout_height(o: Option<Height>) -> Seq<u8> {
    match o {
        Some(h) => spec_json_height(h),
        None => lit_null(),
    }
}

/// The packet's address fields: ports, channels, sequence.
pub open spec fn spec_json_packet_head(p: Packet) -> Seq<u8> {
    seq![0x7Bu8] + jkey(lit_src_port()) + jstr(p.src_port@) + seq![0x2Cu8] + jkey(
        lit_src_channel(),
    ) + jstr(p.src_channel@) + seq![0x2Cu8] + jkey(lit_dst_port()) + jstr(p.dst_port@)
        + seq![0x2Cu8] + jkey(lit_dst_channel()) + jstr(p.dst_channel@) + seq![0x2Cu8] + jkey(
        lit_sequence(),
    ) + spec_dec(p.sequence as nat)
}

/// The packet's payload and timeout fields.
pub open spec fn spec_json_packet_tail(p: Packet) -> Seq<u8> {
    seq![0x2Cu8] + jkey(lit_data()) + jstr(spec_hex(p.data@)) + seq![0x2Cu8] + jkey(
        lit_timeout_height(),
    ) + spec_json_timeout_height(p.timeout_height) + seq![0x2Cu8] + jkey(lit_timeout_timestamp())
        + spec_dec(p.timeout_timestamp as nat) + seq![0x7Du8]
}

/// One packet, with its data bytes in uppercase hex.
pub open spec fn spec_json_packet(p: Packet) -> Seq<u8> {
    spec_json_packet_head(p) + spec_json_packet_tail(p)
}

#[verifier::rlimit(100)]
fn push_json_packet(dst: &mut Vec<u8>, p: &Packet)
    ensures
        final(dst)@ == old(dst)@ + spec_json_packet(*p),
{
    dst.push(0x7B);
    push_quote(dst);
    push_lit_src_port(dst);
    dst.push(0x22);
    dst.push(0x3A);
    push_quote(dst);
    push_all(dst, &p.src_port);
    push_quote(dst);
    dst.push(0x2C);
    push_quote(dst);
    push_lit_src_channel(dst);
    dst.push(0x22);
    dst.push(0x3A);
    push_quote(dst);
    push_all(dst, &p.src_channel);
    push_quote(dst);
    dst.push(0x2C);
    push_quote(dst);
    push_lit_dst_port(dst);
    dst.push(0x22);
    dst.push(0x3A);
    push_quote(dst);
    push_all(dst, &p.dst_port);
    push_quote(dst);
    dst.push(0x2C);
    push_quote(dst);
    push_lit_dst_channel(dst);
    dst.push(0x22);
    dst.push(0x3A);
    push_quote(dst);
    push_all(dst, &p.dst_channel);
    push_quote(dst);
    dst.push(0x2C);
    push_quote(dst);
    push_lit_sequence(dst);
    dst.push(0x22);
    dst.push(0x3A);
    let sq = dec_of_u64(p.sequence);
    push_all(dst, &sq);
    assert(dst@ =~= old(dst)@ + spec_json_packet_head(*p));
    let ghost mid = dst@;
    dst.push(0x2C);
    push_quote(dst);
    push_lit_data(dst);
    dst.push(0x22);
    dst.push(0x3A);
    push_quote(dst);
    let hx = hex_of(&p.data);
    push_all(dst, &hx);
    push_quote(dst);
    dst.push(0x2C);
    push_quote(dst);
    push_lit_timeout_height(dst);
    dst.push(0x22);
    dst.push(0x3A);
    match &p.timeout_height {
        Some(h) => push_json_height(dst, h),
        None => push_lit_null(dst),
    }
    dst.push(0x2C);
    push_quote(dst);
    push_lit_timeout_timestamp(dst);
    dst.push(0x22);
    dst.push(0x3A);
    let tt = dec_of_u64(p.timeout_timestamp);
    push_all(dst, &tt);
    dst.push(0x7D);
    assert(dst@ =~= mid + spec_json_packet_tail(*p));
    assert(dst@ == old(dst)@ + spec_json_packet(*p));
}

/// The `connections` object body: `"conn":{...}` entries joined by
/// commas, in stored order.
pub open spec fn spec_json_connections(es: Seq<(Vec<u8>, ConnectionEnd)>) -> Seq<u8>
    decreases es.len(),
{
    if es.len() == 0 {
        Seq::empty()
    } else if es.len() == 1 {
        jkey(es[0].0@) + spec_json_connection_end(es[0].1)
    } else {
        spec_json_connections(es.drop_last()) + seq![0x2Cu8] + jkey(es.last().0@)
            + spec_json_connection_end(es.last().1)
    }
}

fn push_json_connections(dst: &mut Vec<u8>, es: &Vec<(Vec<u8>, ConnectionEnd)>)
    ensures
        final(dst)@ == old(dst)@ + spec_json_connections(es@),
{
    let ghost base = dst@;
    let n = es.len();
    let mut i: usize = 0;
    proof {
        assert(es@.subrange(0, 0) =~= Seq::<(Vec<u8>, ConnectionEnd)>::empty());
        assert(dst@ =~= base + spec_json_connections(es@.subrange(0, 0)));
    }
    while i < n
        invariant
            n == es@.len(),
            i <= n,
            dst@ == base + spec_json_connections(es@.subrange(0, i as int)),
        decreases n - i,
    {
        if i > 0 {
            dst.push(0x2C);
        }
        push_quote(dst);
        push_all(dst, &es[i].0);
        dst.push(0x22);
        dst.push(0x3A);
        push_json_connection_end(dst, &es[i].1);
        proof {
            let t = es@.subrange(0, i + 1);
            assert(t.drop_last() =~= es@.subrange(0, i as int));
            assert(t.last() == es@[i as int]);
            assert(dst@ =~= base + spec_json_connections(t));
        }
        i += 1;
    }
    proof {
        assert(es@.subrange(0, n as int) =~= es@);
    }
}

/// The `channels` object body, keyed `channel:port`.
pub open spec fn spec_json_channels(es: Seq<(Key<PortChannelId>, ChannelEnd)>) -> Seq<u8>
    decreases es.len(),
{
    if es.len() == 0 {
        Seq::empty()
    } else if es.len() == 1 {
        jkey(es[0].0.0.spec_encoded()) + spec_json_channel_end(es[0].1)
    } else {
        spec_json_channels(es.drop_last()) + seq![0x2Cu8] + jkey(es.last().0.0.spec_encoded())
            + spec_json_channel_end(es.last().1)
    }
}

fn push_json_channels(dst: &mut Vec<u8>, es: &Vec<(Key<PortChannelId>, ChannelEnd)>)
    ensures
        final(dst)@ == old(dst)@ + spec_json_channels(es@),
{
    let ghost base = dst@;
    let n = es.len();
    let mut i: usize = 0;
    proof {
        assert(es@.subrange(0, 0) =~= Seq::<(Key<PortChannelId>, ChannelEnd)>::empty());
        assert(dst@ =~= base + spec_json_channels(es@.subrange(0, 0)));
    }
    while i < n
        invariant
            n == es@.len(),
            i <= n,
            dst@ == base + spec_json_channels(es@.subrange(0, i as int)),
        decreases n - i,
    {
        if i > 0 {
            dst.push(0x2C);
        }
        push_quote(dst);
        let k = es[i].0.encode();
        push_all(dst, &k);
        dst.push(0x22);
        dst.push(0x3A);
        let ce = es[i].1;
        push_json_channel_end(dst, &ce);
        proof {
            let t = es@.subrange(0, i + 1);
            assert(t.drop_last() =~= es@.subrange(0, i as int));
            assert(t.last() == es@[i as int]);
            assert(dst@ =~= base + spec_json_channels(t));
        }
        i += 1;
    }
    proof {
        assert(es@.subrange(0, n as int) =~= es@);
    }
}

/// The `client_states` object body.
pub open spec fn spec_json_client_states(es: Seq<(Vec<u8>, ClientState)>) -> Seq<u8>
    decreases es.len(),
{
    if es.len() == 0 {
        Seq::empty()
    } else if es.len() == 1 {
        jkey(es[0].0@) + spec_json_client_state(es[0].1)
    } else {
        spec_json_client_states(es.drop_last()) + seq![0x2Cu8] + jkey(es.last().0@)
            + spec_json_client_state(es.last().1)
    }
}

fn push_json_client_states(dst: &mut Vec<u8>, es: &Vec<(Vec<u8>, ClientState)>)
    ensures
        final(dst)@ == old(dst)@ + spec_json_client_states(es@),
{
    let ghost base = dst@;
    let n = es.len();
    let mut i: usize = 0;
    proof {
        assert(es@.subrange(0, 0) =~= Seq::<(Vec<u8>, ClientState)>::empty());
        assert(dst@ =~= base + spec_json_client_states(es@.subrange(0, 0)));
    }
    while i < n
        invariant
            n == es@.len(),
            i <= n,
            dst@ == base + spec_json_client_states(es@.subrange(0, i as int)),
        decreases n - i,
    {
        if i > 0 {
            dst.push(0x2C);
        }
        push_quote(dst);
        push_all(dst, &es[i].0);
        dst.push(0x22);
        dst.push(0x3A);
        let cs = es[i].1;
        push_json_client_state(dst, &cs);
        proof {
            let t = es@.subrange(0, i + 1);
            assert(t.drop_last() =~= es@.subrange(0, i as int));
            assert(t.last() == es@[i as int]);
            assert(dst@ =~= base + spec_json_client_states(t));
        }
        i += 1;
    }
    proof {
        assert(es@.subrange(0, n as int) =~= es@);
    }
}

/// The `consensus_states` object body: each client's ordered array.
pub open spec fn spec_json_consensus_map(es: Seq<(Vec<u8>, Vec<ConsensusStateAtHeight>)>) -> Seq<
    u8,
>
    decreases es.len(),
{
    if es.len() == 0 {
        Seq::empty()
    } else if es.len() == 1 {
        jkey(es[0].0@) + seq![0x5Bu8] + spec_json_consensus_items(es[0].1@) + seq![0x5Du8]
    } else {
        spec_json_consensus_map(es.drop_last()) + seq![0x2Cu8] + jkey(es.last().0@) + seq![0x5Bu8]
            + spec_json_consensus_items(es.last().1@) + seq![0x5Du8]
    }
}

fn push_json_consensus_map(dst: &mut Vec<u8>, es: &Vec<(Vec<u8>, Vec<ConsensusStateAtHeight>)>)
    ensures
        final(dst)@ == old(dst)@ + spec_json_consensus_map(es@),
{
    let ghost base = dst@;
    let n = es.len();
    let mut i: usize = 0;
    proof {
        assert(es@.subrange(0, 0) =~= Seq::<(Vec<u8>, Vec<ConsensusStateAtHeight>)>::empty());
        assert(dst@ =~= base + spec_json_consensus_map(es@.subrange(0, 0)));
    }
    while i < n
        invariant
            n == es@.len(),
            i <= n,
            dst@ == base + spec_json_consensus_map(es@.subrange(0, i as int)),
        decreases n - i,
    {
        if i > 0 {
            dst.push(0x2C);
        }
        push_quote(dst);
        push_all(dst, &es[i].0);
        dst.push(0x22);
        dst.push(0x3A);
        push_json_consensus_list(dst, &es[i].1);
        proof {
            let t = es@.subrange(0, i + 1);
            assert(t.drop_last() =~= es@.subrange(0, i as int));
            assert(t.last() == es@[i as int]);
            assert(dst@ =~= base + spec_json_consensus_map(t));
        }
        i += 1;
    }
    proof {
        assert(es@.subrange(0, n as int) =~= es@);
    }
}

/// The `pending_sent_packets` object body, keyed
/// `port/channel/sequence`.
pub open spec fn spec_json_pending(es: Seq<(PacketId, Packet)>) -> Seq<u8>
    decreases es.len(),
{
    if es.len() == 0 {
        Seq::empty()
    } else if es.len() == 1 {
        jkey(es[0].0.spec_encoded()) + spec_json_packet(es[0].1)
    } else {
        spec_json_pending(es.drop_last()) + seq![0x2Cu8] + jkey(es.last().0.spec_encoded())
            + spec_json_packet(es.last().1)
    }
}

fn push_json_pending(dst: &mut Vec<u8>, es: &Vec<(PacketId, Packet)>)
    ensures
        final(dst)@ == old(dst)@ + spec_json_pending(es@),
{
    let ghost base = dst@;
    let n = es.len();
    let mut i: usize = 0;
    proof {
        assert(es@.subrange(0, 0) =~= Seq::<(PacketId, Packet)>::empty());
        assert(dst@ =~= base + spec_json_pending(es@.subrange(0, 0)));
    }
    while i < n
        invariant
            n == es@.len(),
            i <= n,
            dst@ == base + spec_json_pending(es@.subrange(0, i as int)),
        decreases n - i,
    {
        if i > 0 {
            dst.push(0x2C);
        }
        push_quote(dst);
        let k = es[i].0.encode();
        push_all(dst, &k);
        dst.push(0x22);
        dst.push(0x3A);
        push_json_packet(dst, &es[i].1);
        proof {
            let t = es@.subrange(0, i + 1);
            assert(t.drop_last() =~= es@.subrange(0, i as int));
            assert(t.last() == es@[i as int]);
            assert(dst@ =~= base + spec_json_pending(t));
        }
        i += 1;
    }
    proof {
        assert(es@.subrange(0, n as int) =~= es@);
    }
}

/// The whole document: every component of `IbcData`, in a fixed
/// field order.
pub open spec fn spec_json_ibc_data(d: IbcData) -> Seq<u8> {
    seq![0x7Bu8] + jkey(lit_app_status()) + spec_json_status(d.app_status) + seq![0x2Cu8] + jkey(
        lit_connections(),
    ) + seq![0x7Bu8] + spec_json_connections(d.connections@) + seq![0x7Du8] + seq![0x2Cu8] + jkey(
        lit_channels(),
    ) + seq![0x7Bu8] + spec_json_channels(d.channels@) + seq![0x7Du8] + seq![0x2Cu8] + jkey(
        lit_client_states(),
    ) + seq![0x7Bu8] + spec_json_client_states(d.client_states@) + seq![0x7Du8] + seq![0x2Cu8]
        + jkey(lit_consensus_states()) + seq![0x7Bu8] + spec_json_consensus_map(
        d.consensus_states@,
    ) + seq![0x7Du8] + seq![0x2Cu8] + jkey(lit_pending_sent_packets()) + seq![0x7Bu8]
        + spec_json_pending(d.pending_sent_packets@) + seq![0x7Du8] + seq![0x7Du8]
}

/// Serialises a data document.  Deterministic: the output is a
/// function of the data alone, so equal data round-trips to equal
/// rows.
#[verifier::rlimit(100)]
pub fn ibc_data_to_json(d: &IbcData) -> (r: Vec<u8>)
    ensures
        r@ == spec_json_ibc_data(*d),
{
    let mut dst: Vec<u8> = Vec::new();
    dst.push(0x7B);
    push_quote(&mut dst);
    push_lit_app_status(&mut dst);
    dst.push(0x22);
    dst.push(0x3A);
    push_json_status(&mut dst, &d.app_status);
    dst.push(0x2C);
    push_quote(&mut dst);
    push_lit_connections(&mut dst);
    dst.push(0x22);
    dst.push(0x3A);
    dst.push(0x7B);
    push_json_connections(&mut dst, &d.connections);
    dst.push(0x7D);
    dst.push(0x2C);
    push_quote(&mut dst);
    push_lit_channels(&mut dst);
    dst.push(0x22);
    dst.push(0x3A);
    dst.push(0x7B);
    push_json_channels(&mut dst, &d.channels);
    dst.push(0x7D);
    dst.push(0x2C);
    push_quote(&mut dst);
    push_lit_client_states(&mut dst);
    dst.push(0x22);
    dst.push(0x3A);
    dst.push(0x7B);
    push_json_client_states(&mut dst, &d.client_states);
    dst.push(0x7D);
    dst.push(0x2C);
    push_quote(&mut dst);
    push_lit_consensus_states(&mut dst);
    dst.push(0x22);
    dst.push(0x3A);
    dst.push(0x7B);
    push_json_consensus_map(&mut dst, &d.consensus_states);
    dst.push(0x7D);
    dst.push(0x2C);
    push_quote(&mut dst);
    push_lit_pending_sent_packets(&mut dst);
    dst.push(0x22);
    dst.push(0x3A);
    dst.push(0x7B);
    push_json_pending(&mut dst, &d.pending_sent_packets);
    dst.push(0x7D);
    dst.push(0x7D);
    assert(dst@ =~= spec_json_ibc_data(*d));
    dst
}

/// The persisted row for one snapshot: its height in decimal, and
/// the data document.
pub fn snapshot_row(s: &IbcSnapshot) -> (r: (Vec<u8>, Vec<u8>))
    ensures
        r.0@ == spec_dec(s.height as nat),
        r.1@ == spec_json_ibc_data(s.data),
{
    (dec_of_u64(s.height), ibc_data_to_json(&s.data))
}

} // verus!
