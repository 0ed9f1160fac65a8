//! Height-indexed snapshots of consolidated IBC state and the bounded
//! in-memory snapshot manager: consistent point-in-time reads without
//! an RPC per query, with the oldest entries vacuumed beyond a
//! retention window of `KEEP_SNAPSHOTS` heights.
use vstd::prelude::*;

use crate::error::Error;
use crate::ids::{
    ChannelId, ClientId, ConnectionId, Height, Key, PacketId, PortChannelId, PortId, Sequence,
    Timestamp,
};

verus! {

/// How many most recent snapshot heights are retained.
pub const KEEP_SNAPSHOTS: u64 = 8;

/// Latest finalised height and block time of a chain.
#[derive(Clone, Copy, Debug, PartialEq, Eq, Structural)]
pub struct ChainStatus {
    pub height: Height,
    pub timestamp: Timestamp,
}

/// One end of an open connection.
#[derive(Clone, Debug, PartialEq, Eq)]
pub struct ConnectionEnd {
    pub client_id: ClientId,
    pub state: u64,
}

/// One end of an open channel.
#[derive(Clone, Copy, Debug, PartialEq, Eq, Structural)]
pub struct ChannelEnd {
    pub state: u64,
    pub ordering: u64,
}

/// The tracked state of a counterparty light client.
#[derive(Clone, Copy, Debug, PartialEq, Eq, Structural)]
pub struct ClientState {
    pub latest_height: Height,
}

/// A consensus state recorded for a client at one height.
#[derive(Clone, Copy, Debug, PartialEq, Eq, Structural)]
pub struct ConsensusStateAtHeight {
    pub height: Height,
}

/// An observed packet, immutable once seen.
#[derive(Clone, Debug, PartialEq, Eq)]
pub struct Packet {
    pub src_port: PortId,
    pub src_channel: ChannelId,
    pub dst_port: PortId,
    pub dst_channel: ChannelId,
    pub sequence: Sequence,
    pub data: Vec<u8>,
    pub timeout_height: Option<Height>,
    pub timeout_timestamp: Timestamp,
}

/// Some pending entry shares entry `i`'s `(port, channel)` bucket and
/// carries sequence `s`.
pub open spec fn pending_bucket_has(pending: Seq<(PacketId, Packet)>, i: int, s: Sequence) -> bool {
    exists|j: int|
        0 <= j < pending.len() && (#[trigger] pending[j]).0.port_id@ == pending[i].0.port_id@
            && pending[j].0.channel_id@ == pending[i].0.channel_id@ && pending[j].0.sequence == s
}

/// Consolidated IBC state of one chain at one height.  The maps are
/// association lists with pairwise distinct keys.
#[derive(Clone, Debug, PartialEq, Eq)]
pub struct IbcData {
    pub app_status: ChainStatus,
    pub connections: Vec<(ConnectionId, ConnectionEnd)>,
    pub channels: Vec<(Key<PortChannelId>, ChannelEnd)>,
    pub client_states: Vec<(ClientId, ClientState)>,
    pub consensus_states: Vec<(ClientId, Vec<ConsensusStateAtHeight>)>,
    pub pending_sent_packets: Vec<(PacketId, Packet)>,
}

impl IbcData {
    /// Every recorded consensus state sits at or below `height`.
    pub open spec fn consensus_bounded(self, height: u64) -> bool {
        forall|i: int, k: int|
            0 <= i < self.consensus_states@.len() && 0 <= k
                < self.consensus_states@[i].1@.len() ==> (#[trigger] self.consensus_states@[i].1@[k]).height.height
                <= height
    }

    /// Map keys are pairwise distinct in every association list.
    pub open spec fn keys_unique(self) -> bool {
        &&& forall|i: int, j: int|
            0 <= i < j < self.connections@.len() ==> (#[trigger] self.connections@[i]).0@ != (
            #[trigger] self.connections@[j]).0@
        &&& forall|i: int, j: int|
            0 <= i < j < self.channels@.len() ==> (#[trigger] self.channels@[i]).0.0.spec_encoded()
                != (#[trigger] self.channels@[j]).0.0.spec_encoded()
        &&& forall|i: int, j: int|
            0 <= i < j < self.client_states@.len() ==> (#[trigger] self.client_states@[i]).0@ != (
            #[trigger] self.client_states@[j]).0@
        &&& forall|i: int, j: int|
            0 <= i < j < self.consensus_states@.len() ==> (
            #[trigger] self.consensus_states@[i]).0@ != (#[trigger] self.consensus_states@[j]).0@
        &&& forall|i: int, j: int|
            0 <= i < j < self.pending_sent_packets@.len() ==> (
            #[trigger] self.pending_sent_packets@[i]).0.spec_encoded() != (
            #[trigger] self.pending_sent_packets@[j]).0.spec_encoded()
    }

    /// Each pending entry's key repeats its packet's source address.
    pub open spec fn pending_keys_consistent(self) -> bool {
        forall|i: int|
            0 <= i < self.pending_sent_packets@.len() ==> {
                let e = #[trigger] self.pending_sent_packets@[i];
                e.0.port_id@ == e.1.src_port@ && e.0.channel_id@ == e.1.src_channel@ && e.0.sequence
                    == e.1.sequence
            }
    }

    /// Within each `(port, channel)` bucket the pending sequences are
    /// at least 1 and have no gap below the largest observed.
    pub open spec fn pending_contiguous(self) -> bool {
        forall|i: int, s: Sequence|
            0 <= i < self.pending_sent_packets@.len() && 1 <= s
                < self.pending_sent_packets@[i].0.sequence ==> #[trigger] pending_bucket_has(
                self.pending_sent_packets@,
                i,
                s,
            )
    }

    pub open spec fn pending_sequences_positive(self) -> bool {
        forall|i: int|
            0 <= i < self.pending_sent_packets@.len() ==> (
            #[trigger] self.pending_sent_packets@[i]).0.sequence >= 1
    }

    /// Every pending key is a well-formed packet address.
    pub open spec fn pending_ids_valid(self) -> bool {
        forall|i: int|
            0 <= i < self.pending_sent_packets@.len() ==> (
            #[trigger] self.pending_sent_packets@[i]).0.wf()
    }

    pub open spec fn wf(self, height: u64) -> bool {
        &&& self.consensus_bounded(height)
        &&& self.keys_unique()
        &&& self.pending_keys_consistent()
        &&& self.pending_sequences_positive()
        &&& self.pending_ids_valid()
        &&& self.pending_contiguous()
    }

    /// A `SendPacket` was observed: the packet enters
    /// `pending_sent_packets` under its address, with the next
    /// sequence of its `(port, channel)` bucket, and every pending
    /// invariant is preserved.
    pub fn record_sent_packet(&mut self, key: PacketId, packet: Packet)
        requires
            old(self).keys_unique(),
            old(self).pending_keys_consistent(),
            old(self).pending_sequences_positive(),
            old(self).pending_ids_valid(),
            old(self).pending_contiguous(),
            key.wf(),
            key.sequence >= 1,
            key.port_id@ == packet.src_port@,
            key.channel_id@ == packet.src_channel@,
            key.sequence == packet.sequence,
            forall|i: int|
                0 <= i < old(self).pending_sent_packets@.len() && (
                #[trigger] old(self).pending_sent_packets@[i]).0.port_id@ == key.port_id@ && old(
                    self,
                ).pending_sent_packets@[i].0.channel_id@ == key.channel_id@ ==> old(
                    self,
                ).pending_sent_packets@[i].0.sequence < key.sequence,
            key.sequence > 1 ==> exists|i: int|
                0 <= i < old(self).pending_sent_packets@.len() && (
                #[trigger] old(self).pending_sent_packets@[i]).0.port_id@ == key.port_id@ && old(
                    self,
                ).pending_sent_packets@[i].0.channel_id@ == key.channel_id@ && old(
                    self,
                ).pending_sent_packets@[i].0.sequence == key.sequence - 1,
        ensures
            final(self).pending_sent_packets@ == old(self).pending_sent_packets@.push(
                (key, packet),
            ),
            final(self).app_status == old(self).app_status,
            final(self).connections@ == old(self).connections@,
            final(self).channels@ == old(self).channels@,
            final(self).client_states@ == old(self).client_states@,
            final(self).consensus_states@ == old(self).consensus_states@,
            final(self).keys_unique(),
            final(self).pending_keys_consistent(),
            final(self).pending_sequences_positive(),
            final(self).pending_ids_valid(),
            final(self).pending_contiguous(),
            forall|h: u64| old(self).wf(h) ==> final(self).wf(h),
    {
        let ghost old_p = self.pending_sent_packets@;
        self.pending_sent_packets.push((key, packet));
        proof {
            let p = self.pending_sent_packets@;
            let n = old_p.len() as int;
            assert(p == old_p.push((key, packet)));
            assert(p[n].0 == key);
            // Key uniqueness: a clashing encoding would force equal
            // fields, and the bucket precondition rules that out.
            assert forall|i: int, j: int|
                0 <= i < j < p.len() implies (#[trigger] p[i]).0.spec_encoded() != (
            #[trigger] p[j]).0.spec_encoded() by {
                if j == n {
                    assert(p[i] == old_p[i]);
                    if p[i].0.spec_encoded() == key.spec_encoded() {
                        crate::ids::lemma_packet_id_encode_decomp(p[i].0);
                        crate::ids::lemma_packet_id_encode_decomp(key);
                        crate::ids::lemma_packet_id_decomp_unique(
                            key.spec_encoded(),
                            p[i].0,
                            crate::codec::spec_dec(p[i].0.sequence as nat),
                            key,
                            crate::codec::spec_dec(key.sequence as nat),
                        );
                        assert(old_p[i].0.sequence < key.sequence);
                        assert(false);
                    }
                } else {
                    assert(p[i] == old_p[i]);
                    assert(p[j] == old_p[j]);
                }
            }
            // Contiguity: old entries keep their witnesses; the new
            // entry reaches every lower sequence through the bucket's
            // previous top.
            assert forall|i: int, s: Sequence|
                0 <= i < p.len() && 1 <= s < p[i].0.sequence implies #[trigger] pending_bucket_has(
                p,
                i,
                s,
            ) by {
                if i < n {
                    assert(p[i] == old_p[i]);
                    assert(pending_bucket_has(old_p, i, s));
                    let w = choose|w: int|
                        0 <= w < old_p.len() && (#[trigger] old_p[w]).0.port_id@
                            == old_p[i].0.port_id@ && old_p[w].0.channel_id@
                            == old_p[i].0.channel_id@ && old_p[w].0.sequence == s;
                    assert(p[w] == old_p[w]);
                } else {
                    let w = choose|w: int|
                        0 <= w < old_p.len() && (#[trigger] old_p[w]).0.port_id@ == key.port_id@
                            && old_p[w].0.channel_id@ == key.channel_id@ && old_p[w].0.sequence
                            == key.sequence - 1;
                    if s == key.sequence - 1 {
                        assert(p[w] == old_p[w]);
                    } else {
                        assert(s < old_p[w].0.sequence);
                        assert(pending_bucket_has(old_p, w, s));
                        let v = choose|v: int|
                            0 <= v < old_p.len() && (#[trigger] old_p[v]).0.port_id@
                                == old_p[w].0.port_id@ && old_p[v].0.channel_id@
                                == old_p[w].0.channel_id@ && old_p[v].0.sequence == s;
                        assert(p[v] == old_p[v]);
                    }
                }
            }
        }
    }
}

/// A materialised view of one chain's IBC state, keyed by height.
#[derive(Clone, Debug, PartialEq, Eq)]
pub struct IbcSnapshot {
    pub height: u64,
    pub data: IbcData,
}

impl IbcSnapshot {
    pub open spec fn wf(self) -> bool {
        self.data.wf(self.height)
    }
}

/// In a well-formed snapshot, every recorded consensus state's height
/// is at most the snapshot's own height.
pub proof fn lemma_consensus_heights_bounded(s: IbcSnapshot, i: int, k: int)
    requires
        s.wf(),
        0 <= i < s.data.consensus_states@.len(),
        0 <= k < s.data.consensus_states@[i].1@.len(),
    ensures
        s.data.consensus_states@[i].1@[k].height.height <= s.height,
{
}

/// In a well-formed snapshot, the pending sequences of each
/// `(port, channel)` bucket are gap-free below the largest observed:
/// below any pending sequence, every positive sequence of the same
/// bucket is pending too.
pub proof fn lemma_pending_sequences_gap_free(d: IbcData, height: u64, i: int, s: Sequence)
    requires
        d.wf(height),
        0 <= i < d.pending_sent_packets@.len(),
        1 <= s < d.pending_sent_packets@[i].0.sequence,
    ensures
        pending_bucket_has(d.pending_sent_packets@, i, s),
{
}

/// The height a snapshot read asks for.
#[derive(Clone, Copy, Debug, PartialEq, Eq, Structural)]
pub enum QueryHeight {
    /// The numerically greatest stored height.
    Latest,
    /// Exactly the given height.
    At(u64),
}

/// A stored entry survives the vacuum that follows an update at
/// `top`: either `top` is within the retention window of the lowest
/// heights, or the entry is among the `KEEP_SNAPSHOTS` most recent.
pub open spec fn retained(h: u64, top: u64) -> bool {
    top <= KEEP_SNAPSHOTS || h + KEEP_SNAPSHOTS > top
}

pub open spec fn sorted_by_height(es: Seq<IbcSnapshot>) -> bool {
    forall|i: int, j: int| 0 <= i < j < es.len() ==> (#[trigger] es[i]).height < (
    #[trigger] es[j]).height
}

pub open spec fn contains_entry(es: Seq<IbcSnapshot>, e: IbcSnapshot) -> bool {
    exists|i: int| 0 <= i < es.len() && es[i] == e
}

pub open spec fn has_height(es: Seq<IbcSnapshot>, h: u64) -> bool {
    exists|i: int| 0 <= i < es.len() && (#[trigger] es[i]).height == h
}

/// What one `update_snapshot` leaves behind: the new snapshot is
/// stored; everything else stored is carried over from before, at a
/// different height, within the retention window; and nothing
/// retained from before is lost.
pub open spec fn post_update(old_es: Seq<IbcSnapshot>, s: IbcSnapshot, new_es: Seq<IbcSnapshot>) -> bool {
    &&& sorted_by_height(new_es)
    &&& contains_entry(new_es, s)
    &&& forall|i: int|
        0 <= i < new_es.len() ==> (#[trigger] new_es[i]) == s || (contains_entry(
            old_es,
            new_es[i],
        ) && new_es[i].height != s.height && retained(new_es[i].height, s.height))
    &&& forall|i: int|
        0 <= i < old_es.len() && (#[trigger] old_es[i]).height != s.height && retained(
            old_es[i].height,
            s.height,
        ) ==> contains_entry(new_es, old_es[i])
}

/// The latest stored snapshot, if any.
pub open spec fn spec_latest(es: Seq<IbcSnapshot>) -> Option<IbcSnapshot> {
    if es.len() == 0 {
        None
    } else {
        Some(es.last())
    }
}

/// The in-memory snapshot manager.  Entries are kept sorted by
/// strictly increasing height; updates are upserts followed by a
/// retention vacuum.
pub struct MemorySnapshotManager {
    pub entries: Vec<IbcSnapshot>,
}

impl View for MemorySnapshotManager {
    type V = Seq<IbcSnapshot>;

    open spec fn view(&self) -> Seq<IbcSnapshot> {
        self.entries@
    }
}

impl MemorySnapshotManager {
    pub open spec fn wf(self) -> bool {
        &&& sorted_by_height(self@)
        &&& forall|i: int| 0 <= i < self@.len() ==> (#[trigger] self@[i]).wf()
    }

    /// An empty store.
    pub fn new() -> (r: MemorySnapshotManager)
        ensures
            r.wf(),
            r@.len() == 0,
    {
        MemorySnapshotManager { entries: Vec::new() }
    }

    /// Serves a point-in-time read.  `Latest` answers with the
    /// numerically greatest stored height; `At(h)` with the snapshot
    /// at exactly `h`; either is `SnapshotNotFound` when nothing
    /// qualifies.
    pub fn fetch_snapshot(&self, query_height: QueryHeight) -> (r: Result<&IbcSnapshot, Error>)
        requires
            self.wf(),
        ensures
            query_height == QueryHeight::Latest ==> (if self@.len() == 0 {
                r matches Err(e) && e == Error::SnapshotNotFound
            } else {
                r matches Ok(s) && *s == self@.last() && spec_latest(self@) == Some(*s)
            }),
            query_height matches QueryHeight::At(h) ==> (if has_height(self@, h) {
                r matches Ok(s) && contains_entry(self@, *s) && s.height == h
            } else {
                r matches Err(e) && e == Error::SnapshotNotFound
            }),
            r matches Ok(s) ==> s.wf(),
    {
        match query_height {
            QueryHeight::Latest => {
                let n = self.entries.len();
                if n == 0 {
                    Err(Error::SnapshotNotFound)
                } else {
                    Ok(&self.entries[n - 1])
                }
            },
            QueryHeight::At(h) => {
                let n = self.entries.len();
                let mut i: usize = 0;
                while i < n
                    invariant
                        self.wf(),
                        query_height == QueryHeight::At(h),
                        n == self@.len(),
                        i <= n,
                        forall|j: int| 0 <= j < i ==> (#[trigger] self@[j]).height != h,
                    decreases n - i,
                {
                    if self.entries[i].height == h {
                        proof {
                            assert(contains_entry(self@, self@[i as int]));
                            assert(has_height(self@, h));
                        }
                        return Ok(&self.entries[i]);
                    }
                    i += 1;
                }
                proof {
                    if has_height(self@, h) {
                        let w = choose|w: int| 0 <= w < self@.len() && self@[w].height == h;
                        assert(self@[w].height != h);
                    }
                }
                Err(Error::SnapshotNotFound)
            },
        }
    }

    /// Deletes every stored snapshot with height at or below the
    /// bound; the rest survive unchanged and in order.
    pub fn vacuum_snapshots(&mut self, at_or_below: u64)
        requires
            old(self).wf(),
        ensures
            final(self).wf(),
            forall|i: int|
                0 <= i < final(self)@.len() ==> (#[trigger] final(self)@[i]).height > at_or_below
                    && contains_entry(old(self)@, final(self)@[i]),
            forall|i: int|
                0 <= i < old(self)@.len() && (#[trigger] old(self)@[i]).height > at_or_below
                    ==> contains_entry(final(self)@, old(self)@[i]),
    {
        loop
            invariant
                sorted_by_height(self@),
                forall|i: int| 0 <= i < self@.len() ==> (#[trigger] self@[i]).wf(),
                forall|i: int|
                    0 <= i < self@.len() ==> contains_entry(old(self)@, #[trigger] self@[i]),
                forall|i: int|
                    0 <= i < old(self)@.len() && (#[trigger] old(self)@[i]).height > at_or_below
                        ==> contains_entry(self@, old(self)@[i]),
            ensures
                forall|i: int| 0 <= i < self@.len() ==> (#[trigger] self@[i]).height > at_or_below,
            decreases self@.len(),
        {
            if self.entries.len() == 0 {
                break ;
            }
            let h0 = self.entries[0].height;
            if h0 > at_or_below {
                proof {
                    assert forall|i: int| 0 <= i < self@.len() implies (#[trigger] self@[i]).height
                        > at_or_below by {
                        if i > 0 {
                            assert(self@[0].height < self@[i].height);
                        }
                    }
                }
                break ;
            }
            let ghost pre = self@;
            let _ = self.entries.remove(0);
            proof {
                assert(self@ =~= pre.remove(0));
                assert forall|i: int|
                    0 <= i < old(self)@.len() && (#[trigger] old(self)@[i]).height
                        > at_or_below implies contains_entry(self@, old(self)@[i]) by {
                    let w = choose|w: int|
                        0 <= w < pre.len() && pre[w] == old(self)@[i];
                    assert(pre[w].height > at_or_below);
                    assert(w != 0);
                    assert(self@[w - 1] == pre[w]);
                }
            }
        }
    }

    /// Inserts or overwrites the snapshot at its height: the new
    /// entry is stored, everything else carries over unchanged.
    #[verifier::rlimit(60)]
    fn upsert_snapshot(&mut self, s: IbcSnapshot)
        requires
            old(self).wf(),
            s.wf(),
        ensures
            final(self).wf(),
            contains_entry(final(self)@, s),
            forall|i: int|
                0 <= i < final(self)@.len() ==> (#[trigger] final(self)@[i]) == s || (
                contains_entry(old(self)@, final(self)@[i]) && final(self)@[i].height != s.height),
            forall|i: int|
                0 <= i < old(self)@.len() && (#[trigger] old(self)@[i]).height != s.height
                    ==> contains_entry(final(self)@, old(self)@[i]),
    {
        let ghost old_es = self@;
        // Find the first index at or above the new height.
        let n = self.entries.len();
        let mut pos: usize = 0;
        while pos < n && self.entries[pos].height < s.height
            invariant
                n == self@.len(),
                self@ == old_es,
                pos <= n,
                forall|j: int| 0 <= j < pos ==> (#[trigger] self@[j]).height < s.height,
            decreases n - pos,
        {
            pos += 1;
        }
        if pos < n && self.entries[pos].height == s.height {
            let ghost pre = self@;
            let _ = self.entries.remove(pos);
            proof {
                assert(self@ =~= pre.remove(pos as int));
            }
        }
        let ghost mid = self@;
        proof {
            assert(forall|j: int| 0 <= j < pos ==> (#[trigger] mid[j]).height < s.height);
            assert forall|j: int| pos <= j < mid.len() implies (#[trigger] mid[j]).height
                > s.height by {
                if old_es.len() == mid.len() {
                    assert(mid[j] == old_es[j]);
                    assert(old_es[j].height >= s.height);
                    assert(old_es[j].height != s.height);
                } else {
                    assert(mid[j] == old_es[j + 1]);
                    assert(old_es[pos as int].height == s.height);
                    assert(old_es[j + 1].height > old_es[pos as int].height);
                }
            }
            assert(forall|i: int| 0 <= i < mid.len() ==> contains_entry(old_es, #[trigger] mid[i]));
            assert forall|i: int|
                0 <= i < old_es.len() && (#[trigger] old_es[i]).height != s.height implies contains_entry(
                mid,
                old_es[i],
            ) by {
                if old_es.len() == mid.len() {
                    assert(mid[i] == old_es[i]);
                } else {
                    if i < pos {
                        assert(mid[i] == old_es[i]);
                    } else {
                        assert(old_es[pos as int].height == s.height);
                        assert(i != pos);
                        assert(mid[i - 1] == old_es[i]);
                    }
                }
            }
        }
        self.entries.insert(pos, s);
        proof {
            let ins = self@;
            assert(ins =~= mid.insert(pos as int, s));
            assert(ins[pos as int] == s);
            assert(contains_entry(ins, s));
            assert forall|i: int, j: int| 0 <= i < j < ins.len() implies (#[trigger] ins[i]).height
                < (#[trigger] ins[j]).height by {
                let a = if i < pos {
                    mid[i]
                } else if i == pos {
                    s
                } else {
                    mid[i - 1]
                };
                let b = if j < pos {
                    mid[j]
                } else if j == pos {
                    s
                } else {
                    mid[j - 1]
                };
                assert(ins[i] == a);
                assert(ins[j] == b);
            }
            assert forall|i: int| 0 <= i < ins.len() implies (#[trigger] ins[i]).wf() by {
                if i < pos {
                    assert(ins[i] == mid[i]);
                    assert(contains_entry(old_es, mid[i]));
                    let w = choose|w: int| 0 <= w < old_es.len() && old_es[w] == mid[i];
                } else if i > pos {
                    assert(ins[i] == mid[i - 1]);
                    assert(contains_entry(old_es, mid[i - 1]));
                    let w = choose|w: int| 0 <= w < old_es.len() && old_es[w] == mid[i - 1];
                }
            }
            assert forall|i: int|
                0 <= i < ins.len() implies ins[i] == s || (contains_entry(old_es, #[trigger] ins[i])
                && ins[i].height != s.height) by {
                if i < pos {
                    assert(ins[i] == mid[i]);
                } else if i > pos {
                    assert(ins[i] == mid[i - 1]);
                }
            }
            assert forall|i: int|
                0 <= i < old_es.len() && (#[trigger] old_es[i]).height != s.height implies contains_entry(
                ins,
                old_es[i],
            ) by {
                assert(contains_entry(mid, old_es[i]));
                let w = choose|w: int| 0 <= w < mid.len() && mid[w] == old_es[i];
                if w < pos {
                    assert(ins[w] == mid[w]);
                } else {
                    assert(ins[w + 1] == mid[w]);
                }
            }
        }
    }

    /// Inserts or overwrites the snapshot at its height, then vacuums
    /// everything more than `KEEP_SNAPSHOTS` heights behind it.  After
    /// an update above `KEEP_SNAPSHOTS`, no snapshot at or below
    /// `s.height - KEEP_SNAPSHOTS` remains retrievable.
    pub fn update_snapshot(&mut self, s: IbcSnapshot)
        requires
            old(self).wf(),
            s.wf(),
        ensures
            final(self).wf(),
            post_update(old(self)@, s, final(self)@),
            s.height > KEEP_SNAPSHOTS ==> forall|i: int|
                0 <= i < final(self)@.len() ==> (#[trigger] final(self)@[i]).height + KEEP_SNAPSHOTS
                    > s.height,
    {
        let ghost old_es = self@;
        let s_height = s.height;
        self.upsert_snapshot(s);
        let ghost ins = self@;
        if s_height > KEEP_SNAPSHOTS {
            let bound = s_height - KEEP_SNAPSHOTS;
            self.vacuum_snapshots(bound);
            proof {
                assert(contains_entry(ins, s));
                let k = choose|k: int| 0 <= k < ins.len() && ins[k] == s;
                assert(ins[k].height > bound);
                assert(contains_entry(self@, ins[k]));
                assert forall|i: int|
                    0 <= i < self@.len() implies (#[trigger] self@[i]) == s || (contains_entry(
                    old_es,
                    self@[i],
                ) && self@[i].height != s.height && retained(self@[i].height, s.height)) by {
                    assert(contains_entry(ins, self@[i]));
                    let w = choose|w: int| 0 <= w < ins.len() && ins[w] == self@[i];
                }
                assert forall|i: int|
                    0 <= i < old_es.len() && (#[trigger] old_es[i]).height != s.height && retained(
                        old_es[i].height,
                        s.height,
                    ) implies contains_entry(self@, old_es[i]) by {
                    assert(contains_entry(ins, old_es[i]));
                    assert(old_es[i].height + KEEP_SNAPSHOTS > s.height);
                    assert(old_es[i].height > bound);
                    let w = choose|w: int| 0 <= w < ins.len() && ins[w] == old_es[i];
                }
            }
        } else {
            proof {
                assert(contains_entry(ins, s));
                assert(post_update(old_es, s, ins));
            }
        }
    }
}

/// After `update(s1)` then `update(s2)` on a store whose heights all
/// lay at or below `s2.height`, with `s1.height < s2.height`, the
/// latest stored snapshot is exactly `s2`.
pub proof fn lemma_fetch_latest_after_updates(
    es0: Seq<IbcSnapshot>,
    s1: IbcSnapshot,
    es1: Seq<IbcSnapshot>,
    s2: IbcSnapshot,
    es2: Seq<IbcSnapshot>,
)
    requires
        forall|i: int| 0 <= i < es0.len() ==> (#[trigger] es0[i]).height <= s2.height,
        post_update(es0, s1, es1),
        post_update(es1, s2, es2),
        s1.height < s2.height,
    ensures
        spec_latest(es2) == Some(s2),
{
    assert(contains_entry(es2, s2));
    let k = choose|k: int| 0 <= k < es2.len() && es2[k] == s2;
    assert(es2.len() > 0);
    let last = es2.last();
    if last != s2 {
        assert(contains_entry(es1, last) && last.height != s2.height);
        let w = choose|w: int| 0 <= w < es1.len() && es1[w] == last;
        if es1[w] == s1 {
            assert(last.height < s2.height);
        } else {
            assert(contains_entry(es0, es1[w]));
            let v = choose|v: int| 0 <= v < es0.len() && es0[v] == es1[w];
            assert(last.height <= s2.height);
        }
        assert(last.height < s2.height);
        if k < es2.len() - 1 {
            assert(es2[k].height < es2[es2.len() - 1].height);
            assert(false);
        }
        assert(false);
    }
}

} // verus!
