//! The per-chain batching dispatcher.  Relay tasks hand in message
//! vectors with a reply slot; the worker coalesces ready submissions
//! into one transaction, and fans the resulting events back so that
//! every submission receives exactly one reply whose events are its
//! own slice of the batch outcome.
use vstd::prelude::*;
use vstd::pervasive::VecAdditionalExecFns;

use crate::error::Error;
use crate::message::{Event, Message};

verus! {

/// One `send_messages` call: its messages and its reply slot.
#[derive(Debug)]
pub struct Submission {
    pub messages: Vec<Message>,
    pub reply_slot: usize,
}

/// What a reply slot eventually carries: per-message event lists, or
/// one error for the whole batch.
pub type BatchReply = Result<Vec<Vec<Event>>, Error>;

/// The messages of a submission sequence, concatenated in order.
pub open spec fn flatten_msgs(subs: Seq<Submission>) -> Seq<Message>
    decreases subs.len(),
{
    if subs.len() == 0 {
        Seq::empty()
    } else {
        flatten_msgs(subs.drop_last()) + subs.last().messages@
    }
}

/// Per-submission event shards, concatenated in order.
pub open spec fn flatten_shards(shards: Seq<Vec<Vec<Event>>>) -> Seq<Vec<Event>>
    decreases shards.len(),
{
    if shards.len() == 0 {
        Seq::empty()
    } else {
        flatten_shards(shards.drop_last()) + shards.last()@
    }
}

/// The per-chain ingress: a bounded many-producer queue of
/// submissions and the reply slots their results come back on.
pub struct OfaBatchContext {
    pub pending: Vec<Submission>,
    pub replies: Vec<Option<BatchReply>>,
}

impl View for OfaBatchContext {
    type V = Seq<Submission>;

    open spec fn view(&self) -> Seq<Submission> {
        self.pending@
    }
}

impl OfaBatchContext {
    /// Every queued submission points at a live, still-empty reply
    /// slot, and no two queued submissions share a slot.
    pub open spec fn wf(self) -> bool {
        &&& forall|i: int|
            0 <= i < self.pending@.len() ==> (#[trigger] self.pending@[i]).reply_slot
                < self.replies@.len() && self.replies@[self.pending@[i].reply_slot as int] is None
        &&& forall|i: int, j: int|
            0 <= i < j < self.pending@.len() ==> (#[trigger] self.pending@[i]).reply_slot != (
            #[trigger] self.pending@[j]).reply_slot
    }

    /// An empty dispatcher ingress.
    pub fn new() -> (r: OfaBatchContext)
        ensures
            r.wf(),
            r@.len() == 0,
            r.replies@.len() == 0,
    {
        OfaBatchContext { pending: Vec::new(), replies: Vec::new() }
    }

    /// Creates a fresh reply slot and hands its index to the caller.
    pub fn new_result_channel(&mut self) -> (slot: usize)
        requires
            old(self).wf(),
        ensures
            final(self).wf(),
            slot == old(self).replies@.len(),
            final(self).replies@ == old(self).replies@.push(None::<BatchReply>),
            final(self)@ == old(self)@,
    {
        let slot = self.replies.len();
        self.replies.push(None);
        slot
    }

    /// Queues one submission.  FIFO per sender: the queue only ever
    /// grows at the tail.
    pub fn send_messages(&mut self, messages: Vec<Message>, result_sender: usize)
        requires
            old(self).wf(),
            result_sender < old(self).replies@.len(),
            old(self).replies@[result_sender as int] is None,
            forall|i: int|
                0 <= i < old(self)@.len() ==> (#[trigger] old(self)@[i]).reply_slot
                    != result_sender,
        ensures
            final(self).wf(),
            final(self)@ == old(self)@.push(
                Submission { messages, reply_slot: result_sender },
            ),
            final(self).replies@ == old(self).replies@,
    {
        self.pending.push(Submission { messages, reply_slot: result_sender });
        proof {
            assert forall|i: int, j: int|
                0 <= i < j < self.pending@.len() implies (#[trigger] self.pending@[i]).reply_slot
                != (#[trigger] self.pending@[j]).reply_slot by {
                if j == self.pending@.len() - 1 {
                    assert(self.pending@[i] == old(self)@[i]);
                }
            }
        }
    }

    /// Takes the oldest queued submission, if any.
    pub fn try_receive_messages(&mut self) -> (r: Option<Submission>)
        requires
            old(self).wf(),
        ensures
            final(self).wf(),
            final(self).replies@ == old(self).replies@,
            old(self)@.len() == 0 ==> r is None && final(self)@ == old(self)@,
            old(self)@.len() > 0 ==> (r matches Some(s) && s == old(self)@[0] && final(self)@
                == old(self)@.subrange(1, old(self)@.len() as int)),
    {
        if self.pending.len() == 0 {
            None
        } else {
            let s = self.pending.remove(0);
            proof {
                assert(self.pending@ =~= old(self)@.subrange(1, old(self)@.len() as int));
            }
            Some(s)
        }
    }

    /// Fills a reply slot.  A slot takes exactly one result: filling
    /// requires it empty, and nothing else changes.
    pub fn send_result(&mut self, result_sender: usize, events: BatchReply)
        requires
            old(self).wf(),
            result_sender < old(self).replies@.len(),
            old(self).replies@[result_sender as int] is None,
            forall|i: int|
                0 <= i < old(self)@.len() ==> (#[trigger] old(self)@[i]).reply_slot
                    != result_sender,
        ensures
            final(self).wf(),
            final(self)@ == old(self)@,
            final(self).replies@ == old(self).replies@.update(
                result_sender as int,
                Some(events),
            ),
    {
        self.replies.set(result_sender, Some(events));
        proof {
            assert forall|i: int| 0 <= i < self.pending@.len() implies (
            #[trigger] self.pending@[i]).reply_slot < self.replies@.len()
                && self.replies@[self.pending@[i].reply_slot as int] is None by {
                assert(self.pending@[i] == old(self)@[i]);
                assert(old(self)@[i].reply_slot != result_sender);
            }
        }
    }

    /// Takes the result out of a filled reply slot.
    pub fn receive_result(&mut self, result_sender: usize) -> (r: BatchReply)
        requires
            old(self).wf(),
            result_sender < old(self).replies@.len(),
            old(self).replies@[result_sender as int] is Some,
        ensures
            final(self).wf(),
            final(self)@ == old(self)@,
            old(self).replies@[result_sender as int] == Some(r),
            final(self).replies@ == old(self).replies@.update(
                result_sender as int,
                None::<BatchReply>,
            ),
    {
        let mut taken: Option<BatchReply> = None;
        self.replies.set_and_swap(result_sender, &mut taken);
        match taken {
            Some(x) => x,
            None => {
                proof {
                    assert(false);
                }
                Err(Error::Cancelled)
            },
        }
    }

    /// Coalesces ready submissions for one transaction: takes queued
    /// submissions from the front, in order, until the message count
    /// would pass `cap` (always at least one when any is queued).
    pub fn drain_ready(&mut self, cap: usize) -> (batch: Vec<Submission>)
        requires
            old(self).wf(),
        ensures
            final(self).wf(),
            final(self).replies@ == old(self).replies@,
            batch@ + final(self)@ == old(self)@,
            old(self)@.len() > 0 ==> batch@.len() >= 1,
            batch@.len() > 1 ==> flatten_msgs(batch@).len() <= cap,
            final(self)@.len() > 0 ==> flatten_msgs(batch@).len() + final(self)@[0].messages@.len()
                > cap,
    {
        let mut batch: Vec<Submission> = Vec::new();
        let mut taken: usize = 0;
        proof {
            assert(batch@ + self@ =~= old(self)@);
        }
        loop
            invariant
                self.wf(),
                self.replies@ == old(self).replies@,
                batch@ + self@ == old(self)@,
                taken == flatten_msgs(batch@).len(),
                batch@.len() > 1 ==> taken <= cap,
                old(self)@.len() > 0 ==> batch@.len() >= 1 || self@.len() > 0,
            ensures
                old(self)@.len() > 0 ==> batch@.len() >= 1,
                batch@.len() > 1 ==> flatten_msgs(batch@).len() <= cap,
                self@.len() > 0 ==> flatten_msgs(batch@).len() + self@[0].messages@.len() > cap,
                batch@ + self@ == old(self)@,
                self.wf(),
                self.replies@ == old(self).replies@,
            decreases self@.len(),
        {
            if self.pending.len() == 0 {
                break ;
            }
            let next_len = self.pending[0].messages.len();
            if batch.len() > 0 && (taken > cap || next_len > cap - taken) {
                break ;
            }
            let ghost pre_batch = batch@;
            let ghost pre_pending = self@;
            let s = match self.try_receive_messages() {
                Some(s) => s,
                None => {
                    proof {
                        assert(false);
                    }
                    break ;
                },
            };
            let n = s.messages.len();
            batch.push(s);
            proof {
                assert(batch@.drop_last() =~= pre_batch);
                assert(flatten_msgs(batch@) == flatten_msgs(pre_batch)
                    + batch@.last().messages@);
                assert(batch@ + self@ =~= old(self)@);
            }
            if taken <= usize::MAX - n {
                taken = taken + n;
            } else {
                proof {
                    assert(flatten_msgs(batch@).len() > usize::MAX);
                    assert(false);
                }
            }
        }
        batch
    }
}

/// Some queued submission replies on slot `s`.
pub open spec fn has_pending_slot(p: Seq<Submission>, s: usize) -> bool {
    exists|j: int| 0 <= j < p.len() && (#[trigger] p[j]).reply_slot == s
}

impl OfaBatchContext {
    /// Runs the worker loop to quiescence under a driver that always
    /// succeeds, producing one (empty) event list per message: the
    /// queue drains and every slot a queued submission pointed at
    /// receives a result — no reply slot is orphaned.
    pub fn run_to_completion(&mut self, cap: usize)
        requires
            old(self).wf(),
        ensures
            final(self).wf(),
            final(self)@.len() == 0,
            final(self).replies@.len() == old(self).replies@.len(),
            forall|i: int|
                0 <= i < old(self)@.len() ==> final(self).replies@[(
                #[trigger] old(self)@[i]).reply_slot as int] is Some,
    {
        loop
            invariant
                old(self).wf(),
                self.wf(),
                self.replies@.len() == old(self).replies@.len(),
                forall|i: int|
                    0 <= i < old(self)@.len() ==> self.replies@[(
                    #[trigger] old(self)@[i]).reply_slot as int] is Some || has_pending_slot(
                        self@,
                        old(self)@[i].reply_slot,
                    ),
            ensures
                self@.len() == 0,
            decreases self@.len(),
        {
            if self.pending.len() == 0 {
                break ;
            }
            let ghost pre = self@;
            let ghost pre_replies = self.replies@;
            let batch = self.drain_ready(cap);
            let ghost batch0 = batch@;
            proof {
                assert(batch0 + self@ == pre);
                assert(batch0.len() >= 1);
            }
            let (msgs, meta) = build_transaction(batch);
            proof {
                lemma_total_of_counts(batch0, meta@);
            }
            let mut events: Vec<Vec<Event>> = Vec::new();
            let want = msgs.len();
            let mut k: usize = 0;
            while k < want
                invariant
                    k <= want,
                    events@.len() == k,
                decreases want - k,
            {
                events.push(Vec::new());
                k += 1;
            }
            let mut shards = shard_events(events, &meta);
            let ghost shards0 = shards@;
            let mut j: usize = 0;
            let n = shards.len();
            proof {
                assert(shards@ =~= shards0.subrange(0, n as int));
                assert forall|x: int, y: int|
                    0 <= x < y < batch0.len() implies (#[trigger] batch0[x]).reply_slot != (
                #[trigger] batch0[y]).reply_slot by {
                    assert(pre[x] == batch0[x]);
                    assert(pre[y] == batch0[y]);
                }
                assert forall|x: int, y: int|
                    0 <= x < self@.len() && 0 <= y < batch0.len() implies (
                #[trigger] self@[x]).reply_slot != (#[trigger] batch0[y]).reply_slot by {
                    assert(pre[batch0.len() + x] == self@[x]);
                    assert(pre[y] == batch0[y]);
                }
                assert forall|x: int|
                    0 <= x < batch0.len() implies (#[trigger] batch0[x]).reply_slot
                        < self.replies@.len() && self.replies@[batch0[x].reply_slot as int] is None by {
                    assert(pre[x] == batch0[x]);
                }
            }
            while j < n
                invariant
                    n == shards0.len() == batch0.len(),
                    j <= n,
                    shards@ == shards0.subrange(j as int, n as int),
                    self.wf(),
                    batch0 + self@ == pre,
                    self.replies@.len() == pre_replies.len(),
                    forall|x: int|
                        0 <= x < shards0.len() ==> (#[trigger] shards0[x]).0 == batch0[x].reply_slot,
                    forall|x: int, y: int|
                        0 <= x < y < batch0.len() ==> (#[trigger] batch0[x]).reply_slot != (
                        #[trigger] batch0[y]).reply_slot,
                    forall|x: int, y: int|
                        0 <= x < self@.len() && 0 <= y < batch0.len() ==> (
                        #[trigger] self@[x]).reply_slot != (#[trigger] batch0[y]).reply_slot,
                    forall|x: int|
                        j <= x < batch0.len() ==> (#[trigger] batch0[x]).reply_slot
                            < self.replies@.len() && self.replies@[batch0[x].reply_slot as int] is None,
                    forall|x: int|
                        0 <= x < j ==> (#[trigger] batch0[x]).reply_slot < self.replies@.len()
                            && self.replies@[batch0[x].reply_slot as int] is Some,
                    forall|s: int|
                        0 <= s < pre_replies.len() && pre_replies[s] is Some
                            ==> self.replies@[s] is Some,
                decreases n - j,
            {
                let (slot, shard) = shards.remove(0);
                proof {
                    assert(shards0.subrange(j as int, n as int)[0] == shards0[j as int]);
                    assert(shards@ =~= shards0.subrange(j + 1, n as int));
                    assert(slot == batch0[j as int].reply_slot);
                }
                let ghost before = self.replies@;
                self.send_result(slot, Ok(shard));
                proof {
                    assert(self.replies@[slot as int] is Some);
                    assert forall|x: int|
                        0 <= x < j + 1 implies (#[trigger] batch0[x]).reply_slot
                            < self.replies@.len() && self.replies@[batch0[x].reply_slot as int] is Some by {
                        if x < j {
                            assert(batch0[x].reply_slot != slot);
                            assert(before[batch0[x].reply_slot as int] is Some);
                        } else {
                            assert(batch0[x].reply_slot == slot);
                        }
                    }
                }
                j += 1;
            }
            proof {
                assert forall|i: int|
                    0 <= i < old(self)@.len() implies self.replies@[(
                #[trigger] old(self)@[i]).reply_slot as int] is Some || has_pending_slot(
                    self@,
                    old(self)@[i].reply_slot,
                ) by {
                    let s = old(self)@[i].reply_slot;
                    assert(old(self).wf());
                    assert(s < old(self).replies@.len());
                    assert(pre_replies.len() == old(self).replies@.len());
                    if pre_replies[s as int] is Some {
                        assert(self.replies@[s as int] is Some);
                    } else if has_pending_slot(pre, s) {
                        let w = choose|w: int| 0 <= w < pre.len() && pre[w].reply_slot == s;
                        if w < batch0.len() {
                            assert(pre[w] == batch0[w]);
                        } else {
                            assert(pre[w] == self@[w - batch0.len()]);
                            assert(has_pending_slot(self@, s));
                        }
                    }
                }
            }
        }
    }
}

impl OfaBatchContext {
    /// Batch-fatal failure: every slot of the failed batch receives
    /// the same error.
    pub fn fail_batch(&mut self, meta: &Vec<(usize, usize)>, err: &Error)
        requires
            old(self).wf(),
            forall|x: int|
                0 <= x < meta@.len() ==> (#[trigger] meta@[x]).0 < old(self).replies@.len()
                    && old(self).replies@[meta@[x].0 as int] is None,
            forall|x: int, y: int|
                0 <= x < y < meta@.len() ==> (#[trigger] meta@[x]).0 != (#[trigger] meta@[y]).0,
            forall|x: int, y: int|
                0 <= x < old(self)@.len() && 0 <= y < meta@.len() ==> (
                #[trigger] old(self)@[x]).reply_slot != (#[trigger] meta@[y]).0,
        ensures
            final(self).wf(),
            final(self)@ == old(self)@,
            final(self).replies@.len() == old(self).replies@.len(),
            forall|x: int|
                0 <= x < meta@.len() ==> (final(self).replies@[(#[trigger] meta@[x]).0 as int]
                    matches Some(rep) && (rep matches Err(e) && crate::error::error_view_eq(
                    e,
                    *err,
                ))),
            forall|s: int|
                0 <= s < old(self).replies@.len() && !(exists|x: int|
                    0 <= x < meta@.len() && (#[trigger] meta@[x]).0 == s)
                    ==> final(self).replies@[s] == old(self).replies@[s],
    {
        let n = meta.len();
        let mut j: usize = 0;
        while j < n
            invariant
                n == meta@.len(),
                j <= n,
                self.wf(),
                self@ == old(self)@,
                self.replies@.len() == old(self).replies@.len(),
                forall|x: int|
                    0 <= x < meta@.len() ==> (#[trigger] meta@[x]).0 < old(self).replies@.len()
                        && old(self).replies@[meta@[x].0 as int] is None,
                forall|x: int, y: int|
                    0 <= x < y < meta@.len() ==> (#[trigger] meta@[x]).0 != (
                    #[trigger] meta@[y]).0,
                forall|x: int, y: int|
                    0 <= x < old(self)@.len() && 0 <= y < meta@.len() ==> (
                    #[trigger] old(self)@[x]).reply_slot != (#[trigger] meta@[y]).0,
                forall|x: int|
                    j <= x < meta@.len() ==> self.replies@[(#[trigger] meta@[x]).0 as int] is None,
                forall|x: int|
                    0 <= x < j ==> (self.replies@[(#[trigger] meta@[x]).0 as int] matches Some(rep)
                        && (rep matches Err(e) && crate::error::error_view_eq(e, *err))),
                forall|s: int|
                    0 <= s < old(self).replies@.len() && !(exists|x: int|
                        0 <= x < meta@.len() && (#[trigger] meta@[x]).0 == s) ==> self.replies@[s]
                        == old(self).replies@[s],
            decreases n - j,
        {
            let slot = meta[j].0;
            let e = crate::error::clone_error(err);
            let ghost before = self.replies@;
            self.send_result(slot, Err(e));
            proof {
                assert forall|x: int|
                    0 <= x < j + 1 implies self.replies@[(#[trigger] meta@[x]).0 as int] matches Some(
                    rep,
                ) && (rep matches Err(er) && crate::error::error_view_eq(er, *err)) by {
                    if x < j {
                        assert(meta@[x].0 != slot);
                        assert(self.replies@[meta@[x].0 as int] == before[meta@[x].0 as int]);
                    }
                }
                assert forall|s: int|
                    0 <= s < old(self).replies@.len() && !(exists|x: int|
                        0 <= x < meta@.len() && (#[trigger] meta@[x]).0 == s) implies self.replies@[s]
                    == old(self).replies@[s] by {
                    assert(meta@[j as int].0 == slot);
                    if s != slot {
                        assert(self.replies@[s] == before[s]);
                    }
                }
            }
            j += 1;
        }
    }
}

/// When `meta` records the per-submission message counts of `subs`,
/// it accounts for exactly the concatenated message total.
pub proof fn lemma_total_of_counts(subs: Seq<Submission>, meta: Seq<(usize, usize)>)
    requires
        meta.len() == subs.len(),
        forall|i: int|
            0 <= i < subs.len() ==> (#[trigger] meta[i]).1 == subs[i].messages@.len(),
    ensures
        spec_total(meta) == flatten_msgs(subs).len(),
    decreases subs.len(),
{
    if subs.len() > 0 {
        lemma_total_of_counts(subs.drop_last(), meta.drop_last());
        lemma_total_push(meta.drop_last(), meta.last());
        assert(meta.drop_last().push(meta.last()) =~= meta);
    }
}

/// `spec_total` grows by the pushed count.
proof fn lemma_total_push(meta: Seq<(usize, usize)>, x: (usize, usize))
    ensures
        spec_total(meta.push(x)) == spec_total(meta) + x.1,
    decreases meta.len(),
{
    if meta.len() == 0 {
        let t = meta.push(x);
        assert(t.subrange(1, 1) =~= Seq::<(usize, usize)>::empty());
        assert(t[0] == x);
        assert(spec_total(t) == x.1 + spec_total(t.subrange(1, 1)));
        assert(spec_total(Seq::<(usize, usize)>::empty()) == 0);
        assert(spec_total(meta) == 0);
    } else {
        let t = meta.push(x);
        assert(t[0] == meta[0]);
        assert(t.subrange(1, t.len() as int) =~= meta.subrange(1, meta.len() as int).push(x));
        lemma_total_push(meta.subrange(1, meta.len() as int), x);
        assert(spec_total(t) == t[0].1 + spec_total(t.subrange(1, t.len() as int)));
        assert(spec_total(meta) == meta[0].1 + spec_total(meta.subrange(1, meta.len() as int)));
    }
}

/// Concatenates a batch's messages into one transaction body and
/// records each submission's reply slot with its message count, so
/// the events can be sharded back.
pub fn build_transaction(subs: Vec<Submission>) -> (r: (Vec<Message>, Vec<(usize, usize)>))
    ensures
        r.0@ == flatten_msgs(subs@),
        r.1@.len() == subs@.len(),
        forall|i: int|
            0 <= i < subs@.len() ==> (#[trigger] r.1@[i]).0 == subs@[i].reply_slot && r.1@[i].1
                == subs@[i].messages@.len(),
{
    let ghost subs0 = subs@;
    let mut subs = subs;
    let mut msgs: Vec<Message> = Vec::new();
    let mut meta: Vec<(usize, usize)> = Vec::new();
    let n = subs.len();
    let mut i: usize = 0;
    proof {
        assert(subs0.subrange(0, 0) =~= Seq::<Submission>::empty());
        assert(subs@ =~= subs0.subrange(0, n as int));
    }
    while i < n
        invariant
            n == subs0.len(),
            i <= n,
            subs@ == subs0.subrange(i as int, n as int),
            msgs@ == flatten_msgs(subs0.subrange(0, i as int)),
            meta@.len() == i,
            forall|k: int|
                0 <= k < i ==> (#[trigger] meta@[k]).0 == subs0[k].reply_slot && meta@[k].1
                    == subs0[k].messages@.len(),
        decreases n - i,
    {
        let s = subs.remove(0);
        proof {
            assert(s == subs0[i as int]);
            assert(subs@ =~= subs0.subrange(i + 1, n as int));
        }
        let slot = s.reply_slot;
        let count = s.messages.len();
        meta.push((slot, count));
        append_all(&mut msgs, s.messages);
        proof {
            let t = subs0.subrange(0, i + 1);
            assert(t.drop_last() =~= subs0.subrange(0, i as int));
            assert(t.last() == subs0[i as int]);
            assert(msgs@ =~= flatten_msgs(t));
        }
        i += 1;
    }
    proof {
        assert(subs0.subrange(0, n as int) =~= subs0);
    }
    (msgs, meta)
}

/// Moves all of `src` to the end of `dst`.
pub fn append_all(dst: &mut Vec<Message>, src: Vec<Message>)
    ensures
        final(dst)@ == old(dst)@ + src@,
{
    let ghost src0 = src@;
    let mut src = src;
    let n = src.len();
    let mut i: usize = 0;
    loop
        invariant
            src@ == src0.subrange(i as int, src0.len() as int),
            i <= n == src0.len(),
            dst@ == old(dst)@ + src0.subrange(0, i as int),
        ensures
            dst@ == old(dst)@ + src0,
        decreases n - i,
    {
        if src.len() == 0 {
            proof {
                assert(i == n);
                assert(src0.subrange(0, n as int) =~= src0);
            }
            break ;
        }
        let x = src.remove(0);
        proof {
            assert(x == src0[i as int]);
            assert(src@ =~= src0.subrange(i + 1, src0.len() as int));
        }
        dst.push(x);
        proof {
            assert(dst@ =~= old(dst)@ + src0.subrange(0, i + 1));
        }
        i += 1;
    }
}

/// Slices the batch outcome back per submission: shard `i` holds
/// exactly the events of submission `i`'s messages, in order, and
/// the shards concatenate to the whole outcome.
pub fn shard_events(events: Vec<Vec<Event>>, meta: &Vec<(usize, usize)>) -> (r: Vec<
    (usize, Vec<Vec<Event>>),
>)
    requires
        events@.len() == spec_total(meta@),
    ensures
        r@.len() == meta@.len(),
        forall|i: int|
            0 <= i < meta@.len() ==> (#[trigger] r@[i]).0 == meta@[i].0 && r@[i].1@.len()
                == meta@[i].1,
        flatten_shards(r@.map_values(|p: (usize, Vec<Vec<Event>>)| p.1)) == events@,
{
    let ghost ev0 = events@;
    let mut events = events;
    let mut r: Vec<(usize, Vec<Vec<Event>>)> = Vec::new();
    let n = meta.len();
    let mut i: usize = 0;
    proof {
        assert(flatten_shards(
            r@.map_values(|p: (usize, Vec<Vec<Event>>)| p.1),
        ) =~= Seq::<Vec<Event>>::empty());
        assert(meta@.subrange(0, meta@.len() as int) =~= meta@);
    }
    while i < n
        invariant
            n == meta@.len(),
            i <= n,
            r@.len() == i,
            forall|k: int|
                0 <= k < i ==> (#[trigger] r@[k]).0 == meta@[k].0 && r@[k].1@.len() == meta@[k].1,
            flatten_shards(r@.map_values(|p: (usize, Vec<Vec<Event>>)| p.1)) + events@ == ev0,
            events@.len() == spec_total(meta@.subrange(i as int, meta@.len() as int)),
        decreases n - i,
    {
        let count = meta[i].1;
        proof {
            lemma_total_head(meta@, i as int);
        }
        let ghost pre_events = events@;
        let ghost pre_parts = r@.map_values(|p: (usize, Vec<Vec<Event>>)| p.1);
        let rest = events.split_off(count);
        let shard = events;
        events = rest;
        r.push((meta[i].0, shard));
        proof {
            assert(pre_events =~= shard@ + events@);
            let parts = r@.map_values(|p: (usize, Vec<Vec<Event>>)| p.1);
            assert(parts.drop_last() =~= pre_parts);
            assert(parts.last() == shard);
            assert(flatten_shards(parts) == flatten_shards(pre_parts) + shard@);
            assert(flatten_shards(parts) + events@ =~= flatten_shards(pre_parts) + pre_events);
            assert(flatten_shards(parts) + events@ =~= ev0);
        }
        i += 1;
    }
    proof {
        assert(spec_total(meta@.subrange(n as int, n as int)) == 0);
        assert(events@.len() == 0);
        assert(flatten_shards(r@.map_values(|p: (usize, Vec<Vec<Event>>)| p.1)) =~= ev0);
    }
    r
}

/// The message count a metadata sequence accounts for.
pub open spec fn spec_total(meta: Seq<(usize, usize)>) -> int
    decreases meta.len(),
{
    if meta.len() == 0 {
        0int
    } else {
        meta[0].1 + spec_total(meta.subrange(1, meta.len() as int))
    }
}

proof fn lemma_total_head(meta: Seq<(usize, usize)>, i: int)
    requires
        0 <= i < meta.len(),
    ensures
        spec_total(meta.subrange(i, meta.len() as int)) == meta[i].1 + spec_total(
            meta.subrange(i + 1, meta.len() as int),
        ),
        spec_total(meta.subrange(i + 1, meta.len() as int)) >= 0,
{
    let t = meta.subrange(i, meta.len() as int);
    assert(t[0] == meta[i]);
    assert(t.subrange(1, t.len() as int) =~= meta.subrange(i + 1, meta.len() as int));
    lemma_total_nonneg(meta.subrange(i + 1, meta.len() as int));
}

proof fn lemma_total_nonneg(meta: Seq<(usize, usize)>)
    ensures
        spec_total(meta) >= 0,
    decreases meta.len(),
{
    if meta.len() > 0 {
        lemma_total_nonneg(meta.subrange(1, meta.len() as int));
    }
}

} // verus!
