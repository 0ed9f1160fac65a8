use relayer_core::batch::{build_transaction, shard_events, OfaBatchContext};
use relayer_core::error::{classify, should_retry_batch, Error, ErrorClass};
use relayer_core::header::{AnyHeader, MockHeader};
use relayer_core::ids::Height;
use relayer_core::message::{Event, Message};

fn bytes(s: &str) -> Vec<u8> {
    s.as_bytes().to_vec()
}

fn msg(tag: u64) -> Message {
    Message::UpdateClient {
        client_id: bytes("client-0"),
        header: AnyHeader::Mock(MockHeader {
            height: Height::new(0, tag),
            timestamp: 0,
        }),
    }
}

fn evt(tag: u64) -> Event {
    Event::NewBlock {
        height: Height::new(0, tag),
    }
}

#[test]
fn batching_coalesces_and_shards_in_order() {
    // Three relay tasks send [m1], [m2, m3], [m4] within one tick:
    // one submission of four messages; replies get 1, 2, 1 event
    // lists, in order.
    let mut ctx = OfaBatchContext::new();
    let s1 = ctx.new_result_channel();
    let s2 = ctx.new_result_channel();
    let s3 = ctx.new_result_channel();
    ctx.send_messages(vec![msg(1)], s1);
    ctx.send_messages(vec![msg(2), msg(3)], s2);
    ctx.send_messages(vec![msg(4)], s3);

    let batch = ctx.drain_ready(10);
    assert_eq!(batch.len(), 3);
    let (msgs, meta) = build_transaction(batch);
    assert_eq!(msgs, vec![msg(1), msg(2), msg(3), msg(4)]);
    assert_eq!(meta, vec![(s1, 1), (s2, 2), (s3, 1)]);

    // One event list per message, in batch order.
    let events = vec![vec![evt(10)], vec![evt(20)], vec![evt(30)], vec![evt(40)]];
    let shards = shard_events(events, &meta);
    assert_eq!(shards.len(), 3);
    assert_eq!(shards[0], (s1, vec![vec![evt(10)]]));
    assert_eq!(shards[1], (s2, vec![vec![evt(20)], vec![evt(30)]]));
    assert_eq!(shards[2], (s3, vec![vec![evt(40)]]));

    // Exactly one result lands on each reply slot.
    for (slot, shard) in shards {
        ctx.send_result(slot, Ok(shard));
    }
    assert_eq!(ctx.receive_result(s1).unwrap(), vec![vec![evt(10)]]);
    assert_eq!(
        ctx.receive_result(s2).unwrap(),
        vec![vec![evt(20)], vec![evt(30)]]
    );
    assert_eq!(ctx.receive_result(s3).unwrap(), vec![vec![evt(40)]]);
}

#[test]
fn shard_concatenation_preserves_events() {
    let meta = vec![(0usize, 2usize), (1, 0), (2, 3)];
    let events: Vec<Vec<Event>> = (0..5).map(|i| vec![evt(i)]).collect();
    let shards = shard_events(events.clone(), &meta);
    let flat: Vec<Vec<Event>> = shards.into_iter().flat_map(|(_, s)| s).collect();
    assert_eq!(flat, events);
}

#[test]
fn drain_respects_the_cap() {
    let mut ctx = OfaBatchContext::new();
    let s1 = ctx.new_result_channel();
    let s2 = ctx.new_result_channel();
    ctx.send_messages(vec![msg(1)], s1);
    ctx.send_messages(vec![msg(2), msg(3)], s2);
    // Cap 1: only the first submission fits this batch.
    let batch = ctx.drain_ready(1);
    assert_eq!(batch.len(), 1);
    let next = ctx.drain_ready(1);
    assert_eq!(next.len(), 1);
    assert_eq!(next[0].messages.len(), 2);
}

#[test]
fn oversized_first_submission_still_goes() {
    let mut ctx = OfaBatchContext::new();
    let s1 = ctx.new_result_channel();
    ctx.send_messages(vec![msg(1), msg(2), msg(3)], s1);
    let batch = ctx.drain_ready(1);
    assert_eq!(batch.len(), 1);
    assert_eq!(batch[0].messages.len(), 3);
}

#[test]
fn worker_orphans_no_reply_slot() {
    // Under a driver that always succeeds, every queued submission's
    // slot is filled once the worker runs to quiescence.
    let mut ctx = OfaBatchContext::new();
    let mut slots = vec![];
    for i in 0..5u64 {
        let s = ctx.new_result_channel();
        ctx.send_messages(vec![msg(i), msg(i + 100)], s);
        slots.push(s);
    }
    ctx.run_to_completion(3);
    for s in slots {
        let r = ctx.receive_result(s);
        let lists = r.unwrap();
        assert_eq!(lists.len(), 2);
    }
}

#[test]
fn batch_fatal_error_reaches_every_slot() {
    let mut ctx = OfaBatchContext::new();
    let s1 = ctx.new_result_channel();
    let s2 = ctx.new_result_channel();
    ctx.send_messages(vec![msg(1)], s1);
    ctx.send_messages(vec![msg(2)], s2);
    let batch = ctx.drain_ready(10);
    let (_msgs, meta) = build_transaction(batch);
    ctx.fail_batch(&meta, &Error::RpcTimeout);
    assert!(matches!(ctx.receive_result(s1), Err(Error::RpcTimeout)));
    assert!(matches!(ctx.receive_result(s2), Err(Error::RpcTimeout)));
}

#[test]
fn only_transient_failures_are_retried() {
    assert_eq!(classify(&Error::RpcTimeout), ErrorClass::Transport);
    assert_eq!(classify(&Error::BadHex), ErrorClass::Encoding);
    assert_eq!(classify(&Error::MalformedPacketId), ErrorClass::Encoding);
    assert_eq!(classify(&Error::BatchFailed), ErrorClass::ChainLogic);
    assert_eq!(classify(&Error::Cancelled), ErrorClass::Cancellation);
    assert_eq!(classify(&Error::SnapshotNotFound), ErrorClass::Store);
    assert!(should_retry_batch(&Error::RpcTimeout, 3));
    assert!(!should_retry_batch(&Error::RpcTimeout, 0));
    assert!(!should_retry_batch(&Error::BatchFailed, 3));
    assert!(!should_retry_batch(&Error::Cancelled, 3));
}

#[test]
fn empty_queue_drains_to_nothing() {
    let mut ctx = OfaBatchContext::new();
    assert!(ctx.drain_ready(5).is_empty());
    let (msgs, meta) = build_transaction(vec![]);
    assert!(msgs.is_empty());
    assert!(meta.is_empty());
    assert!(shard_events(vec![], &meta).is_empty());
}

#[test]
fn fifo_order_is_kept_per_sender() {
    let mut ctx = OfaBatchContext::new();
    let s1 = ctx.new_result_channel();
    let s2 = ctx.new_result_channel();
    ctx.send_messages(vec![msg(1)], s1);
    ctx.send_messages(vec![msg(2)], s2);
    let a = ctx.try_receive_messages().unwrap();
    let b = ctx.try_receive_messages().unwrap();
    assert_eq!(a.reply_slot, s1);
    assert_eq!(b.reply_slot, s2);
    assert!(ctx.try_receive_messages().is_none());
}
