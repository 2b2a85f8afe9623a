use sharded_kv::command::Command;
use sharded_kv::mux::{perform, owner_run, MuxQueue, Reply, SubmitOutcome, TaggedRequest};
use sharded_kv::store::ShardedStore;

fn put(id: u64, key: &str, value: &[u8]) -> TaggedRequest {
    TaggedRequest { id, cmd: Command::Put { key: key.to_string(), value: value.to_vec() } }
}

fn get(id: u64, key: &str) -> TaggedRequest {
    TaggedRequest { id, cmd: Command::Get { key: key.to_string() } }
}

#[test]
fn submissions_execute_in_order_last_write_wins() {
    // One caller submits Set(k, "a"), Set(k, "b"), Get(k), nothing
    // interleaved: the get observes "b".
    let mut q = MuxQueue::new(32);
    assert_eq!(q.submit(put(1, "k", b"a")), SubmitOutcome::Enqueued);
    assert_eq!(q.submit(put(2, "k", b"b")), SubmitOutcome::Enqueued);
    assert_eq!(q.submit(get(3, "k")), SubmitOutcome::Enqueued);
    let mut store = ShardedStore::new(16);
    let replies = owner_run(&mut q, &mut store);
    assert_eq!(replies.len(), 3);
    assert_eq!(replies[0], (1, Reply::Done));
    assert_eq!(replies[1], (2, Reply::Done));
    assert_eq!(replies[2], (3, Reply::Value(Some(b"b".to_vec()))));
    assert_eq!(q.len(), 0);
}

#[test]
fn full_queue_reports_backpressure_and_drops_nothing() {
    // The owner is paused (consumes nothing). Submitting past the capacity
    // does not drop the request and is no error: the caller is told to
    // wait, and the queued work is intact.
    let mut q = MuxQueue::new(2);
    assert_eq!(q.submit(put(1, "a", b"1")), SubmitOutcome::Enqueued);
    assert_eq!(q.submit(put(2, "b", b"2")), SubmitOutcome::Enqueued);
    assert_eq!(q.submit(put(3, "c", b"3")), SubmitOutcome::Full);
    assert_eq!(q.len(), 2);
    assert!(!q.closed());
    // Once the owner consumes one item, the caller's retry succeeds.
    let taken = q.take_next().unwrap();
    assert_eq!(taken.id, 1);
    assert_eq!(q.submit(put(3, "c", b"3")), SubmitOutcome::Enqueued);
    assert_eq!(q.len(), 2);
}

#[test]
fn take_next_is_fifo() {
    let mut q = MuxQueue::new(8);
    q.submit(put(10, "x", b"1"));
    q.submit(get(11, "x"));
    q.submit(put(12, "y", b"2"));
    assert_eq!(q.take_next().unwrap().id, 10);
    assert_eq!(q.take_next().unwrap().id, 11);
    assert_eq!(q.take_next().unwrap().id, 12);
    assert!(q.take_next().is_none());
}

#[test]
fn submission_after_owner_terminated_fails_definitely() {
    let mut q = MuxQueue::new(4);
    q.submit(put(1, "k", b"v"));
    q.close();
    assert!(q.closed());
    assert_eq!(q.submit(get(2, "k")), SubmitOutcome::Closed);
    // The failed submission was not queued.
    assert_eq!(q.len(), 1);
}

#[test]
fn replies_carry_their_request_tag() {
    let mut q = MuxQueue::new(8);
    q.submit(put(7, "a", b"1"));
    q.submit(get(99, "missing"));
    q.submit(get(42, "a"));
    let mut store = ShardedStore::new(4);
    let replies = owner_run(&mut q, &mut store);
    assert_eq!(replies[0], (7, Reply::Done));
    assert_eq!(replies[1], (99, Reply::Value(None)));
    assert_eq!(replies[2], (42, Reply::Value(Some(b"1".to_vec()))));
}

#[test]
fn perform_reads_and_writes_the_store() {
    let mut store = ShardedStore::new(4);
    let r = perform(Command::Get { key: "k".to_string() }, &mut store);
    assert_eq!(r, Reply::Value(None));
    let r = perform(
        Command::Put { key: "k".to_string(), value: b"v".to_vec() },
        &mut store,
    );
    assert_eq!(r, Reply::Done);
    let r = perform(Command::Get { key: "k".to_string() }, &mut store);
    assert_eq!(r, Reply::Value(Some(b"v".to_vec())));
}
