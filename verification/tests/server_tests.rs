use sharded_kv::command::{execute, Command, Response};
use sharded_kv::server::{worker_step, ConnAction, ConnEvent, ConnState, WorkerError};
use sharded_kv::store::ShardedStore;

#[test]
fn execute_get_on_empty_store_is_null() {
    let mut store = ShardedStore::new(16);
    let r = execute(Command::Get { key: "k".to_string() }, &mut store);
    assert_eq!(r, Response::Null);
}

#[test]
fn execute_put_acknowledges_ok() {
    let mut store = ShardedStore::new(16);
    let r = execute(
        Command::Put { key: "k".to_string(), value: b"v".to_vec() },
        &mut store,
    );
    assert_eq!(r, Response::Simple("OK".to_string()));
}

#[test]
fn execute_get_after_put_returns_bulk() {
    let mut store = ShardedStore::new(16);
    execute(
        Command::Put { key: "k".to_string(), value: b"v".to_vec() },
        &mut store,
    );
    let r = execute(Command::Get { key: "k".to_string() }, &mut store);
    assert_eq!(r, Response::Bulk(b"v".to_vec()));
}

#[test]
fn worker_closes_on_end_of_stream_without_touching_store() {
    let mut store = ShardedStore::new(16);
    store.set("k".to_string(), b"v".to_vec());
    let (state, action) = worker_step(ConnState::Open, ConnEvent::EndOfStream, &mut store);
    assert_eq!(state, ConnState::Closed);
    assert_eq!(action, ConnAction::Stop);
    // No shard was mutated: the store still answers exactly as before.
    assert_eq!(store.get(&"k".to_string()), Some(&b"v".to_vec()));
    assert_eq!(store.get(&"other".to_string()), None);
    assert_eq!(store.num_shards(), 16);
}

#[test]
fn closed_worker_performs_no_further_work() {
    let mut store = ShardedStore::new(4);
    let (state, action) = worker_step(
        ConnState::Closed,
        ConnEvent::Request(Command::Put { key: "k".to_string(), value: b"v".to_vec() }),
        &mut store,
    );
    assert_eq!(state, ConnState::Closed);
    assert_eq!(action, ConnAction::Stop);
    assert_eq!(store.get(&"k".to_string()), None);
}

#[test]
fn unsupported_command_fails_this_connection_only() {
    let mut store = ShardedStore::new(4);
    store.set("k".to_string(), b"v".to_vec());
    let (state, action) = worker_step(ConnState::Open, ConnEvent::Unsupported, &mut store);
    assert_eq!(state, ConnState::Closed);
    assert_eq!(action, ConnAction::Fail(WorkerError::Unsupported));
    // The shared store is unaffected and stays usable for other workers.
    assert_eq!(store.get(&"k".to_string()), Some(&b"v".to_vec()));
}

#[test]
fn malformed_frame_fails_this_connection_only() {
    let mut store = ShardedStore::new(4);
    let (state, action) = worker_step(ConnState::Open, ConnEvent::Malformed, &mut store);
    assert_eq!(state, ConnState::Closed);
    assert_eq!(action, ConnAction::Fail(WorkerError::Malformed));
}

#[test]
fn open_worker_responds_and_stays_open() {
    let mut store = ShardedStore::new(4);
    let (state, action) = worker_step(
        ConnState::Open,
        ConnEvent::Request(Command::Put { key: "k".to_string(), value: b"v".to_vec() }),
        &mut store,
    );
    assert_eq!(state, ConnState::Open);
    assert_eq!(action, ConnAction::Respond(Response::Simple("OK".to_string())));
    let (state, action) = worker_step(
        ConnState::Open,
        ConnEvent::Request(Command::Get { key: "k".to_string() }),
        &mut store,
    );
    assert_eq!(state, ConnState::Open);
    assert_eq!(action, ConnAction::Respond(Response::Bulk(b"v".to_vec())));
}
