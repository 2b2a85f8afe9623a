//! Commands and responses, and the executor that maps a parsed command to a
//! store operation and produces the response to write back.

use crate::store::ShardedStore;
use vstd::prelude::*;

verus! {

/// A parsed command, as handed over by the wire codec.
#[derive(Debug, Clone, PartialEq, Eq)]
pub enum Command {
    /// The wire's GET: read the value bound to `key`.
    Get { key: String },
    /// The wire's SET: bind `key` to `value`.
    Put { key: String, value: Vec<u8> },
}

/// The response written back for one command.
#[derive(Debug, Clone, PartialEq, Eq)]
pub enum Response {
    /// An acknowledgement, e.g. "OK" for a completed set.
    Simple(String),
    /// The value bound to the requested key.
    Bulk(Vec<u8>),
    /// The requested key is absent.
    Null,
}

/// The store's map after `cmd` runs against a store holding `m`: a get
/// changes nothing, a set binds the key to the value.
pub open spec fn store_after(m: Map<Seq<char>, Seq<u8>>, cmd: Command) -> Map<Seq<char>, Seq<u8>> {
    match cmd {
        Command::Get { .. } => m,
        Command::Put { key, value } => m.insert(key@, value@),
    }
}

/// The response owed for `cmd` against a store holding `m`: a get returns
/// the bound value, or nothing when the key is absent; a set acknowledges
/// with "OK".
pub open spec fn response_matches(m: Map<Seq<char>, Seq<u8>>, cmd: Command, r: Response) -> bool {
    match cmd {
        Command::Get { key } => {
            if m.contains_key(key@) {
                r matches Response::Bulk(v) && v@ == m[key@]
            } else {
                r is Null
            }
        },
        Command::Put { .. } => r matches Response::Simple(s) && s@ == "OK"@,
    }
}

pub(crate) fn clone_bytes(v: &Vec<u8>) -> (r: Vec<u8>)
    ensures
        r@ == v@,
{
    let r = v.clone();
    proof {
        assert(r@ =~= v@);
    }
    r
}

/// Executes one command against a single shard and returns the response to
/// send. This is the work done while holding that shard's exclusion
/// primitive: the caller routes the command's key, acquires that shard
/// alone, calls this, and releases — never holding the shard across I/O.
pub fn execute_on_shard(cmd: Command, shard: &mut crate::store::Shard) -> (r: Response)
    requires
        old(shard).wf(),
    ensures
        final(shard).wf(),
        final(shard)@ == store_after(old(shard)@, cmd),
        response_matches(old(shard)@, cmd, r),
        cmd is Get ==> *final(shard) == *old(shard),
{
    match cmd {
        Command::Get { key } => {
            match shard.get(&key) {
                Some(v) => {
                    let value = clone_bytes(v);
                    Response::Bulk(value)
                },
                None => Response::Null,
            }
        },
        Command::Put { key, value } => {
            shard.set(key, value);
            Response::Simple("OK".to_owned())
        },
    }
}

/// Executes one command against the store and returns the response to send:
/// a get reads (and leaves every shard untouched), a set writes its key's
/// shard only and acknowledges with "OK".
pub fn execute(cmd: Command, store: &mut ShardedStore) -> (r: Response)
    requires
        old(store).wf(),
    ensures
        final(store).wf(),
        final(store).spec_num_shards() == old(store).spec_num_shards(),
        final(store)@ == store_after(old(store)@, cmd),
        response_matches(old(store)@, cmd, r),
        cmd is Get ==> *final(store) == *old(store),
        cmd matches Command::Put { key, value } ==> {
            &&& final(store).shard_map(
                crate::routing::spec_route(key@, old(store).spec_num_shards()),
            ) == old(store).shard_map(
                crate::routing::spec_route(key@, old(store).spec_num_shards()),
            ).insert(key@, value@)
            &&& forall|i: int|
                0 <= i < old(store).spec_num_shards() && i != crate::routing::spec_route(
                    key@,
                    old(store).spec_num_shards(),
                ) ==> final(store).shard_map(i) == old(store).shard_map(i)
        },
{
    match cmd {
        Command::Get { key } => {
            match store.get(&key) {
                Some(v) => {
                    let value = clone_bytes(v);
                    Response::Bulk(value)
                },
                None => Response::Null,
            }
        },
        Command::Put { key, value } => {
            store.set(key, value);
            Response::Simple("OK".to_owned())
        },
    }
}

} // verus!
