//! The request multiplexer: many caller tasks funnel tagged requests
//! through one bounded queue to a single owner task, which alone touches
//! the outbound connection. The owner consumes the queue strictly one item
//! at a time and finishes each request's traffic before taking the next, so
//! all requests execute serially in submission order and each reply goes
//! back to exactly the caller whose tag it carries.

use crate::command::{clone_bytes, store_after, Command};
use crate::store::ShardedStore;
use vstd::prelude::*;

verus! {

/// One request in flight: a command together with the tag of the reply slot
/// its originator is waiting on. Each tag's slot receives at most one value,
/// ever: the owner delivers exactly one reply per consumed request.
#[derive(Debug, Clone, PartialEq, Eq)]
pub struct TaggedRequest {
    pub id: u64,
    pub cmd: Command,
}

/// The reply the owner delivers for one request.
#[derive(Debug, Clone, PartialEq, Eq)]
pub enum Reply {
    /// What a get found: the bound value, or nothing.
    Value(Option<Vec<u8>>),
    /// Acknowledgement of a completed put.
    Done,
}

/// What `submit` tells the caller.
#[derive(Debug, Clone, Copy, PartialEq, Eq)]
pub enum SubmitOutcome {
    /// The request is in the queue; a reply will be delivered to its tag.
    Enqueued,
    /// The queue is at capacity. Nothing was dropped and nothing failed:
    /// the caller must suspend and try again once the owner has consumed
    /// an item — this is the backpressure the bounded queue exists for.
    Full,
    /// The owner has terminated; the submission definitely failed and no
    /// reply will ever arrive.
    Closed,
}

/// The bounded work queue between caller tasks and the owner task.
pub struct MuxQueue {
    capacity: usize,
    pending: Vec<TaggedRequest>,
    closed: bool,
}

/// The reply owed for `cmd` against a store holding `m`.
pub open spec fn reply_matches(m: Map<Seq<char>, Seq<u8>>, cmd: Command, rep: Reply) -> bool {
    match cmd {
        Command::Get { key } => {
            if m.contains_key(key@) {
                rep matches Reply::Value(v) && v matches Some(vv) && vv@ == m[key@]
            } else {
                rep == Reply::Value(None::<Vec<u8>>)
            }
        },
        Command::Put { .. } => rep is Done,
    }
}

/// The commands of a sequence of tagged requests, in queue order.
pub open spec fn cmds_of(s: Seq<TaggedRequest>) -> Seq<Command> {
    s.map_values(|t: TaggedRequest| t.cmd)
}

/// The store's map after the commands run serially, first to last.
pub open spec fn run_map(m: Map<Seq<char>, Seq<u8>>, cmds: Seq<Command>) -> Map<
    Seq<char>,
    Seq<u8>,
>
    decreases cmds.len(),
{
    if cmds.len() == 0 {
        m
    } else {
        run_map(store_after(m, cmds[0]), cmds.drop_first())
    }
}

/// Running one more command after a prefix folds as one further step.
pub proof fn lemma_run_map_snoc(m: Map<Seq<char>, Seq<u8>>, cmds: Seq<Command>, c: Command)
    ensures
        run_map(m, cmds.push(c)) == store_after(run_map(m, cmds), c),
    decreases cmds.len(),
{
    if cmds.len() == 0 {
        assert(cmds.push(c)[0] == c);
        assert(cmds.push(c).drop_first() =~= Seq::<Command>::empty());
        assert(run_map(m, cmds.push(c)) == run_map(store_after(m, c), Seq::<Command>::empty()));
    } else {
        assert(cmds.push(c)[0] == cmds[0]);
        assert(cmds.push(c).drop_first() =~= cmds.drop_first().push(c));
        lemma_run_map_snoc(store_after(m, cmds[0]), cmds.drop_first(), c);
    }
}

impl MuxQueue {
    /// The capacity the queue was built with.
    pub closed spec fn spec_capacity(&self) -> int {
        self.capacity as int
    }

    /// The queued requests, oldest first.
    pub closed spec fn spec_pending(&self) -> Seq<TaggedRequest> {
        self.pending@
    }

    /// Whether the owner has terminated and closed the queue.
    pub closed spec fn is_closed(&self) -> bool {
        self.closed
    }

    /// Well-formed: positive capacity, never holding more than it.
    pub open spec fn wf(&self) -> bool {
        1 <= self.spec_capacity() && self.spec_pending().len() <= self.spec_capacity()
    }

    /// A fresh, open, empty queue of the given capacity.
    pub fn new(capacity: usize) -> (q: MuxQueue)
        requires
            capacity >= 1,
        ensures
            q.wf(),
            q.spec_capacity() == capacity,
            q.spec_pending() == Seq::<TaggedRequest>::empty(),
            !q.is_closed(),
    {
        MuxQueue { capacity, pending: Vec::new(), closed: false }
    }

    /// How many requests are queued.
    pub fn len(&self) -> (n: usize)
        ensures
            n == self.spec_pending().len(),
    {
        self.pending.len()
    }

    /// The queue's capacity.
    pub fn capacity(&self) -> (n: usize)
        ensures
            n == self.spec_capacity(),
    {
        self.capacity
    }

    /// Whether submissions are refused because the owner terminated.
    pub fn closed(&self) -> (b: bool)
        ensures
            b == self.is_closed(),
    {
        self.closed
    }

    /// A caller submits one tagged request. On a closed queue the submission
    /// definitely fails; on a full queue nothing is dropped and nothing
    /// fails — the caller is told to wait (backpressure); otherwise the
    /// request takes its place at the back of the queue.
    pub fn submit(&mut self, r: TaggedRequest) -> (out: SubmitOutcome)
        requires
            old(self).wf(),
        ensures
            final(self).wf(),
            final(self).spec_capacity() == old(self).spec_capacity(),
            final(self).is_closed() == old(self).is_closed(),
            old(self).is_closed() ==> out == SubmitOutcome::Closed && *final(self) == *old(self),
            !old(self).is_closed() && old(self).spec_pending().len() == old(self).spec_capacity()
                ==> out == SubmitOutcome::Full && *final(self) == *old(self),
            !old(self).is_closed() && old(self).spec_pending().len() < old(self).spec_capacity()
                ==> out == SubmitOutcome::Enqueued && final(self).spec_pending() == old(
                self,
            ).spec_pending().push(r),
    {
        if self.closed {
            return SubmitOutcome::Closed;
        }
        if self.pending.len() == self.capacity {
            return SubmitOutcome::Full;
        }
        self.pending.push(r);
        SubmitOutcome::Enqueued
    }

    /// The owner takes the next request: the oldest one, so requests leave
    /// the queue strictly in submission order.
    pub fn take_next(&mut self) -> (r: Option<TaggedRequest>)
        requires
            old(self).wf(),
        ensures
            final(self).wf(),
            final(self).spec_capacity() == old(self).spec_capacity(),
            final(self).is_closed() == old(self).is_closed(),
            old(self).spec_pending().len() == 0 ==> r is None && *final(self) == *old(self),
            old(self).spec_pending().len() > 0 ==> {
                &&& r == Some(old(self).spec_pending()[0])
                &&& final(self).spec_pending() == old(self).spec_pending().drop_first()
            },
    {
        if self.pending.len() == 0 {
            None
        } else {
            let t = self.pending.remove(0);
            proof {
                assert(self.pending@ =~= old(self).pending@.drop_first());
            }
            Some(t)
        }
    }

    /// The owner terminated (the queue was closed or the connection
    /// failed): every later submission fails definitely.
    pub fn close(&mut self)
        requires
            old(self).wf(),
        ensures
            final(self).wf(),
            final(self).is_closed(),
            final(self).spec_capacity() == old(self).spec_capacity(),
            final(self).spec_pending() == old(self).spec_pending(),
    {
        self.closed = true;
    }
}

/// The owner executes one request's command. This is the single connection
/// operation the owner issues before consuming the next queued item.
pub fn perform(cmd: Command, store: &mut ShardedStore) -> (rep: Reply)
    requires
        old(store).wf(),
    ensures
        final(store).wf(),
        final(store).spec_num_shards() == old(store).spec_num_shards(),
        final(store)@ == store_after(old(store)@, cmd),
        reply_matches(old(store)@, cmd, rep),
{
    match cmd {
        Command::Get { key } => {
            match store.get(&key) {
                Some(v) => Reply::Value(Some(clone_bytes(v))),
                None => Reply::Value(None),
            }
        },
        Command::Put { key, value } => {
            store.set(key, value);
            Reply::Done
        },
    }
}

/// The owner loop: drain the queue, executing each request serially in
/// submission order and pairing each reply with the tag of the request it
/// answers. The i-th reply answers the i-th queued request against the
/// store as left by the requests before it — no two in-flight requests are
/// ever interleaved.
pub fn owner_run(q: &mut MuxQueue, store: &mut ShardedStore) -> (replies: Vec<(u64, Reply)>)
    requires
        old(q).wf(),
        old(store).wf(),
    ensures
        final(q).wf(),
        final(q).spec_pending().len() == 0,
        final(q).spec_capacity() == old(q).spec_capacity(),
        final(q).is_closed() == old(q).is_closed(),
        final(store).wf(),
        final(store).spec_num_shards() == old(store).spec_num_shards(),
        final(store)@ == run_map(old(store)@, cmds_of(old(q).spec_pending())),
        replies@.len() == old(q).spec_pending().len(),
        forall|i: int|
            0 <= i < replies@.len() ==> {
                &&& replies@[i].0 == old(q).spec_pending()[i].id
                &&& reply_matches(
                    run_map(old(store)@, cmds_of(old(q).spec_pending()).take(i)),
                    old(q).spec_pending()[i].cmd,
                    replies@[i].1,
                )
            },
{
    let ghost qs = old(q).spec_pending();
    let ghost cs = cmds_of(qs);
    let ghost m0 = old(store)@;
    let mut replies: Vec<(u64, Reply)> = Vec::new();
    while q.len() > 0
        invariant
            q.wf(),
            store.wf(),
            q.spec_capacity() == old(q).spec_capacity(),
            q.is_closed() == old(q).is_closed(),
            store.spec_num_shards() == old(store).spec_num_shards(),
            cs == cmds_of(qs),
            m0 == old(store)@,
            qs == old(q).spec_pending(),
            replies@.len() + q.spec_pending().len() == qs.len(),
            q.spec_pending() == qs.skip(replies@.len() as int),
            store@ == run_map(m0, cs.take(replies@.len() as int)),
            forall|i: int|
                0 <= i < replies@.len() ==> {
                    &&& replies@[i].0 == qs[i].id
                    &&& reply_matches(run_map(m0, cs.take(i)), qs[i].cmd, replies@[i].1)
                },
        decreases q.spec_pending().len(),
    {
        let ghost k = replies@.len() as int;
        proof {
            assert(qs.skip(k)[0] == qs[k]);
            assert(qs.skip(k).drop_first() =~= qs.skip(k + 1));
            assert(cs[k] == qs[k].cmd);
            assert(cs.take(k + 1) =~= cs.take(k).push(cs[k]));
            lemma_run_map_snoc(m0, cs.take(k), cs[k]);
        }
        let t = q.take_next().unwrap();
        let id = t.id;
        let rep = perform(t.cmd, store);
        replies.push((id, rep));
    }
    proof {
        assert(cs.take(qs.len() as int) =~= cs);
    }
    replies
}

/// Law: three requests submitted in order by one caller with nothing
/// interleaved — put `k := a`, put `k := b`, then get `k` — yield the value
/// `b` for the get, whatever the store held before. This is the ordering
/// the single-owner queue guarantees: `owner_run` answers the i-th request
/// against the store as left by the requests before it.
pub proof fn lemma_mux_ordering(
    m: Map<Seq<char>, Seq<u8>>,
    cmds: Seq<Command>,
    k: Seq<char>,
    a: Seq<u8>,
    b: Seq<u8>,
    rep: Reply,
)
    requires
        cmds.len() == 3,
        cmds[0] matches Command::Put { key, value } && key@ == k && value@ == a,
        cmds[1] matches Command::Put { key, value } && key@ == k && value@ == b,
        cmds[2] matches Command::Get { key } && key@ == k,
        reply_matches(run_map(m, cmds.take(2)), cmds[2], rep),
    ensures
        rep matches Reply::Value(v) && v matches Some(vv) && vv@ == b,
{
    let s = cmds.take(2);
    assert(s.len() == 2);
    assert(s[0] == cmds[0]);
    assert(s.drop_first().len() == 1);
    assert(s.drop_first()[0] == cmds[1]);
    assert(s.drop_first().drop_first() =~= Seq::<Command>::empty());
    let m1 = store_after(m, cmds[0]);
    let m2 = run_map(m, s);
    assert(run_map(m, s) == run_map(m1, s.drop_first()));
    assert(run_map(m1, s.drop_first()) == run_map(
        store_after(m1, cmds[1]),
        s.drop_first().drop_first(),
    ));
    assert(run_map(store_after(m1, cmds[1]), Seq::<Command>::empty()) == store_after(m1, cmds[1]));
    assert(m2 == store_after(store_after(m, cmds[0]), cmds[1]));
    assert(m2.contains_key(k));
    assert(m2[k] == b);
}

} // verus!
