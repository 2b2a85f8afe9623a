//! The sharded store: a fixed number of independently held partitions, each
//! an exclusive-access map from string keys to byte values. A key belongs to
//! exactly one shard for the store's lifetime, determined by the routing
//! hash of the key modulo the shard count; no rebalancing occurs.

use crate::routing::{hash_key, lemma_route_in_range, spec_route};
use vstd::prelude::*;

verus! {

/// One key/value pair held by a shard.
pub struct ShardEntry {
    pub key: String,
    pub value: Vec<u8>,
}

/// One independently lockable partition of the key space: a map from string
/// keys to byte values meant to be guarded by its own exclusion primitive,
/// so that operations on distinct shards never contend.
pub struct Shard {
    entries: Vec<ShardEntry>,
}

/// The map a sequence of entries denotes; a later entry for a key shadows
/// an earlier one.
pub open spec fn entries_map(s: Seq<ShardEntry>) -> Map<Seq<char>, Seq<u8>>
    decreases s.len(),
{
    if s.len() == 0 {
        Map::empty()
    } else {
        entries_map(s.drop_last()).insert(s.last().key@, s.last().value@)
    }
}

/// No key occurs in two entries.
pub open spec fn distinct_keys(s: Seq<ShardEntry>) -> bool {
    forall|i: int, j: int| 0 <= i < j < s.len() ==> s[i].key@ != s[j].key@
}

impl View for Shard {
    type V = Map<Seq<char>, Seq<u8>>;

    closed spec fn view(&self) -> Map<Seq<char>, Seq<u8>> {
        entries_map(self.entries@)
    }
}

proof fn lemma_entries_map_present(s: Seq<ShardEntry>, i: int)
    requires
        distinct_keys(s),
        0 <= i < s.len(),
    ensures
        entries_map(s).contains_key(s[i].key@),
        entries_map(s)[s[i].key@] == s[i].value@,
    decreases s.len(),
{
    if i < s.len() - 1 {
        assert(distinct_keys(s.drop_last()));
        lemma_entries_map_present(s.drop_last(), i);
        assert(s.last().key@ != s[i].key@);
    }
}

proof fn lemma_entries_map_absent(s: Seq<ShardEntry>, k: Seq<char>)
    requires
        forall|i: int| 0 <= i < s.len() ==> s[i].key@ != k,
    ensures
        !entries_map(s).contains_key(k),
    decreases s.len(),
{
    if s.len() > 0 {
        lemma_entries_map_absent(s.drop_last(), k);
    }
}

proof fn lemma_entries_map_update(s: Seq<ShardEntry>, i: int, e: ShardEntry)
    requires
        distinct_keys(s),
        0 <= i < s.len(),
        e.key@ == s[i].key@,
    ensures
        entries_map(s.update(i, e)) == entries_map(s).insert(e.key@, e.value@),
        distinct_keys(s.update(i, e)),
    decreases s.len(),
{
    let t = s.update(i, e);
    assert(forall|j: int| 0 <= j < s.len() && j != i ==> t[j] == s[j]);
    if i == s.len() - 1 {
        assert(t.drop_last() =~= s.drop_last());
        assert(entries_map(t) =~= entries_map(s).insert(e.key@, e.value@));
    } else {
        assert(t.drop_last() =~= s.drop_last().update(i, e));
        assert(distinct_keys(s.drop_last()));
        lemma_entries_map_update(s.drop_last(), i, e);
        assert(s.last().key@ != e.key@);
        assert(entries_map(t) =~= entries_map(s).insert(e.key@, e.value@));
    }
}

impl Shard {
    /// Well-formed: each key is held by at most one entry.
    pub closed spec fn wf(&self) -> bool {
        distinct_keys(self.entries@)
    }

    /// A fresh, empty shard.
    pub fn new() -> (s: Shard)
        ensures
            s.wf(),
            s@ == Map::<Seq<char>, Seq<u8>>::empty(),
    {
        Shard { entries: Vec::new() }
    }

    /// Reads the value bound to `key` in this shard, if any.
    pub fn get<'a>(&'a self, key: &String) -> (r: Option<&'a Vec<u8>>)
        requires
            self.wf(),
        ensures
            match r {
                Some(v) => self@.contains_key(key@) && v@ == self@[key@],
                None => !self@.contains_key(key@),
            },
    {
        let mut i: usize = 0;
        while i < self.entries.len()
            invariant
                self.wf(),
                i <= self.entries@.len(),
                forall|j: int| 0 <= j < i ==> self.entries@[j].key@ != key@,
            decreases self.entries@.len() - i,
        {
            if self.entries[i].key == *key {
                proof {
                    lemma_entries_map_present(self.entries@, i as int);
                }
                return Some(&self.entries[i].value);
            }
            i = i + 1;
        }
        proof {
            lemma_entries_map_absent(self.entries@, key@);
        }
        None
    }

    /// Inserts or overwrites the binding for `key` in this shard.
    pub fn set(&mut self, key: String, value: Vec<u8>)
        requires
            old(self).wf(),
        ensures
            final(self).wf(),
            final(self)@ == old(self)@.insert(key@, value@),
    {
        let mut i: usize = 0;
        while i < self.entries.len()
            invariant
                self.wf(),
                *self == *old(self),
                i <= self.entries@.len(),
                forall|j: int| 0 <= j < i ==> self.entries@[j].key@ != key@,
            decreases self.entries@.len() - i,
        {
            if self.entries[i].key == key {
                let e = ShardEntry { key, value };
                proof {
                    lemma_entries_map_update(self.entries@, i as int, e);
                }
                self.entries.set(i, e);
                return;
            }
            i = i + 1;
        }
        let e = ShardEntry { key, value };
        self.entries.push(e);
        proof {
            assert(self.entries@.drop_last() =~= old(self).entries@);
            assert(forall|j: int|
                0 <= j < old(self).entries@.len() ==> self.entries@[j] == old(self).entries@[j]);
            assert(distinct_keys(self.entries@));
        }
    }
}

/// The store: an ordered sequence of shards sharing one key space. The
/// routing hash sends every key to exactly one shard, so operations on keys
/// with distinct routes touch disjoint shards.
pub struct ShardedStore {
    shards: Vec<Shard>,
}

impl View for ShardedStore {
    type V = Map<Seq<char>, Seq<u8>>;

    closed spec fn view(&self) -> Map<Seq<char>, Seq<u8>> {
        Map::new(
            |k: Seq<char>| self.shards@[spec_route(k, self.shards@.len() as int)]@.contains_key(k),
            |k: Seq<char>| self.shards@[spec_route(k, self.shards@.len() as int)]@[k],
        )
    }
}

impl ShardedStore {
    /// How many shards the store was built with.
    pub closed spec fn spec_num_shards(&self) -> int {
        self.shards@.len() as int
    }

    /// The map held by shard `i`.
    pub closed spec fn shard_map(&self, i: int) -> Map<Seq<char>, Seq<u8>> {
        self.shards@[i]@
    }

    /// Well-formed: at least one shard, every shard well-formed, and every
    /// key held by shard `i` routes to `i` — a key belongs to exactly one
    /// shard for the store's lifetime.
    pub closed spec fn wf(&self) -> bool {
        &&& self.shards@.len() >= 1
        &&& forall|i: int| 0 <= i < self.shards@.len() ==> (#[trigger] self.shards@[i]).wf()
        &&& forall|i: int, k: Seq<char>|
            0 <= i < self.shards@.len() && #[trigger] self.shards@[i]@.contains_key(k)
                ==> spec_route(k, self.shards@.len() as int) == i
    }

    /// A fresh store with `num_shards` empty shards.
    pub fn new(num_shards: usize) -> (s: ShardedStore)
        requires
            num_shards >= 1,
        ensures
            s.wf(),
            s.spec_num_shards() == num_shards,
            s@ == Map::<Seq<char>, Seq<u8>>::empty(),
            forall|i: int|
                0 <= i < num_shards ==> s.shard_map(i) == Map::<Seq<char>, Seq<u8>>::empty(),
    {
        let mut shards: Vec<Shard> = Vec::new();
        let mut i: usize = 0;
        while i < num_shards
            invariant
                i <= num_shards,
                shards@.len() == i,
                forall|j: int|
                    0 <= j < i
                        ==> (#[trigger] shards@[j]).wf() && shards@[j]@ == Map::<
                        Seq<char>,
                        Seq<u8>,
                    >::empty(),
            decreases num_shards - i,
        {
            shards.push(Shard::new());
            i = i + 1;
        }
        let s = ShardedStore { shards };
        proof {
            assert forall|k: Seq<char>| !s@.contains_key(k) by {
                lemma_route_in_range(k, s.shards@.len() as int);
            }
            assert(s@ =~= Map::<Seq<char>, Seq<u8>>::empty());
        }
        s
    }

    /// How many shards the store has.
    pub fn num_shards(&self) -> (n: usize)
        ensures
            n == self.spec_num_shards(),
    {
        self.shards.len()
    }

    /// Reads the value bound to `key`, touching only the shard the key
    /// routes to.
    pub fn get<'a>(&'a self, key: &String) -> (r: Option<&'a Vec<u8>>)
        requires
            self.wf(),
        ensures
            match r {
                Some(v) => self@.contains_key(key@) && v@ == self@[key@],
                None => !self@.contains_key(key@),
            },
    {
        let idx = hash_key(key.as_str(), self.shards.len());
        self.shards[idx].get(key)
    }

    /// Inserts or overwrites the binding for `key`. Only the shard the key
    /// routes to changes: every other shard is left untouched, so writes to
    /// keys with distinct routes never contend.
    pub fn set(&mut self, key: String, value: Vec<u8>)
        requires
            old(self).wf(),
        ensures
            final(self).wf(),
            final(self).spec_num_shards() == old(self).spec_num_shards(),
            final(self)@ == old(self)@.insert(key@, value@),
            final(self).shard_map(spec_route(key@, old(self).spec_num_shards())) == old(self).shard_map(
                spec_route(key@, old(self).spec_num_shards()),
            ).insert(key@, value@),
            forall|i: int|
                0 <= i < old(self).spec_num_shards() && i != spec_route(
                    key@,
                    old(self).spec_num_shards(),
                ) ==> final(self).shard_map(i) == old(self).shard_map(i),
    {
        let ghost n = self.shards@.len() as int;
        let ghost kv = key@;
        let idx = hash_key(key.as_str(), self.shards.len());
        self.shards[idx].set(key, value);
        proof {
            assert(self.shards@[idx as int]@ == old(self).shards@[idx as int]@.insert(kv, value@));
            assert forall|i: int, k: Seq<char>|
                0 <= i < n && #[trigger] self.shards@[i]@.contains_key(k) implies spec_route(k, n)
                == i by {
                if i == idx as int {
                    if k != kv {
                        assert(old(self).shards@[i]@.contains_key(k));
                    }
                } else {
                    assert(old(self).shards@[i]@.contains_key(k));
                }
            }
            assert(self.wf());
            assert forall|k: Seq<char>| true implies {
                &&& self@.contains_key(k) == old(self)@.insert(kv, value@).contains_key(k)
                &&& (self@.contains_key(k) ==> self@[k] == old(self)@.insert(kv, value@)[k])
            } by {
                lemma_route_in_range(k, n);
            }
            assert(self@ =~= old(self)@.insert(kv, value@));
        }
    }
}

/// Law: writes to keys that route to different shards are independent.
/// `set` touches only the shard its key routes to (its own contract says
/// every other shard is left unchanged), and as this lemma states, two such
/// writes concern distinct keys and leave the same store whichever finishes
/// first — neither has to wait for the other.
pub proof fn lemma_distinct_routes_independent(
    m: Map<Seq<char>, Seq<u8>>,
    k1: Seq<char>,
    v1: Seq<u8>,
    k2: Seq<char>,
    v2: Seq<u8>,
    n: int,
)
    requires
        n >= 1,
        spec_route(k1, n) != spec_route(k2, n),
    ensures
        k1 != k2,
        m.insert(k1, v1).insert(k2, v2) == m.insert(k2, v2).insert(k1, v1),
{
    assert(m.insert(k1, v1).insert(k2, v2) =~= m.insert(k2, v2).insert(k1, v1));
}

/// Law: setting a key and then reading it on the same store returns the
/// value just written, and reading a key never set returns nothing. Stated
/// over the store's map model, which `set`, `get` and `new` are specified
/// against.
pub proof fn lemma_round_trip(m: Map<Seq<char>, Seq<u8>>, k: Seq<char>, v: Seq<u8>)
    ensures
        m.insert(k, v).contains_key(k),
        m.insert(k, v)[k] == v,
        !Map::<Seq<char>, Seq<u8>>::empty().contains_key(k),
{
}

/// Law: setting a key twice and then reading it returns the second value —
/// last write wins for a single key under sequential execution on its shard.
pub proof fn lemma_overwrite(m: Map<Seq<char>, Seq<u8>>, k: Seq<char>, v1: Seq<u8>, v2: Seq<u8>)
    ensures
        m.insert(k, v1).insert(k, v2).contains_key(k),
        m.insert(k, v1).insert(k, v2)[k] == v2,
{
}

} // verus!
