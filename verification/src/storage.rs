//! The store of one node: a last-write-wins register per key.

use crate::clock::now_millis;
use vstd::hash_map::StringHashMap;
use vstd::prelude::*;

verus! {

/// What a value is stored under.
pub type Key = String;

/// What is stored. The store reads nothing into it.
pub type Hash = String;

/// A wall-clock instant, in milliseconds since the Unix epoch.
pub type Time = i64;

struct TimestampedValue {
    hash: Hash,
    time: Time,
}

/// What the store holds under one key.
pub struct Entry {
    pub hash: Seq<char>,
    pub time: int,
}

/// The contents of a store: at most one entry per key.
pub type Contents = Map<Seq<char>, Entry>;

/// The hash that `contents` holds under `key`, if any.
pub open spec fn lookup(contents: Contents, key: Seq<char>) -> Option<Seq<char>> {
    if contents.contains_key(key) {
        Some(contents[key].hash)
    } else {
        None
    }
}

/// A local write: it replaces whatever `key` held.
pub open spec fn stored(
    contents: Contents,
    key: Seq<char>,
    hash: Seq<char>,
    time: int,
) -> Contents {
    contents.insert(key, Entry { hash, time })
}

/// Whether an update stamped `time` wins over what `contents` holds under
/// `key`: the key is new, or its entry is strictly older.
pub open spec fn accepts(contents: Contents, key: Seq<char>, time: int) -> bool {
    !contents.contains_key(key) || contents[key].time < time
}

/// A merged update: it is written where it wins and dropped where it does not.
pub open spec fn merged(
    contents: Contents,
    key: Seq<char>,
    hash: Seq<char>,
    time: int,
) -> Contents {
    if accepts(contents, key, time) {
        stored(contents, key, hash, time)
    } else {
        contents
    }
}

/// A last-write-wins register per key.
pub struct Storage {
    hash_map: StringHashMap<TimestampedValue>,
}

impl View for Storage {
    type V = Contents;

    closed spec fn view(&self) -> Contents {
        self.hash_map@.map_values(
            |value: TimestampedValue| Entry { hash: value.hash@, time: value.time as int },
        )
    }
}

impl Default for Storage {
    fn default() -> (storage: Self)
        ensures
            storage@ == Map::<Seq<char>, Entry>::empty(),
    {
        Storage::new()
    }
}

impl Storage {
    /// An empty store.
    pub fn new() -> (storage: Self)
        ensures
            storage@ == Map::<Seq<char>, Entry>::empty(),
    {
        let storage = Storage { hash_map: StringHashMap::new() };
        assert(storage@ =~= Map::<Seq<char>, Entry>::empty());
        storage
    }

    /// Writes `hash` under `key`, stamped with the time given.
    pub fn store_at(&mut self, key: Key, hash: Hash, time: Time)
        ensures
            final(self)@ == stored(old(self)@, key@, hash@, time as int),
    {
        let ghost entry = Entry { hash: hash@, time: time as int };
        self.hash_map.insert(key, TimestampedValue { hash, time });
        assert(self@ =~= old(self)@.insert(key@, entry));
    }

    /// Writes `hash` under `key`, stamped with the current time, and returns
    /// the stamp.
    pub fn store(&mut self, key: Key, hash: Hash) -> (time: Time)
        ensures
            final(self)@ == stored(old(self)@, key@, hash@, time as int),
    {
        let time = now_millis();
        self.store_at(key, hash, time);
        time
    }

    /// The hash held under `key`, if any.
    pub fn load(&self, key: &Key) -> (hash: Option<Hash>)
        ensures
            match hash {
                Some(h) => lookup(self@, key@) == Some(h@),
                None => lookup(self@, key@) is None,
            },
    {
        match self.hash_map.get(key.as_str()) {
            Some(value) => Some(value.hash.clone()),
            None => None,
        }
    }

    /// Merges an update that another node accepted at `time`. Returns whether
    /// it was written.
    pub fn synchronize(&mut self, key: Key, hash: Hash, time: Time) -> (applied: bool)
        ensures
            applied == accepts(old(self)@, key@, time as int),
            final(self)@ == merged(old(self)@, key@, hash@, time as int),
    {
        let newer = match self.hash_map.get(key.as_str()) {
            Some(value) => value.time < time,
            None => true,
        };
        if newer {
            self.store_at(key, hash, time);
        }
        newer
    }

    /// The number of keys held.
    pub fn size(&self) -> (count: usize)
        ensures
            count == self@.len(),
    {
        let count = self.hash_map.len();
        assert(self@.dom() =~= self.hash_map@.dom());
        count
    }
}

/// A write that reaches a store: one made at the node itself, or one merged
/// from a peer.
pub enum Write {
    Local { key: Seq<char>, hash: Seq<char>, time: int },
    Remote { key: Seq<char>, hash: Seq<char>, time: int },
}

impl Write {
    /// The key that is written under.
    pub open spec fn key(self) -> Seq<char> {
        match self {
            Write::Local { key, .. } => key,
            Write::Remote { key, .. } => key,
        }
    }
}

/// The contents after one write.
pub open spec fn written(contents: Contents, write: Write) -> Contents {
    match write {
        Write::Local { key, hash, time } => stored(contents, key, hash, time),
        Write::Remote { key, hash, time } => merged(contents, key, hash, time),
    }
}

/// The contents after a run of writes, first to last.
pub open spec fn written_all(contents: Contents, writes: Seq<Write>) -> Contents
    decreases writes.len(),
{
    if writes.len() == 0 {
        contents
    } else {
        written(written_all(contents, writes.drop_last()), writes.last())
    }
}

/// Read-your-write: a key that was just written loads the hash written.
pub proof fn lemma_read_your_write(contents: Contents, key: Seq<char>, hash: Seq<char>, time: int)
    ensures
        lookup(stored(contents, key, hash, time), key) == Some(hash),
{
}

/// A write under one key leaves every other key as it was.
pub proof fn lemma_write_is_local(contents: Contents, write: Write, key: Seq<char>)
    requires
        write.key() != key,
    ensures
        lookup(written(contents, write), key) == lookup(contents, key),
{
}

/// Miss: a key under which nothing was ever written, here or at a peer, is
/// not found.
pub proof fn lemma_never_written_is_missing(writes: Seq<Write>, key: Seq<char>)
    requires
        forall|i: int| 0 <= i < writes.len() ==> (#[trigger] writes[i]).key() != key,
    ensures
        lookup(written_all(Map::empty(), writes), key) is None,
    decreases writes.len(),
{
    if writes.len() > 0 {
        lemma_never_written_is_missing(writes.drop_last(), key);
        lemma_write_is_local(written_all(Map::empty(), writes.drop_last()), writes.last(), key);
    }
}

/// Merging keeps the newest: afterwards the key is held, at a time that is
/// neither before the update's nor before the one held until then.
pub proof fn lemma_merge_keeps_newest(
    contents: Contents,
    key: Seq<char>,
    hash: Seq<char>,
    time: int,
)
    ensures
        merged(contents, key, hash, time).contains_key(key),
        merged(contents, key, hash, time)[key].time >= time,
        contents.contains_key(key) ==> merged(contents, key, hash, time)[key].time
            >= contents[key].time,
        merged(contents, key, hash, time)[key].time == time || (contents.contains_key(key)
            && merged(contents, key, hash, time)[key] == contents[key]),
{
}

/// Merging is idempotent: an update that is merged again changes nothing.
pub proof fn lemma_merge_idempotent(contents: Contents, key: Seq<char>, hash: Seq<char>, time: int)
    ensures
        merged(merged(contents, key, hash, time), key, hash, time) == merged(
            contents,
            key,
            hash,
            time,
        ),
{
}

/// Merging is commutative: two updates give the same contents in either
/// order, unless they write different hashes under one key at one time.
pub proof fn lemma_merge_commutes(
    contents: Contents,
    key1: Seq<char>,
    hash1: Seq<char>,
    time1: int,
    key2: Seq<char>,
    hash2: Seq<char>,
    time2: int,
)
    requires
        key1 != key2 || time1 != time2 || hash1 == hash2,
    ensures
        merged(merged(contents, key1, hash1, time1), key2, hash2, time2) == merged(
            merged(contents, key2, hash2, time2),
            key1,
            hash1,
            time1,
        ),
{
    let left = merged(merged(contents, key1, hash1, time1), key2, hash2, time2);
    let right = merged(merged(contents, key2, hash2, time2), key1, hash1, time1);
    assert(left =~= right);
}

/// Last write wins: of two updates to one key, the later is what a store
/// that holds nothing as new ends up with, whether the earlier one came
/// first, came second, or the later one came twice.
pub proof fn lemma_last_write_wins(
    contents: Contents,
    key: Seq<char>,
    hash1: Seq<char>,
    time1: int,
    hash2: Seq<char>,
    time2: int,
)
    requires
        time1 < time2,
        accepts(contents, key, time2),
    ensures
        merged(merged(contents, key, hash1, time1), key, hash2, time2) == stored(
            contents,
            key,
            hash2,
            time2,
        ),
        merged(merged(contents, key, hash2, time2), key, hash1, time1) == stored(
            contents,
            key,
            hash2,
            time2,
        ),
        merged(merged(contents, key, hash2, time2), key, hash2, time2) == stored(
            contents,
            key,
            hash2,
            time2,
        ),
{
    let first = merged(merged(contents, key, hash1, time1), key, hash2, time2);
    assert(first =~= stored(contents, key, hash2, time2));
}

/// Convergence: after a run of merged updates, in whatever order they came,
/// every key that an update named is held at a time not before that
/// update's, and what is held under a key is what the store began with or
/// what one of the updates brought.
pub proof fn lemma_merges_converge(contents: Contents, writes: Seq<Write>)
    requires
        forall|i: int| 0 <= i < writes.len() ==> #[trigger] writes[i] is Remote,
    ensures
        forall|i: int|
            0 <= i < writes.len() ==> written_all(contents, writes).contains_key(
                (#[trigger] writes[i]).key(),
            ) && written_all(contents, writes)[writes[i].key()].time >= writes[i]->Remote_time,
        forall|key: Seq<char>|
            contents.contains_key(key) ==> #[trigger] written_all(contents, writes).contains_key(
                key,
            ) && written_all(contents, writes)[key].time >= contents[key].time,
        forall|key: Seq<char>| #[trigger]
            written_all(contents, writes).contains_key(key) ==> (contents.contains_key(key)
                && written_all(contents, writes)[key] == contents[key]) || exists|i: int|
                0 <= i < writes.len() && #[trigger] writes[i] == (Write::Remote {
                    key,
                    hash: written_all(contents, writes)[key].hash,
                    time: written_all(contents, writes)[key].time,
                }),
    decreases writes.len(),
{
    if writes.len() > 0 {
        let earlier = writes.drop_last();
        let before = written_all(contents, earlier);
        let after = written_all(contents, writes);
        lemma_merges_converge(contents, earlier);
        assert forall|i: int| 0 <= i < writes.len() implies after.contains_key(
            (#[trigger] writes[i]).key(),
        ) && after[writes[i].key()].time >= writes[i]->Remote_time by {
            if i < earlier.len() {
                assert(earlier[i] == writes[i]);
            }
        }
        assert forall|key: Seq<char>| #[trigger] after.contains_key(key) implies (
        contents.contains_key(key) && after[key] == contents[key]) || exists|i: int|
            0 <= i < writes.len() && #[trigger] writes[i] == (Write::Remote {
                key,
                hash: after[key].hash,
                time: after[key].time,
            }) by {
            if before.contains_key(key) && after[key] == before[key] {
                if !(contents.contains_key(key) && before[key] == contents[key]) {
                    let i = choose|i: int|
                        0 <= i < earlier.len() && #[trigger] earlier[i] == (Write::Remote {
                            key,
                            hash: before[key].hash,
                            time: before[key].time,
                        });
                    assert(writes[i] == earlier[i]);
                }
            } else {
                assert(writes[writes.len() - 1] == writes.last());
            }
        }
    }
}

} // verus!
