//! World streaming: which chunks are loaded, which are being generated, and
//! which may go.
//!
//! Generation runs elsewhere. The manager only decides: a chunk is asked for
//! at most once while its generation is in flight, a finished chunk is stored
//! whether or not anybody still wants it, and a stored chunk is dropped as
//! soon as no observer's view distance covers it.

use crate::grid::chunk_distance;
use crate::grid::spec_chunk_distance;
use crate::grid::ChunkKey;
use crate::select::is_selection;
use crate::select::lemma_selection_skip;
use crate::select::lemma_selection_take;
use vstd::prelude::*;

verus! {

/// Somebody who keeps chunks alive: the chunk they stand in, and how far they
/// see, in chunks. Without a view distance they keep nothing alive.
#[derive(Clone, Copy, Debug, PartialEq, Eq, Structural)]
pub struct Observer {
    pub chunk: ChunkKey,
    pub view_distance: Option<u32>,
}

/// Whether `observer` sees the chunk at `key`.
pub open spec fn spec_sees(observer: Observer, key: ChunkKey) -> bool {
    match observer.view_distance {
        Some(vd) => spec_chunk_distance(observer.chunk, key) <= vd,
        None => false,
    }
}

/// Whether some observer sees the chunk at `key`.
pub open spec fn spec_covered(observers: Seq<Observer>, key: ChunkKey) -> bool {
    exists|i: int| 0 <= i < observers.len() && spec_sees(#[trigger] observers[i], key)
}

/// The pending set after a request for `key`.
pub open spec fn spec_request(pending: Set<ChunkKey>, key: ChunkKey) -> Set<ChunkKey> {
    pending.insert(key)
}

/// Whether a request for `key` sends a generation job out.
pub open spec fn spec_dispatches(pending: Set<ChunkKey>, key: ChunkKey) -> bool {
    !pending.contains(key)
}

/// Two requests for one key send out at most one generation job: after the
/// first the key is pending, so the second sends nothing and changes
/// nothing. If the key was not pending before, the first sends exactly one.
pub proof fn request_is_deduplicated(pending: Set<ChunkKey>, key: ChunkKey)
    ensures
        !spec_dispatches(spec_request(pending, key), key),
        spec_request(spec_request(pending, key), key) == spec_request(pending, key),
        !pending.contains(key) ==> spec_dispatches(pending, key),
        pending.contains(key) ==> !spec_dispatches(pending, key) && spec_request(pending, key)
            == pending,
{
}

/// A stored chunk.
pub struct Entry<C> {
    pub key: ChunkKey,
    pub chunk: C,
}

/// A chunk that has just been stored, and the observers that are sent it, by
/// index.
#[derive(Debug, PartialEq, Eq)]
pub struct Arrival {
    pub key: ChunkKey,
    pub recipients: Vec<usize>,
}

/// What the manager says to somebody who wants a chunk.
pub enum Wanted<'a, C> {
    /// The chunk is loaded: here it is.
    Loaded(&'a C),
    /// The chunk is absent and not yet asked for: send a generation job out.
    Dispatch,
    /// The chunk is absent and its generation is in flight: wait.
    InFlight,
}

/// The chunk map and the set of chunks whose generation is in flight.
pub struct Streaming<C> {
    entries: Vec<Entry<C>>,
    pending: Vec<ChunkKey>,
}

spec fn keys_of<C>(entries: Seq<Entry<C>>) -> Seq<ChunkKey> {
    Seq::new(entries.len(), |i: int| entries[i].key)
}

spec fn distinct(keys: Seq<ChunkKey>) -> bool {
    forall|i: int, j: int| 0 <= i < j < keys.len() ==> keys[i] != keys[j]
}

spec fn index_of(keys: Seq<ChunkKey>, key: ChunkKey) -> int {
    choose|i: int| 0 <= i < keys.len() && keys[i] == key
}

spec fn map_of<C>(entries: Seq<Entry<C>>) -> Map<ChunkKey, C> {
    Map::new(
        |k: ChunkKey| keys_of(entries).contains(k),
        |k: ChunkKey| entries[index_of(keys_of(entries), k)].chunk,
    )
}

proof fn lemma_map_of<C>(entries: Seq<Entry<C>>)
    requires
        distinct(keys_of(entries)),
    ensures
        forall|i: int|
            0 <= i < entries.len() ==> map_of(entries).contains_key(#[trigger] entries[i].key)
                && map_of(entries)[entries[i].key] == entries[i].chunk,
        forall|k: ChunkKey| #[trigger]
            map_of(entries).contains_key(k) ==> exists|i: int|
                0 <= i < entries.len() && #[trigger] entries[i].key == k,
{
    let keys = keys_of(entries);
    assert forall|i: int| 0 <= i < entries.len() implies map_of(entries).contains_key(
        #[trigger] entries[i].key,
    ) && map_of(entries)[entries[i].key] == entries[i].chunk by {
        let j = index_of(keys, keys[i]);
    }
}

spec fn at<C>(entries: Seq<Entry<C>>, i: int) -> Entry<C> {
    entries[i]
}

/// What eviction has done once it has looked at the entries from `n` on:
/// `kept` holds those of them that somebody sees and nothing else, and
/// `dropped` the keys of the others.
#[verifier::opaque]
spec fn sorted<C>(
    before: Seq<Entry<C>>,
    n: int,
    kept: Seq<Entry<C>>,
    dropped: Seq<ChunkKey>,
    observers: Seq<Observer>,
) -> bool {
    &&& distinct(keys_of(kept))
    &&& forall|j: int|
        0 <= j < kept.len() ==> spec_covered(observers, (#[trigger] kept[j]).key) && exists|m: int|
            n <= m < before.len() && before[m] == kept[j]
    &&& forall|m: int|
        n <= m < before.len() && spec_covered(observers, (#[trigger] at(before, m)).key)
            ==> exists|j: int| 0 <= j < kept.len() && kept[j] == before[m]
    &&& forall|k: ChunkKey|
        dropped.contains(k) <==> exists|m: int|
            n <= m < before.len() && (#[trigger] before[m]).key == k && !spec_covered(
                observers,
                k,
            )
}

proof fn lemma_sorted_none<C>(before: Seq<Entry<C>>, observers: Seq<Observer>)
    ensures
        sorted(before, before.len() as int, Seq::<Entry<C>>::empty(), Seq::<ChunkKey>::empty(), observers),
{
    reveal(sorted);
}

proof fn lemma_sorted_keep<C>(
    before: Seq<Entry<C>>,
    n: int,
    kept: Seq<Entry<C>>,
    dropped: Seq<ChunkKey>,
    observers: Seq<Observer>,
)
    requires
        0 <= n < before.len(),
        distinct(keys_of(before)),
        sorted(before, n + 1, kept, dropped, observers),
        spec_covered(observers, before[n].key),
    ensures
        sorted(before, n, kept.push(before[n]), dropped, observers),
{
    reveal(sorted);
    let next = kept.push(before[n]);
    assert forall|m: int|
        n <= m < before.len() && spec_covered(
            observers,
            (#[trigger] at(before, m)).key,
        ) implies exists|j: int| 0 <= j < next.len() && next[j] == before[m] by {
        if m == n {
            assert(next[next.len() - 1] == before[m]);
        } else {
            let j = choose|j: int| 0 <= j < kept.len() && kept[j] == before[m];
            assert(next[j] == before[m]);
        }
    }
    let keys = keys_of(next);
    assert forall|i: int, j: int| 0 <= i < j < keys.len() implies keys[i] != keys[j] by {
        assert(keys_of(kept)[i] == kept[i].key);
        let mi = choose|m: int| n + 1 <= m < before.len() && before[m] == kept[i];
        assert(keys_of(before)[mi] == before[mi].key);
        if j < kept.len() {
            assert(keys_of(kept)[j] == kept[j].key);
        } else {
            assert(keys_of(before)[n] == before[n].key);
        }
    }
}

proof fn lemma_sorted_drop<C>(
    before: Seq<Entry<C>>,
    n: int,
    kept: Seq<Entry<C>>,
    dropped: Seq<ChunkKey>,
    observers: Seq<Observer>,
)
    requires
        0 <= n < before.len(),
        sorted(before, n + 1, kept, dropped, observers),
        !spec_covered(observers, before[n].key),
    ensures
        sorted(before, n, kept, dropped.push(before[n].key), observers),
{
    reveal(sorted);
    let next = dropped.push(before[n].key);
    assert forall|k: ChunkKey|
        next.contains(k) <==> exists|m: int|
            n <= m < before.len() && (#[trigger] before[m]).key == k && !spec_covered(
                observers,
                k,
            ) by {
        if next.contains(k) {
            let i = choose|i: int| 0 <= i < next.len() && next[i] == k;
            if i < dropped.len() {
                assert(dropped.contains(k));
            }
        }
        if exists|m: int|
            n <= m < before.len() && (#[trigger] before[m]).key == k && !spec_covered(
                observers,
                k,
            ) {
            let m = choose|m: int|
                n <= m < before.len() && (#[trigger] before[m]).key == k && !spec_covered(
                    observers,
                    k,
                );
            if m == n {
                assert(next[next.len() - 1] == k);
            } else {
                assert(dropped.contains(k));
                let i = choose|i: int| 0 <= i < dropped.len() && dropped[i] == k;
                assert(next[i] == k);
            }
        }
    }
}

proof fn lemma_sorted_all<C>(
    before: Seq<Entry<C>>,
    kept: Seq<Entry<C>>,
    dropped: Seq<ChunkKey>,
    observers: Seq<Observer>,
)
    requires
        distinct(keys_of(before)),
        sorted(before, 0, kept, dropped, observers),
    ensures
        distinct(keys_of(kept)),
        map_of(kept) == map_of(before).restrict(Set::new(|k: ChunkKey| spec_covered(observers, k))),
        forall|k: ChunkKey|
            dropped.contains(k) <==> map_of(before).contains_key(k) && !spec_covered(observers, k),
{
    reveal(sorted);
    let shown = Set::new(|k: ChunkKey| spec_covered(observers, k));
    lemma_map_of(before);
    lemma_map_of(kept);
    assert forall|k: ChunkKey| #[trigger]
        map_of(kept).contains_key(k) <==> map_of(before).restrict(shown).contains_key(k) by {
        if map_of(kept).contains_key(k) {
            let j = choose|j: int| 0 <= j < kept.len() && #[trigger] kept[j].key == k;
        }
        if map_of(before).contains_key(k) && spec_covered(observers, k) {
            let m = choose|m: int| 0 <= m < before.len() && #[trigger] before[m].key == k;
            assert(at(before, m).key == k);
        }
    }
    assert forall|k: ChunkKey| #[trigger] map_of(kept).contains_key(k) implies map_of(kept)[k]
        == map_of(before).restrict(shown)[k] by {
        let j = choose|j: int| 0 <= j < kept.len() && #[trigger] kept[j].key == k;
    }
}

/// Whether some observer sees the chunk at `key`.
pub fn covered(observers: &Vec<Observer>, key: ChunkKey) -> (b: bool)
    ensures
        b == spec_covered(observers@, key),
{
    let mut i: usize = 0;
    while i < observers.len()
        invariant
            i <= observers.len(),
            forall|j: int| 0 <= j < i ==> !spec_sees(#[trigger] observers@[j], key),
        decreases observers.len() - i,
    {
        let o = observers[i];
        match o.view_distance {
            Some(vd) => {
                if chunk_distance(o.chunk, key) <= vd {
                    return true;
                }
            },
            None => {},
        }
        i = i + 1;
    }
    false
}

/// Whether `observer` sees the chunk at `key`.
pub fn sees(observer: Observer, key: ChunkKey) -> (b: bool)
    ensures
        b == spec_sees(observer, key),
{
    match observer.view_distance {
        Some(vd) => chunk_distance(observer.chunk, key) <= vd,
        None => false,
    }
}

/// The observers that are sent a chunk that has just arrived at `key`, by
/// index: those that see it.
pub fn chunk_recipients(key: ChunkKey, observers: &Vec<Observer>) -> (picked: Vec<usize>)
    ensures
        is_selection(picked@, observers.len() as int, |i: int| spec_sees(observers@[i], key)),
{
    let ghost wanted = |i: int| spec_sees(observers@[i], key);
    let mut picked: Vec<usize> = Vec::new();
    let mut i: usize = 0;
    while i < observers.len()
        invariant
            i <= observers.len(),
            wanted == |i: int| spec_sees(observers@[i], key),
            is_selection(picked@, i as int, wanted),
        decreases observers.len() - i,
    {
        let ghost before = picked@;
        if sees(observers[i], key) {
            picked.push(i);
            proof {
                lemma_selection_take(before, i as int, wanted);
            }
        } else {
            proof {
                lemma_selection_skip(before, i as int, wanted);
            }
        }
        i = i + 1;
    }
    picked
}

/// The place of `key` among the entries, if it is stored.
fn position<C>(entries: &Vec<Entry<C>>, key: ChunkKey) -> (r: Option<usize>)
    requires
        distinct(keys_of(entries@)),
    ensures
        match r {
            Some(i) => i < entries.len() && entries@[i as int].key == key && map_of(
                entries@,
            ).contains_key(key) && map_of(entries@)[key] == entries@[i as int].chunk,
            None => !map_of(entries@).contains_key(key),
        },
{
    let mut i: usize = 0;
    while i < entries.len()
        invariant
            i <= entries.len(),
            distinct(keys_of(entries@)),
            forall|j: int| 0 <= j < i ==> (#[trigger] entries@[j]).key != key,
        decreases entries.len() - i,
    {
        if entries[i].key.x == key.x && entries[i].key.y == key.y {
            proof {
                lemma_map_of(entries@);
            }
            return Some(i);
        }
        i = i + 1;
    }
    proof {
        lemma_map_of(entries@);
    }
    None
}

/// Whether `key` stands among `keys`.
fn holds(keys: &Vec<ChunkKey>, key: ChunkKey) -> (b: bool)
    ensures
        b == keys@.to_set().contains(key),
{
    let mut i: usize = 0;
    while i < keys.len()
        invariant
            i <= keys.len(),
            forall|j: int| 0 <= j < i ==> keys@[j] != key,
        decreases keys.len() - i,
    {
        if keys[i].x == key.x && keys[i].y == key.y {
            return true;
        }
        i = i + 1;
    }
    false
}

/// Adds `key` to keys that do not hold it.
fn add_key(keys: &mut Vec<ChunkKey>, key: ChunkKey)
    requires
        distinct(old(keys)@),
        !old(keys)@.to_set().contains(key),
    ensures
        distinct(final(keys)@),
        final(keys)@.to_set() == old(keys)@.to_set().insert(key),
{
    keys.push(key);
    proof {
        let before = old(keys)@;
        let now = keys@;
        assert forall|k: ChunkKey| now.contains(k) <==> before.to_set().insert(key).contains(
            k,
        ) by {
            if before.contains(k) {
                let i = choose|i: int| 0 <= i < before.len() && before[i] == k;
                assert(now[i] == k);
            }
            if k == key {
                assert(now[now.len() - 1] == k);
            }
        }
        assert(now.to_set() =~= before.to_set().insert(key));
    }
}

/// Takes `key` out of the keys, if it is among them.
fn remove_key(keys: &mut Vec<ChunkKey>, key: ChunkKey)
    requires
        distinct(old(keys)@),
    ensures
        distinct(final(keys)@),
        final(keys)@.to_set() == old(keys)@.to_set().remove(key),
{
    let mut i: usize = 0;
    while i < keys.len()
        invariant
            i <= keys.len(),
            keys@ == old(keys)@,
            distinct(keys@),
            forall|j: int| 0 <= j < i ==> keys@[j] != key,
        decreases keys.len() - i,
    {
        if keys[i].x == key.x && keys[i].y == key.y {
            let ghost before = keys@;
            keys.remove(i);
            proof {
                let now = keys@;
                assert forall|k: ChunkKey| now.contains(k) <==> before.to_set().remove(
                    key,
                ).contains(k) by {
                    if before.contains(k) && k != key {
                        let j = choose|j: int| 0 <= j < before.len() && before[j] == k;
                        if j < i {
                            assert(now[j] == k);
                        } else {
                            assert(now[j - 1] == k);
                        }
                    }
                }
                assert(now.to_set() =~= before.to_set().remove(key));
            }
            return ;
        }
        i = i + 1;
    }
    proof {
        assert(keys@.to_set() =~= keys@.to_set().remove(key));
    }
}

/// Stores `chunk` under `key`, in place of what was stored there.
fn store<C>(entries: &mut Vec<Entry<C>>, key: ChunkKey, chunk: C)
    requires
        distinct(keys_of(old(entries)@)),
    ensures
        distinct(keys_of(final(entries)@)),
        map_of(final(entries)@) == map_of(old(entries)@).insert(key, chunk),
{
    let ghost before = entries@;
    let found = position(entries, key);
    match found {
        Some(i) => {
            entries.set(i, Entry { key, chunk });
        },
        None => {
            entries.push(Entry { key, chunk });
        },
    }
    proof {
        let now = entries@;
        let at: int = match found {
            Some(i) => i as int,
            None => before.len() as int,
        };
        lemma_map_of(before);
        assert forall|i: int, j: int| 0 <= i < j < keys_of(now).len() implies keys_of(now)[i]
            != keys_of(now)[j] by {
            assert(i != at ==> keys_of(before)[i] == now[i].key);
            assert(j != at ==> keys_of(before)[j] == now[j].key);
            assert(found is Some ==> keys_of(before)[at] == key);
        }
        lemma_map_of(now);
        assert(now[at].key == key);
        assert forall|k: ChunkKey| #[trigger]
            map_of(now).contains_key(k) <==> map_of(before).insert(key, chunk).contains_key(
                k,
            ) by {
            if map_of(before).contains_key(k) {
                let i = choose|i: int| 0 <= i < before.len() && #[trigger] before[i].key == k;
                assert(now[i].key == k);
            }
            if map_of(now).contains_key(k) && k != key {
                let i = choose|i: int| 0 <= i < now.len() && #[trigger] now[i].key == k;
                assert(before[i].key == k);
            }
        }
        assert forall|k: ChunkKey| #[trigger] map_of(now).contains_key(k) implies map_of(now)[k]
            == map_of(before).insert(key, chunk)[k] by {
            let i = choose|i: int| 0 <= i < now.len() && #[trigger] now[i].key == k;
            if k != key {
                assert(before[i].key == k);
            } else {
                assert(keys_of(now)[i] == key && keys_of(now)[at] == key);
            }
        }
        assert(map_of(now) =~= map_of(before).insert(key, chunk));
    }
}

/// Parts the entries into those that somebody sees, which are kept, and the
/// keys of the others.
fn sift<C>(entries: Vec<Entry<C>>, observers: &Vec<Observer>) -> (parts: (
    Vec<Entry<C>>,
    Vec<ChunkKey>,
))
    requires
        distinct(keys_of(entries@)),
    ensures
        distinct(keys_of(parts.0@)),
        map_of(parts.0@) == map_of(entries@).restrict(
            Set::new(|k: ChunkKey| spec_covered(observers@, k)),
        ),
        forall|k: ChunkKey|
            #![trigger parts.1@.contains(k)]
            parts.1@.contains(k) <==> map_of(entries@).contains_key(k) && !spec_covered(
                observers@,
                k,
            ),
{
    let ghost before = entries@;
    let mut rest = entries;
    let mut kept: Vec<Entry<C>> = Vec::new();
    let mut dropped: Vec<ChunkKey> = Vec::new();
    proof {
        lemma_sorted_none(before, observers@);
    }
    while rest.len() > 0
        invariant
            rest.len() <= before.len(),
            rest@ == before.take(rest.len() as int),
            distinct(keys_of(before)),
            sorted(before, rest.len() as int, kept@, dropped@, observers@),
        decreases rest.len(),
    {
        let ghost n = rest.len() - 1;
        let ghost kept_before = kept@;
        let ghost dropped_before = dropped@;
        let e = rest.pop().unwrap();
        if covered(observers, e.key) {
            kept.push(e);
            proof {
                lemma_sorted_keep(before, n, kept_before, dropped_before, observers@);
            }
        } else {
            dropped.push(e.key);
            proof {
                lemma_sorted_drop(before, n, kept_before, dropped_before, observers@);
            }
        }
    }
    proof {
        lemma_sorted_all(before, kept@, dropped@, observers@);
    }
    (kept, dropped)
}

impl<C> Streaming<C> {
    /// No key is stored twice, and none is pending twice.
    #[verifier::type_invariant]
    spec fn wf(&self) -> bool {
        distinct(keys_of(self.entries@)) && distinct(self.pending@)
    }

    /// The loaded chunks, by key.
    pub closed spec fn chunks(&self) -> Map<ChunkKey, C> {
        map_of(self.entries@)
    }

    /// The keys whose generation is in flight.
    pub closed spec fn pending(&self) -> Set<ChunkKey> {
        self.pending@.to_set()
    }

    /// A manager with nothing loaded and nothing in flight.
    pub fn new() -> (s: Self)
        ensures
            s.chunks() == Map::<ChunkKey, C>::empty(),
            s.pending() == Set::<ChunkKey>::empty(),
    {
        let s = Streaming { entries: Vec::new(), pending: Vec::new() };
        proof {
            assert(s.chunks() =~= Map::<ChunkKey, C>::empty());
            assert(s.pending() =~= Set::<ChunkKey>::empty());
        }
        s
    }

    /// Whether the generation of `key` is in flight.
    pub fn is_pending(&self, key: ChunkKey) -> (b: bool)
        ensures
            b == self.pending().contains(key),
    {
        holds(&self.pending, key)
    }

    /// The chunk at `key`, if it is loaded.
    pub fn get(&self, key: ChunkKey) -> (r: Option<&C>)
        ensures
            match r {
                Some(c) => self.chunks().contains_key(key) && *c == self.chunks()[key],
                None => !self.chunks().contains_key(key),
            },
    {
        proof {
            use_type_invariant(&*self);
        }
        match position(&self.entries, key) {
            Some(i) => Some(&self.entries[i].chunk),
            None => None,
        }
    }

    /// Asks for the generation of `key`.
    ///
    /// Returns whether a generation job is to be sent out: exactly when none
    /// is in flight for `key`. The key is pending afterwards either way.
    pub fn request(&mut self, key: ChunkKey) -> (dispatch: bool)
        ensures
            dispatch == spec_dispatches(old(self).pending(), key),
            final(self).pending() == spec_request(old(self).pending(), key),
            final(self).chunks() == old(self).chunks(),
    {
        proof {
            use_type_invariant(&*self);
        }
        if holds(&self.pending, key) {
            proof {
                assert(self.pending().insert(key) =~= self.pending());
            }
            false
        } else {
            let mut pending: Vec<ChunkKey> = Vec::new();
            std::mem::swap(&mut pending, &mut self.pending);
            add_key(&mut pending, key);
            self.pending = pending;
            true
        }
    }

    /// Stores a chunk whose generation has finished, in place of what was
    /// stored under its key, and takes the key out of the pending set.
    pub fn complete(&mut self, key: ChunkKey, chunk: C)
        ensures
            final(self).chunks() == old(self).chunks().insert(key, chunk),
            final(self).pending() == old(self).pending().remove(key),
    {
        proof {
            use_type_invariant(&*self);
        }
        let mut pending: Vec<ChunkKey> = Vec::new();
        let mut entries: Vec<Entry<C>> = Vec::new();
        std::mem::swap(&mut pending, &mut self.pending);
        std::mem::swap(&mut entries, &mut self.entries);
        remove_key(&mut pending, key);
        store(&mut entries, key, chunk);
        self.pending = pending;
        self.entries = entries;
    }

    /// Takes in what generation has finished since the last tick: at most
    /// one chunk a tick. The chunk is stored as by [`Self::complete`], and
    /// the observers that see it, by index, are returned with its key: they
    /// are sent the chunk. With nothing finished nothing changes.
    pub fn drain_completed(&mut self, finished: Option<Entry<C>>, observers: &Vec<Observer>) -> (sent:
        Option<Arrival>)
        ensures
            match finished {
                Some(e) => {
                    &&& final(self).chunks() == old(self).chunks().insert(e.key, e.chunk)
                    &&& final(self).pending() == old(self).pending().remove(e.key)
                    &&& sent is Some
                    &&& sent->0.key == e.key
                    &&& is_selection(
                        sent->0.recipients@,
                        observers.len() as int,
                        |i: int| spec_sees(observers@[i], e.key),
                    )
                },
                None => {
                    &&& final(self).chunks() == old(self).chunks()
                    &&& final(self).pending() == old(self).pending()
                    &&& sent is None
                },
            },
    {
        match finished {
            Some(e) => {
                let key = e.key;
                let to = chunk_recipients(key, observers);
                self.complete(key, e.chunk);
                Some(Arrival { key, recipients: to })
            },
            None => None,
        }
    }

    /// Drops every loaded chunk that no observer sees, and returns the keys
    /// of the chunks dropped. Generations in flight are left alone.
    pub fn evict(&mut self, observers: &Vec<Observer>) -> (dropped: Vec<ChunkKey>)
        ensures
            final(self).pending() == old(self).pending(),
            final(self).chunks() == old(self).chunks().restrict(
                Set::new(|k: ChunkKey| spec_covered(observers@, k)),
            ),
            forall|k: ChunkKey|
                #![trigger dropped@.contains(k)]
                dropped@.contains(k) <==> old(self).chunks().contains_key(k) && !spec_covered(
                    observers@,
                    k,
                ),
    {
        proof {
            use_type_invariant(&*self);
        }
        let ghost before = self.entries@;
        let mut entries: Vec<Entry<C>> = Vec::new();
        std::mem::swap(&mut entries, &mut self.entries);
        let parts = sift(entries, observers);
        proof {
            assert forall|k: ChunkKey|
                #![trigger parts.1@.contains(k)]
                parts.1@.contains(k) <==> old(self).chunks().contains_key(k) && !spec_covered(
                    observers@,
                    k,
                ) by {
                assert(map_of(before) == old(self).chunks());
            }
        }
        self.entries = parts.0;
        parts.1
    }

    /// Answers somebody who wants the chunk at `key`: hands it over if it is
    /// loaded, and asks for its generation if it is not.
    pub fn want(&mut self, key: ChunkKey) -> (w: Wanted<'_, C>)
        ensures
            final(self).chunks() == old(self).chunks(),
            match w {
                Wanted::Loaded(c) => old(self).chunks().contains_key(key) && *c == old(
                    self,
                ).chunks()[key] && final(self).pending() == old(self).pending(),
                Wanted::Dispatch => !old(self).chunks().contains_key(key) && !old(
                    self,
                ).pending().contains(key) && final(self).pending() == old(self).pending().insert(
                    key,
                ),
                Wanted::InFlight => !old(self).chunks().contains_key(key) && old(
                    self,
                ).pending().contains(key) && final(self).pending() == old(self).pending(),
            },
    {
        proof {
            use_type_invariant(&*self);
        }
        let found = position(&self.entries, key);
        match found {
            Some(i) => Wanted::Loaded(&self.entries[i].chunk),
            None => {
                if self.request(key) {
                    Wanted::Dispatch
                } else {
                    proof {
                        assert(old(self).pending().insert(key) =~= old(self).pending());
                    }
                    Wanted::InFlight
                }
            },
        }
    }
}

} // verus!
