//! Deduplication backends: stores that answer whether a slot and digest
//! have been seen before.

use crate::key::SeenKey;
use vstd::prelude::*;

verus! {

/// A key as contracts speak of it: the slot and the 32 bytes of the digest.
pub type KeyView = (u64, Seq<u8>);

/// A store that is asked, for every record, whether it is the first with
/// its slot and digest.
pub trait DedupBackend: Sized {
    /// The store is in order.
    spec fn wf(&self) -> bool;

    /// The keys inside the retention window: those for which the store
    /// still knows that they were seen.
    spec fn retained(&self) -> Set<KeyView>;

    /// Asked about `key` in this state, the store may answer `first` and
    /// be left as `after`.
    spec fn answers(&self, key: KeyView, after: &Self, first: bool) -> bool;

    /// A key inside the retention window is never answered with `true`:
    /// within one window a key is a first observation at most once.
    proof fn lemma_first_only_once(&self, key: KeyView, after: &Self)
        requires
            self.wf(),
            self.answers(key, after, true),
        ensures
            !self.retained().contains(key),
    ;

    /// Asks whether this is the first observation of the key, and records
    /// the observation. `true` means that the caller publishes, `false`
    /// that it drops the record.
    fn allowed(&mut self, slot: u64, hash: &[u8; 32]) -> (first: bool)
        requires
            old(self).wf(),
        ensures
            final(self).wf(),
            old(self).answers((slot, hash@), final(self), first),
    ;
}

/// The in-memory store as contracts speak of it: the keys it holds, the
/// one that was seen longest ago first.
pub struct MemoryState {
    pub capacity: nat,
    pub entries: Seq<KeyView>,
}

impl MemoryState {
    /// The store holds no more keys than its capacity, and none twice.
    pub open spec fn inv(self) -> bool {
        &&& self.entries.len() <= self.capacity
        &&& forall|i: int, j: int|
            0 <= i < j < self.entries.len() ==> self.entries[i] != self.entries[j]
    }

    /// `key` stands at place `at`.
    pub open spec fn holds_at(self, key: KeyView, at: int) -> bool {
        0 <= at < self.entries.len() && self.entries[at] == key
    }

    /// The store holds `key`.
    pub open spec fn holds(self, key: KeyView) -> bool {
        exists|at: int| self.holds_at(key, at)
    }

    /// The store after it was asked about `key`. The key becomes the most
    /// recent one; where it is new and the store is full, the key that was
    /// seen longest ago makes room for it. A store without capacity holds
    /// nothing.
    pub open spec fn touch(self, key: KeyView) -> MemoryState {
        if self.holds(key) {
            let at = choose|at: int| self.holds_at(key, at);
            MemoryState { entries: self.entries.remove(at).push(key), ..self }
        } else if self.capacity == 0 {
            self
        } else if self.entries.len() >= self.capacity {
            MemoryState { entries: self.entries.skip(1).push(key), ..self }
        } else {
            MemoryState { entries: self.entries.push(key), ..self }
        }
    }

    /// The store after it was asked about each of `keys` in turn.
    pub open spec fn touch_all(self, keys: Seq<KeyView>) -> MemoryState
        decreases keys.len(),
    {
        if keys.len() == 0 {
            self
        } else {
            self.touch_all(keys.drop_last()).touch(keys.last())
        }
    }
}

/// Asking keeps the store in order and its capacity as it was.
pub proof fn lemma_touch_keeps_inv(state: MemoryState, key: KeyView)
    requires
        state.inv(),
    ensures
        state.touch(key).inv(),
        state.touch(key).capacity == state.capacity,
{
    let after = state.touch(key);
    if state.holds(key) {
        let at = choose|at: int| state.holds_at(key, at);
        let rest = state.entries.remove(at);
        assert forall|i: int, j: int| 0 <= i < j < after.entries.len() implies after.entries[i]
            != after.entries[j] by {
            let from_i = if i < at {
                i
            } else {
                i + 1
            };
            assert(after.entries[i] == state.entries[from_i]);
            if j < rest.len() {
                let from_j = if j < at {
                    j
                } else {
                    j + 1
                };
                assert(after.entries[j] == state.entries[from_j]);
            } else {
                assert(after.entries[j] == state.entries[at]);
            }
        }
    } else if state.capacity == 0 {
    } else {
        assert forall|i: int| 0 <= i < state.entries.len() implies state.entries[i] != key by {
            if state.entries[i] == key {
                assert(state.holds_at(key, i));
            }
        }
    }
}

/// A store with room for at least one key holds a key once it was asked
/// about it.
pub proof fn lemma_touch_holds(state: MemoryState, key: KeyView)
    requires
        state.inv(),
        state.capacity > 0,
    ensures
        state.touch(key).holds(key),
{
    let after = state.touch(key);
    assert(after.holds_at(key, after.entries.len() - 1));
}

/// Asked about the same key twice in a row, a store with room for at least
/// one key answers the second time that the key is no first observation.
pub proof fn lemma_second_ask_is_duplicate(state: MemoryState, key: KeyView)
    requires
        state.inv(),
        state.capacity > 0,
    ensures
        state.touch(key).holds(key),
        state.touch(key).touch(key).entries == state.touch(key).entries,
{
    lemma_touch_holds(state, key);
    lemma_touch_keeps_inv(state, key);
    let once = state.touch(key);
    let at = choose|at: int| once.holds_at(key, at);
    assert(once.holds_at(key, once.entries.len() - 1));
    assert(at == once.entries.len() - 1) by {
        if at < once.entries.len() - 1 {
            assert(once.entries[at] != once.entries[once.entries.len() - 1]);
        }
    }
    assert(once.entries.remove(at).push(key) =~= once.entries);
}

/// How many keys of the store were seen more recently than the one at
/// place `at`.
pub open spec fn newer_than(state: MemoryState, at: int) -> int {
    state.entries.len() - 1 - at
}

/// Asking about one key lets at most one more key be newer than a key that
/// the store holds, and keeps that key in the store while fewer keys are
/// newer than it than the store has room for beside it. The place of the
/// key after the ask is returned.
pub proof fn lemma_touch_ages_by_one(
    state: MemoryState,
    key: KeyView,
    at: int,
    other: KeyView,
) -> (after_at: int)
    requires
        state.inv(),
        state.holds_at(key, at),
        newer_than(state, at) + 1 < state.capacity,
    ensures
        state.touch(other).holds_at(key, after_at),
        newer_than(state.touch(other), after_at) <= newer_than(state, at) + 1,
{
    let after = state.touch(other);
    if key == other {
        assert(state.holds(other));
        after.entries.len() - 1
    } else if state.holds(other) {
        let gone = choose|gone: int| state.holds_at(other, gone);
        if at < gone {
            at
        } else {
            at - 1
        }
    } else if state.entries.len() >= state.capacity {
        at - 1
    } else {
        at
    }
}

/// The retention window of the store: a key that it was asked about stays
/// in it while fewer other asks follow than the store has capacity. Within
/// that window the key is never a first observation again.
pub proof fn lemma_retention_window(state: MemoryState, key: KeyView, others: Seq<KeyView>)
    requires
        state.inv(),
        others.len() < state.capacity,
    ensures
        state.touch(key).touch_all(others).holds(key),
{
    let at = lemma_window_place(state, key, others);
}

/// The place of a key after the asks that follow it inside its retention
/// window.
pub proof fn lemma_window_place(state: MemoryState, key: KeyView, others: Seq<KeyView>) -> (at: int)
    requires
        state.inv(),
        others.len() < state.capacity,
    ensures
        state.touch(key).touch_all(others).inv(),
        state.touch(key).touch_all(others).capacity == state.capacity,
        state.touch(key).touch_all(others).holds_at(key, at),
        newer_than(state.touch(key).touch_all(others), at) <= others.len(),
    decreases others.len(),
{
    lemma_touch_keeps_inv(state, key);
    if others.len() == 0 {
        lemma_touch_holds(state, key);
        let once = state.touch(key);
        assert(once.holds_at(key, once.entries.len() - 1));
        once.entries.len() - 1
    } else {
        let before_at = lemma_window_place(state, key, others.drop_last());
        let before = state.touch(key).touch_all(others.drop_last());
        lemma_touch_keeps_inv(before, others.last());
        lemma_touch_ages_by_one(before, key, before_at, others.last())
    }
}

/// Asking about a run of keys keeps the store in order and its capacity as
/// it was.
pub proof fn lemma_touch_all_keeps_inv(state: MemoryState, keys: Seq<KeyView>)
    requires
        state.inv(),
    ensures
        state.touch_all(keys).inv(),
        state.touch_all(keys).capacity == state.capacity,
    decreases keys.len(),
{
    if keys.len() > 0 {
        lemma_touch_all_keeps_inv(state, keys.drop_last());
        lemma_touch_keeps_inv(state.touch_all(keys.drop_last()), keys.last());
    }
}

/// Asking about one run of keys and then about another is asking about
/// both in a row.
pub proof fn lemma_touch_all_split(state: MemoryState, head: Seq<KeyView>, tail: Seq<KeyView>)
    ensures
        state.touch_all(head + tail) == state.touch_all(head).touch_all(tail),
    decreases tail.len(),
{
    if tail.len() == 0 {
        assert(head + tail =~= head);
    } else {
        lemma_touch_all_split(state, head, tail.drop_last());
        assert((head + tail).drop_last() =~= head + tail.drop_last());
    }
}

/// The answer to the ask at place `at` of a run of asks that begins in
/// `state`: whether that ask is a first observation.
pub open spec fn first_at(state: MemoryState, keys: Seq<KeyView>, at: int) -> bool {
    !state.touch_all(keys.take(at)).holds(keys[at])
}

/// In any run of asks, a key that was asked about is no first observation
/// again while it is inside its retention window: of two asks about the
/// same key that lie no more than `capacity` asks apart, the later one is
/// answered with `false`.
pub proof fn lemma_at_most_one_first_in_window(
    state: MemoryState,
    keys: Seq<KeyView>,
    earlier: int,
    later: int,
)
    requires
        state.inv(),
        0 <= earlier < later < keys.len(),
        keys[earlier] == keys[later],
        later - earlier <= state.capacity,
    ensures
        !first_at(state, keys, later),
{
    let key = keys[earlier];
    let before = keys.take(earlier);
    let between = keys.subrange(earlier + 1, later);
    let start = state.touch_all(before);
    lemma_touch_all_keeps_inv(state, before);
    lemma_retention_window(start, key, between);
    assert(state.touch_all(before.push(key)) == start.touch(key)) by {
        assert(before.push(key).drop_last() =~= before);
    }
    lemma_touch_all_split(state, before.push(key), between);
    assert(before.push(key) + between =~= keys.take(later));
}

/// Whether two keys are the same.
pub fn same_key(a: &SeenKey, b: &SeenKey) -> (same: bool)
    ensures
        same == (a@ == b@),
{
    if a.slot != b.slot {
        return false;
    }
    let mut i: usize = 0;
    while i < 32
        invariant
            i <= 32,
            forall|j: int| 0 <= j < i ==> a.hash@[j] == b.hash@[j],
        decreases 32 - i,
    {
        if a.hash[i] != b.hash[i] {
            return false;
        }
        i = i + 1;
    }
    assert(a.hash@ =~= b.hash@);
    true
}

/// The views of a run of keys.
pub open spec fn key_views(keys: Seq<SeenKey>) -> Seq<KeyView> {
    keys.map_values(|k: SeenKey| k@)
}

/// A store in memory that remembers the keys it was asked about most
/// recently, up to its capacity.
#[derive(Debug)]
pub struct MemoryDedup {
    capacity: usize,
    entries: Vec<SeenKey>,
}

impl View for MemoryDedup {
    type V = MemoryState;

    closed spec fn view(&self) -> MemoryState {
        MemoryState { capacity: self.capacity as nat, entries: key_views(self.entries@) }
    }
}

impl MemoryDedup {
    /// An empty store that remembers up to `capacity` keys.
    pub fn new(capacity: usize) -> (store: MemoryDedup)
        ensures
            store@.capacity == capacity,
            store@.entries == Seq::<KeyView>::empty(),
            store@.inv(),
    {
        let store = MemoryDedup { capacity, entries: Vec::new() };
        assert(store@.entries =~= Seq::<KeyView>::empty());
        store
    }

    /// The number of keys that the store remembers at most.
    pub fn capacity(&self) -> (n: usize)
        ensures
            n == self@.capacity,
    {
        self.capacity
    }

    /// The number of keys that the store holds.
    pub fn len(&self) -> (n: usize)
        ensures
            n == self@.entries.len(),
    {
        self.entries.len()
    }

    /// The place of `key` in the store, if it holds it.
    fn position(&self, key: &SeenKey) -> (place: Option<usize>)
        ensures
            place is Some <==> self@.holds(key@),
            place matches Some(at) ==> self@.holds_at(key@, at as int),
    {
        let mut i: usize = 0;
        while i < self.entries.len()
            invariant
                i <= self.entries@.len(),
                forall|j: int| 0 <= j < i ==> !self@.holds_at(key@, j),
            decreases self.entries.len() - i,
        {
            if same_key(&self.entries[i], key) {
                assert(self@.holds_at(key@, i as int));
                return Some(i);
            }
            i = i + 1;
        }
        None
    }

    /// Whether the store holds the key.
    pub fn contains(&self, slot: u64, hash: &[u8; 32]) -> (held: bool)
        ensures
            held == self@.holds((slot, hash@)),
    {
        let key = SeenKey { slot, hash: *hash };
        self.position(&key).is_some()
    }
}

impl DedupBackend for MemoryDedup {
    open spec fn wf(&self) -> bool {
        self@.inv()
    }

    open spec fn retained(&self) -> Set<KeyView> {
        Set::new(|key: KeyView| self@.holds(key))
    }

    open spec fn answers(&self, key: KeyView, after: &Self, first: bool) -> bool {
        after@ == self@.touch(key) && first == !self@.holds(key)
    }

    proof fn lemma_first_only_once(&self, key: KeyView, after: &Self) {
    }

    fn allowed(&mut self, slot: u64, hash: &[u8; 32]) -> (first: bool)
    {
        let key = SeenKey { slot, hash: *hash };
        proof {
            lemma_touch_keeps_inv(self@, key@);
        }
        let ghost before = self.entries@;
        match self.position(&key) {
            Some(at) => {
                proof {
                    let chosen = choose|at: int| self@.holds_at(key@, at);
                    assert(chosen == at) by {
                        if chosen < at {
                            assert(self@.entries[chosen] != self@.entries[at as int]);
                        } else if at < chosen {
                            assert(self@.entries[at as int] != self@.entries[chosen]);
                        }
                    }
                }
                let _ = self.entries.remove(at);
                self.entries.push(key);
                assert(key_views(self.entries@) =~= key_views(before).remove(at as int).push(key@));
                false
            },
            None => {
                if self.capacity == 0 {
                    return true;
                }
                if self.entries.len() >= self.capacity {
                    let _ = self.entries.remove(0);
                    assert(key_views(self.entries@) =~= key_views(before).skip(1));
                }
                let ghost kept = self.entries@;
                self.entries.push(key);
                assert(key_views(self.entries@) =~= key_views(kept).push(key@));
                true
            },
        }
    }
}

} // verus!
