//! The transposition table: a cache of fixed size from position hashes to
//! bounded scores, which overwrites on collision.
//!
//! A slot is found by masking the hash with the capacity less one. Nothing in a
//! slot tells which position filled it: a lookup returns whatever the slot
//! holds, and a store replaces it.

use vstd::prelude::*;

verus! {

/// `chess::CacheTable`: the rules crate's table of fixed size. Opaque.
#[verifier::external_type_specification]
#[verifier::external_body]
#[verifier::reject_recursive_types(T)]
pub struct ExCacheTable<T: Copy + Clone + PartialEq + PartialOrd>(chess::CacheTable<T>);

/// How a cached score relates to the true value of its position.
#[derive(Copy, Clone, PartialEq, PartialOrd, Debug)]
pub enum Bound {
    /// The score is the value.
    Exact,
    /// The value is at least the score.
    LowerBound,
    /// The value is at most the score.
    UpperBound,
}

/// A cached search result.
#[derive(Copy, Clone, PartialEq, PartialOrd, Debug)]
pub struct TranspositionEntry {
    /// The remaining depth with which the score was computed.
    pub depth: i32,
    /// The score, from the point of view of the side to move.
    pub score: i32,
    /// How the score bounds the value.
    pub bound: Bound,
}

/// What a `chess::CacheTable` holds: for each slot the key that it was last
/// written with and the value written, in slot order.
pub uninterp spec fn cache_slots(cache: chess::CacheTable<Option<TranspositionEntry>>) -> Seq<
    (u64, Option<TranspositionEntry>),
>;

/// The slot that a table of `capacity` slots uses for a key: the key masked
/// with `capacity - 1`.
pub open spec fn slot_index(key: u64, capacity: nat) -> int {
    (key & ((capacity - 1) as u64)) as int
}

/// Whether exactly one bit of `n` is set.
pub open spec fn is_power_of_two(n: usize) -> bool {
    n != 0 && (n as u64) & ((n - 1) as u64) == 0
}

/// The slot of a key is a slot of the table.
pub proof fn lemma_slot_index_in_range(key: u64, capacity: nat)
    requires
        0 < capacity <= u64::MAX,
    ensures
        0 <= slot_index(key, capacity) < capacity,
{
    let mask = (capacity - 1) as u64;
    assert(key & mask <= mask) by (bit_vector);
}

/// Calls `chess::CacheTable::new` with an empty default value. The crate
/// panics unless exactly one bit of the size is set; it fills every slot with
/// key 0 and the default.
#[verifier::external_body]
fn cache_new(size: usize) -> (cache: chess::CacheTable<Option<TranspositionEntry>>)
    requires
        is_power_of_two(size),
    ensures
        cache_slots(cache) == Seq::new(size as nat, |i: int| (0u64, None::<TranspositionEntry>)),
{
    chess::CacheTable::new(size, None)
}

/// Calls `chess::CacheTable::get`: the value in the key's slot if that slot
/// was last written with this very key, and nothing otherwise.
#[verifier::external_body]
fn cache_get(cache: &chess::CacheTable<Option<TranspositionEntry>>, key: u64) -> (found: Option<
    Option<TranspositionEntry>,
>)
    ensures
        found == (if cache_slots(*cache)[slot_index(key, cache_slots(*cache).len())].0 == key {
            Some(cache_slots(*cache)[slot_index(key, cache_slots(*cache).len())].1)
        } else {
            None
        }),
{
    cache.get(key)
}

/// Calls `chess::CacheTable::add`: the key's slot then holds the key and the
/// value, and no other slot changes.
#[verifier::external_body]
fn cache_add(
    cache: &mut chess::CacheTable<Option<TranspositionEntry>>,
    key: u64,
    value: Option<TranspositionEntry>,
)
    ensures
        cache_slots(*final(cache)) == cache_slots(*old(cache)).update(
            slot_index(key, cache_slots(*old(cache)).len()),
            (key, value),
        ),
{
    cache.add(key, value)
}

/// A transposition table.
pub struct TranspositionTable {
    // The rules crate's table keeps the key with each value and answers a
    // lookup only if the keys agree. Every entry is written here under the
    // number of its slot, and looked up under it, so that a lookup finds
    // whatever the slot holds.
    cache: chess::CacheTable<Option<TranspositionEntry>>,
    // The capacity less one.
    mask: u64,
}

impl TranspositionTable {
    /// The table has as many slots as its mask says. Every table that this
    /// library hands out is well formed.
    pub closed spec fn wf(&self) -> bool {
        &&& cache_slots(self.cache).len() == self.mask + 1
        &&& self.mask + 1 <= usize::MAX
    }

    /// A well-formed table has at least one slot, and no more than fit in
    /// memory.
    pub proof fn lemma_capacity(&self)
        requires
            self.wf(),
        ensures
            0 < self@.len() <= usize::MAX,
    {
    }

    /// The slots of the table, in order: what each holds, if anything.
    pub closed spec fn view(&self) -> Seq<Option<TranspositionEntry>> {
        Seq::new(
            cache_slots(self.cache).len(),
            |i: int|
                if cache_slots(self.cache)[i].0 == i {
                    cache_slots(self.cache)[i].1
                } else {
                    None
                },
        )
    }

    /// An empty table of `capacity` slots.
    pub fn new(capacity: usize) -> (table: TranspositionTable)
        requires
            is_power_of_two(capacity),
        ensures
            table.wf(),
            table@ == Seq::new(capacity as nat, |i: int| None::<TranspositionEntry>),
    {
        let table = TranspositionTable { cache: cache_new(capacity), mask: (capacity - 1) as u64 };
        table
    }

    /// The number of slots.
    pub fn capacity(&self) -> (n: usize)
        requires
            self.wf(),
        ensures
            n == self@.len(),
    {
        (self.mask + 1) as usize
    }

    /// The entry in the slot of `hash`, whichever position stored it.
    pub fn get(&self, hash: u64) -> (entry: Option<TranspositionEntry>)
        requires
            self.wf(),
        ensures
            entry == self@[slot_index(hash, self@.len())],
    {
        let mask = self.mask;
        let key = hash & mask;
        assert(key & mask == key && key <= mask) by (bit_vector)
            requires
                key == hash & mask,
        ;
        match cache_get(&self.cache, key) {
            Some(entry) => entry,
            None => None,
        }
    }

    /// Replaces what the slot of `hash` holds by `entry`.
    pub fn put(&mut self, hash: u64, entry: TranspositionEntry)
        requires
            old(self).wf(),
        ensures
            final(self).wf(),
            final(self)@ == old(self)@.update(
                slot_index(hash, old(self)@.len()),
                Some(entry),
            ),
    {
        let mask = self.mask;
        let key = hash & mask;
        assert(key & mask == key && key <= mask) by (bit_vector)
            requires
                key == hash & mask,
        ;
        cache_add(&mut self.cache, key, Some(entry));
    }
}

} // verus!
