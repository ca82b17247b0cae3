use vstd::prelude::*;
use crate::action::{Action, SKIP_CODE};

verus! {

/// The slot of a table of `entries` slots that a hash falls into.
pub open spec fn slot(hash: u64, entries: usize) -> int {
    (hash as usize) as int % (entries as int)
}

/// What the search learned of a position: its best action and score, the ply and depth it was
/// searched at, whether the score is an upper (`alpha`) or lower (`beta`) bound, and the hash.
#[derive(Copy, Clone, Debug, PartialEq, Eq, Structural)]
pub struct TranspositionTableEntry {
    pub action: Action,
    pub score: i16,
    pub ply: u8,
    pub depth_left: u8,
    pub alpha: bool,
    pub beta: bool,
    pub hash: u64,
}

/// The entry of an empty slot.
pub open spec fn empty_entry() -> TranspositionTableEntry {
    TranspositionTableEntry {
        action: Action(SKIP_CODE),
        score: 0,
        ply: 0,
        depth_left: 255,
        alpha: false,
        beta: false,
        hash: 0,
    }
}

impl TranspositionTableEntry {
    /// Whether the entry marks an empty slot.
    pub fn is_empty(&self) -> (r: bool)
        ensures
            r == (self.depth_left == 255),
    {
        self.depth_left == 255
    }

    /// The entry of an empty slot.
    pub fn empty() -> (r: TranspositionTableEntry)
        ensures
            r == empty_entry(),
    {
        TranspositionTableEntry {
            action: Action::skip(),
            score: 0,
            ply: 0,
            depth_left: 255,
            alpha: false,
            beta: false,
            hash: 0,
        }
    }
}

/// A table of search results, one slot per hash value modulo its size.
pub struct TranspositionTable {
    cache: Vec<TranspositionTableEntry>,
    entries: usize,
}

impl View for TranspositionTable {
    type V = Seq<TranspositionTableEntry>;

    closed spec fn view(&self) -> Seq<TranspositionTableEntry> {
        self.cache@
    }
}

impl TranspositionTable {
    /// The number of slots.
    pub closed spec fn entries_spec(&self) -> usize {
        self.entries
    }

    /// The table has one entry per slot.
    pub closed spec fn wf(&self) -> bool {
        self.cache@.len() == self.entries
    }

    /// A well formed table has one entry per slot.
    pub proof fn lemma_wf(&self)
        requires
            self.wf(),
        ensures
            self@.len() == self.entries_spec(),
    {
    }

    /// A table of `entries` empty slots.
    pub fn with_size(entries: usize) -> (r: Self)
        ensures
            r.wf(),
            r.entries_spec() == entries,
            r@ == Seq::new(entries as nat, |i: int| empty_entry()),
    {
        let mut cache: Vec<TranspositionTableEntry> = Vec::new();
        let mut i: usize = 0;
        while i < entries
            invariant
                i <= entries,
                cache@ == Seq::new(i as nat, |k: int| empty_entry()),
            decreases entries - i,
        {
            cache.push(TranspositionTableEntry::empty());
            proof {
                assert(cache@ =~= Seq::new((i + 1) as nat, |k: int| empty_entry()));
            }
            i = i + 1;
        }
        TranspositionTable { cache, entries }
    }

    /// Stores `entry` in the slot of `hash` when its ply is below that of the stored entry.
    pub fn insert(&mut self, hash: u64, entry: TranspositionTableEntry)
        requires
            old(self).wf(),
            old(self).entries_spec() > 0,
        ensures
            final(self).wf(),
            final(self).entries_spec() == old(self).entries_spec(),
            final(self)@ == if entry.ply < old(self)@[slot(hash, old(self).entries_spec())].ply {
                old(self)@.update(slot(hash, old(self).entries_spec()), entry)
            } else {
                old(self)@
            },
    {
        let index = hash as usize % self.entries;
        let current_entry = self.cache[index];
        if entry.ply < current_entry.ply {
            self.cache.set(index, entry);
        }
    }

    /// The entry in the slot of `hash`.
    pub fn lookup(&self, hash: u64) -> (r: TranspositionTableEntry)
        requires
            self.wf(),
            self.entries_spec() > 0,
        ensures
            r == self@[slot(hash, self.entries_spec())],
    {
        self.cache[hash as usize % self.entries]
    }
}

/// A table that never holds anything but empty slots keeps doing so: an entry replaces one of
/// a higher ply only, and empty slots have ply 0.
pub proof fn lemma_table_stays_empty(
    before: Seq<TranspositionTableEntry>,
    after: Seq<TranspositionTableEntry>,
    k: int,
    entry: TranspositionTableEntry,
)
    requires
        forall|i: int| 0 <= i < before.len() ==> #[trigger] before[i] == empty_entry(),
        0 <= k < before.len(),
        after == if entry.ply < before[k].ply {
            before.update(k, entry)
        } else {
            before
        },
    ensures
        after == before,
{
}

/// A stored evaluation of a position with the given hash.
#[derive(Copy, Clone, Debug, PartialEq, Eq, Structural)]
pub struct EvaluationCacheEntry {
    pub hash: u64,
    pub score: i16,
}

/// The entry of an empty slot: hash 0 and the lowest score.
pub open spec fn empty_evaluation() -> EvaluationCacheEntry {
    EvaluationCacheEntry { hash: 0, score: -32768i16 }
}

impl EvaluationCacheEntry {
    /// The entry of an empty slot: hash 0 and the lowest score.
    pub fn empty() -> (r: EvaluationCacheEntry)
        ensures
            r == (empty_evaluation()),
    {
        EvaluationCacheEntry { hash: 0, score: -32768 }
    }
}

/// A table of evaluations, one slot per hash value modulo its size.
pub struct EvaluationCache {
    pub cache: Vec<EvaluationCacheEntry>,
    pub entries: usize,
}

impl EvaluationCache {
    /// The table has one entry per slot.
    pub open spec fn wf(&self) -> bool {
        self.cache@.len() == self.entries
    }

    /// A table of `entries` empty slots.
    pub fn with_size(entries: usize) -> (r: EvaluationCache)
        ensures
            r.wf(),
            r.entries == entries,
            r.cache@ == Seq::new(entries as nat, |i: int| empty_evaluation()),
    {
        let mut cache: Vec<EvaluationCacheEntry> = Vec::new();
        let mut i: usize = 0;
        while i < entries
            invariant
                i <= entries,
                cache@ == Seq::new(i as nat, |k: int| empty_evaluation()),
            decreases entries - i,
        {
            cache.push(EvaluationCacheEntry::empty());
            proof {
                assert(cache@ =~= Seq::new((i + 1) as nat, |k: int| empty_evaluation()));
            }
            i = i + 1;
        }
        EvaluationCache { cache, entries }
    }

    /// Stores `score` for `hash` in the slot of `hash`.
    pub fn insert(&mut self, hash: u64, score: i16)
        requires
            old(self).wf(),
            old(self).entries > 0,
        ensures
            final(self).wf(),
            final(self).entries == old(self).entries,
            final(self).cache@ == old(self).cache@.update(
                slot(hash, old(self).entries),
                EvaluationCacheEntry { hash, score },
            ),
    {
        let index = hash as usize % self.entries;
        self.cache.set(index, EvaluationCacheEntry { hash, score });
    }

    /// The entry in the slot of `hash`.
    pub fn lookup(&self, hash: u64) -> (r: EvaluationCacheEntry)
        requires
            self.wf(),
            self.entries > 0,
        ensures
            r == self.cache@[slot(hash, self.entries)],
    {
        self.cache[hash as usize % self.entries]
    }
}

/// A score stored for a hash is read back for that hash, until another hash of the same slot
/// is stored.
pub proof fn lemma_cache_read_back(c: EvaluationCache, hash: u64, score: i16, other: u64)
    requires
        c.wf(),
        c.entries > 0,
    ensures
        c.cache@.update(slot(hash, c.entries), EvaluationCacheEntry { hash, score })[slot(
            hash,
            c.entries,
        )] == (EvaluationCacheEntry { hash, score }),
        slot(other, c.entries) != slot(hash, c.entries) ==> c.cache@.update(
            slot(hash, c.entries),
            EvaluationCacheEntry { hash, score },
        )[slot(other, c.entries)] == c.cache@[slot(other, c.entries)],
{
}

} // verus!
