//! The token cache held in memory: texts under keys, each with the time at
//! which it expires, written only where no live text stands.

use vstd::prelude::*;
use crate::record::text_of;
use crate::text::same_text;

verus! {

/// What the cache holds under a key: the text and the second at which it
/// expires.
pub ghost struct SlotView {
    pub value: Seq<char>,
    pub expires_at: u64,
}

/// The second at which a text written at `now` to live `seconds` expires.
pub open spec fn deadline(now: u64, seconds: u64) -> u64 {
    if now + seconds > u64::MAX {
        u64::MAX
    } else {
        (now + seconds) as u64
    }
}

/// What a read of `key` at `now` gives: the text under the key while it
/// has not expired.
pub open spec fn cached(cache: Map<Seq<char>, SlotView>, key: Seq<char>, now: u64) -> Option<
    Seq<char>,
> {
    if cache.contains_key(key) && now < cache[key].expires_at {
        Some(cache[key].value)
    } else {
        None
    }
}

/// What a write of `value` under `key` at `now`, to live `seconds` and only
/// if no live text stands there, does: the cache afterwards, and whether
/// the text was written.
pub open spec fn stored_if_absent(
    cache: Map<Seq<char>, SlotView>,
    key: Seq<char>,
    value: Seq<char>,
    seconds: u64,
    now: u64,
) -> (Map<Seq<char>, SlotView>, bool) {
    if cached(cache, key, now) is Some {
        (cache, false)
    } else {
        (cache.insert(key, SlotView { value, expires_at: deadline(now, seconds) }), true)
    }
}

/// One text of the cache.
#[derive(Debug)]
struct CacheEntry {
    key: String,
    value: String,
    expires_at: u64,
}

/// What an entry holds under its key.
spec fn slot_of(entry: CacheEntry) -> SlotView {
    SlotView { value: entry.value@, expires_at: entry.expires_at }
}

/// No two entries share a key.
spec fn distinct_keys(entries: Seq<CacheEntry>) -> bool {
    forall|i: int, j: int|
        #![trigger entries[i], entries[j]]
        0 <= i < j < entries.len() ==> entries[i].key@ != entries[j].key@
}

/// Some entry has this key.
spec fn has_entry(entries: Seq<CacheEntry>, key: Seq<char>) -> bool {
    exists|i: int| 0 <= i < entries.len() && (#[trigger] entries[i]).key@ == key
}

/// The index of the entry with this key.
spec fn entry_at(entries: Seq<CacheEntry>, key: Seq<char>) -> int {
    choose|i: int| 0 <= i < entries.len() && (#[trigger] entries[i]).key@ == key
}

/// The cache that a list of entries stands for.
spec fn cache_of(entries: Seq<CacheEntry>) -> Map<Seq<char>, SlotView> {
    Map::new(
        |key: Seq<char>| has_entry(entries, key),
        |key: Seq<char>| slot_of(entries[entry_at(entries, key)]),
    )
}

/// Among distinct keys an entry is found under its key.
proof fn lemma_entry_at(entries: Seq<CacheEntry>, i: int)
    requires
        distinct_keys(entries),
        0 <= i < entries.len(),
    ensures
        has_entry(entries, entries[i].key@),
        entry_at(entries, entries[i].key@) == i,
        cache_of(entries).contains_key(entries[i].key@),
        cache_of(entries)[entries[i].key@] == slot_of(entries[i]),
{
    let c = entry_at(entries, entries[i].key@);
    if c < i {
        assert(entries[c].key@ != entries[i].key@);
    } else if i < c {
        assert(entries[i].key@ != entries[c].key@);
    }
}

/// The token cache in memory.
#[derive(Debug)]
pub struct TokenCache {
    entries: Vec<CacheEntry>,
}

impl View for TokenCache {
    type V = Map<Seq<char>, SlotView>;

    closed spec fn view(&self) -> Map<Seq<char>, SlotView> {
        cache_of(self.entries@)
    }
}

impl TokenCache {
    #[verifier::type_invariant]
    spec fn keyed(&self) -> bool {
        distinct_keys(self.entries@)
    }

    /// The cache without texts.
    pub fn new() -> (r: TokenCache)
        ensures
            r@ == Map::<Seq<char>, SlotView>::empty(),
    {
        let r = TokenCache { entries: Vec::new() };
        assert(r@ =~= Map::<Seq<char>, SlotView>::empty());
        r
    }

    /// The index of the entry with this key.
    fn position(&self, key: &str) -> (r: Option<usize>)
        ensures
            match r {
                Some(i) => i < self.entries@.len() && self.entries@[i as int].key@ == key@,
                None => !has_entry(self.entries@, key@),
            },
    {
        let mut i: usize = 0;
        while i < self.entries.len()
            invariant
                i <= self.entries.len(),
                forall|j: int| 0 <= j < i ==> (#[trigger] self.entries@[j]).key@ != key@,
            decreases self.entries.len() - i,
        {
            if same_text(self.entries[i].key.as_str(), key) {
                return Some(i);
            }
            i += 1;
        }
        None
    }

    /// Reads the text under `key` at the second `now`.
    pub fn get(&self, key: &str, now: u64) -> (r: Option<String>)
        ensures
            text_of(r) == cached(self@, key@, now),
    {
        proof {
            use_type_invariant(self);
        }
        match self.position(key) {
            Some(i) => {
                proof {
                    lemma_entry_at(self.entries@, i as int);
                }
                if now < self.entries[i].expires_at {
                    Some(self.entries[i].value.clone())
                } else {
                    None
                }
            },
            None => None,
        }
    }

    /// Writes `value` under `key` at the second `now`, to live `seconds`,
    /// unless a live text stands there; says whether it wrote.
    pub fn set_if_absent(&mut self, key: &str, value: &str, seconds: u64, now: u64) -> (r: bool)
        ensures
            (final(self)@, r) == stored_if_absent(old(self)@, key@, value@, seconds, now),
    {
        proof {
            use_type_invariant(&*self);
        }
        let expires_at: u64 = now.saturating_add(seconds);
        let found = self.position(key);
        let ghost before = self.entries@;
        let ghost slot = SlotView { value: value@, expires_at };
        match found {
            Some(i) => {
                proof {
                    lemma_entry_at(before, i as int);
                }
                if now < self.entries[i].expires_at {
                    return false;
                }
                let entry = CacheEntry { key: key.to_owned(), value: value.to_owned(), expires_at };
                let mut entries = self.take_entries();
                entries.set(i, entry);
                proof {
                    let after = entries@;
                    assert forall|a: int, b: int| 0 <= a < b < after.len() implies (
                    #[trigger] after[a]).key@ != (#[trigger] after[b]).key@ by {
                        assert(before[a].key@ != before[b].key@);
                    }
                    assert forall|k: Seq<char>| has_entry(after, k) == has_entry(before, k) by {
                        if has_entry(after, k) {
                            let a = entry_at(after, k);
                            assert(before[a].key@ == k);
                        }
                        if has_entry(before, k) {
                            let a = entry_at(before, k);
                            assert(after[a].key@ == k);
                        }
                    }
                    assert forall|k: Seq<char>| has_entry(after, k) implies slot_of(
                        after[entry_at(after, k)],
                    ) == cache_of(before).insert(key@, slot)[k] by {
                        let a = entry_at(after, k);
                        lemma_entry_at(after, a);
                        lemma_entry_at(before, a);
                    }
                    assert(cache_of(after) =~= cache_of(before).insert(key@, slot));
                }
                self.put_entries(entries);
                true
            },
            None => {
                let entry = CacheEntry { key: key.to_owned(), value: value.to_owned(), expires_at };
                let mut entries = self.take_entries();
                entries.push(entry);
                proof {
                    let after = entries@;
                    let last = after.len() - 1;
                    assert forall|a: int, b: int| 0 <= a < b < after.len() implies (
                    #[trigger] after[a]).key@ != (#[trigger] after[b]).key@ by {
                        if b < last {
                            assert(before[a].key@ != before[b].key@);
                        } else {
                            assert(before[a].key@ != key@);
                        }
                    }
                    assert forall|k: Seq<char>| has_entry(after, k) == (has_entry(before, k) || k
                        == key@) by {
                        if has_entry(after, k) {
                            let a = entry_at(after, k);
                            if a < last {
                                assert(before[a].key@ == k);
                            }
                        }
                        if has_entry(before, k) {
                            let a = entry_at(before, k);
                            assert(after[a].key@ == k);
                        }
                        if k == key@ {
                            assert(after[last].key@ == k);
                        }
                    }
                    assert forall|k: Seq<char>| has_entry(after, k) implies slot_of(
                        after[entry_at(after, k)],
                    ) == cache_of(before).insert(key@, slot)[k] by {
                        let a = entry_at(after, k);
                        lemma_entry_at(after, a);
                        if a < last {
                            lemma_entry_at(before, a);
                        }
                    }
                    assert(cache_of(after) =~= cache_of(before).insert(key@, slot));
                }
                self.put_entries(entries);
                true
            },
        }
    }

    /// Moves the entries out and leaves the cache empty.
    fn take_entries(&mut self) -> (entries: Vec<CacheEntry>)
        ensures
            entries@ == old(self).entries@,
            distinct_keys(entries@),
    {
        proof {
            use_type_invariant(&*self);
        }
        let mut taken = TokenCache { entries: Vec::new() };
        core::mem::swap(self, &mut taken);
        taken.entries
    }

    /// Makes `entries` the entries of the cache.
    fn put_entries(&mut self, entries: Vec<CacheEntry>)
        requires
            distinct_keys(entries@),
        ensures
            final(self).entries@ == entries@,
    {
        *self = TokenCache { entries };
    }
}

} // verus!
