//! The contract instance's persistent key-value storage, as an explicit
//! handle passed through the call chain.
//!
//! The store maps byte-string keys to byte-string values. Its mathematical
//! model is a `Map<Seq<u8>, Seq<u8>>`; a key is in the map's domain exactly
//! when some entry holds it.

use vstd::prelude::*;

verus! {

/// First-match lookup of `key` among `entries`.
spec fn lookup(entries: Seq<(Vec<u8>, Vec<u8>)>, key: Seq<u8>) -> Option<Seq<u8>>
    decreases entries.len(),
{
    if entries.len() == 0 {
        None
    } else if entries[0].0@ == key {
        Some(entries[0].1@)
    } else {
        lookup(entries.drop_first(), key)
    }
}

/// Handle on a contract instance's persistent storage: a finite map from
/// byte-string keys to byte-string values.
pub struct KeyValueStore {
    entries: Vec<(Vec<u8>, Vec<u8>)>,
}

impl View for KeyValueStore {
    type V = Map<Seq<u8>, Seq<u8>>;

    closed spec fn view(&self) -> Map<Seq<u8>, Seq<u8>> {
        Map::new(
            |k: Seq<u8>| lookup(self.entries@, k) is Some,
            |k: Seq<u8>| lookup(self.entries@, k)->Some_0,
        )
    }
}

/// Byte-for-byte equality of two byte strings.
fn bytes_eq(a: &Vec<u8>, b: &Vec<u8>) -> (r: bool)
    ensures
        r == (a@ == b@),
{
    if a.len() != b.len() {
        assert(a@ != b@);
        return false;
    }
    let mut i: usize = 0;
    while i < a.len()
        invariant
            i <= a.len(),
            a.len() == b.len(),
            forall|j: int| 0 <= j < i ==> a@[j] == b@[j],
        decreases a.len() - i,
    {
        if a[i] != b[i] {
            assert(a@ != b@);
            return false;
        }
        i += 1;
    }
    assert(a@ =~= b@);
    true
}

/// If the first `i` entries do not hold `key` and entry `i` does, the
/// lookup returns entry `i`'s value.
proof fn lemma_lookup_first_match(entries: Seq<(Vec<u8>, Vec<u8>)>, key: Seq<u8>, i: int)
    requires
        0 <= i < entries.len(),
        forall|j: int| 0 <= j < i ==> entries[j].0@ != key,
        entries[i].0@ == key,
    ensures
        lookup(entries, key) == Some(entries[i].1@),
    decreases i,
{
    if i > 0 {
        assert(entries[0].0@ != key);
        let rest = entries.drop_first();
        assert(rest[i - 1] == entries[i]);
        assert forall|j: int| 0 <= j < i - 1 implies rest[j].0@ != key by {
            assert(rest[j] == entries[j + 1]);
        }
        lemma_lookup_first_match(rest, key, i - 1);
    }
}

/// If no entry holds `key`, the lookup fails.
proof fn lemma_lookup_no_match(entries: Seq<(Vec<u8>, Vec<u8>)>, key: Seq<u8>)
    requires
        forall|j: int| 0 <= j < entries.len() ==> entries[j].0@ != key,
    ensures
        lookup(entries, key) is None,
    decreases entries.len(),
{
    if entries.len() > 0 {
        let rest = entries.drop_first();
        assert forall|j: int| 0 <= j < rest.len() implies rest[j].0@ != key by {
            assert(rest[j] == entries[j + 1]);
        }
        lemma_lookup_no_match(rest, key);
    }
}

/// Replacing the first entry that holds a key changes that key's lookup
/// to the new value and no other key's lookup.
proof fn lemma_lookup_update(
    entries: Seq<(Vec<u8>, Vec<u8>)>,
    i: int,
    entry: (Vec<u8>, Vec<u8>),
    k: Seq<u8>,
)
    requires
        0 <= i < entries.len(),
        forall|j: int| 0 <= j < i ==> entries[j].0@ != entry.0@,
        entries[i].0@ == entry.0@,
    ensures
        lookup(entries.update(i, entry), k) == if k == entry.0@ {
            Some(entry.1@)
        } else {
            lookup(entries, k)
        },
    decreases i,
{
    let updated = entries.update(i, entry);
    if i == 0 {
        if k != entry.0@ {
            assert(updated.drop_first() =~= entries.drop_first());
        }
    } else {
        assert(updated[0] == entries[0]);
        assert(entries[0].0@ != entry.0@);
        let rest = entries.drop_first();
        assert forall|j: int| 0 <= j < i - 1 implies rest[j].0@ != entry.0@ by {
            assert(rest[j] == entries[j + 1]);
        }
        assert(rest[i - 1] == entries[i]);
        lemma_lookup_update(rest, i - 1, entry, k);
        assert(updated.drop_first() =~= rest.update(i - 1, entry));
    }
}

/// Appending an entry whose key is absent makes that key's lookup return
/// the new value and leaves every other key's lookup unchanged.
proof fn lemma_lookup_push(entries: Seq<(Vec<u8>, Vec<u8>)>, entry: (Vec<u8>, Vec<u8>), k: Seq<u8>)
    requires
        lookup(entries, entry.0@) is None,
    ensures
        lookup(entries.push(entry), k) == if k == entry.0@ {
            Some(entry.1@)
        } else {
            lookup(entries, k)
        },
    decreases entries.len(),
{
    let pushed = entries.push(entry);
    if entries.len() == 0 {
        if k != entry.0@ {
            assert(pushed.drop_first() =~= entries);
        }
    } else {
        assert(pushed[0] == entries[0]);
        assert(entries[0].0@ != entry.0@);
        lemma_lookup_push(entries.drop_first(), entry, k);
        assert(pushed.drop_first() =~= entries.drop_first().push(entry));
    }
}

/// The view is first-match lookup, key by key.
proof fn lemma_view_is_lookup(s: KeyValueStore, k: Seq<u8>)
    ensures
        s@.contains_key(k) == (lookup(s.entries@, k) is Some),
        lookup(s.entries@, k) is Some ==> s@[k] == lookup(s.entries@, k)->Some_0,
{
}

impl KeyValueStore {
    /// A fresh store with no keys.
    pub fn new() -> (r: KeyValueStore)
        ensures
            r@ == Map::<Seq<u8>, Seq<u8>>::empty(),
    {
        let r = KeyValueStore { entries: Vec::new() };
        proof {
            assert(r@ =~= Map::<Seq<u8>, Seq<u8>>::empty());
        }
        r
    }

    /// Reads the value stored under `key`, if any.
    pub fn get(&self, key: &Vec<u8>) -> (r: Option<&Vec<u8>>)
        ensures
            match r {
                Some(v) => self@.contains_key(key@) && v@ == self@[key@],
                None => !self@.contains_key(key@),
            },
    {
        let n = self.entries.len();
        let mut i: usize = 0;
        while i < n
            invariant
                i <= n,
                n == self.entries.len(),
                forall|j: int| 0 <= j < i ==> self.entries@[j].0@ != key@,
            decreases n - i,
        {
            if bytes_eq(&self.entries[i].0, key) {
                proof {
                    lemma_lookup_first_match(self.entries@, key@, i as int);
                }
                return Some(&self.entries[i].1);
            }
            i += 1;
        }
        proof {
            lemma_lookup_no_match(self.entries@, key@);
        }
        None
    }

    /// Stores `value` under `key`, creating the key or overwriting its
    /// previous value.
    pub fn set(&mut self, key: Vec<u8>, value: Vec<u8>)
        ensures
            final(self)@ == old(self)@.insert(key@, value@),
    {
        let ghost entries0 = self.entries@;
        let n = self.entries.len();
        let mut i: usize = 0;
        while i < n
            invariant
                i <= n,
                n == self.entries.len(),
                self.entries@ == entries0,
                entries0 == old(self).entries@,
                forall|j: int| 0 <= j < i ==> self.entries@[j].0@ != key@,
            decreases n - i,
        {
            if bytes_eq(&self.entries[i].0, &key) {
                self.entries.set(i, (key, value));
                proof {
                    let ghost ki = entries0[i as int].0@;
                    let ghost vi = self.entries@[i as int].1@;
                    let ghost inserted = old(self)@.insert(ki, vi);
                    assert forall|k: Seq<u8>| self@.contains_key(k) == inserted.contains_key(
                        k,
                    ) by {
                        lemma_lookup_update(entries0, i as int, self.entries@[i as int], k);
                        lemma_view_is_lookup(*self, k);
                        lemma_view_is_lookup(*old(self), k);
                    }
                    assert forall|k: Seq<u8>| self@.contains_key(k) implies self@[k] == inserted[k] by {
                        lemma_lookup_update(entries0, i as int, self.entries@[i as int], k);
                        lemma_view_is_lookup(*self, k);
                        lemma_view_is_lookup(*old(self), k);
                    }
                    assert(self@ =~= inserted);
                }
                return;
            }
            i += 1;
        }
        proof {
            lemma_lookup_no_match(entries0, key@);
        }
        self.entries.push((key, value));
        proof {
            let last = self.entries@[entries0.len() as int];
            let ghost inserted = old(self)@.insert(last.0@, last.1@);
            assert(self.entries@ == entries0.push(last));
            assert forall|k: Seq<u8>| self@.contains_key(k) == inserted.contains_key(k) by {
                lemma_lookup_push(entries0, last, k);
                lemma_view_is_lookup(*self, k);
                lemma_view_is_lookup(*old(self), k);
            }
            assert forall|k: Seq<u8>| self@.contains_key(k) implies self@[k] == inserted[k] by {
                lemma_lookup_push(entries0, last, k);
                lemma_view_is_lookup(*self, k);
                lemma_view_is_lookup(*old(self), k);
            }
            assert(self@ =~= inserted);
        }
    }
}

} // verus!
