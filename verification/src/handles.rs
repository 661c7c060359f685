//! Handles: 32-bit keys derived from names, and tables keyed by them.
use vstd::prelude::*;
use vstd::utf8::encode_utf8;

verus! {

/// A key computed from a name.
#[derive(Clone, Copy, Debug, PartialEq, Eq)]
pub struct Handle(pub u32);

pub const FNV_OFFSET_BASIS: u32 = 2166136261;

pub const FNV_PRIME: u32 = 16777619;

/// The 32-bit FNV-1a hash of `bytes`.
pub open spec fn fnv1a(bytes: Seq<u8>) -> u32
    decreases bytes.len(),
{
    if bytes.len() == 0 {
        FNV_OFFSET_BASIS
    } else {
        ((fnv1a(bytes.drop_last()) ^ (bytes.last() as u32)) as u32).wrapping_mul(FNV_PRIME)
    }
}

impl Handle {
    /// The handle of a name: the FNV-1a hash of its UTF-8 bytes.
    pub open spec fn spec_from_str(name: Seq<char>) -> Handle {
        Handle(fnv1a(encode_utf8(name)))
    }

    pub fn from_str(name: &str) -> (h: Handle)
        ensures
            h == Handle::spec_from_str(name@),
    {
        let bytes = name.as_bytes();
        let mut hash: u32 = FNV_OFFSET_BASIS;
        let mut i: usize = 0;
        while i < bytes.len()
            invariant
                i <= bytes@.len(),
                bytes@ == encode_utf8(name@),
                hash == fnv1a(bytes@.subrange(0, i as int)),
            decreases bytes@.len() - i,
        {
            let ghost prefix = bytes@.subrange(0, i + 1);
            assert(prefix.drop_last() =~= bytes@.subrange(0, i as int));
            hash = (hash ^ (bytes[i] as u32)).wrapping_mul(FNV_PRIME);
            i = i + 1;
        }
        assert(bytes@.subrange(0, i as int) =~= bytes@);
        Handle(hash)
    }

    pub fn value(&self) -> (v: u32)
        ensures
            v == self.0,
    {
        self.0
    }
}

/// The value of the first entry at or after `j` whose key is `key`.
pub open spec fn lookup_from<T>(entries: Seq<(Handle, T)>, j: int, key: u32) -> Option<T>
    decreases entries.len() - j,
{
    if j < 0 || j >= entries.len() {
        None
    } else if entries[j].0.0 == key {
        Some(entries[j].1)
    } else {
        lookup_from(entries, j + 1, key)
    }
}

/// A table of values keyed by handles.
#[derive(Debug)]
pub struct HandleTable<T> {
    entries: Vec<(Handle, T)>,
}

/// The first entry at or after `j` with key `key` is at `i`.
proof fn lemma_lookup_update<T>(entries: Seq<(Handle, T)>, j: int, i: int, h: Handle, v: T)
    requires
        0 <= j <= i < entries.len(),
        entries[i].0.0 == h.0,
        forall|m: int| j <= m < i ==> entries[m].0.0 != h.0,
    ensures
        lookup_from(entries.update(i, (h, v)), j, h.0) == Some(v),
        forall|k: u32|
            k != h.0 ==> lookup_from(entries.update(i, (h, v)), j, k) == lookup_from(
                entries,
                j,
                k,
            ),
    decreases entries.len() - j,
{
    let e2 = entries.update(i, (h, v));
    if j < i {
        lemma_lookup_update(entries, j + 1, i, h, v);
        assert(e2[j] == entries[j]);
        assert forall|k: u32| k != h.0 implies lookup_from(e2, j, k) == lookup_from(entries, j, k) by {
            assert(lookup_from(e2, j + 1, k) == lookup_from(entries, j + 1, k));
        }
    } else {
        assert forall|k: u32| k != h.0 implies lookup_from(e2, j, k) == lookup_from(entries, j, k) by {
            lemma_lookup_same_tail(entries, e2, j + 1, k);
        }
    }
}

/// Lookups agree on sequences that agree from `j` on.
proof fn lemma_lookup_same_tail<T>(a: Seq<(Handle, T)>, b: Seq<(Handle, T)>, j: int, key: u32)
    requires
        a.len() == b.len(),
        0 <= j,
        forall|m: int| j <= m < a.len() ==> a[m] == b[m],
    ensures
        lookup_from(a, j, key) == lookup_from(b, j, key),
    decreases a.len() - j,
{
    if j < a.len() {
        lemma_lookup_same_tail(a, b, j + 1, key);
    }
}

/// Appending an entry with a key that is absent adds that key.
proof fn lemma_lookup_push<T>(entries: Seq<(Handle, T)>, j: int, h: Handle, v: T)
    requires
        0 <= j <= entries.len(),
        forall|m: int| j <= m < entries.len() ==> entries[m].0.0 != h.0,
    ensures
        lookup_from(entries.push((h, v)), j, h.0) == Some(v),
        forall|k: u32|
            k != h.0 ==> lookup_from(entries.push((h, v)), j, k) == lookup_from(
                entries,
                j,
                k,
            ),
    decreases entries.len() - j,
{
    let e2 = entries.push((h, v));
    if j < entries.len() {
        lemma_lookup_push(entries, j + 1, h, v);
        assert(e2[j] == entries[j]);
        assert forall|k: u32| k != h.0 implies lookup_from(e2, j, k) == lookup_from(entries, j, k) by {
            assert(lookup_from(e2, j + 1, k) == lookup_from(entries, j + 1, k));
        }
    } else {
        assert(e2[j] == (h, v));
        assert forall|k: u32| k != h.0 implies lookup_from(e2, j, k) == lookup_from(entries, j, k) by {
            assert(lookup_from(e2, j + 1, k) == None::<T>);
        }
    }
}

impl<T> HandleTable<T> {
    /// The value stored under `key`, if any.
    pub closed spec fn lookup(&self, key: u32) -> Option<T> {
        lookup_from(self.entries@, 0, key)
    }

    pub fn new() -> (t: Self)
        ensures
            forall|k: u32| t.lookup(k) is None,
    {
        HandleTable { entries: Vec::new() }
    }

    pub fn get(&self, handle: Handle) -> (r: Option<&T>)
        ensures
            r matches Some(v) ==> self.lookup(handle.0) == Some(*v),
            r is None ==> self.lookup(handle.0) is None,
    {
        let mut i: usize = 0;
        while i < self.entries.len()
            invariant
                i <= self.entries@.len(),
                lookup_from(self.entries@, 0, handle.0) == lookup_from(
                    self.entries@,
                    i as int,
                    handle.0,
                ),
            decreases self.entries@.len() - i,
        {
            if self.entries[i].0.0 == handle.0 {
                return Some(&self.entries[i].1);
            }
            i = i + 1;
        }
        None
    }

    /// Stores `value` under `handle`, replacing what was stored there.
    pub fn insert(&mut self, handle: Handle, value: T)
        ensures
            final(self).lookup(handle.0) == Some(value),
            forall|k: u32| k != handle.0 ==> final(self).lookup(k) == old(self).lookup(k),
    {
        let key = handle.0;
        let mut i: usize = 0;
        while i < self.entries.len()
            invariant
                i <= self.entries@.len(),
                self.entries@ == old(self).entries@,
                key == handle.0,
                forall|m: int| 0 <= m < i ==> self.entries@[m].0.0 != key,
            decreases self.entries@.len() - i,
        {
            if self.entries[i].0.0 == key {
                proof {
                    lemma_lookup_update(self.entries@, 0, i as int, handle, value);
                }
                self.entries.set(i, (handle, value));
                return;
            }
            i = i + 1;
        }
        proof {
            lemma_lookup_push(self.entries@, 0, handle, value);
        }
        self.entries.push((handle, value));
    }
}

} // verus!
