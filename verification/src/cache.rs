//! Bounded preview cache.
//!
//! Maps photo paths to decoded previews, keeping at most a fixed number
//! of entries. When a new entry would exceed the bound, the entry that
//! was inserted earliest is evicted (pure FIFO: lookups do not refresh an
//! entry's position).

use vstd::prelude::*;
use crate::imaging::PreviewImage;

verus! {

/// One FIFO insertion step on the sequence of cached keys, oldest first:
/// a key already present leaves the cache unchanged; otherwise the key is
/// appended, and the oldest key is evicted when the bound would be
/// exceeded.
pub open spec fn fifo_insert(keys: Seq<Seq<char>>, key: Seq<char>, bound: int) -> Seq<Seq<char>> {
    if keys.contains(key) {
        keys
    } else if keys.len() < bound {
        keys.push(key)
    } else {
        keys.drop_first().push(key)
    }
}

/// The keys held after inserting each element of `new_keys` in order,
/// starting from `keys`.
pub open spec fn fifo_insert_all(keys: Seq<Seq<char>>, new_keys: Seq<Seq<char>>, bound: int) -> Seq<
    Seq<char>,
>
    decreases new_keys.len(),
{
    if new_keys.len() == 0 {
        keys
    } else {
        fifo_insert(fifo_insert_all(keys, new_keys.drop_last(), bound), new_keys.last(), bound)
    }
}

/// True when no key occurs twice.
pub open spec fn distinct_keys(keys: Seq<Seq<char>>) -> bool {
    forall|i: int, j: int| 0 <= i < j < keys.len() ==> keys[i] != keys[j]
}

/// A bounded mapping from photo path to decoded preview, evicted in
/// strict FIFO order.
pub struct PreviewCache {
    /// Cached entries, oldest insertion first.
    pub entries: Vec<(String, PreviewImage)>,
    /// Largest number of entries the cache may hold.
    pub bound: usize,
}

impl PreviewCache {
    /// The cached keys, oldest insertion first.
    pub open spec fn keys(&self) -> Seq<Seq<char>> {
        self.entries@.map_values(|e: (String, PreviewImage)| e.0@)
    }

    /// The cache never exceeds its bound and never holds a key twice.
    pub open spec fn wf(&self) -> bool {
        &&& self.bound >= 1
        &&& self.entries@.len() <= self.bound
        &&& distinct_keys(self.keys())
    }

    /// Creates an empty cache that will hold at most `bound` entries.
    pub fn new(bound: usize) -> (cache: Self)
        requires
            bound >= 1,
        ensures
            cache.wf(),
            cache.bound == bound,
            cache.keys() == Seq::<Seq<char>>::empty(),
    {
        let cache = PreviewCache { entries: Vec::new(), bound };
        proof {
            assert(cache.keys() =~= Seq::<Seq<char>>::empty());
        }
        cache
    }

    /// The number of cached entries.
    pub fn len(&self) -> (n: usize)
        ensures
            n == self.keys().len(),
    {
        self.entries.len()
    }

    /// Whether a preview for `path` is cached.
    pub fn contains(&self, path: &String) -> (present: bool)
        ensures
            present == self.keys().contains(path@),
    {
        let mut i: usize = 0;
        while i < self.entries.len()
            invariant
                i <= self.entries@.len(),
                forall|j: int| 0 <= j < i ==> self.keys()[j] != path@,
            decreases self.entries@.len() - i,
        {
            if self.entries[i].0 == *path {
                assert(self.keys()[i as int] == path@);
                return true;
            }
            i = i + 1;
        }
        proof {
            if self.keys().contains(path@) {
                let j = choose|j: int| 0 <= j < self.keys().len() && self.keys()[j] == path@;
                assert(self.keys()[j] != path@);
            }
        }
        false
    }

    /// The cached preview for `path`, if present.
    pub fn get(&self, path: &String) -> (found: Option<&PreviewImage>)
        ensures
            found is Some <==> self.keys().contains(path@),
            match found {
                Some(img) => exists|i: int|
                    0 <= i < self.entries@.len() && self.entries@[i].0@ == path@ && *img
                        == self.entries@[i].1,
                None => true,
            },
    {
        let mut i: usize = 0;
        while i < self.entries.len()
            invariant
                i <= self.entries@.len(),
                forall|j: int| 0 <= j < i ==> self.keys()[j] != path@,
            decreases self.entries@.len() - i,
        {
            if self.entries[i].0 == *path {
                assert(self.keys()[i as int] == path@);
                return Some(&self.entries[i].1);
            }
            i = i + 1;
        }
        proof {
            if self.keys().contains(path@) {
                let j = choose|j: int| 0 <= j < self.keys().len() && self.keys()[j] == path@;
                assert(self.keys()[j] != path@);
            }
        }
        None
    }

    /// Stores a decoded preview for `path`. A path already cached is left
    /// exactly as it was; otherwise the preview is appended and, if the
    /// cache would exceed its bound, the oldest entry is evicted.
    pub fn insert(&mut self, path: String, preview: PreviewImage)
        requires
            old(self).wf(),
        ensures
            final(self).wf(),
            final(self).bound == old(self).bound,
            final(self).keys() == fifo_insert(old(self).keys(), path@, old(self).bound as int),
            old(self).keys().contains(path@) ==> final(self).entries@ == old(self).entries@,
            !old(self).keys().contains(path@) && old(self).keys().len() < old(self).bound
                ==> final(self).entries@ == old(self).entries@.push((path, preview)),
            !old(self).keys().contains(path@) && old(self).keys().len() >= old(self).bound
                ==> final(self).entries@ == old(self).entries@.drop_first().push((path, preview)),
    {
        if self.contains(&path) {
            return;
        }
        let ghost keys0 = self.keys();
        if self.entries.len() >= self.bound {
            let _evicted = self.entries.remove(0);
            proof {
                assert(self.entries@ =~= old(self).entries@.drop_first());
                assert(self.keys() =~= keys0.drop_first());
            }
        }
        let ghost keys1 = self.keys();
        let ghost entries1 = self.entries@;
        self.entries.push((path, preview));
        proof {
            assert(self.entries@ == entries1.push((path, preview)));
            assert(self.keys() =~= keys1.push(path@));
            assert(final(self).keys() == fifo_insert(keys0, path@, old(self).bound as int));
            assert forall|i: int, j: int|
                0 <= i < j < self.keys().len() implies self.keys()[i] != self.keys()[j] by {
                if j < self.keys().len() - 1 {
                    if keys0.len() >= old(self).bound {
                        assert(keys1[i] == keys0[i + 1] && keys1[j] == keys0[j + 1]);
                    }
                } else {
                    assert(self.keys()[j] == path@);
                    assert(!keys1.contains(path@)) by {
                        if keys1.contains(path@) {
                            let k = choose|k: int|
                                0 <= k < keys1.len() && keys1[k] == path@;
                            if keys0.len() >= old(self).bound {
                                assert(keys0[k + 1] == path@);
                                assert(keys0.contains(path@));
                            } else {
                                assert(keys0.contains(path@));
                            }
                        }
                    }
                }
            }
        }
    }
}

/// Starting from an empty cache, inserting any sequence of distinct keys
/// leaves exactly the most recently inserted `bound` keys (all of them,
/// when fewer than `bound` were inserted), in insertion order.
pub proof fn lemma_fifo_recent_keys(new_keys: Seq<Seq<char>>, bound: int)
    requires
        bound >= 1,
        distinct_keys(new_keys),
    ensures
        fifo_insert_all(Seq::empty(), new_keys, bound) == if new_keys.len() <= bound {
            new_keys
        } else {
            new_keys.skip(new_keys.len() - bound)
        },
    decreases new_keys.len(),
{
    if new_keys.len() == 0 {
        assert(fifo_insert_all(Seq::empty(), new_keys, bound) =~= new_keys);
    } else {
        let prefix = new_keys.drop_last();
        let last = new_keys.last();
        assert(distinct_keys(prefix)) by {
            assert forall|i: int, j: int|
                0 <= i < j < prefix.len() implies prefix[i] != prefix[j] by {
                assert(new_keys[i] != new_keys[j]);
            }
        }
        lemma_fifo_recent_keys(prefix, bound);
        let held = fifo_insert_all(Seq::empty(), prefix, bound);
        assert(!held.contains(last)) by {
            if held.contains(last) {
                let k = choose|k: int| 0 <= k < held.len() && held[k] == last;
                if prefix.len() <= bound {
                    assert(new_keys[k] == last);
                    assert(new_keys[new_keys.len() - 1] == last);
                } else {
                    assert(prefix[k + prefix.len() - bound] == last);
                    assert(new_keys[k + prefix.len() - bound] == last);
                }
            }
        }
        if prefix.len() < bound {
            assert(held == prefix);
            assert(held.push(last) =~= new_keys);
        } else if prefix.len() == bound {
            assert(held == prefix);
            assert(held.drop_first().push(last) =~= new_keys.skip(new_keys.len() - bound));
        } else {
            assert(held == prefix.skip(prefix.len() - bound));
            assert(held.len() == bound);
            assert(held.drop_first().push(last) =~= new_keys.skip(new_keys.len() - bound));
        }
    }
}

} // verus!
