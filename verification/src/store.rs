//! The disk cache store's key and a reference in-memory store with the same
//! get/put contract, viewed as a map from keys to tile bytes. Tiles are
//! written once and never evicted; a repeated put for the same key replaces
//! the value (last writer wins).

use vstd::prelude::*;

verus! {

use crate::router::Style;
use crate::tile::Tile;

/// What uniquely identifies a stored tile image: the style and the tile
/// address.
#[derive(Clone, Copy, PartialEq, Eq, Structural, Debug)]
pub struct CacheKey {
    pub style: Style,
    pub tile: Tile,
}

impl CacheKey {
    /// A key is well formed when its tile address is.
    pub open spec fn wf(self) -> bool {
        self.tile.wf()
    }
}

/// The map a list of entries stands for, later entries overriding earlier
/// ones.
spec fn entries_map(s: Seq<(CacheKey, Vec<u8>)>) -> Map<CacheKey, Seq<u8>>
    decreases s.len(),
{
    if s.len() == 0 {
        Map::empty()
    } else {
        entries_map(s.drop_last()).insert(s.last().0, s.last().1@)
    }
}

/// No key occurs twice.
spec fn distinct_keys(s: Seq<(CacheKey, Vec<u8>)>) -> bool {
    forall|i: int, j: int| 0 <= i < j < s.len() ==> (#[trigger] s[i]).0 != (#[trigger] s[j]).0
}

/// With distinct keys, each entry is in the map with its own bytes.
proof fn lemma_map_index(s: Seq<(CacheKey, Vec<u8>)>, i: int)
    requires
        distinct_keys(s),
        0 <= i < s.len(),
    ensures
        entries_map(s).contains_key(s[i].0),
        entries_map(s)[s[i].0] == s[i].1@,
    decreases s.len(),
{
    if i == s.len() - 1 {
    } else {
        assert(s.drop_last()[i] == s[i]);
        lemma_map_index(s.drop_last(), i);
    }
}

/// Every key in the map comes from some entry.
proof fn lemma_map_domain(s: Seq<(CacheKey, Vec<u8>)>, k: CacheKey)
    requires
        entries_map(s).contains_key(k),
    ensures
        exists|i: int| 0 <= i < s.len() && (#[trigger] s[i]).0 == k,
    decreases s.len(),
{
    if s.len() > 0 {
        if s.last().0 == k {
            assert(s[s.len() - 1].0 == k);
        } else {
            lemma_map_domain(s.drop_last(), k);
            let i = choose|i: int| 0 <= i < s.len() - 1 && (#[trigger] s.drop_last()[i]).0 == k;
            assert(s[i].0 == k);
        }
    }
}

/// An in-memory tile store keyed like the on-disk cache.
pub struct CacheStore {
    entries: Vec<(CacheKey, Vec<u8>)>,
}

impl View for CacheStore {
    type V = Map<CacheKey, Seq<u8>>;

    closed spec fn view(&self) -> Map<CacheKey, Seq<u8>> {
        entries_map(self.entries@)
    }
}

impl CacheStore {
    /// The store's internal invariant.
    pub closed spec fn wf(self) -> bool {
        distinct_keys(self.entries@)
    }

    /// An empty store.
    pub fn new() -> (r: CacheStore)
        ensures
            r.wf(),
            r@ == Map::<CacheKey, Seq<u8>>::empty(),
    {
        let r = CacheStore { entries: Vec::new() };
        proof {
            assert(r@ =~= Map::<CacheKey, Seq<u8>>::empty());
        }
        r
    }

    /// Looks a key up: `Some` exactly when the key has been stored, with the
    /// stored bytes.
    pub fn get(&self, key: &CacheKey) -> (r: Option<&Vec<u8>>)
        requires
            self.wf(),
        ensures
            r is Some <==> self@.contains_key(*key),
            r is Some ==> r->0@ == self@[*key],
    {
        let n = self.entries.len();
        let mut i: usize = 0;
        while i < n
            invariant
                self.wf(),
                n == self.entries@.len(),
                0 <= i <= n,
                forall|k: int| 0 <= k < i ==> (#[trigger] self.entries@[k]).0 != *key,
            decreases n - i,
        {
            if self.entries[i].0 == *key {
                proof {
                    lemma_map_index(self.entries@, i as int);
                }
                return Some(&self.entries[i].1);
            }
            i = i + 1;
        }
        proof {
            if self@.contains_key(*key) {
                lemma_map_domain(self.entries@, *key);
            }
        }
        None
    }

    /// Stores bytes under a key, replacing any previous value.
    pub fn put(&mut self, key: CacheKey, bytes: Vec<u8>)
        requires
            old(self).wf(),
        ensures
            final(self).wf(),
            final(self)@ == old(self)@.insert(key, bytes@),
    {
        let n = self.entries.len();
        let mut i: usize = 0;
        while i < n
            invariant
                self.wf(),
                *self == *old(self),
                n == self.entries@.len(),
                0 <= i <= n,
                forall|k: int| 0 <= k < i ==> (#[trigger] self.entries@[k]).0 != key,
            decreases n - i,
        {
            if self.entries[i].0 == key {
                self.entries.set(i, (key, bytes));
                proof {
                    lemma_map_update(old(self).entries@, i as int, key, self.entries@[i as int].1);
                }
                return ;
            }
            i = i + 1;
        }
        self.entries.push((key, bytes));
        proof {
            assert(self.entries@.drop_last() =~= old(self).entries@);
        }
    }
}

/// Updating the entry that holds `k` updates the map at `k`.
proof fn lemma_map_update(s: Seq<(CacheKey, Vec<u8>)>, i: int, k: CacheKey, b: Vec<u8>)
    requires
        distinct_keys(s),
        0 <= i < s.len(),
        s[i].0 == k,
    ensures
        distinct_keys(s.update(i, (k, b))),
        entries_map(s.update(i, (k, b))) == entries_map(s).insert(k, b@),
    decreases s.len(),
{
    let t = s.update(i, (k, b));
    assert forall|p: int, q: int| 0 <= p < q < t.len() implies (#[trigger] t[p]).0 != (
    #[trigger] t[q]).0 by {
        assert(s[p].0 != s[q].0);
    }
    if i == s.len() - 1 {
        assert(t.drop_last() =~= s.drop_last());
        assert(entries_map(t) =~= entries_map(s).insert(k, b@));
    } else {
        assert(t.drop_last() =~= s.drop_last().update(i, (k, b)));
        assert(s.drop_last()[i] == s[i]);
        lemma_map_update(s.drop_last(), i, k, b);
        assert(s.last().0 != k);
        assert(t.last() == s.last());
        assert(entries_map(t) =~= entries_map(s).insert(k, b@));
    }
}

} // verus!
