//! Textures loaded so far, by the path they were loaded from.
use super::Texture;
use vstd::prelude::*;

verus! {

/// What a lookup of `path` in a cache holding `m` returns.
pub open spec fn lookup(m: Map<Seq<char>, Texture>, path: Seq<char>) -> Option<Texture> {
    if m.contains_key(path) {
        Some(m[path])
    } else {
        None
    }
}

/// Textures by source path. A path is stored once; nothing is evicted.
pub struct TextureCache {
    entries: Vec<(String, Texture)>,
}

impl View for TextureCache {
    type V = Map<Seq<char>, Texture>;

    closed spec fn view(&self) -> Map<Seq<char>, Texture> {
        Map::new(
            |p: Seq<char>| exists|i: int| 0 <= i < self.entries@.len() && #[trigger] self.entries@[i].0@ == p,
            |p: Seq<char>| self.entries@[self.index_of(p)].1,
        )
    }
}

impl TextureCache {
    closed spec fn index_of(&self, p: Seq<char>) -> int {
        choose|i: int| 0 <= i < self.entries@.len() && #[trigger] self.entries@[i].0@ == p
    }

    /// No path is stored twice.
    pub closed spec fn wf(&self) -> bool {
        forall|i: int, j: int|
            0 <= i < j < self.entries@.len() ==> #[trigger] self.entries@[i].0@ != #[trigger] self.entries@[j].0@
    }

    /// An empty cache.
    pub fn new() -> (r: TextureCache)
        ensures
            r.wf(),
            r@ == Map::<Seq<char>, Texture>::empty(),
    {
        let r = TextureCache { entries: Vec::new() };
        proof {
            assert(r@ =~= Map::<Seq<char>, Texture>::empty());
        }
        r
    }

    /// The texture stored under `path`, if any.
    pub fn get(&self, path: &String) -> (r: Option<Texture>)
        requires
            self.wf(),
        ensures
            r == lookup(self@, path@),
    {
        let n = self.entries.len();
        let mut i: usize = 0;
        while i < n
            invariant
                n == self.entries@.len(),
                0 <= i <= n,
                self.wf(),
                forall|j: int| 0 <= j < i ==> #[trigger] self.entries@[j].0@ != path@,
            decreases n - i,
        {
            if self.entries[i].0 == *path {
                proof {
                    self.lemma_index_of(i as int);
                }
                return Some(self.entries[i].1);
            }
            i = i + 1;
        }
        None
    }

    /// Stores `texture` under `path`, in place of what was stored there.
    pub fn insert(&mut self, path: String, texture: Texture)
        requires
            old(self).wf(),
        ensures
            final(self).wf(),
            final(self)@ == old(self)@.insert(path@, texture),
    {
        let ghost p = path@;
        let n = self.entries.len();
        let mut i: usize = 0;
        while i < n
            invariant
                n == self.entries@.len(),
                0 <= i <= n,
                self.entries@ == old(self).entries@,
                path@ == p,
                self.wf(),
                forall|j: int| 0 <= j < i ==> #[trigger] self.entries@[j].0@ != p,
            decreases n - i,
        {
            if self.entries[i].0 == path {
                let ghost before = *self;
                self.entries.set(i, (path, texture));
                proof {
                    assert(self.entries@[i as int].0@ == p);
                    assert forall|a: int, b: int|
                        0 <= a < b < self.entries@.len() implies #[trigger] self.entries@[a].0@
                        != #[trigger] self.entries@[b].0@ by {
                        assert(before.entries@[a].0@ != before.entries@[b].0@);
                    }
                    assert forall|q: Seq<char>| #[trigger] self@.contains_key(q) implies
                        self@[q] == before@.insert(p, texture)[q] by {
                        let k = self.index_of(q);
                        self.lemma_index_of(k);
                        if q != p {
                            assert(before.entries@[k].0@ == q);
                            before.lemma_index_of(k);
                        }
                    }
                    assert forall|q: Seq<char>| before@.insert(p, texture).contains_key(q) implies
                        #[trigger] self@.contains_key(q) by {
                        if q != p {
                            let k = before.index_of(q);
                            assert(self.entries@[k].0@ == q);
                        }
                    }
                    assert(self@ =~= before@.insert(p, texture));
                }
                return;
            }
            i = i + 1;
        }
        let ghost before = *self;
        self.entries.push((path, texture));
        proof {
            assert(self.entries@[n as int].0@ == p);
            self.lemma_index_of(n as int);
            assert forall|q: Seq<char>| #[trigger] self@.contains_key(q) implies
                self@[q] == before@.insert(p, texture)[q] by {
                let k = self.index_of(q);
                self.lemma_index_of(k);
                if q != p {
                    assert(before.entries@[k].0@ == q);
                    before.lemma_index_of(k);
                }
            }
            assert forall|q: Seq<char>| before@.insert(p, texture).contains_key(q) implies
                #[trigger] self@.contains_key(q) by {
                if q != p {
                    let k = before.index_of(q);
                    assert(self.entries@[k].0@ == q);
                }
            }
            assert(self@ =~= before@.insert(p, texture));
        }
    }

    /// Number of stored textures.
    pub fn len(&self) -> (r: usize)
        requires
            self.wf(),
        ensures
            r == self@.len(),
    {
        proof {
            self.lemma_len();
        }
        self.entries.len()
    }

    proof fn lemma_index_of(&self, i: int)
        requires
            self.wf(),
            0 <= i < self.entries@.len(),
        ensures
            self.index_of(self.entries@[i].0@) == i,
            self@.contains_key(self.entries@[i].0@),
            self@[self.entries@[i].0@] == self.entries@[i].1,
    {
        let p = self.entries@[i].0@;
        assert(self@.contains_key(p));
        let k = self.index_of(p);
        assert(self.entries@[k].0@ == p);
        if k != i {
            if k < i {
                assert(self.entries@[k].0@ != self.entries@[i].0@);
            } else {
                assert(self.entries@[i].0@ != self.entries@[k].0@);
            }
        }
    }

    proof fn lemma_len(&self)
        requires
            self.wf(),
        ensures
            self@.len() == self.entries@.len(),
    {
        let keys = Seq::new(self.entries@.len(), |i: int| self.entries@[i].0@);
        assert forall|i: int, j: int| 0 <= i < j < keys.len() implies keys[i] != keys[j] by {
            assert(self.entries@[i].0@ != self.entries@[j].0@);
        }
        assert(keys.no_duplicates());
        keys.unique_seq_to_set();
        assert(self@.dom() =~= keys.to_set()) by {
            assert forall|q: Seq<char>| self@.dom().contains(q) implies keys.to_set().contains(q) by {
                let k = self.index_of(q);
                assert(keys[k] == q);
            }
            assert forall|q: Seq<char>| keys.to_set().contains(q) implies self@.dom().contains(q) by {
                let k = choose|k: int| 0 <= k < keys.len() && keys[k] == q;
                assert(self.entries@[k].0@ == q);
            }
        }
    }
}

/// Once a texture is stored under a path, every later lookup of that path
/// returns that same texture, so the image behind it is decoded and
/// uploaded once; lookups of other paths are unaffected.
pub proof fn lemma_cache_idempotent(
    m: Map<Seq<char>, Texture>,
    path: Seq<char>,
    texture: Texture,
    other: Seq<char>,
)
    ensures
        lookup(m.insert(path, texture), path) == Some(texture),
        other != path ==> lookup(m.insert(path, texture), other) == lookup(m, other),
{
}

} // verus!
