//! Header maps: lower-cased header name to joined value string.
//!
//! Backed by an association list with unique keys; the view is a map from
//! name bytes to value bytes.  Raw response headers are folded in order,
//! joining repeated names with a comma, as HTTP clients present them.

use vstd::prelude::*;

use crate::assoc::{akeys_unique, amap_of, lemma_akeys_unique_push, lemma_akeys_unique_remove,
    lemma_amap_of_contains, lemma_amap_of_index, lemma_amap_of_len, lemma_amap_of_remove};
use crate::bytestr::{bytes_eq, clone_bytes};

verus! {

/// View of one stored pair.
pub open spec fn pair_view(p: (Vec<u8>, Vec<u8>)) -> (Seq<u8>, Seq<u8>) {
    (p.0@, p.1@)
}

/// Views of all stored pairs.
pub open spec fn pairs_view(s: Seq<(Vec<u8>, Vec<u8>)>) -> Seq<(Seq<u8>, Seq<u8>)> {
    s.map_values(|p: (Vec<u8>, Vec<u8>)| pair_view(p))
}

/// An ordered-irrelevant map of lower-cased header name to joined value.
pub struct Headers {
    entries: Vec<(Vec<u8>, Vec<u8>)>,
}

impl View for Headers {
    type V = Map<Seq<u8>, Seq<u8>>;

    closed spec fn view(&self) -> Map<Seq<u8>, Seq<u8>> {
        amap_of(pairs_view(self.entries@))
    }
}

impl Headers {
    /// Internal shape: unique names.
    pub closed spec fn wf(&self) -> bool {
        akeys_unique(pairs_view(self.entries@))
    }

    pub fn new() -> (r: Headers)
        ensures
            r.wf(),
            r@ == Map::<Seq<u8>, Seq<u8>>::empty(),
    {
        Headers { entries: Vec::new() }
    }

    /// Index of the entry holding `low`, if any.
    fn position_of(&self, low: &Vec<u8>) -> (r: Option<usize>)
        ensures
            match r {
                Some(i) => i < self.entries@.len() && pairs_view(self.entries@)[i as int].0 == low@,
                None => forall|j: int|
                    0 <= j < self.entries@.len() ==> (#[trigger] pairs_view(self.entries@)[j]).0
                        != low@,
            },
    {
        let mut i: usize = 0;
        while i < self.entries.len()
            invariant
                0 <= i <= self.entries@.len(),
                forall|j: int| 0 <= j < i ==> (#[trigger] pairs_view(self.entries@)[j]).0 != low@,
            decreases self.entries@.len() - i,
        {
            if bytes_eq(&self.entries[i].0, &low) {
                return Some(i);
            }
            i = i + 1;
        }
        None
    }

    /// Look a name up by exact bytes.
    pub fn get(&self, name: &Vec<u8>) -> (r: Option<&Vec<u8>>)
        requires
            self.wf(),
        ensures
            match r {
                Some(v) => self@.contains_key(name@) && v@ == self@[name@],
                None => !self@.contains_key(name@),
            },
    {
        let ghost pairs = pairs_view(self.entries@);
        match self.position_of(name) {
            Some(i) => {
                proof {
                    lemma_amap_of_index(pairs, i as int);
                }
                Some(&self.entries[i].1)
            },
            None => {
                proof {
                    lemma_amap_of_contains(pairs, name@);
                }
                None
            },
        }
    }

    /// Insert a value under a name, replacing any prior value.
    pub fn insert(&mut self, name: &Vec<u8>, value: Vec<u8>)
        requires
            old(self).wf(),
        ensures
            final(self).wf(),
            final(self)@ == old(self)@.insert(name@, value@),
    {
        let low = clone_bytes(name);
        let ghost pairs0 = pairs_view(self.entries@);
        let pos = self.position_of(&low);
        if let Some(i) = pos {
            proof {
                lemma_amap_of_index(pairs0, i as int);
                lemma_amap_of_remove(pairs0, i as int);
                lemma_akeys_unique_remove(pairs0, i as int);
            }
            self.entries.remove(i);
            proof {
                assert(pairs_view(self.entries@) =~= pairs0.remove(i as int));
            }
        } else {
            proof {
                lemma_amap_of_contains(pairs0, low@);
            }
        }
        let ghost pairs1 = pairs_view(self.entries@);
        self.entries.push((low, value));
        proof {
            let ghost p = (name@, value@);
            assert(pairs_view(self.entries@) =~= pairs1.push(p));
            lemma_akeys_unique_push(pairs1, p);
            if pos is Some {
                assert(amap_of(pairs1) == old(self)@.remove(name@));
                assert(amap_of(pairs1).insert(name@, value@) =~= old(self)@.insert(name@, value@));
            }
        }
    }

    /// Number of distinct names.
    pub fn len(&self) -> (r: usize)
        requires
            self.wf(),
        ensures
            r == self@.len(),
    {
        proof {
            lemma_amap_of_len(pairs_view(self.entries@));
        }
        self.entries.len()
    }

    /// The stored pairs, for callers that persist or display headers.
    pub fn entries(&self) -> (r: &Vec<(Vec<u8>, Vec<u8>)>)
        requires
            self.wf(),
        ensures
            amap_of(pairs_view(r@)) == self@,
            akeys_unique(pairs_view(r@)),
    {
        &self.entries
    }
}

impl Clone for Headers {
    fn clone(&self) -> (r: Self)
        ensures
            r@ == self@,
            r.wf() == self.wf(),
    {
        let mut entries: Vec<(Vec<u8>, Vec<u8>)> = Vec::new();
        let mut i: usize = 0;
        while i < self.entries.len()
            invariant
                0 <= i <= self.entries@.len(),
                pairs_view(entries@) == pairs_view(self.entries@).subrange(0, i as int),
            decreases self.entries@.len() - i,
        {
            let name = clone_bytes(&self.entries[i].0);
            let value = clone_bytes(&self.entries[i].1);
            let ghost nv = name@;
            let ghost vv = value@;
            let ghost pre = entries@;
            entries.push((name, value));
            proof {
                assert(pairs_view(pre).len() == i as int);
                assert(pre.len() == i as int);
                let post = pairs_view(entries@);
                assert forall|j: int| 0 <= j < i + 1 implies post[j] == pairs_view(
                    self.entries@,
                ).subrange(0, i + 1)[j] by {
                    if j < i {
                        assert(entries@[j] == pre[j]);
                        assert(pairs_view(pre)[j] == pairs_view(self.entries@).subrange(
                            0,
                            i as int,
                        )[j]);
                    } else {
                        assert(entries@[j].0@ == nv);
                        assert(entries@[j].1@ == vv);
                        assert(nv == self.entries@[j].0@);
                        assert(vv == self.entries@[j].1@);
                    }
                }
                assert(pairs_view(entries@) =~= pairs_view(self.entries@).subrange(0, i + 1));
            }
            i = i + 1;
        }
        proof {
            assert(pairs_view(entries@) =~= pairs_view(self.entries@));
        }
        Headers { entries }
    }
}

} // verus!
