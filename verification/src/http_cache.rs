//! The disk-cache model: a key-value store from identity text to response
//! metadata and body bytes, with metadata readable on its own.
//!
//! The store itself is process memory; callers that persist it mirror every
//! write out and seed entries back in before a fetch.  Concurrent writers
//! race at last-writer-wins granularity, which the map semantics reflects.

use vstd::prelude::*;

use crate::assoc::{akeys_unique, amap_of, lemma_akeys_unique_push, lemma_akeys_unique_remove,
    lemma_amap_of_contains, lemma_amap_of_index, lemma_amap_of_remove};
use crate::bytestr::{bytes_eq, clone_bytes};
use crate::headers::Headers;

verus! {

/// Abstract value of one cached entry.
pub struct CacheEntryView {
    pub headers: Map<Seq<u8>, Seq<u8>>,
    pub time: int,
    pub body: Seq<u8>,
}

/// One cached entry: response headers, retrieval time, body bytes.
pub struct CacheEntry {
    pub headers: Headers,
    pub time: u64,
    pub body: Vec<u8>,
}

impl View for CacheEntry {
    type V = CacheEntryView;

    open spec fn view(&self) -> CacheEntryView {
        CacheEntryView { headers: self.headers@, time: self.time as int, body: self.body@ }
    }
}

/// Views of the stored pairs.
pub open spec fn store_view(s: Seq<(Vec<u8>, CacheEntry)>) -> Seq<(Seq<u8>, CacheEntryView)> {
    s.map_values(|p: (Vec<u8>, CacheEntry)| (p.0@, p.1@))
}

/// The durable key-value store for remote artifacts.
pub struct HttpCache {
    entries: Vec<(Vec<u8>, CacheEntry)>,
}

impl View for HttpCache {
    type V = Map<Seq<u8>, CacheEntryView>;

    closed spec fn view(&self) -> Map<Seq<u8>, CacheEntryView> {
        amap_of(store_view(self.entries@))
    }
}

impl HttpCache {
    /// Unique keys; every entry's header map is well formed.
    pub closed spec fn wf(&self) -> bool {
        akeys_unique(store_view(self.entries@)) && forall|i: int|
            0 <= i < self.entries@.len() ==> (#[trigger] self.entries@[i]).1.headers.wf()
    }

    pub fn new() -> (r: HttpCache)
        ensures
            r.wf(),
            r@ == Map::<Seq<u8>, CacheEntryView>::empty(),
    {
        HttpCache { entries: Vec::new() }
    }

    /// Index of the entry for `key`, if any.
    fn position_of(&self, key: &Vec<u8>) -> (r: Option<usize>)
        ensures
            match r {
                Some(i) => i < self.entries@.len() && store_view(self.entries@)[i as int].0
                    == key@,
                None => forall|j: int|
                    0 <= j < self.entries@.len() ==> (#[trigger] store_view(self.entries@)[j]).0
                        != key@,
            },
    {
        let mut i: usize = 0;
        while i < self.entries.len()
            invariant
                0 <= i <= self.entries@.len(),
                forall|j: int| 0 <= j < i ==> (#[trigger] store_view(self.entries@)[j]).0 != key@,
            decreases self.entries@.len() - i,
        {
            if bytes_eq(&self.entries[i].0, key) {
                return Some(i);
            }
            i = i + 1;
        }
        None
    }

    /// Read an entry's metadata without its body.
    pub fn read_metadata(&self, key: &Vec<u8>) -> (r: Option<(Headers, u64)>)
        requires
            self.wf(),
        ensures
            match r {
                Some(m) => self@.contains_key(key@) && m.0.wf() && m.0@ == self@[key@].headers
                    && m.1 as int == self@[key@].time,
                None => !self@.contains_key(key@),
            },
    {
        match self.position_of(key) {
            Some(i) => {
                proof {
                    lemma_amap_of_index(store_view(self.entries@), i as int);
                }
                let h = self.entries[i].1.headers.clone();
                Some((h, self.entries[i].1.time))
            },
            None => {
                proof {
                    lemma_amap_of_contains(store_view(self.entries@), key@);
                }
                None
            },
        }
    }

    /// Read an entry's body bytes.
    pub fn read_file_bytes(&self, key: &Vec<u8>) -> (r: Option<Vec<u8>>)
        requires
            self.wf(),
        ensures
            match r {
                Some(b) => self@.contains_key(key@) && b@ == self@[key@].body,
                None => !self@.contains_key(key@),
            },
    {
        match self.position_of(key) {
            Some(i) => {
                proof {
                    lemma_amap_of_index(store_view(self.entries@), i as int);
                }
                Some(clone_bytes(&self.entries[i].1.body))
            },
            None => {
                proof {
                    lemma_amap_of_contains(store_view(self.entries@), key@);
                }
                None
            },
        }
    }

    /// Write an entry, overwriting any prior one for the key.
    pub fn set(&mut self, key: &Vec<u8>, headers: Headers, time: u64, body: Vec<u8>)
        requires
            old(self).wf(),
            headers.wf(),
        ensures
            final(self).wf(),
            final(self)@ == old(self)@.insert(
                key@,
                CacheEntryView { headers: headers@, time: time as int, body: body@ },
            ),
    {
        let ghost pairs0 = store_view(self.entries@);
        let pos = self.position_of(key);
        if let Some(i) = pos {
            proof {
                lemma_amap_of_index(pairs0, i as int);
                lemma_amap_of_remove(pairs0, i as int);
                lemma_akeys_unique_remove(pairs0, i as int);
            }
            self.entries.remove(i);
            proof {
                assert(store_view(self.entries@) =~= pairs0.remove(i as int));
            }
        } else {
            proof {
                lemma_amap_of_contains(pairs0, key@);
            }
        }
        let ghost pairs1 = store_view(self.entries@);
        let ghost hv = headers@;
        let ghost bv = body@;
        proof {
            assert forall|j: int| 0 <= j < pairs1.len() implies (#[trigger] pairs1[j]).0 != key@
            by {
                if pos is Some {
                    assert(pairs1[j] == pairs0.remove(pos->Some_0 as int)[j]);
                }
            }
        }
        let k = clone_bytes(key);
        let entry = CacheEntry { headers, time, body };
        self.entries.push((k, entry));
        proof {
            let ghost p = (
                key@,
                CacheEntryView { headers: hv, time: time as int, body: bv },
            );
            assert(store_view(self.entries@) =~= pairs1.push(p));
            lemma_akeys_unique_push(pairs1, p);
            if pos is Some {
                assert(amap_of(pairs1) == old(self)@.remove(key@));
                assert(amap_of(pairs1).insert(p.0, p.1) =~= old(self)@.insert(p.0, p.1));
            }
            assert(final(self).wf()) by {
                assert forall|i: int| 0 <= i < self.entries@.len() implies (
                #[trigger] self.entries@[i]).1.headers.wf() by {
                    if i < self.entries@.len() - 1 {
                        if pos is Some {
                            let ip = pos->Some_0 as int;
                            let i0 = if i < ip {
                                i
                            } else {
                                i + 1
                            };
                            assert(self.entries@[i] == old(self).entries@[i0]);
                        } else {
                            assert(self.entries@[i] == old(self).entries@[i]);
                        }
                    }
                }
            }
        }
    }

    /// The stored pairs, for callers that persist the store.
    pub fn entries(&self) -> (r: &Vec<(Vec<u8>, CacheEntry)>)
        requires
            self.wf(),
        ensures
            amap_of(store_view(r@)) == self@,
    {
        &self.entries
    }
}

} // verus!
