//! Checksums over a list of byte parts.

use vstd::prelude::*;

use crate::hash::{hex_of, u64_to_hex, xxhash64, xxhash64_of};

verus! {

/// The concatenation of a list of byte strings from position `i` on.
pub open spec fn cat_from(parts: Seq<Seq<u8>>, i: int) -> Seq<u8>
    decreases parts.len() - i,
{
    if !(0 <= i < parts.len()) {
        Seq::empty()
    } else {
        parts[i] + cat_from(parts, i + 1)
    }
}

/// The hex-rendered digest of the concatenated parts.
pub fn gen(v: &Vec<Vec<u8>>) -> (r: Vec<u8>)
    ensures
        r@ == hex_of(xxhash64_of(0, cat_from(crate::bytestr::vecs_view(v@), 0)) as int),
{
    let ghost pv = crate::bytestr::vecs_view(v@);
    let mut all: Vec<u8> = Vec::new();
    let mut i: usize = 0;
    proof {
        assert(all@ + cat_from(pv, 0) =~= cat_from(pv, 0));
    }
    while i < v.len()
        invariant
            0 <= i <= v@.len(),
            pv == crate::bytestr::vecs_view(v@),
            all@ + cat_from(pv, i as int) == cat_from(pv, 0),
        decreases v@.len() - i,
    {
        let ghost pre = all@;
        all.extend_from_slice(v[i].as_slice());
        proof {
            assert(all@ == pre + pv[i as int]);
            assert((pre + pv[i as int]) + cat_from(pv, i + 1) =~= pre + (pv[i as int] + cat_from(
                pv,
                i + 1,
            )));
        }
        i = i + 1;
    }
    proof {
        assert(cat_from(pv, i as int) =~= Seq::<u8>::empty());
        assert(all@ + cat_from(pv, i as int) =~= all@);
    }
    u64_to_hex(xxhash64(0, &all))
}

} // verus!
