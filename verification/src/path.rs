//! Lexical path absolutization: resolve `.` and `..` against a working
//! directory without touching the filesystem.

use vstd::prelude::*;
use vstd::string::StringSliceAdditionalSpecFns;
use vstd::string::StrSliceExecFns;

use crate::bytestr::{bytes_eq, bytes_range, clone_bytes, find_byte, find_from, str_to_bytes,
    SLASH};

verus! {

/// The path begins at the filesystem root.
pub open spec fn is_absolute_path(s: Seq<u8>) -> bool {
    s.len() > 0 && s[0] == SLASH
}

/// End of the segment starting at `i`: the next separator, or the end.
pub open spec fn seg_end(s: Seq<u8>, i: int) -> int {
    match find_from(s, SLASH, i) {
        Some(j) => j,
        None => s.len() as int,
    }
}

/// The separator-delimited segments of `s` from position `i` on.
pub open spec fn segs_from(s: Seq<u8>, i: int) -> Seq<Seq<u8>>
    decreases s.len() - i,
    when true
    via segs_from_decreases
{
    if !(0 <= i < s.len()) {
        Seq::empty()
    } else if s[i] == SLASH {
        segs_from(s, i + 1)
    } else {
        seq![s.subrange(i, seg_end(s, i))] + segs_from(s, seg_end(s, i))
    }
}

#[via_fn]
proof fn segs_from_decreases(s: Seq<u8>, i: int) {
    if 0 <= i < s.len() && s[i] != SLASH {
        crate::bytestr::lemma_find_from_props(s, SLASH, i);
    }
}

/// Fold segments onto a stack: `.` is dropped, `..` pops, anything else is
/// pushed.
pub open spec fn norm_from(out: Seq<Seq<u8>>, segs: Seq<Seq<u8>>, i: int) -> Seq<Seq<u8>>
    decreases segs.len() - i,
{
    if !(0 <= i < segs.len()) {
        out
    } else {
        let sg = segs[i];
        if sg == (".").spec_bytes() {
            norm_from(out, segs, i + 1)
        } else if sg == ("..").spec_bytes() {
            norm_from(
                if out.len() > 0 {
                    out.drop_last()
                } else {
                    out
                },
                segs,
                i + 1,
            )
        } else {
            norm_from(out.push(sg), segs, i + 1)
        }
    }
}

/// Segments joined with separators.
pub open spec fn join_segs(segs: Seq<Seq<u8>>, i: int) -> Seq<u8>
    decreases segs.len() - i,
{
    if !(0 <= i < segs.len()) {
        Seq::empty()
    } else if i == segs.len() - 1 {
        segs[i]
    } else {
        segs[i] + seq![SLASH] + join_segs(segs, i + 1)
    }
}

/// The lexical absolutization of `path` against the absolute directory
/// `cwd`: its segments (after the working directory's, where `path` is
/// relative) with `.` and `..` resolved, rooted.
pub open spec fn absolute_of(path: Seq<u8>, cwd: Seq<u8>) -> Seq<u8> {
    let base = if is_absolute_path(path) {
        Seq::<Seq<u8>>::empty()
    } else {
        segs_from(cwd, 0)
    };
    seq![SLASH] + join_segs(norm_from(base, segs_from(path, 0), 0), 0)
}

/// Split a path into its segments.
fn split_segments(v: &Vec<u8>) -> (r: Vec<Vec<u8>>)
    ensures
        crate::bytestr::vecs_view(r@) == segs_from(v@, 0),
{
    let mut r: Vec<Vec<u8>> = Vec::new();
    let mut i: usize = 0;
    while i < v.len()
        invariant
            0 <= i <= v@.len(),
            segs_from(v@, 0) == crate::bytestr::vecs_view(r@) + segs_from(v@, i as int),
        decreases v@.len() - i,
    {
        if v[i] == SLASH {
            i = i + 1;
        } else {
            proof {
                crate::bytestr::lemma_find_from_props(v@, SLASH, i as int);
            }
            let e = match find_byte(v, SLASH, i) {
                Some(j) => j,
                None => v.len(),
            };
            let ghost pre = crate::bytestr::vecs_view(r@);
            r.push(bytes_range(v, i, e));
            proof {
                assert(crate::bytestr::vecs_view(r@) =~= pre + seq![v@.subrange(
                    i as int,
                    seg_end(v@, i as int),
                )]);
                assert((pre + seq![v@.subrange(i as int, seg_end(v@, i as int))]) + segs_from(
                    v@,
                    seg_end(v@, i as int),
                ) =~= pre + (seq![v@.subrange(i as int, seg_end(v@, i as int))] + segs_from(
                    v@,
                    seg_end(v@, i as int),
                )));
            }
            i = e;
        }
    }
    proof {
        assert(crate::bytestr::vecs_view(r@) + segs_from(v@, i as int) =~= crate::bytestr::vecs_view(
            r@,
        ));
    }
    r
}

/// Resolve `path` against the absolute directory `cwd`, lexically.
pub fn absolute_path(path: &Vec<u8>, cwd: &Vec<u8>) -> (r: Vec<u8>)
    ensures
        r@ == absolute_of(path@, cwd@),
{
    let mut stack: Vec<Vec<u8>> = if path.len() > 0 && path[0] == SLASH {
        Vec::new()
    } else {
        split_segments(cwd)
    };
    let segs = split_segments(path);
    let dot = str_to_bytes(".");
    let dotdot = str_to_bytes("..");
    let ghost segs0 = crate::bytestr::vecs_view(segs@);
    let ghost base0 = crate::bytestr::vecs_view(stack@);
    let mut i: usize = 0;
    while i < segs.len()
        invariant
            0 <= i <= segs@.len(),
            dot@ == (".").spec_bytes(),
            dotdot@ == ("..").spec_bytes(),
            segs0 == crate::bytestr::vecs_view(segs@),
            norm_from(base0, segs0, 0) == norm_from(
                crate::bytestr::vecs_view(stack@),
                segs0,
                i as int,
            ),
        decreases segs@.len() - i,
    {
        proof {
            assert(crate::bytestr::vecs_view(segs@)[i as int] == segs@[i as int]@);
        }
        if bytes_eq(&segs[i], &dot) {
        } else if bytes_eq(&segs[i], &dotdot) {
            if stack.len() > 0 {
                let ghost pre = crate::bytestr::vecs_view(stack@);
                stack.pop();
                proof {
                    assert(crate::bytestr::vecs_view(stack@) =~= pre.drop_last());
                }
            }
        } else {
            let ghost pre = crate::bytestr::vecs_view(stack@);
            stack.push(clone_bytes(&segs[i]));
            proof {
                assert(crate::bytestr::vecs_view(stack@) =~= pre.push(segs0[i as int]));
            }
        }
        i = i + 1;
    }
    let ghost normed = crate::bytestr::vecs_view(stack@);
    proof {
        assert(normed == norm_from(base0, segs0, 0));
    }
    let mut out: Vec<u8> = Vec::new();
    out.push(SLASH);
    let mut k: usize = 0;
    while k < stack.len()
        invariant
            0 <= k <= stack@.len(),
            normed == crate::bytestr::vecs_view(stack@),
            out@ == seq![SLASH] + join_segs(normed, 0).subrange(
                0,
                join_segs(normed, 0).len() - join_segs(normed, k as int).len(),
            ),
            join_segs(normed, 0).len() >= join_segs(normed, k as int).len(),
            k < stack@.len() ==> join_segs(normed, 0) == join_segs(normed, 0).subrange(
                0,
                join_segs(normed, 0).len() - join_segs(normed, k as int).len(),
            ) + join_segs(normed, k as int),
            k >= stack@.len() ==> out@ == seq![SLASH] + join_segs(normed, 0),
        decreases stack@.len() - k,
    {
        proof {
            assert(crate::bytestr::vecs_view(stack@)[k as int] == stack@[k as int]@);
        }
        out.extend_from_slice(stack[k].as_slice());
        if k + 1 < stack.len() {
            out.push(SLASH);
        }
        proof {
            let j0 = join_segs(normed, 0);
            let jk = join_segs(normed, k as int);
            let jk1 = join_segs(normed, k + 1);
            if k + 1 < stack@.len() {
                assert(jk =~= normed[k as int] + seq![SLASH] + jk1);
                assert(out@ =~= seq![SLASH] + j0.subrange(0, j0.len() - jk1.len()));
                assert(j0 =~= j0.subrange(0, j0.len() - jk1.len()) + jk1);
            } else {
                assert(jk == normed[k as int]);
                assert(jk1 =~= Seq::<u8>::empty());
                assert(out@ =~= seq![SLASH] + j0.subrange(0, j0.len() - jk1.len()));
                assert(j0.subrange(0, j0.len() as int) =~= j0);
                assert(out@ =~= seq![SLASH] + j0);
            }
        }
        k = k + 1;
    }
    proof {
        if stack@.len() == 0 {
            assert(join_segs(normed, 0) =~= Seq::<u8>::empty());
            assert(out@ =~= seq![SLASH] + join_segs(normed, 0));
        }
        if is_absolute_path(path@) {
            assert(base0 =~= Seq::<Seq<u8>>::empty());
        }
        assert(out@ =~= absolute_of(path@, cwd@));
    }
    out
}

/// Marks the path-like types this crate extends.
pub trait Sealed {

}

impl Sealed for Vec<u8> {

}

/// Lexical absolutization against a working directory.
pub trait ToAbsolutePath: Sealed {
    /// The path's bytes.
    spec fn path_view(&self) -> Seq<u8>;

    /// The path resolved against the absolute directory `cwd`.
    fn absolute(&self, cwd: &Vec<u8>) -> (r: Vec<u8>)
        ensures
            r@ == absolute_of(self.path_view(), cwd@),
    ;
}

impl ToAbsolutePath for Vec<u8> {
    open spec fn path_view(&self) -> Seq<u8> {
        self@
    }

    fn absolute(&self, cwd: &Vec<u8>) -> (r: Vec<u8>)
        ensures
            r@ == absolute_of(self@, cwd@),
    {
        absolute_path(self, cwd)
    }
}

/// The extension under the extension: what remains once the outer one is
/// stripped.
pub open spec fn sub_ext_of(path: Seq<u8>) -> Option<Seq<u8>> {
    match crate::module_loader::ext_of(path) {
        Some(e) => crate::module_loader::ext_of(path.subrange(0, path.len() - e.len() - 1)),
        None => None,
    }
}

/// The second extension of a file name, as in a doubled suffix.
pub trait GetSubExtension: Sealed {
    /// The path's bytes.
    spec fn sub_path_view(&self) -> Seq<u8>;

    /// The extension of the path's stem.
    fn sub_extension(&self) -> (r: Option<Vec<u8>>)
        ensures
            match r {
                Some(e) => sub_ext_of(self.sub_path_view()) == Some(e@),
                None => sub_ext_of(self.sub_path_view()) is None,
            },
    ;
}

impl GetSubExtension for Vec<u8> {
    open spec fn sub_path_view(&self) -> Seq<u8> {
        self@
    }

    fn sub_extension(&self) -> (r: Option<Vec<u8>>)
        ensures
            match r {
                Some(e) => sub_ext_of(self@) == Some(e@),
                None => sub_ext_of(self@) is None,
            },
    {
        match crate::module_loader::path_extension(self) {
            Some(e) => {
                proof {
                    let p = self@;
                    assert(p.len() > 0);
                    crate::bytestr::lemma_rfind_from_props(p, SLASH, p.len() - 1);
                    let start = match crate::bytestr::rfind_from(p, SLASH, p.len() - 1) {
                        Some(j) => j + 1,
                        None => 0int,
                    };
                    let fname = p.subrange(start, p.len() as int);
                    assert(fname.len() > 0);
                    crate::bytestr::lemma_rfind_from_props(fname, crate::bytestr::DOT, fname.len() - 1);
                    assert(crate::module_loader::ext_of(p) matches Some(ev) && ev.len() < p.len());
                }
                let stem = bytes_range(self, 0, self.len() - e.len() - 1);
                crate::module_loader::path_extension(&stem)
            },
            None => None,
        }
    }
}

} // verus!
