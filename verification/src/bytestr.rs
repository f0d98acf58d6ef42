//! Byte-level text utilities shared by the identity, header and policy logic.
//!
//! Identity text and header names/values are kept as byte vectors; the
//! functions here do the scanning and slicing that the rest of the crate
//! states its contracts over.

use vstd::prelude::*;
use vstd::string::StrSliceExecFns;
use vstd::string::StringSliceAdditionalSpecFns;

verus! {

/// ASCII code points this crate scans for.
pub const COLON: u8 = 58;

pub const SLASH: u8 = 47;

pub const QUESTION_MARK: u8 = 63;

pub const NUMBER_SIGN: u8 = 35;

pub const DOT: u8 = 46;

pub const SPACE: u8 = 32;

pub const SEMICOLON: u8 = 59;

pub const COMMA: u8 = 44;

/// Index of the first occurrence of `b` in `s` at or after `i`, if any.
pub open spec fn find_from(s: Seq<u8>, b: u8, i: int) -> Option<int>
    decreases s.len() - i,
{
    if !(0 <= i < s.len()) {
        None
    } else if s[i] == b {
        Some(i)
    } else {
        find_from(s, b, i + 1)
    }
}

pub proof fn lemma_find_from_some(s: Seq<u8>, b: u8, from: int, i: int)
    requires
        0 <= from <= i < s.len(),
        s[i] == b,
        forall|j: int| from <= j < i ==> s[j] != b,
    ensures
        find_from(s, b, from) == Some(i),
    decreases i - from,
{
    if from < i {
        lemma_find_from_some(s, b, from + 1, i);
    }
}

pub proof fn lemma_find_from_none(s: Seq<u8>, b: u8, from: int)
    requires
        0 <= from,
        forall|j: int| from <= j < s.len() ==> s[j] != b,
    ensures
        find_from(s, b, from) is None,
    decreases s.len() - from,
{
    if from < s.len() {
        lemma_find_from_none(s, b, from + 1);
    }
}

/// What `find_from` finds is an occurrence, and the first one.
pub proof fn lemma_find_from_props(s: Seq<u8>, b: u8, from: int)
    requires
        0 <= from,
    ensures
        find_from(s, b, from) matches Some(i) ==> from <= i < s.len() && s[i] == b && forall|
            j: int,
        | from <= j < i ==> s[j] != b,
        find_from(s, b, from) is None ==> forall|j: int| from <= j < s.len() ==> s[j] != b,
    decreases s.len() - from,
{
    if 0 <= from < s.len() && s[from] != b {
        lemma_find_from_props(s, b, from + 1);
    }
}

/// First occurrence of `b` in `v` at or after `from`.
pub fn find_byte(v: &Vec<u8>, b: u8, from: usize) -> (r: Option<usize>)
    ensures
        match r {
            Some(i) => Some(i as int) == find_from(v@, b, from as int),
            None => find_from(v@, b, from as int) is None,
        },
{
    let mut i = from;
    if i > v.len() {
        proof {
            lemma_find_from_none(v@, b, from as int);
        }
        return None;
    }
    while i < v.len()
        invariant
            from <= i <= v@.len(),
            forall|j: int| from <= j < i ==> v@[j] != b,
        decreases v@.len() - i,
    {
        if v[i] == b {
            proof {
                lemma_find_from_some(v@, b, from as int, i as int);
            }
            return Some(i);
        }
        i = i + 1;
    }
    proof {
        lemma_find_from_none(v@, b, from as int);
    }
    None
}

/// Copy of `v[a..b]`.
pub fn bytes_range(v: &Vec<u8>, a: usize, b: usize) -> (r: Vec<u8>)
    requires
        a <= b <= v@.len(),
    ensures
        r@ == v@.subrange(a as int, b as int),
{
    let mut r: Vec<u8> = Vec::new();
    let mut i = a;
    while i < b
        invariant
            a <= i <= b <= v@.len(),
            r@ == v@.subrange(a as int, i as int),
        decreases b - i,
    {
        r.push(v[i]);
        proof {
            assert(r@ =~= v@.subrange(a as int, i + 1));
        }
        i = i + 1;
    }
    r
}

/// The bytes of a string slice (its UTF-8 encoding) as a vector.
pub fn str_to_bytes(s: &str) -> (r: Vec<u8>)
    ensures
        r@ == s.spec_bytes(),
{
    s.as_bytes_vec()
}

/// Fresh copy of a byte vector.
pub fn clone_bytes(v: &Vec<u8>) -> (r: Vec<u8>)
    ensures
        r@ == v@,
{
    vstd::slice::slice_to_vec(v.as_slice())
}

/// Byte-vector equality, as view equality.
pub fn bytes_eq(a: &Vec<u8>, b: &Vec<u8>) -> (r: bool)
    ensures
        r == (a@ == b@),
{
    let r = a == b;
    proof {
        if r {
            assert(a@ =~= b@);
        } else {
            if a@ == b@ {
                assert(a@.len() == b@.len());
                assert(forall|i: int| 0 <= i < a@.len() ==> a@[i] == b@[i]);
            }
        }
    }
    r
}

/// `p` is a prefix of `s`.
pub open spec fn is_prefix_of(p: Seq<u8>, s: Seq<u8>) -> bool {
    p.len() <= s.len() && s.subrange(0, p.len() as int) == p
}

pub fn starts_with(v: &Vec<u8>, p: &Vec<u8>) -> (r: bool)
    ensures
        r == is_prefix_of(p@, v@),
{
    if p.len() > v.len() {
        return false;
    }
    let mut i: usize = 0;
    while i < p.len()
        invariant
            0 <= i <= p@.len() <= v@.len(),
            forall|j: int| 0 <= j < i ==> v@[j] == p@[j],
        decreases p@.len() - i,
    {
        if v[i] != p[i] {
            proof {
                assert(v@.subrange(0, p@.len() as int)[i as int] != p@[i as int]);
            }
            return false;
        }
        i = i + 1;
    }
    proof {
        assert(v@.subrange(0, p@.len() as int) =~= p@);
    }
    true
}

/// ASCII lowercase of a single byte.
pub open spec fn lower_byte(b: u8) -> u8 {
    if 65 <= b <= 90 {
        (b + 32) as u8
    } else {
        b
    }
}

/// ASCII lowercase of a byte sequence.
pub open spec fn lower_bytes(s: Seq<u8>) -> Seq<u8> {
    s.map_values(|b: u8| lower_byte(b))
}

pub fn to_lower_bytes(v: &Vec<u8>) -> (r: Vec<u8>)
    ensures
        r@ == lower_bytes(v@),
{
    let mut r: Vec<u8> = Vec::new();
    let mut i: usize = 0;
    while i < v.len()
        invariant
            0 <= i <= v@.len(),
            r@.len() == i,
            forall|j: int| 0 <= j < i ==> r@[j] == lower_byte(v@[j]),
        decreases v@.len() - i,
    {
        let b = v[i];
        if 65 <= b && b <= 90 {
            r.push(b + 32);
        } else {
            r.push(b);
        }
        i = i + 1;
    }
    proof {
        assert(r@ =~= lower_bytes(v@));
    }
    r
}

/// `s` without leading and trailing spaces.
pub open spec fn trim_spaces(s: Seq<u8>) -> Seq<u8>
    decreases s.len(),
{
    if s.len() > 0 && s[0] == SPACE {
        trim_spaces(s.drop_first())
    } else if s.len() > 0 && s.last() == SPACE {
        trim_spaces(s.drop_last())
    } else {
        s
    }
}

/// Drop leading and trailing spaces.
pub fn trim_spaces_exec(v: &Vec<u8>) -> (r: Vec<u8>)
    ensures
        r@ == trim_spaces(v@),
{
    let mut a: usize = 0;
    let mut b: usize = v.len();
    proof {
        assert(v@.subrange(0, v@.len() as int) =~= v@);
    }
    while a < b && v[a] == SPACE
        invariant
            0 <= a <= b <= v@.len(),
            b == v@.len(),
            trim_spaces(v@) == trim_spaces(v@.subrange(a as int, b as int)),
        decreases b - a,
    {
        proof {
            assert(v@.subrange(a as int, b as int).drop_first() =~= v@.subrange(a + 1, b as int));
        }
        a = a + 1;
    }
    while a < b && v[b - 1] == SPACE
        invariant
            0 <= a <= b <= v@.len(),
            trim_spaces(v@) == trim_spaces(v@.subrange(a as int, b as int)),
            a < b ==> v@[a as int] != SPACE,
        decreases b,
    {
        proof {
            assert(v@.subrange(a as int, b as int).drop_last() =~= v@.subrange(a as int, b - 1));
        }
        b = b - 1;
    }
    proof {
        let t = v@.subrange(a as int, b as int);
        if t.len() > 0 {
            assert(t[0] != SPACE);
            assert(t.last() != SPACE);
        }
        assert(trim_spaces(t) == t);
    }
    bytes_range(v, a, b)
}

/// The part of `s` before the first occurrence of `b`, or all of `s`.
pub open spec fn strip_from_byte(s: Seq<u8>, b: u8) -> Seq<u8> {
    match find_from(s, b, 0) {
        Some(i) => s.subrange(0, i),
        None => s,
    }
}

pub fn strip_at_byte(v: &Vec<u8>, b: u8) -> (r: Vec<u8>)
    ensures
        r@ == strip_from_byte(v@, b),
{
    match find_byte(v, b, 0) {
        Some(i) => {
            proof {
                lemma_find_from_props(v@, b, 0);
            }
            bytes_range(v, 0, i)
        },
        None => {
            let r = clone_bytes(v);
            r
        },
    }
}

/// Index of the last occurrence of `b` in `s` at or before `i`, if any.
pub open spec fn rfind_from(s: Seq<u8>, b: u8, i: int) -> Option<int>
    decreases i + 1,
{
    if !(0 <= i < s.len()) {
        None
    } else if s[i] == b {
        Some(i)
    } else {
        rfind_from(s, b, i - 1)
    }
}

pub proof fn lemma_rfind_from_props(s: Seq<u8>, b: u8, i: int)
    requires
        i < s.len(),
    ensures
        rfind_from(s, b, i) matches Some(j) ==> 0 <= j <= i && s[j] == b && forall|k: int|
            j < k <= i ==> s[k] != b,
        rfind_from(s, b, i) is None ==> forall|k: int| 0 <= k <= i ==> s[k] != b,
    decreases i + 1,
{
    if 0 <= i && s[i] != b {
        lemma_rfind_from_props(s, b, i - 1);
    }
}

/// Last occurrence of `b` in `v` at or before `i`.
pub fn rfind_byte(v: &Vec<u8>, b: u8, i: usize) -> (r: Option<usize>)
    requires
        i < v@.len(),
    ensures
        match r {
            Some(j) => Some(j as int) == rfind_from(v@, b, i as int),
            None => rfind_from(v@, b, i as int) is None,
        },
{
    let mut k = i;
    loop
        invariant
            0 <= k <= i < v@.len(),
            forall|m: int| k < m <= i ==> v@[m] != b,
            rfind_from(v@, b, i as int) == rfind_from(v@, b, k as int),
        decreases k,
    {
        if v[k] == b {
            return Some(k);
        }
        if k == 0 {
            proof {
                assert(rfind_from(v@, b, -1) is None);
            }
            return None;
        }
        k = k - 1;
    }
}

/// Whether `s[i..i+pat.len()]` equals `pat`.
pub open spec fn matches_at(s: Seq<u8>, pat: Seq<u8>, i: int) -> bool {
    0 <= i && i + pat.len() <= s.len() && s.subrange(i, i + pat.len()) == pat
}

/// First position at or after `i` where `pat` occurs in `s`.
pub open spec fn find_pat_from(s: Seq<u8>, pat: Seq<u8>, i: int) -> Option<int>
    decreases s.len() - i,
{
    if !(0 <= i && i + pat.len() <= s.len()) || pat.len() == 0 {
        None
    } else if matches_at(s, pat, i) {
        Some(i)
    } else {
        find_pat_from(s, pat, i + 1)
    }
}

proof fn lemma_find_pat_from_some(s: Seq<u8>, pat: Seq<u8>, from: int, i: int)
    requires
        0 <= from <= i,
        pat.len() >= 1,
        i + pat.len() <= s.len(),
        matches_at(s, pat, i),
        forall|j: int| from <= j < i ==> !matches_at(s, pat, j),
    ensures
        find_pat_from(s, pat, from) == Some(i),
    decreases i - from,
{
    if from < i {
        lemma_find_pat_from_some(s, pat, from + 1, i);
    }
}

proof fn lemma_find_pat_from_none(s: Seq<u8>, pat: Seq<u8>, from: int)
    requires
        0 <= from,
        forall|j: int| from <= j ==> !matches_at(s, pat, j),
    ensures
        find_pat_from(s, pat, from) is None,
    decreases s.len() - from,
{
    if pat.len() >= 1 && from + pat.len() <= s.len() {
        lemma_find_pat_from_none(s, pat, from + 1);
    }
}

/// Whether `pat` occurs at position `i` of `v`, checked directly.
fn check_match_at(v: &Vec<u8>, pat: &Vec<u8>, i: usize) -> (r: bool)
    requires
        i + pat@.len() <= v@.len(),
    ensures
        r == matches_at(v@, pat@, i as int),
{
    let n = v.len();
    let mut k: usize = 0;
    while k < pat.len()
        invariant
            0 <= k <= pat@.len(),
            n == v@.len(),
            i + pat@.len() <= n,
            forall|m: int| 0 <= m < k ==> v@[i + m] == pat@[m],
        decreases pat@.len() - k,
    {
        if v[i + k] != pat[k] {
            proof {
                assert(v@.subrange(i as int, i + pat@.len())[k as int] != pat@[k as int]);
            }
            return false;
        }
        k = k + 1;
    }
    proof {
        assert(v@.subrange(i as int, i + pat@.len()) =~= pat@);
    }
    true
}

/// First occurrence of `pat` in `v` at or after `from`.
pub fn find_pattern(v: &Vec<u8>, pat: &Vec<u8>, from: usize) -> (r: Option<usize>)
    requires
        pat@.len() >= 1,
    ensures
        match r {
            Some(i) => Some(i as int) == find_pat_from(v@, pat@, from as int),
            None => find_pat_from(v@, pat@, from as int) is None,
        },
{
    if pat.len() > v.len() || from > v.len() - pat.len() {
        proof {
            assert forall|j: int| from as int <= j implies !matches_at(v@, pat@, j) by {
                assert(j + pat@.len() > v@.len());
            }
            lemma_find_pat_from_none(v@, pat@, from as int);
        }
        return None;
    }
    let mut i = from;
    let last = v.len() - pat.len();
    while i <= last
        invariant
            from <= i <= last + 1,
            last < usize::MAX,
            last == v@.len() - pat@.len(),
            pat@.len() >= 1,
            pat@.len() <= v@.len(),
            forall|j: int| from <= j < i ==> !matches_at(v@, pat@, j),
        decreases last + 1 - i,
    {
        if check_match_at(v, pat, i) {
            proof {
                lemma_find_pat_from_some(v@, pat@, from as int, i as int);
            }
            return Some(i);
        }
        i = i + 1;
    }
    proof {
        assert forall|j: int| from as int <= j implies !matches_at(v@, pat@, j) by {
            if j > last {
                assert(j + pat@.len() > v@.len());
            }
        }
        lemma_find_pat_from_none(v@, pat@, from as int);
    }
    None
}

/// What `find_pat_from` finds is an occurrence.
pub proof fn lemma_find_pat_from_props(s: Seq<u8>, pat: Seq<u8>, from: int)
    requires
        0 <= from,
    ensures
        find_pat_from(s, pat, from) matches Some(i) ==> from <= i && i + pat.len() <= s.len()
            && matches_at(s, pat, i),
    decreases s.len() - from,
{
    if 0 <= from && from + pat.len() <= s.len() && pat.len() > 0 && !matches_at(s, pat, from) {
        lemma_find_pat_from_props(s, pat, from + 1);
    }
}

/// Whether `b` is an ASCII decimal digit.
pub open spec fn is_digit(b: u8) -> bool {
    48 <= b <= 57
}

/// All bytes of `s` are digits.
pub open spec fn all_digits(s: Seq<u8>) -> bool {
    forall|i: int| 0 <= i < s.len() ==> is_digit(#[trigger] s[i])
}

/// The number denoted by a digit sequence, most significant first.
pub open spec fn dec_val(s: Seq<u8>) -> int
    decreases s.len(),
{
    if s.len() == 0 {
        0
    } else {
        dec_val(s.drop_last()) * 10 + (s.last() - 48)
    }
}

/// Parse an all-digit byte sequence as a `u64`; `None` on empty input, a
/// non-digit byte, or overflow.
pub fn parse_dec_u64(v: &Vec<u8>) -> (r: Option<u64>)
    ensures
        match r {
            Some(n) => v@.len() > 0 && all_digits(v@) && n == dec_val(v@),
            None => v@.len() == 0 || !all_digits(v@) || dec_val(v@) > u64::MAX,
        },
{
    if v.len() == 0 {
        return None;
    }
    let mut acc: u64 = 0;
    let mut i: usize = 0;
    while i < v.len()
        invariant
            0 <= i <= v@.len(),
            all_digits(v@.subrange(0, i as int)),
            acc == dec_val(v@.subrange(0, i as int)),
        decreases v@.len() - i,
    {
        let b = v[i];
        if !(48 <= b && b <= 57) {
            proof {
                assert(!is_digit(v@[i as int]));
            }
            return None;
        }
        let d = (b - 48) as u64;
        let overflow = if acc > u64::MAX / 10 {
            true
        } else {
            let acc10 = acc * 10;
            acc10 > u64::MAX - d
        };
        if overflow {
            proof {
                let pre = v@.subrange(0, i + 1);
                assert(pre.drop_last() =~= v@.subrange(0, i as int));
                assert(pre.last() == v@[i as int]);
                assert(dec_val(pre) == acc * 10 + d);
                if all_digits(v@) {
                    lemma_dec_val_prefix_le(v@, i + 1);
                    assert(dec_val(v@) > u64::MAX);
                }
            }
            return None;
        }
        acc = acc * 10 + d;
        proof {
            let pre = v@.subrange(0, i + 1);
            assert(pre.drop_last() =~= v@.subrange(0, i as int));
            assert(pre.last() == v@[i as int]);
            assert(all_digits(pre));
        }
        i = i + 1;
    }
    proof {
        assert(v@.subrange(0, v@.len() as int) =~= v@);
    }
    Some(acc)
}

/// Digit values are non-negative.
proof fn lemma_dec_val_nonneg(s: Seq<u8>)
    requires
        all_digits(s),
    ensures
        dec_val(s) >= 0,
    decreases s.len(),
{
    if s.len() > 0 {
        assert(all_digits(s.drop_last())) by {
            assert forall|j: int| 0 <= j < s.drop_last().len() implies is_digit(
                #[trigger] s.drop_last()[j],
            ) by {
                assert(s.drop_last()[j] == s[j]);
            }
        }
        lemma_dec_val_nonneg(s.drop_last());
    }
}

/// A digit prefix denotes no more than the whole digit string.
proof fn lemma_dec_val_prefix_le(s: Seq<u8>, i: int)
    requires
        0 <= i <= s.len(),
        all_digits(s),
    ensures
        dec_val(s.subrange(0, i)) <= dec_val(s),
    decreases s.len(),
{
    if i == s.len() {
        assert(s.subrange(0, i) =~= s);
    } else {
        assert(all_digits(s.drop_last())) by {
            assert forall|j: int| 0 <= j < s.drop_last().len() implies is_digit(
                #[trigger] s.drop_last()[j],
            ) by {
                assert(s.drop_last()[j] == s[j]);
            }
        }
        lemma_dec_val_prefix_le(s.drop_last(), i);
        assert(s.drop_last().subrange(0, i) =~= s.subrange(0, i));
        lemma_dec_val_nonneg(s.drop_last());
        assert(dec_val(s) == dec_val(s.drop_last()) * 10 + (s.last() - 48));
        assert(dec_val(s.drop_last()) * 10 >= dec_val(s.drop_last()));
        assert(s.last() - 48 >= 0);
    }
}

/// The decimal digits of a non-negative number, most significant first.
pub open spec fn dec_of(n: int) -> Seq<u8>
    decreases n,
{
    if n < 10 {
        seq![(48 + if n < 0 {
            0int
        } else {
            n
        }) as u8]
    } else {
        dec_of(n / 10).push((48 + n % 10) as u8)
    }
}

/// Render a status-sized number in decimal.
pub fn u16_to_dec(n: u16) -> (r: Vec<u8>)
    ensures
        r@ == dec_of(n as int),
    decreases n,
{
    if n < 10 {
        let mut r: Vec<u8> = Vec::new();
        r.push(48 + (n as u8));
        proof {
            assert(r@ =~= dec_of(n as int));
        }
        r
    } else {
        let mut r = u16_to_dec(n / 10);
        r.push(48 + ((n % 10) as u8));
        r
    }
}

/// Views of a list of byte vectors.
pub open spec fn vecs_view(l: Seq<Vec<u8>>) -> Seq<Seq<u8>> {
    l.map_values(|v: Vec<u8>| v@)
}

/// Whether a list of byte strings contains `v` verbatim.
pub open spec fn list_contains(list: Seq<Seq<u8>>, v: Seq<u8>) -> bool {
    exists|i: int| 0 <= i < list.len() && list[i] == v
}

pub fn vec_list_contains(list: &Vec<Vec<u8>>, v: &Vec<u8>) -> (r: bool)
    ensures
        r == list_contains(vecs_view(list@), v@),
{
    let mut i: usize = 0;
    while i < list.len()
        invariant
            0 <= i <= list@.len(),
            forall|j: int| 0 <= j < i ==> vecs_view(list@)[j] != v@,
        decreases list@.len() - i,
    {
        let hit = &list[i] == v;
        proof {
            assert(vecs_view(list@)[i as int] == list@[i as int]@);
            if hit {
                assert(list@[i as int]@ =~= v@);
            }
        }
        if hit {
            return true;
        }
        i = i + 1;
    }
    false
}

} // verus!
