//! Cache-use policy: whether a fetch may trust what is already cached.
//!
//! `CacheSetting` is a pure input to every fetch.  The `ReloadSome` matching
//! works on the identity text: the identity with its fragment removed, the
//! identity with its query also removed, and every path-prefix truncation of
//! the latter are compared verbatim against the listed entries.

use vstd::prelude::*;
use vstd::string::StringSliceAdditionalSpecFns;

use crate::bytestr::{all_digits, bytes_eq, bytes_range, clone_bytes, dec_val, find_pat_from,
    find_pattern, is_digit, list_contains, parse_dec_u64, rfind_byte, rfind_from, str_to_bytes,
    strip_from_byte, strip_at_byte, vec_list_contains, vecs_view, COLON, COMMA, NUMBER_SIGN,
    QUESTION_MARK, SLASH, SPACE};
use crate::headers::Headers;

verus! {

/// Abstract value of a `CacheSetting`.
pub enum CacheSettingView {
    Use,
    Only,
    ReloadAll,
    ReloadSome(Seq<Seq<u8>>),
    RespectHeaders,
}

/// Cache policy for a fetch: trust the cache, require it, bypass it wholly
/// or for listed prefixes, or follow header-derived freshness.
pub enum CacheSetting {
    Use,
    Only,
    ReloadAll,
    ReloadSome(Vec<Vec<u8>>),
    RespectHeaders,
}

impl View for CacheSetting {
    type V = CacheSettingView;

    open spec fn view(&self) -> CacheSettingView {
        match self {
            CacheSetting::Use => CacheSettingView::Use,
            CacheSetting::Only => CacheSettingView::Only,
            CacheSetting::ReloadAll => CacheSettingView::ReloadAll,
            CacheSetting::ReloadSome(l) => CacheSettingView::ReloadSome(vecs_view(l@)),
            CacheSetting::RespectHeaders => CacheSettingView::RespectHeaders,
        }
    }
}

impl Clone for CacheSetting {
    fn clone(&self) -> (r: Self)
        ensures
            r@ == self@,
    {
        match self {
            CacheSetting::Use => CacheSetting::Use,
            CacheSetting::Only => CacheSetting::Only,
            CacheSetting::ReloadAll => CacheSetting::ReloadAll,
            CacheSetting::ReloadSome(l) => {
                let mut out: Vec<Vec<u8>> = Vec::new();
                let mut i: usize = 0;
                while i < l.len()
                    invariant
                        0 <= i <= l@.len(),
                        out@.len() == i,
                        forall|j: int| 0 <= j < i ==> (#[trigger] out@[j])@ == l@[j]@,
                    decreases l@.len() - i,
                {
                    out.push(clone_bytes(&l[i]));
                    i = i + 1;
                }
                proof {
                    assert(vecs_view(out@) =~= vecs_view(l@));
                }
                CacheSetting::ReloadSome(out)
            },
            CacheSetting::RespectHeaders => CacheSetting::RespectHeaders,
        }
    }
}

/// `s` without its trailing run of slashes.
pub open spec fn strip_trailing_slashes(s: Seq<u8>) -> Seq<u8>
    decreases s.len(),
{
    if s.len() > 0 && s.last() == SLASH {
        strip_trailing_slashes(s.drop_last())
    } else {
        s
    }
}

/// Start of the run of consecutive slashes that ends at `j`.
pub open spec fn slash_run_start(s: Seq<u8>, j: int) -> int
    decreases j,
{
    if 0 < j <= s.len() && s[j - 1] == SLASH {
        slash_run_start(s, j - 1)
    } else {
        j
    }
}

/// One path-prefix truncation: drop the last segment together with the
/// separators before it; `None` once nothing is left to drop.
pub open spec fn pop_path(s: Seq<u8>) -> Option<Seq<u8>> {
    let t = strip_trailing_slashes(s);
    if t.len() == 0 {
        None
    } else {
        match rfind_from(t, SLASH, t.len() - 1) {
            Some(j) => Some(t.subrange(0, slash_run_start(t, j + 1))),
            None => Some(Seq::empty()),
        }
    }
}

proof fn lemma_strip_trailing_len(s: Seq<u8>)
    ensures
        strip_trailing_slashes(s).len() <= s.len(),
    decreases s.len(),
{
    if s.len() > 0 && s.last() == SLASH {
        lemma_strip_trailing_len(s.drop_last());
    }
}

proof fn lemma_slash_run_start_bounds(s: Seq<u8>, j: int)
    requires
        0 <= j,
    ensures
        0 <= slash_run_start(s, j) <= j,
    decreases j,
{
    if 0 < j <= s.len() && s[j - 1] == SLASH {
        lemma_slash_run_start_bounds(s, j - 1);
    }
}

/// Popping strictly shrinks the text.
pub proof fn lemma_pop_path_len(s: Seq<u8>)
    ensures
        pop_path(s) matches Some(t) ==> t.len() < s.len(),
{
    lemma_strip_trailing_len(s);
    let t = strip_trailing_slashes(s);
    if t.len() > 0 {
        crate::bytestr::lemma_rfind_from_props(t, SLASH, t.len() - 1);
        match rfind_from(t, SLASH, t.len() - 1) {
            Some(j) => {
                assert(t[j] == SLASH);
                assert(slash_run_start(t, j + 1) == slash_run_start(t, j));
                lemma_slash_run_start_bounds(t, j);
            },
            None => {},
        }
    }
}

/// Whether the text or any of its path-prefix truncations occurs verbatim
/// in the list.
pub open spec fn reload_hit(list: Seq<Seq<u8>>, s: Seq<u8>) -> bool
    decreases s.len(),
    when true
    via reload_hit_decreases
{
    list_contains(list, s) || match pop_path(s) {
        Some(t) => reload_hit(list, t),
        None => false,
    }
}

#[via_fn]
proof fn reload_hit_decreases(list: Seq<Seq<u8>>, s: Seq<u8>) {
    lemma_pop_path_len(s);
}

/// Under `ReloadSome(list)`, the cache is used for this identity text
/// unless the fragment-stripped text, the query-stripped text or one of its
/// path prefixes is listed.
pub open spec fn reload_uses_cache(list: Seq<Seq<u8>>, text: Seq<u8>) -> bool {
    let nofrag = strip_from_byte(text, NUMBER_SIGN);
    !(list_contains(list, nofrag) || reload_hit(list, strip_from_byte(nofrag, QUESTION_MARK)))
}

fn strip_trailing_slashes_exec(v: &Vec<u8>) -> (r: Vec<u8>)
    ensures
        r@ == strip_trailing_slashes(v@),
{
    let mut cut = v.len();
    proof {
        assert(v@.subrange(0, v@.len() as int) =~= v@);
    }
    while cut > 0 && v[cut - 1] == SLASH
        invariant
            0 <= cut <= v@.len(),
            strip_trailing_slashes(v@) == strip_trailing_slashes(v@.subrange(0, cut as int)),
        decreases cut,
    {
        proof {
            assert(v@.subrange(0, cut as int).drop_last() =~= v@.subrange(0, cut - 1));
        }
        cut = cut - 1;
    }
    proof {
        let t = v@.subrange(0, cut as int);
        if cut > 0 {
            assert(t.last() != SLASH);
        }
        assert(strip_trailing_slashes(t) == t);
    }
    bytes_range(v, 0, cut)
}

/// One path-prefix truncation of `v`.
pub fn pop_path_exec(v: &Vec<u8>) -> (r: Option<Vec<u8>>)
    ensures
        match r {
            Some(t) => pop_path(v@) matches Some(u) && u == t@,
            None => pop_path(v@) is None,
        },
{
    let t = strip_trailing_slashes_exec(v);
    if t.len() == 0 {
        return None;
    }
    match rfind_byte(&t, SLASH, t.len() - 1) {
        Some(j) => {
            proof {
                crate::bytestr::lemma_rfind_from_props(t@, SLASH, t@.len() - 1);
            }
            let mut k = j + 1;
            while k > 0 && t[k - 1] == SLASH
                invariant
                    0 <= k <= j + 1,
                    j < t@.len(),
                    slash_run_start(t@, j + 1) == slash_run_start(t@, k as int),
                decreases k,
            {
                k = k - 1;
            }
            proof {
                assert(slash_run_start(t@, k as int) == k as int);
            }
            Some(bytes_range(&t, 0, k))
        },
        None => {
            let r: Vec<u8> = Vec::new();
            proof {
                assert(r@ =~= Seq::<u8>::empty());
            }
            Some(r)
        },
    }
}

/// Whether the text or any of its path-prefix truncations is listed.
pub fn reload_hit_exec(list: &Vec<Vec<u8>>, s: Vec<u8>) -> (r: bool)
    ensures
        r == reload_hit(vecs_view(list@), s@),
{
    let mut cur = s;
    loop
        invariant
            reload_hit(vecs_view(list@), s@) == reload_hit(vecs_view(list@), cur@),
        decreases cur@.len(),
    {
        if vec_list_contains(list, &cur) {
            return true;
        }
        proof {
            lemma_pop_path_len(cur@);
        }
        match pop_path_exec(&cur) {
            Some(t) => {
                cur = t;
            },
            None => {
                return false;
            },
        }
    }
}

/// The `ReloadSome` decision on an identity text.
pub fn reload_uses_cache_exec(list: &Vec<Vec<u8>>, text: &Vec<u8>) -> (r: bool)
    ensures
        r == reload_uses_cache(vecs_view(list@), text@),
{
    let nofrag = strip_at_byte(text, NUMBER_SIGN);
    if vec_list_contains(list, &nofrag) {
        return false;
    }
    let noquery = strip_at_byte(&nofrag, QUESTION_MARK);
    !reload_hit_exec(list, noquery)
}

/// End of the run of decimal digits starting at `i`.
pub open spec fn digit_run_end(s: Seq<u8>, i: int) -> int
    decreases s.len() - i,
{
    if 0 <= i < s.len() && is_digit(s[i]) {
        digit_run_end(s, i + 1)
    } else {
        i
    }
}

proof fn lemma_digit_run_props(s: Seq<u8>, i: int)
    requires
        0 <= i,
    ensures
        i <= digit_run_end(s, i),
        i <= s.len() ==> digit_run_end(s, i) <= s.len(),
        forall|k: int| i <= k < digit_run_end(s, i) ==> is_digit(#[trigger] s[k]),
    decreases s.len() - i,
{
    if 0 <= i < s.len() && is_digit(s[i]) {
        lemma_digit_run_props(s, i + 1);
    }
}

/// The `max-age` directive of a cache-control value: the digits after the
/// first `max-age=`, where present, non-empty and in range.
pub open spec fn max_age_of(value: Seq<u8>) -> Option<int> {
    match find_pat_from(value, ("max-age=").spec_bytes(), 0) {
        Some(i) => {
            let start = i + ("max-age=").spec_bytes().len();
            let end = digit_run_end(value, start);
            let ds = value.subrange(start, end);
            if ds.len() > 0 && dec_val(ds) <= u64::MAX {
                Some(dec_val(ds))
            } else {
                None
            }
        },
        None => None,
    }
}

/// Parse the `max-age` directive out of a cache-control value.
pub fn parse_max_age(value: &Vec<u8>) -> (r: Option<u64>)
    ensures
        match r {
            Some(n) => max_age_of(value@) == Some(n as int),
            None => max_age_of(value@) is None,
        },
{
    let pat = str_to_bytes("max-age=");
    if pat.len() == 0 {
        return None;
    }
    let n = value.len();
    match find_pattern(value, &pat, 0) {
        Some(i) => {
            proof {
                crate::bytestr::lemma_find_pat_from_props(value@, pat@, 0);
                assert(i + pat@.len() <= n as int);
            }
            let start = i + pat.len();
            let mut end = start;
            while end < value.len() && 48 <= value[end] && value[end] <= 57
                invariant
                    start <= end <= value@.len(),
                    digit_run_end(value@, start as int) == digit_run_end(value@, end as int),
                decreases value@.len() - end,
            {
                end = end + 1;
            }
            proof {
                assert(digit_run_end(value@, end as int) == end as int);
            }
            let ds = bytes_range(value, start, end);
            match parse_dec_u64(&ds) {
                Some(k) => Some(k),
                None => {
                    proof {
                        if ds@.len() > 0 && !crate::bytestr::all_digits(ds@) {
                            let bad = choose|m: int|
                                0 <= m < ds@.len() && !is_digit(#[trigger] ds@[m]);
                            lemma_digit_run_props(value@, start as int);
                            assert(ds@[bad] == value@[start + bad]);
                            assert(is_digit(value@[start + bad]));
                        }
                    }
                    None
                },
            }
        },
        None => None,
    }
}

/// Header-derived freshness: a cached response is fresh while its age is
/// below its `max-age`; without one, while the current time is before its
/// `expires` date; entries with neither are stale.
pub open spec fn freshness_of(h: Map<Seq<u8>, Seq<u8>>, time: int, now: int) -> bool {
    if h.contains_key(("cache-control").spec_bytes()) && max_age_of(
        h[("cache-control").spec_bytes()],
    ) is Some {
        now - time < max_age_of(h[("cache-control").spec_bytes()])->Some_0
    } else if h.contains_key(("expires").spec_bytes()) && http_date_of(
        h[("expires").spec_bytes()],
    ) is Some {
        now < http_date_of(h[("expires").spec_bytes()])->Some_0
    } else {
        false
    }
}

/// Evaluate freshness of cached metadata against the current time.
pub fn is_fresh(headers: &Headers, time: u64, now: u64) -> (r: bool)
    requires
        headers.wf(),
    ensures
        r == freshness_of(headers@, time as int, now as int),
{
    let name = str_to_bytes("cache-control");
    let max_age = match headers.get(&name) {
        Some(value) => {
            let v = clone_bytes(value);
            parse_max_age(&v)
        },
        None => None,
    };
    if let Some(n) = max_age {
        return if now >= time {
            now - time < n
        } else {
            true
        };
    }
    let expires_name = str_to_bytes("expires");
    match headers.get(&expires_name) {
        Some(value) => {
            let v = clone_bytes(value);
            match parse_http_date(&v) {
                Some(t) => now < t,
                None => false,
            }
        },
        None => false,
    }
}

} // verus!

verus! {

/// A leap year in the Gregorian calendar.
pub open spec fn is_leap_year(y: int) -> bool {
    (y % 4 == 0 && y % 100 != 0) || y % 400 == 0
}

/// Days before the first of the month, within one year.
pub open spec fn days_before_month(m: int, leap: bool) -> int {
    let base = if m == 1 {
        0int
    } else if m == 2 {
        31
    } else if m == 3 {
        59
    } else if m == 4 {
        90
    } else if m == 5 {
        120
    } else if m == 6 {
        151
    } else if m == 7 {
        181
    } else if m == 8 {
        212
    } else if m == 9 {
        243
    } else if m == 10 {
        273
    } else if m == 11 {
        304
    } else {
        334
    };
    base + if m > 2 && leap {
        1int
    } else {
        0int
    }
}

/// Days from the first day of year one to the given civil date.
pub open spec fn day_number(y: int, m: int, d: int) -> int {
    365 * (y - 1) + (y - 1) / 4 - (y - 1) / 100 + (y - 1) / 400 + days_before_month(
        m,
        is_leap_year(y),
    ) + (d - 1)
}

/// Days from year one up to the start of the epoch year.
pub const EPOCH_DAY_NUMBER: u64 = 719162;

/// The month a three-letter name denotes.
pub open spec fn month_of(m: Seq<u8>) -> Option<int> {
    if m == ("Jan").spec_bytes() {
        Some(1int)
    } else if m == ("Feb").spec_bytes() {
        Some(2int)
    } else if m == ("Mar").spec_bytes() {
        Some(3int)
    } else if m == ("Apr").spec_bytes() {
        Some(4int)
    } else if m == ("May").spec_bytes() {
        Some(5int)
    } else if m == ("Jun").spec_bytes() {
        Some(6int)
    } else if m == ("Jul").spec_bytes() {
        Some(7int)
    } else if m == ("Aug").spec_bytes() {
        Some(8int)
    } else if m == ("Sep").spec_bytes() {
        Some(9int)
    } else if m == ("Oct").spec_bytes() {
        Some(10int)
    } else if m == ("Nov").spec_bytes() {
        Some(11int)
    } else if m == ("Dec").spec_bytes() {
        Some(12int)
    } else {
        None
    }
}

/// The epoch seconds a fixed-layout HTTP date denotes: day name, `, `,
/// two-digit day, month name, four-digit year, `HH:MM:SS` and ` GMT`, with
/// the date no earlier than the epoch.  The three leading day-name bytes
/// are not themselves checked.
pub open spec fn http_date_of(s: Seq<u8>) -> Option<int> {
    if s.len() != 29 {
        None
    } else if !(s[3] == COMMA && s[4] == SPACE && s[7] == SPACE && s[11] == SPACE && s[16] == SPACE
        && s[19] == COLON && s[22] == COLON && s[25] == SPACE && s[26] == 71 && s[27] == 77 && s[28]
        == 84) {
        // The literal tail is ` GMT`.
        None
    } else if !(all_digits(s.subrange(5, 7)) && all_digits(s.subrange(12, 16)) && all_digits(
        s.subrange(17, 19),
    ) && all_digits(s.subrange(20, 22)) && all_digits(s.subrange(23, 25))) {
        None
    } else {
        let d = dec_val(s.subrange(5, 7));
        let y = dec_val(s.subrange(12, 16));
        let hh = dec_val(s.subrange(17, 19));
        let mm = dec_val(s.subrange(20, 22));
        let ss = dec_val(s.subrange(23, 25));
        match month_of(s.subrange(8, 11)) {
            Some(m) => {
                if 1 <= d <= 31 && 1970 <= y && hh <= 23 && mm <= 59 && ss <= 59 {
                    let dn = day_number(y, m, d);
                    if dn < EPOCH_DAY_NUMBER {
                        None
                    } else {
                        Some((dn - EPOCH_DAY_NUMBER) * 86400 + hh * 3600 + mm * 60 + ss)
                    }
                } else {
                    None
                }
            },
            None => None,
        }
    }
}

fn month_number(m: &Vec<u8>) -> (r: Option<u64>)
    ensures
        match r {
            Some(n) => month_of(m@) == Some(n as int),
            None => month_of(m@) is None,
        },
{
    if bytes_eq(m, &str_to_bytes("Jan")) {
        Some(1)
    } else if bytes_eq(m, &str_to_bytes("Feb")) {
        Some(2)
    } else if bytes_eq(m, &str_to_bytes("Mar")) {
        Some(3)
    } else if bytes_eq(m, &str_to_bytes("Apr")) {
        Some(4)
    } else if bytes_eq(m, &str_to_bytes("May")) {
        Some(5)
    } else if bytes_eq(m, &str_to_bytes("Jun")) {
        Some(6)
    } else if bytes_eq(m, &str_to_bytes("Jul")) {
        Some(7)
    } else if bytes_eq(m, &str_to_bytes("Aug")) {
        Some(8)
    } else if bytes_eq(m, &str_to_bytes("Sep")) {
        Some(9)
    } else if bytes_eq(m, &str_to_bytes("Oct")) {
        Some(10)
    } else if bytes_eq(m, &str_to_bytes("Nov")) {
        Some(11)
    } else if bytes_eq(m, &str_to_bytes("Dec")) {
        Some(12)
    } else {
        None
    }
}

/// Parse a fixed-layout HTTP date into epoch seconds.
#[verifier::rlimit(60)]
pub fn parse_http_date(v: &Vec<u8>) -> (r: Option<u64>)
    ensures
        match r {
            Some(t) => http_date_of(v@) == Some(t as int),
            None => http_date_of(v@) is None,
        },
{
    if v.len() != 29 {
        return None;
    }
    if !(v[3] == COMMA && v[4] == SPACE && v[7] == SPACE && v[11] == SPACE && v[16] == SPACE && v[19]
        == COLON && v[22] == COLON && v[25] == SPACE && v[26] == 71 && v[27] == 77 && v[28] == 84) {
        return None;
    }
    let day_b = bytes_range(v, 5, 7);
    let year_b = bytes_range(v, 12, 16);
    let hh_b = bytes_range(v, 17, 19);
    let mm_b = bytes_range(v, 20, 22);
    let ss_b = bytes_range(v, 23, 25);
    let d = match parse_dec_u64(&day_b) {
        Some(d) => d,
        None => {
            proof {
                if all_digits(v@.subrange(5, 7)) {
                    lemma_digits_bound(v@.subrange(5, 7));
                }
            }
            return None;
        },
    };
    let y = match parse_dec_u64(&year_b) {
        Some(y) => y,
        None => {
            proof {
                if all_digits(v@.subrange(12, 16)) {
                    lemma_digits_bound(v@.subrange(12, 16));
                }
            }
            return None;
        },
    };
    let hh = match parse_dec_u64(&hh_b) {
        Some(x) => x,
        None => {
            proof {
                if all_digits(v@.subrange(17, 19)) {
                    lemma_digits_bound(v@.subrange(17, 19));
                }
            }
            return None;
        },
    };
    let mm = match parse_dec_u64(&mm_b) {
        Some(x) => x,
        None => {
            proof {
                if all_digits(v@.subrange(20, 22)) {
                    lemma_digits_bound(v@.subrange(20, 22));
                }
            }
            return None;
        },
    };
    let ss = match parse_dec_u64(&ss_b) {
        Some(x) => x,
        None => {
            proof {
                if all_digits(v@.subrange(23, 25)) {
                    lemma_digits_bound(v@.subrange(23, 25));
                }
            }
            return None;
        },
    };
    let month_b = bytes_range(v, 8, 11);
    let m = match month_number(&month_b) {
        Some(m) => m,
        None => {
            return None;
        },
    };
    if !(1 <= d && d <= 31 && 1970 <= y && hh <= 23 && mm <= 59 && ss <= 59) {
        return None;
    }
    proof {
        lemma_two_digits_small(v@.subrange(5, 7));
        lemma_two_digits_small(v@.subrange(17, 19));
        lemma_two_digits_small(v@.subrange(20, 22));
        lemma_four_digits_small(v@.subrange(12, 16));
    }
    let leap = (y % 4 == 0 && y % 100 != 0) || y % 400 == 0;
    let before = if m == 1 {
        0u64
    } else if m == 2 {
        31
    } else if m == 3 {
        59
    } else if m == 4 {
        90
    } else if m == 5 {
        120
    } else if m == 6 {
        151
    } else if m == 7 {
        181
    } else if m == 8 {
        212
    } else if m == 9 {
        243
    } else if m == 10 {
        273
    } else if m == 11 {
        304
    } else {
        334
    };
    let before = before + if m > 2 && leap {
        1u64
    } else {
        0u64
    };
    let dn = 365 * (y - 1) + (y - 1) / 4 - (y - 1) / 100 + (y - 1) / 400 + before + (d - 1);
    if dn < EPOCH_DAY_NUMBER {
        return None;
    }
    Some((dn - EPOCH_DAY_NUMBER) * 86400 + hh * 3600 + mm * 60 + ss)
}

/// A digit string of bounded length denotes a bounded number: each digit
/// multiplies the prefix by ten and adds at most nine.
proof fn lemma_digits_bound(s: Seq<u8>)
    requires
        all_digits(s),
        s.len() <= 4,
    ensures
        0 <= dec_val(s),
        s.len() <= 1 ==> dec_val(s) <= 9,
        s.len() <= 2 ==> dec_val(s) <= 99,
        s.len() <= 3 ==> dec_val(s) <= 999,
        s.len() <= 4 ==> dec_val(s) <= 9999,
    decreases s.len(),
{
    if s.len() == 0 {
    } else {
        let s1 = s.drop_last();
        assert(all_digits(s1)) by {
            assert forall|j: int| 0 <= j < s1.len() implies is_digit(#[trigger] s1[j]) by {
                assert(s1[j] == s[j]);
            }
        }
        lemma_digits_bound(s1);
        assert(is_digit(s[s.len() - 1]));
    }
}

proof fn lemma_two_digits_small(s: Seq<u8>)
    requires
        s.len() == 2,
        all_digits(s),
    ensures
        0 <= dec_val(s) <= 99,
{
    lemma_digits_bound(s);
}

proof fn lemma_four_digits_small(s: Seq<u8>)
    requires
        s.len() == 4,
        all_digits(s),
    ensures
        0 <= dec_val(s) <= 9999,
{
    lemma_digits_bound(s);
}

} // verus!
