//! Auth tokens: host to credential, seeded once from a delimited string.
//!
//! The input is a list of `host=credential` pairs separated by `;` or `,`.
//! Lookup is by exact match on the identity's `host[:port]`; the first
//! matching entry wins.

use vstd::prelude::*;
use vstd::string::StringSliceAdditionalSpecFns;

use crate::bytestr::{bytes_eq, bytes_range, clone_bytes, find_byte, find_from, find_pat_from,
    find_pattern, rfind_byte, rfind_from, str_to_bytes, COMMA, SEMICOLON, SLASH};
use crate::ident::Identity;

verus! {

/// ASCII `@`, ending the user-information part of an authority.
pub const AT_SIGN: u8 = 64;

/// ASCII `=`, separating host from credential.
pub const EQUALS_SIGN: u8 = 61;

/// First `;` or `,` at or after `i`.
pub open spec fn sep_from(s: Seq<u8>, i: int) -> Option<int>
    decreases s.len() - i,
{
    if !(0 <= i < s.len()) {
        None
    } else if s[i] == SEMICOLON || s[i] == COMMA {
        Some(i)
    } else {
        sep_from(s, i + 1)
    }
}

proof fn lemma_sep_from_props(s: Seq<u8>, i: int)
    requires
        0 <= i,
    ensures
        sep_from(s, i) matches Some(e) ==> i <= e < s.len() && (s[e] == SEMICOLON || s[e] == COMMA)
            && forall|j: int| i <= j < e ==> s[j] != SEMICOLON && s[j] != COMMA,
        sep_from(s, i) is None ==> forall|j: int|
            i <= j < s.len() ==> s[j] != SEMICOLON && s[j] != COMMA,
    decreases s.len() - i,
{
    if 0 <= i < s.len() && !(s[i] == SEMICOLON || s[i] == COMMA) {
        lemma_sep_from_props(s, i + 1);
    }
}

/// The entry one `host=credential` part denotes: nothing when host or
/// credential is empty or there is no `=`.
pub open spec fn entry_of(part: Seq<u8>) -> Seq<(Seq<u8>, Seq<u8>)> {
    match find_from(part, EQUALS_SIGN, 0) {
        Some(e) => if 0 < e && e + 1 < part.len() {
            seq![(part.subrange(0, e), part.subrange(e + 1, part.len() as int))]
        } else {
            Seq::empty()
        },
        None => Seq::empty(),
    }
}

/// The entries of the delimited tail of `s` starting at `i`.
pub open spec fn tokens_from(s: Seq<u8>, i: int) -> Seq<(Seq<u8>, Seq<u8>)>
    decreases s.len() - i,
    when true
    via tokens_from_decreases
{
    if !(0 <= i <= s.len()) {
        Seq::empty()
    } else {
        match sep_from(s, i) {
            Some(e) => entry_of(s.subrange(i, e)) + tokens_from(s, e + 1),
            None => entry_of(s.subrange(i, s.len() as int)),
        }
    }
}

#[via_fn]
proof fn tokens_from_decreases(s: Seq<u8>, i: int) {
    if 0 <= i <= s.len() {
        lemma_sep_from_props(s, i);
    }
}

/// All entries of a delimited token string.
pub open spec fn tokens_of(s: Seq<u8>) -> Seq<(Seq<u8>, Seq<u8>)> {
    tokens_from(s, 0)
}

/// The `host[:port]` of serialized URL text: between `://` and the next
/// slash, with any user-information part removed; empty when the URL has no
/// authority.
pub open spec fn host_of(text: Seq<u8>) -> Seq<u8> {
    match find_pat_from(text, ("://").spec_bytes(), 0) {
        Some(i) => {
            let start = i + ("://").spec_bytes().len();
            let end = match find_from(text, SLASH, start) {
                Some(e) => e,
                None => text.len() as int,
            };
            let auth = text.subrange(start, end);
            match rfind_from(auth, AT_SIGN, auth.len() - 1) {
                Some(a) => auth.subrange(a + 1, auth.len() as int),
                None => auth,
            }
        },
        None => Seq::empty(),
    }
}

/// Extract the `host[:port]` part of serialized URL text.
pub fn host_of_exec(text: &Vec<u8>) -> (r: Vec<u8>)
    ensures
        r@ == host_of(text@),
{
    let pat = str_to_bytes("://");
    if pat.len() == 0 {
        let r: Vec<u8> = Vec::new();
        proof {
            assert(r@ =~= Seq::<u8>::empty());
        }
        return r;
    }
    let n = text.len();
    match find_pattern(text, &pat, 0) {
        Some(i) => {
            proof {
                crate::bytestr::lemma_find_pat_from_props(text@, pat@, 0);
            }
            let start = i + pat.len();
            let end = match find_byte(text, SLASH, start) {
                Some(e) => {
                    proof {
                        crate::bytestr::lemma_find_from_props(text@, SLASH, start as int);
                    }
                    e
                },
                None => n,
            };
            let auth = bytes_range(text, start, end);
            if auth.len() == 0 {
                return auth;
            }
            match rfind_byte(&auth, AT_SIGN, auth.len() - 1) {
                Some(a) => {
                    proof {
                        crate::bytestr::lemma_rfind_from_props(auth@, AT_SIGN, auth@.len() - 1);
                    }
                    bytes_range(&auth, a + 1, auth.len())
                },
                None => auth,
            }
        },
        None => {
            let r: Vec<u8> = Vec::new();
            proof {
                assert(r@ =~= Seq::<u8>::empty());
            }
            r
        },
    }
}

/// One host's credential.
pub struct AuthToken {
    pub host: Vec<u8>,
    pub token: Vec<u8>,
}

impl View for AuthToken {
    type V = (Seq<u8>, Seq<u8>);

    open spec fn view(&self) -> (Seq<u8>, Seq<u8>) {
        (self.host@, self.token@)
    }
}

/// Views of a token list.
pub open spec fn tokens_view(l: Seq<AuthToken>) -> Seq<(Seq<u8>, Seq<u8>)> {
    l.map_values(|t: AuthToken| t@)
}

/// The first credential recorded for `host`.
pub open spec fn first_token_for(toks: Seq<(Seq<u8>, Seq<u8>)>, host: Seq<u8>) -> Option<Seq<u8>>
    decreases toks.len(),
{
    if toks.len() == 0 {
        None
    } else if toks[0].0 == host {
        Some(toks[0].1)
    } else {
        first_token_for(toks.drop_first(), host)
    }
}

/// The token store, seeded once at startup.
pub struct AuthTokens {
    tokens: Vec<AuthToken>,
}

impl View for AuthTokens {
    type V = Seq<(Seq<u8>, Seq<u8>)>;

    closed spec fn view(&self) -> Seq<(Seq<u8>, Seq<u8>)> {
        tokens_view(self.tokens@)
    }
}

impl AuthTokens {
    /// Parse a delimited `host=credential` list; `None` seeds an empty
    /// store.
    #[verifier::loop_isolation(false)]
    pub fn new(env: Option<&Vec<u8>>) -> (r: AuthTokens)
        ensures
            env matches Some(s) ==> r@ == tokens_of(s@),
            env is None ==> r@ == Seq::<(Seq<u8>, Seq<u8>)>::empty(),
    {
        let mut tokens: Vec<AuthToken> = Vec::new();
        let s = match env {
            Some(s) => s,
            None => {
                proof {
                    assert(tokens_view(tokens@) =~= Seq::<(Seq<u8>, Seq<u8>)>::empty());
                }
                return AuthTokens { tokens };
            },
        };
        let n = s.len();
        let mut i: usize = 0;
        loop
            invariant
                0 <= i <= n,
                n == s@.len(),
                tokens_of(s@) == tokens_view(tokens@) + tokens_from(s@, i as int),
            decreases n - i,
        {
            proof {
                lemma_sep_from_props(s@, i as int);
            }
            let end = match find_sep(s, i) {
                Some(e) => e,
                None => n,
            };
            let part = bytes_range(s, i, end);
            let ghost pre = tokens_view(tokens@);
            match find_byte(&part, EQUALS_SIGN, 0) {
                Some(e) => {
                    proof {
                        crate::bytestr::lemma_find_from_props(part@, EQUALS_SIGN, 0);
                    }
                    if 0 < e && e + 1 < part.len() {
                        let host = bytes_range(&part, 0, e);
                        let token = bytes_range(&part, e + 1, part.len());
                        tokens.push(AuthToken { host, token });
                        proof {
                            assert(tokens_view(tokens@) =~= pre + entry_of(part@));
                        }
                    } else {
                        proof {
                            assert(tokens_view(tokens@) =~= pre + entry_of(part@));
                        }
                    }
                },
                None => {
                    proof {
                        assert(tokens_view(tokens@) =~= pre + entry_of(part@));
                    }
                },
            }
            if end < n {
                i = end + 1;
            } else {
                proof {
                    assert(sep_from(s@, i as int) is None);
                    assert(part@ == s@.subrange(i as int, s@.len() as int));
                    assert(tokens_from(s@, i as int) == entry_of(part@));
                    assert(tokens_of(s@) =~= tokens_view(tokens@));
                }
                let r = AuthTokens { tokens };
                proof {
                    assert(r@ == tokens_of(s@));
                }
                return r;
            }
        }
    }

    /// The credential for the identity's host, if one was seeded.
    pub fn get(&self, specifier: &Identity) -> (r: Option<Vec<u8>>)
        ensures
            match r {
                Some(t) => first_token_for(self@, host_of(specifier@)) == Some(t@),
                None => first_token_for(self@, host_of(specifier@)) is None,
            },
    {
        let host = host_of_exec(specifier.text());
        proof {
            assert(tokens_view(self.tokens@).skip(0) =~= tokens_view(self.tokens@));
        }
        let mut i: usize = 0;
        while i < self.tokens.len()
            invariant
                0 <= i <= self.tokens@.len(),
                host@ == host_of(specifier@),
                first_token_for(self@, host@) == first_token_for(
                    tokens_view(self.tokens@).skip(i as int),
                    host@,
                ),
            decreases self.tokens@.len() - i,
        {
            proof {
                assert(tokens_view(self.tokens@).skip(i as int)[0] == self.tokens@[i as int]@);
            }
            if bytes_eq(&self.tokens[i].host, &host) {
                return Some(clone_bytes(&self.tokens[i].token));
            }
            proof {
                assert(tokens_view(self.tokens@).skip(i as int).drop_first() =~= tokens_view(
                    self.tokens@,
                ).skip(i + 1));
            }
            i = i + 1;
        }
        proof {
            assert(tokens_view(self.tokens@).skip(i as int).len() == 0);
        }
        None
    }
}

/// The Authorization value a credential produces.
pub open spec fn bearer_of(token: Seq<u8>) -> Seq<u8> {
    ("Bearer ").spec_bytes() + token
}

/// Build the Authorization value for a credential.
pub fn bearer_value(token: &Vec<u8>) -> (r: Vec<u8>)
    ensures
        r@ == bearer_of(token@),
{
    let mut r = str_to_bytes("Bearer ");
    let mut i: usize = 0;
    while i < token.len()
        invariant
            0 <= i <= token@.len(),
            r@ == ("Bearer ").spec_bytes() + token@.subrange(0, i as int),
        decreases token@.len() - i,
    {
        r.push(token[i]);
        proof {
            assert(r@ =~= ("Bearer ").spec_bytes() + token@.subrange(0, i + 1));
        }
        i = i + 1;
    }
    proof {
        assert(token@.subrange(0, token@.len() as int) =~= token@);
    }
    r
}

/// First `;` or `,` in `v` at or after `from`.
fn find_sep(v: &Vec<u8>, from: usize) -> (r: Option<usize>)
    requires
        from <= v@.len(),
    ensures
        match r {
            Some(e) => Some(e as int) == sep_from(v@, from as int),
            None => sep_from(v@, from as int) is None,
        },
{
    let mut i = from;
    while i < v.len()
        invariant
            from <= i <= v@.len(),
            sep_from(v@, from as int) == sep_from(v@, i as int),
        decreases v@.len() - i,
    {
        if v[i] == SEMICOLON || v[i] == COMMA {
            return Some(i);
        }
        i = i + 1;
    }
    None
}

} // verus!
