//! Unit tests for the policy, header, auth, hashing and path logic.

use sjs::auth_tokens::{bearer_value, host_of_exec, AuthTokens};
use sjs::cache_env::{atomic_write_begin, on_create_dir_result, on_dir_check, on_write_result,
    add_file_context_to_err, IoFail, WriteAction, WriteStep, CACHE_PERM};
use sjs::cache_settings::{is_fresh, parse_http_date, parse_max_age, pop_path_exec,
    reload_uses_cache_exec};
use sjs::checksum::gen;
use sjs::hash::hash;
use sjs::headers::Headers;
use sjs::ident::{Identity, Scheme};
use sjs::path::{absolute_path, GetSubExtension, ToAbsolutePath};
use sjs::transport::headers_from_raw;

#[test]
fn identity_normalizes_and_classifies() {
    let id = Identity::parse("HTTPS://Example.COM/path/../a").expect("parses");
    assert_eq!(id.text(), &b"https://example.com/a".to_vec());
    assert!(matches!(id.scheme(), Scheme::Https));
    assert!(Identity::parse("not a url").is_none());
    let data = Identity::parse("data:,x").expect("parses");
    assert!(matches!(data.scheme(), Scheme::Data));
    let other = Identity::parse("ftp://h/p").expect("parses");
    assert!(matches!(other.scheme(), Scheme::Other));
    assert_eq!(other.scheme_text(), b"ftp".to_vec());
}

#[test]
fn file_identities_are_canonical_even_from_dotted_paths() {
    // A path that still carries dot segments yields the resolved identity,
    // which re-parses to itself like any other.
    let id = Identity::from_file_path(&b"/a/../b/x.js".to_vec()).expect("converts");
    assert_eq!(id.text(), &b"file:///b/x.js".to_vec());
    let id = Identity::from_file_path(&b"/srv/./app.js".to_vec()).expect("converts");
    assert_eq!(id.text(), &b"file:///srv/app.js".to_vec());
    // Relative paths have no file: URL.
    assert!(Identity::from_file_path(&b"rel/x.js".to_vec()).is_none());
    // A working directory carrying dot segments normalizes the same way.
    let id = sjs::resolve_maybe_url(&b"x.js".to_vec(), &b"/a/../b".to_vec()).expect("resolves");
    assert_eq!(id.text(), &b"file:///b/x.js".to_vec());
}

#[test]
fn identity_join_resolves_relative_references() {
    let base = Identity::parse("https://h/a/b/c.js").expect("parses");
    let joined = base.join(&b"../d.js".to_vec()).expect("joins");
    assert_eq!(joined.text(), &b"https://h/a/d.js".to_vec());
    let abs = base.join(&b"https://other/x".to_vec()).expect("joins");
    assert_eq!(abs.text(), &b"https://other/x".to_vec());
}

#[test]
fn reload_list_matches_path_prefixes_and_exact_urls() {
    let list = vec![b"https://h/a/b".to_vec()];
    // At or under the listed prefix: reload (cache not used).
    assert!(!reload_uses_cache_exec(&list, &b"https://h/a/b".to_vec()));
    assert!(!reload_uses_cache_exec(&list, &b"https://h/a/b/c.js".to_vec()));
    // Fragment is ignored, query is stripped for the prefix walk.
    assert!(!reload_uses_cache_exec(&list, &b"https://h/a/b#frag".to_vec()));
    assert!(!reload_uses_cache_exec(&list, &b"https://h/a/b/c.js?v=1".to_vec()));
    // Anything else keeps using the cache.
    assert!(reload_uses_cache_exec(&list, &b"https://h/a/bc".to_vec()));
    assert!(reload_uses_cache_exec(&list, &b"https://h/other".to_vec()));
    // An exact URL with a query is matched verbatim before stripping.
    let qlist = vec![b"https://h/x?v=1".to_vec()];
    assert!(!reload_uses_cache_exec(&qlist, &b"https://h/x?v=1#f".to_vec()));
}

#[test]
fn pop_path_walks_prefixes() {
    assert_eq!(pop_path_exec(&b"https://h/a/b".to_vec()), Some(b"https://h/a".to_vec()));
    assert_eq!(pop_path_exec(&b"https://h/a".to_vec()), Some(b"https://h".to_vec()));
    assert_eq!(pop_path_exec(&b"https://h".to_vec()), Some(b"https:".to_vec()));
    assert_eq!(pop_path_exec(&b"https:".to_vec()), Some(b"".to_vec()));
    assert_eq!(pop_path_exec(&b"".to_vec()), None);
}

#[test]
fn freshness_follows_max_age() {
    assert_eq!(parse_max_age(&b"public, max-age=60, immutable".to_vec()), Some(60));
    assert_eq!(parse_max_age(&b"no-store".to_vec()), None);
    assert_eq!(parse_max_age(&b"max-age=".to_vec()), None);
    let mut h = Headers::new();
    h.insert(&b"cache-control".to_vec(), b"max-age=60".to_vec());
    assert!(is_fresh(&h, 100, 159));
    assert!(!is_fresh(&h, 100, 160));
    let empty = Headers::new();
    assert!(!is_fresh(&empty, 100, 100));
}

#[test]
fn http_dates_parse_to_epoch_seconds() {
    assert_eq!(parse_http_date(&b"Thu, 01 Jan 1970 00:01:40 GMT".to_vec()), Some(100));
    assert_eq!(
        parse_http_date(&b"Sun, 06 Nov 1994 08:49:37 GMT".to_vec()),
        Some(784111777)
    );
    // Leap-day handling.
    assert_eq!(
        parse_http_date(&b"Tue, 29 Feb 2000 00:00:00 GMT".to_vec()),
        Some(951782400)
    );
    assert_eq!(parse_http_date(&b"garbage".to_vec()), None);
    assert_eq!(parse_http_date(&b"Sun, 06 Nov 1969 08:49:37 GMT".to_vec()), None);
    assert_eq!(parse_http_date(&b"Sun, 06 Xyz 1994 08:49:37 GMT".to_vec()), None);
}

#[test]
fn freshness_falls_back_to_expires() {
    let mut h = Headers::new();
    h.insert(&b"expires".to_vec(), b"Thu, 01 Jan 1970 00:01:40 GMT".to_vec());
    assert!(is_fresh(&h, 0, 99));
    assert!(!is_fresh(&h, 0, 100));
    // max-age wins over expires when both are present.
    h.insert(&b"cache-control".to_vec(), b"max-age=10".to_vec());
    assert!(is_fresh(&h, 95, 99));
    assert!(!is_fresh(&h, 0, 50));
}

#[test]
fn auth_tokens_parse_and_match_hosts_exactly() {
    let env = b"example.com=abc123;h2:8080=tok2,bad-entry;=nohost;nocred=".to_vec();
    let tokens = AuthTokens::new(Some(&env));
    let id = Identity::parse("https://example.com/secret.js").expect("parses");
    let t = tokens.get(&id).expect("token for the host");
    assert_eq!(t, b"abc123".to_vec());
    assert_eq!(bearer_value(&t), b"Bearer abc123".to_vec());
    // Port is part of the match.
    let with_port = Identity::parse("http://h2:8080/x").expect("parses");
    assert_eq!(tokens.get(&with_port), Some(b"tok2".to_vec()));
    let wrong_port = Identity::parse("http://h2:9999/x").expect("parses");
    assert!(tokens.get(&wrong_port).is_none());
    // Unlisted hosts and subdomains get nothing (exact match).
    let sub = Identity::parse("https://a.example.com/x").expect("parses");
    assert!(tokens.get(&sub).is_none());
    assert!(AuthTokens::new(None).get(&id).is_none());
}

#[test]
fn host_extraction_handles_userinfo_and_ports() {
    assert_eq!(host_of_exec(&b"https://u:p@h:81/x".to_vec()), b"h:81".to_vec());
    assert_eq!(host_of_exec(&b"https://example.com/a/b".to_vec()), b"example.com".to_vec());
    assert_eq!(host_of_exec(&b"data:,x".to_vec()), b"".to_vec());
}

#[test]
fn header_maps_lowercase_and_join_values() {
    let raw = vec![
        (b"Content-Type".to_vec(), b"text/plain".to_vec()),
        (b"X-Trace".to_vec(), b"a".to_vec()),
        (b"x-trace".to_vec(), b"b".to_vec()),
    ];
    let h = headers_from_raw(&raw);
    assert_eq!(h.get(&b"content-type".to_vec()), Some(&b"text/plain".to_vec()));
    assert_eq!(h.get(&b"x-trace".to_vec()), Some(&b"a,b".to_vec()));
    assert_eq!(h.get(&b"absent".to_vec()), None);
    assert_eq!(h.len(), 2);
}

#[test]
fn hashes_render_as_lowercase_hex() {
    // The 64-bit digest of the empty input under a zero seed.
    assert_eq!(hash(&b"".to_vec()), b"ef46db3751d8e999".to_vec());
    // A multi-part checksum equals the hash of the concatenation.
    let parts = vec![b"ab".to_vec(), b"c".to_vec()];
    assert_eq!(gen(&parts), hash(&b"abc".to_vec()));
    assert_ne!(hash(&b"abc".to_vec()), hash(&b"abd".to_vec()));
}

#[test]
fn paths_absolutize_lexically() {
    assert_eq!(absolute_path(&b"a/../b/./c".to_vec(), &b"/x/y".to_vec()), b"/x/y/b/c".to_vec());
    assert_eq!(absolute_path(&b"/a/../c".to_vec(), &b"/x".to_vec()), b"/c".to_vec());
    assert_eq!(absolute_path(&b"../up".to_vec(), &b"/x/y".to_vec()), b"/x/up".to_vec());
    assert_eq!(absolute_path(&b"..".to_vec(), &b"/".to_vec()), b"/".to_vec());
    let owned: Vec<u8> = b"rel".to_vec();
    assert_eq!(owned.absolute(&b"/w".to_vec()), b"/w/rel".to_vec());
    let s = String::from("rel2");
    assert_eq!(
        sjs::path_util::ToAbsolutePath::absolute(&s, &b"/w".to_vec()),
        b"/w/rel2".to_vec()
    );
}

#[test]
fn sub_extensions_read_the_inner_suffix() {
    let p: Vec<u8> = b"/srv/mod.d.ts".to_vec();
    assert_eq!(p.sub_extension(), Some(b"d".to_vec()));
    let q: Vec<u8> = b"/srv/mod.ts".to_vec();
    assert_eq!(q.sub_extension(), None);
}

#[test]
fn atomic_writes_pick_a_random_temp_sibling() {
    let st = atomic_write_begin(
        b"/cache/deps/file.bin".to_vec(),
        b"payload".to_vec(),
        CACHE_PERM,
        0x0a,
        0xff,
        0x00,
        0x10,
    );
    match st {
        WriteStep::Do(WriteAction::WriteAndRename { temp, dest, data, mode }, state) => {
            assert_eq!(temp, b"/cache/deps/file.0aff0010.tmp".to_vec());
            assert_eq!(dest, b"/cache/deps/file.bin".to_vec());
            assert_eq!(data, b"payload".to_vec());
            assert_eq!(mode, CACHE_PERM);
            match on_write_result(state, Ok(())) {
                WriteStep::Done(Ok(())) => {},
                _ => panic!("expected success"),
            }
        },
        _ => panic!("expected the first write action"),
    }
}

#[test]
fn atomic_writes_create_missing_directories_and_retry_once() {
    let st = atomic_write_begin(b"/cache/deps/f".to_vec(), b"d".to_vec(), CACHE_PERM, 1, 2, 3, 4);
    let state = match st {
        WriteStep::Do(_, state) => state,
        _ => panic!("expected an action"),
    };
    let nf = IoFail { is_not_found: true, message: b"No such file or directory".to_vec() };
    let st = on_write_result(state, Err(nf));
    let state = match st {
        WriteStep::Do(WriteAction::CreateDir { dir }, state) => {
            assert_eq!(dir, b"/cache/deps".to_vec());
            state
        },
        _ => panic!("expected directory creation"),
    };
    let st = on_create_dir_result(state, Ok(()));
    let state = match st {
        WriteStep::Do(WriteAction::WriteAndRename { dest, .. }, state) => {
            assert_eq!(dest, b"/cache/deps/f".to_vec());
            state
        },
        _ => panic!("expected the retried write"),
    };
    // The retry fails: the error is annotated with the target path.
    let e = IoFail { is_not_found: false, message: b"denied".to_vec() };
    match on_write_result(state, Err(e)) {
        WriteStep::Done(Err(msg)) => {
            assert_eq!(msg, b"denied (for '/cache/deps/f')".to_vec());
        },
        _ => panic!("expected an annotated failure"),
    }
}

#[test]
fn failed_directory_creation_distinguishes_permission_problems() {
    let st = atomic_write_begin(b"/cache/deps/f".to_vec(), b"d".to_vec(), CACHE_PERM, 0, 0, 0, 0);
    let state = match st {
        WriteStep::Do(_, state) => state,
        _ => panic!("expected an action"),
    };
    let nf = IoFail { is_not_found: true, message: b"missing".to_vec() };
    let state = match on_write_result(state, Err(nf)) {
        WriteStep::Do(WriteAction::CreateDir { .. }, state) => state,
        _ => panic!("expected directory creation"),
    };
    let ce = IoFail { is_not_found: false, message: b"cannot create".to_vec() };
    let state = match on_create_dir_result(state, Err(ce)) {
        WriteStep::Do(WriteAction::CheckDir { dir }, state) => {
            assert_eq!(dir, b"/cache/deps".to_vec());
            state
        },
        _ => panic!("expected the existence check"),
    };
    // Still missing afterwards: a permission-style error naming the
    // directory.
    match on_dir_check(state, false) {
        WriteStep::Done(Err(msg)) => {
            assert_eq!(
                msg,
                b"cannot create (for '/cache/deps')\nCheck the permission of the directory."
                    .to_vec()
            );
        },
        _ => panic!("expected the permission error"),
    }
}

#[test]
fn directory_that_appeared_surfaces_the_write_error() {
    let st = atomic_write_begin(b"/c/f".to_vec(), b"d".to_vec(), CACHE_PERM, 0, 0, 0, 0);
    let state = match st {
        WriteStep::Do(_, state) => state,
        _ => panic!("expected an action"),
    };
    let nf = IoFail { is_not_found: true, message: b"first failure".to_vec() };
    let state = match on_write_result(state, Err(nf)) {
        WriteStep::Do(_, state) => state,
        _ => panic!("expected directory creation"),
    };
    let ce = IoFail { is_not_found: false, message: b"race".to_vec() };
    let state = match on_create_dir_result(state, Err(ce)) {
        WriteStep::Do(_, state) => state,
        _ => panic!("expected the existence check"),
    };
    match on_dir_check(state, true) {
        WriteStep::Done(Err(msg)) => {
            assert_eq!(msg, b"first failure (for '/c/f')".to_vec());
        },
        _ => panic!("expected the annotated write error"),
    }
}

#[test]
fn error_context_names_the_path() {
    let msg = add_file_context_to_err(&b"/p/f".to_vec(), &b"boom".to_vec());
    assert_eq!(msg, b"boom (for '/p/f')".to_vec());
}

#[test]
fn fetch_cached_follows_cached_redirects_within_the_limit() {
    let mut f = sjs::file_fetcher::FileFetcher::new(
        sjs::cache_settings::CacheSetting::Use,
        true,
        None,
    );
    let mut redirect = Headers::new();
    redirect.insert(&b"location".to_vec(), b"/target.js".to_vec());
    f.seed_remote_entry(&b"https://h/start.js".to_vec(), redirect, 0, b"".to_vec());
    f.seed_remote_entry(&b"https://h/target.js".to_vec(), Headers::new(), 0, b"t".to_vec());
    let start = Identity::parse("https://h/start.js").expect("parses");
    let got = f.fetch_cached(&start, 10).expect("no error").expect("a hit");
    assert_eq!(got.source, b"t".to_vec());
    assert_eq!(got.specifier.text(), &b"https://h/target.js".to_vec());
    // With no budget left, following the redirect fails.
    match f.fetch_cached(&start, -1) {
        Err(sjs::errors::FetchError::TooManyRedirects) => {},
        _ => panic!("expected too many redirects"),
    }
    let absent = Identity::parse("https://h/absent.js").expect("parses");
    assert!(f.fetch_cached(&absent, 10).expect("no error").is_none());
}

#[test]
fn version_and_user_agent_are_stable() {
    assert_eq!(sjs::version(), "0.1.0");
    assert_eq!(sjs::get_user_agent(), "sjs/0.1.0");
}
