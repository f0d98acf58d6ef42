//! Scenarios driving the fetch machine end to end.

use sjs::cache_settings::CacheSetting;
use sjs::errors::FetchError;
use sjs::file_fetcher::{FetchOptions, FetchStep, FileFetcher};
use sjs::ident::Identity;
use sjs::transport::TransportEvent;

fn ident(s: &str) -> Identity {
    Identity::parse(s).expect("identity should parse")
}

/// Grant the pending access check.
fn grant(f: &mut FileFetcher, st: FetchStep, now: u64) -> FetchStep {
    match st {
        FetchStep::CheckAccess(flow) => f.fetch_access(flow, Ok(()), now),
        other => panic!("expected an access check, got {}", step_name(&other)),
    }
}

fn step_name(st: &FetchStep) -> &'static str {
    match st {
        FetchStep::Done(_) => "Done",
        FetchStep::Failed(_) => "Failed",
        FetchStep::ReadLocal(_) => "ReadLocal",
        FetchStep::CheckAccess(_) => "CheckAccess",
        FetchStep::SendRequest(_, _) => "SendRequest",
        FetchStep::Backoff(_, _) => "Backoff",
    }
}

/// Drive a fresh fetch up to its first network request.
fn to_request(f: &mut FileFetcher, id: &Identity, now: u64) -> FetchStep {
    let st = f.fetch(id);
    let st = grant(f, st, now);
    grant(f, st, now)
}

fn response(status: u16, headers: &[(&str, &str)], body: &[u8]) -> TransportEvent {
    TransportEvent::Response {
        status,
        headers: headers
            .iter()
            .map(|(k, v)| (k.as_bytes().to_vec(), v.as_bytes().to_vec()))
            .collect(),
        body: body.to_vec(),
    }
}

#[test]
fn second_fetch_served_from_memory() {
    let mut f = FileFetcher::new(CacheSetting::Use, true, None);
    let id = ident("https://example.com/mod.js");
    let st = to_request(&mut f, &id, 7);
    let flow = match st {
        FetchStep::SendRequest(rq, flow) => {
            assert_eq!(rq.url, b"https://example.com/mod.js".to_vec());
            assert!(rq.if_none_match.is_none());
            flow
        },
        other => panic!("expected a request, got {}", step_name(&other)),
    };
    let st = f.fetch_response(flow, response(200, &[("Content-Type", "text/plain")], b"hello"));
    match st {
        FetchStep::Done(file) => {
            assert_eq!(file.source, b"hello".to_vec());
            assert_eq!(file.specifier.text(), &b"https://example.com/mod.js".to_vec());
        },
        other => panic!("expected completion, got {}", step_name(&other)),
    }
    // The second fetch completes at the first access decision: no request.
    let st = f.fetch(&id);
    let st = grant(&mut f, st, 8);
    match st {
        FetchStep::Done(file) => assert_eq!(file.source, b"hello".to_vec()),
        other => panic!("expected a memory-cache hit, got {}", step_name(&other)),
    }
}

/// Drive a chain of `n` redirects from `host/r0`; each hop redirects to the
/// next, the last answers with the body.
fn run_chain(f: &mut FileFetcher, n: usize, body: &[u8]) -> FetchStep {
    let id = ident("https://chain.example/r0");
    let mut st = to_request(f, &id, 1);
    for i in 0..n {
        let flow = match st {
            FetchStep::SendRequest(rq, flow) => {
                assert_eq!(rq.url, format!("https://chain.example/r{i}").into_bytes());
                flow
            },
            other => panic!("expected request {}, got {}", i, step_name(&other)),
        };
        let next = format!("/r{}", i + 1);
        st = f.fetch_response(flow, response(302, &[("Location", &next)], b""));
        st = match st {
            FetchStep::CheckAccess(flow) => f.fetch_access(flow, Ok(()), 1),
            other => return other,
        };
    }
    match st {
        FetchStep::SendRequest(_, flow) => f.fetch_response(flow, response(200, &[], body)),
        other => other,
    }
}

#[test]
fn redirect_chain_of_ten_succeeds() {
    let mut f = FileFetcher::new(CacheSetting::Use, true, None);
    match run_chain(&mut f, 10, b"origin-body") {
        FetchStep::Done(file) => {
            assert_eq!(file.source, b"origin-body".to_vec());
            assert_eq!(file.specifier.text(), &b"https://chain.example/r10".to_vec());
        },
        other => panic!("expected completion, got {}", step_name(&other)),
    }
    // Every intermediate hop left a redirect-metadata entry with an empty
    // body.
    let entries = f.http_cache_entries();
    for i in 0..10 {
        let key = format!("https://chain.example/r{i}").into_bytes();
        let entry = entries
            .iter()
            .find(|(k, _)| *k == key)
            .unwrap_or_else(|| panic!("missing redirect entry {i}"));
        assert!(entry.1.body.is_empty());
        let loc = entry.1.headers.get(&b"location".to_vec()).expect("location header");
        assert_eq!(loc, &format!("/r{}", i + 1).into_bytes());
    }
}

#[test]
fn redirect_chain_of_eleven_fails() {
    let mut f = FileFetcher::new(CacheSetting::Use, true, None);
    match run_chain(&mut f, 11, b"never") {
        FetchStep::Failed(FetchError::TooManyRedirects) => {},
        other => panic!("expected too many redirects, got {}", step_name(&other)),
    }
}

#[test]
fn unsupported_scheme_always_fails() {
    let mut f = FileFetcher::new(CacheSetting::Use, true, None);
    let id = ident("ftp://x/y");
    match f.fetch(&id) {
        FetchStep::Failed(FetchError::UnsupportedScheme { scheme }) => {
            assert_eq!(scheme, b"ftp".to_vec());
        },
        other => panic!("expected unsupported scheme, got {}", step_name(&other)),
    }
    // Regardless of cache state: cache something else first, same outcome.
    let _ = f.insert_blob_entry(&ident("blob:https://x/1"), b"text/plain".to_vec(), b"x".to_vec());
    match f.fetch(&id) {
        FetchStep::Failed(FetchError::UnsupportedScheme { .. }) => {},
        other => panic!("expected unsupported scheme, got {}", step_name(&other)),
    }
}

#[test]
fn cache_only_fails_then_succeeds_offline() {
    let id = ident("https://example.com/lib.js");
    // Nothing cached: the cache-only fetch fails with NotCached.  The
    // dispatch checks the remote flag before the cache policy, so remote
    // stays enabled here.
    let mut only = FileFetcher::new(CacheSetting::Only, true, None);
    let st = to_request_or_fail(&mut only, &id);
    match st {
        FetchStep::Failed(FetchError::NotCached { specifier }) => {
            assert_eq!(specifier, b"https://example.com/lib.js".to_vec());
        },
        other => panic!("expected not-cached, got {}", step_name(&other)),
    }
    // One successful fetch with Use populates the caches.
    let mut f = FileFetcher::new(CacheSetting::Use, true, None);
    let st = to_request(&mut f, &id, 3);
    let flow = match st {
        FetchStep::SendRequest(_, flow) => flow,
        other => panic!("expected request, got {}", step_name(&other)),
    };
    match f.fetch_response(flow, response(200, &[], b"cached-bytes")) {
        FetchStep::Done(_) => {},
        other => panic!("expected completion, got {}", step_name(&other)),
    }
    // A later cache-only fetch of the same identity succeeds without any
    // request step (the transport is never reached).
    let st = f.fetch_with_options(
        &id,
        FetchOptions { maybe_accept: None, maybe_cache_setting: Some(CacheSetting::Only) },
    );
    let st = grant(&mut f, st, 4);
    match st {
        FetchStep::Done(file) => assert_eq!(file.source, b"cached-bytes".to_vec()),
        other => panic!("expected offline completion, got {}", step_name(&other)),
    }
}

fn to_request_or_fail(f: &mut FileFetcher, id: &Identity) -> FetchStep {
    let st = f.fetch(id);
    let st = grant(f, st, 1);
    match st {
        FetchStep::CheckAccess(flow) => f.fetch_access(flow, Ok(()), 1),
        other => other,
    }
}

#[test]
fn cache_only_served_from_seeded_disk() {
    let id = ident("https://example.com/seeded.js");
    let mut f = FileFetcher::new(CacheSetting::Only, true, None);
    f.seed_remote_entry(
        &b"https://example.com/seeded.js".to_vec(),
        sjs::headers::Headers::new(),
        0,
        b"from-disk".to_vec(),
    );
    let st = to_request_or_fail(&mut f, &id);
    match st {
        FetchStep::Done(file) => assert_eq!(file.source, b"from-disk".to_vec()),
        other => panic!("expected disk completion, got {}", step_name(&other)),
    }
}

#[test]
fn reload_some_refetches_listed_and_spares_others() {
    let list = vec![b"https://h/a/b".to_vec()];
    let setting = CacheSetting::ReloadSome(list);
    let mut f = FileFetcher::new(setting, true, None);
    f.seed_remote_entry(
        &b"https://h/a/b/c.js".to_vec(),
        sjs::headers::Headers::new(),
        0,
        b"stale".to_vec(),
    );
    f.seed_remote_entry(
        &b"https://h/other.js".to_vec(),
        sjs::headers::Headers::new(),
        0,
        b"other-cached".to_vec(),
    );
    // At or under the listed path: refetched even though cached.
    let st = to_request_or_fail(&mut f, &ident("https://h/a/b/c.js"));
    match st {
        FetchStep::SendRequest(rq, flow) => {
            assert_eq!(rq.url, b"https://h/a/b/c.js".to_vec());
            match f.fetch_response(flow, response(200, &[], b"fresh")) {
                FetchStep::Done(file) => assert_eq!(file.source, b"fresh".to_vec()),
                other => panic!("expected completion, got {}", step_name(&other)),
            }
        },
        other => panic!("expected refetch, got {}", step_name(&other)),
    }
    // Any other cached identity is left untouched: no network step.
    let st = to_request_or_fail(&mut f, &ident("https://h/other.js"));
    match st {
        FetchStep::Done(file) => assert_eq!(file.source, b"other-cached".to_vec()),
        other => panic!("expected cache completion, got {}", step_name(&other)),
    }
}

#[test]
fn interleaved_fetches_complete_and_store_stays_readable() {
    // Two flows for the same never-before-seen identity, interleaved; the
    // machine is driven from one thread, as its locks would allow, and the
    // store ends fully readable (last writer wins).
    let id = ident("https://example.com/par.js");
    let mut f = FileFetcher::new(CacheSetting::ReloadAll, true, None);
    let st_a = to_request_or_fail(&mut f, &id);
    let flow_a = match st_a {
        FetchStep::SendRequest(_, flow) => flow,
        other => panic!("expected request, got {}", step_name(&other)),
    };
    let st_b = to_request_or_fail(&mut f, &id);
    let flow_b = match st_b {
        FetchStep::SendRequest(_, flow) => flow,
        other => panic!("expected request, got {}", step_name(&other)),
    };
    match f.fetch_response(flow_b, response(200, &[], b"version-b")) {
        FetchStep::Done(file) => assert_eq!(file.source, b"version-b".to_vec()),
        other => panic!("expected completion, got {}", step_name(&other)),
    }
    match f.fetch_response(flow_a, response(200, &[], b"version-a")) {
        FetchStep::Done(file) => assert_eq!(file.source, b"version-a".to_vec()),
        other => panic!("expected completion, got {}", step_name(&other)),
    }
    // The store holds exactly one complete entry for the identity.
    let entries = f.http_cache_entries();
    let found: Vec<_> = entries
        .iter()
        .filter(|(k, _)| *k == b"https://example.com/par.js".to_vec())
        .collect();
    assert_eq!(found.len(), 1);
    assert_eq!(found[0].1.body, b"version-a".to_vec());
}

#[test]
fn transient_error_then_success_retries_once() {
    let id = ident("https://example.com/flaky.js");
    let mut f = FileFetcher::new(CacheSetting::Use, true, None);
    let st = to_request(&mut f, &id, 1);
    let flow = match st {
        FetchStep::SendRequest(_, flow) => flow,
        other => panic!("expected request, got {}", step_name(&other)),
    };
    let st = f.fetch_response(flow, TransportEvent::Transient { detail: b"connect reset".to_vec() });
    let flow = match st {
        FetchStep::Backoff(ms, flow) => {
            assert_eq!(ms, 50);
            flow
        },
        other => panic!("expected backoff, got {}", step_name(&other)),
    };
    let st = f.fetch_backoff(flow);
    let flow = match st {
        FetchStep::SendRequest(rq, flow) => {
            assert_eq!(rq.url, b"https://example.com/flaky.js".to_vec());
            flow
        },
        other => panic!("expected retried request, got {}", step_name(&other)),
    };
    match f.fetch_response(flow, response(200, &[], b"finally")) {
        FetchStep::Done(file) => assert_eq!(file.source, b"finally".to_vec()),
        other => panic!("expected completion, got {}", step_name(&other)),
    }
}

#[test]
fn two_transient_errors_fail_hard() {
    let id = ident("https://example.com/down.js");
    let mut f = FileFetcher::new(CacheSetting::Use, true, None);
    let st = to_request(&mut f, &id, 1);
    let flow = match st {
        FetchStep::SendRequest(_, flow) => flow,
        other => panic!("expected request, got {}", step_name(&other)),
    };
    let st = f.fetch_response(flow, TransportEvent::Transient { detail: b"timeout".to_vec() });
    let flow = match st {
        FetchStep::Backoff(_, flow) => flow,
        other => panic!("expected backoff, got {}", step_name(&other)),
    };
    let st = f.fetch_backoff(flow);
    let flow = match st {
        FetchStep::SendRequest(_, flow) => flow,
        other => panic!("expected retried request, got {}", step_name(&other)),
    };
    match f.fetch_response(flow, TransportEvent::Transient { detail: b"timeout".to_vec() }) {
        FetchStep::Failed(FetchError::TransportFailure { specifier, detail }) => {
            assert_eq!(specifier, b"https://example.com/down.js".to_vec());
            assert_eq!(detail, b"timeout".to_vec());
        },
        other => panic!("expected hard failure, got {}", step_name(&other)),
    }
}

#[test]
fn server_errors_retry_then_fail_with_status() {
    let id = ident("https://example.com/5xx.js");
    let mut f = FileFetcher::new(CacheSetting::Use, true, None);
    let st = to_request(&mut f, &id, 1);
    let flow = match st {
        FetchStep::SendRequest(_, flow) => flow,
        other => panic!("expected request, got {}", step_name(&other)),
    };
    let st = f.fetch_response(flow, response(503, &[], b""));
    let flow = match st {
        FetchStep::Backoff(_, flow) => flow,
        other => panic!("expected backoff, got {}", step_name(&other)),
    };
    let st = f.fetch_backoff(flow);
    let flow = match st {
        FetchStep::SendRequest(_, flow) => flow,
        other => panic!("expected retried request, got {}", step_name(&other)),
    };
    match f.fetch_response(flow, response(503, &[], b"")) {
        FetchStep::Failed(FetchError::TransportFailure { detail, .. }) => {
            assert_eq!(detail, b"503".to_vec());
        },
        other => panic!("expected hard failure, got {}", step_name(&other)),
    }
}

#[test]
fn not_modified_serves_cached_artifact() {
    let id = ident("https://example.com/etagged.js");
    let mut f = FileFetcher::new(CacheSetting::ReloadAll, true, None);
    let mut h = sjs::headers::Headers::new();
    h.insert(&b"etag".to_vec(), b"\"v1\"".to_vec());
    f.seed_remote_entry(
        &b"https://example.com/etagged.js".to_vec(),
        h,
        0,
        b"etag-body".to_vec(),
    );
    let st = to_request_or_fail(&mut f, &id);
    let flow = match st {
        FetchStep::SendRequest(rq, flow) => {
            assert_eq!(rq.if_none_match, Some(b"\"v1\"".to_vec()));
            flow
        },
        other => panic!("expected conditional request, got {}", step_name(&other)),
    };
    match f.fetch_response(flow, response(304, &[], b"")) {
        FetchStep::Done(file) => assert_eq!(file.source, b"etag-body".to_vec()),
        other => panic!("expected cached completion, got {}", step_name(&other)),
    }
}

#[test]
fn gratuitous_not_modified_is_a_transport_failure() {
    // A server answering 304 to an unconditional request, with nothing
    // cached for the identity, breaks the transport contract; the machine
    // reports it instead of aborting.
    let id = ident("https://example.com/phantom.js");
    let mut f = FileFetcher::new(CacheSetting::Use, true, None);
    let st = to_request(&mut f, &id, 1);
    let flow = match st {
        FetchStep::SendRequest(rq, flow) => {
            assert!(rq.if_none_match.is_none());
            flow
        },
        other => panic!("expected request, got {}", step_name(&other)),
    };
    match f.fetch_response(flow, response(304, &[], b"")) {
        FetchStep::Failed(FetchError::TransportFailure { specifier, detail }) => {
            assert_eq!(specifier, b"https://example.com/phantom.js".to_vec());
            assert_eq!(detail, b"not modified without a cached entry".to_vec());
        },
        other => panic!("expected a transport failure, got {}", step_name(&other)),
    }
}

#[test]
fn client_errors_fail_immediately() {
    let id = ident("https://example.com/missing.js");
    let mut f = FileFetcher::new(CacheSetting::Use, true, None);
    let st = to_request(&mut f, &id, 1);
    let flow = match st {
        FetchStep::SendRequest(_, flow) => flow,
        other => panic!("expected request, got {}", step_name(&other)),
    };
    match f.fetch_response(flow, response(404, &[], b"")) {
        FetchStep::Failed(FetchError::NotFound { specifier }) => {
            assert_eq!(specifier, b"https://example.com/missing.js".to_vec());
        },
        other => panic!("expected not-found, got {}", step_name(&other)),
    }
    let st = to_request(&mut f, &id, 1);
    let flow = match st {
        FetchStep::SendRequest(_, flow) => flow,
        other => panic!("expected request, got {}", step_name(&other)),
    };
    match f.fetch_response(flow, response(403, &[], b"")) {
        FetchStep::Failed(FetchError::ClientError { status, .. }) => assert_eq!(status, 403),
        other => panic!("expected client error, got {}", step_name(&other)),
    }
}

#[test]
fn remote_disallowed_without_flag() {
    let id = ident("https://example.com/x.js");
    let mut f = FileFetcher::new(CacheSetting::Use, false, None);
    let st = f.fetch(&id);
    let st = grant(&mut f, st, 1);
    match st {
        FetchStep::Failed(FetchError::RemoteNotAllowed { specifier }) => {
            assert_eq!(specifier, b"https://example.com/x.js".to_vec());
        },
        other => panic!("expected remote-not-allowed, got {}", step_name(&other)),
    }
}

#[test]
fn access_denied_propagates() {
    let id = ident("https://example.com/secret.js");
    let mut f = FileFetcher::new(CacheSetting::Use, true, None);
    let st = f.fetch(&id);
    let st = match st {
        FetchStep::CheckAccess(flow) => f.fetch_access(flow, Err(b"blocked".to_vec()), 1),
        other => panic!("expected access check, got {}", step_name(&other)),
    };
    match st {
        FetchStep::Failed(FetchError::AccessDenied { detail }) => {
            assert_eq!(detail, b"blocked".to_vec());
        },
        other => panic!("expected denial, got {}", step_name(&other)),
    }
}

#[test]
fn data_url_decodes_inline_payload() {
    let id = ident("data:text/plain;base64,aGVsbG8=");
    let mut f = FileFetcher::new(CacheSetting::Use, false, None);
    let st = f.fetch(&id);
    let st = grant(&mut f, st, 1);
    match st {
        FetchStep::Done(file) => {
            assert_eq!(file.source, b"hello".to_vec());
            let h = file.maybe_headers.expect("data fetch carries headers");
            assert_eq!(h.get(&b"content-type".to_vec()), Some(&b"text/plain".to_vec()));
        },
        other => panic!("expected inline completion, got {}", step_name(&other)),
    }
}

#[test]
fn blob_urls_resolve_against_the_registry() {
    let id = ident("blob:https://example.com/123e4567");
    let mut f = FileFetcher::new(CacheSetting::Use, false, None);
    let st = f.fetch(&id);
    let st = grant(&mut f, st, 1);
    match st {
        FetchStep::Failed(FetchError::NotFound { .. }) => {},
        other => panic!("expected not-found, got {}", step_name(&other)),
    }
    f.insert_blob_entry(&id, b"application/octet-stream".to_vec(), b"blobdata".to_vec());
    let st = f.fetch(&id);
    let st = grant(&mut f, st, 1);
    match st {
        FetchStep::Done(file) => {
            assert_eq!(file.source, b"blobdata".to_vec());
            let h = file.maybe_headers.expect("blob fetch carries headers");
            assert_eq!(
                h.get(&b"content-type".to_vec()),
                Some(&b"application/octet-stream".to_vec())
            );
        },
        other => panic!("expected blob completion, got {}", step_name(&other)),
    }
}

#[test]
fn local_files_are_read_each_call_and_never_memory_cached() {
    let id = ident("file:///srv/app/main.js");
    let mut f = FileFetcher::new(CacheSetting::Use, false, None);
    let st = f.fetch(&id);
    let st = grant(&mut f, st, 1);
    let flow = match st {
        FetchStep::ReadLocal(flow) => flow,
        other => panic!("expected local read, got {}", step_name(&other)),
    };
    match f.fetch_local(flow, Some(b"local-bytes".to_vec())) {
        FetchStep::Done(file) => {
            assert_eq!(file.source, b"local-bytes".to_vec());
            assert!(file.maybe_headers.is_none());
        },
        other => panic!("expected completion, got {}", step_name(&other)),
    }
    // The next fetch asks for the disk again: edits are observed.
    let st = f.fetch(&id);
    let st = grant(&mut f, st, 2);
    match st {
        FetchStep::ReadLocal(flow) => match f.fetch_local(flow, None) {
            FetchStep::Failed(FetchError::NotFound { .. }) => {},
            other => panic!("expected not-found, got {}", step_name(&other)),
        },
        other => panic!("expected a fresh local read, got {}", step_name(&other)),
    }
}

#[test]
fn inserted_text_is_served_from_memory() {
    let mut f = FileFetcher::new(CacheSetting::Use, false, None);
    let id = sjs::text_source_identity().expect("reserved identity parses");
    let file = sjs::file_fetcher::File {
        specifier: id.clone(),
        maybe_headers: None,
        source: b"console.log(1)".to_vec(),
    };
    assert!(f.insert_cached(file).is_none());
    let st = f.fetch(&id);
    let st = grant(&mut f, st, 1);
    match st {
        FetchStep::Done(file) => assert_eq!(file.source, b"console.log(1)".to_vec()),
        other => panic!("expected memory completion, got {}", step_name(&other)),
    }
    // get_source sees it synchronously as well.
    match f.get_source(&id) {
        sjs::file_fetcher::GetSourceStep::Found(file) => {
            assert_eq!(file.source, b"console.log(1)".to_vec())
        },
        _ => panic!("expected a memory hit"),
    }
}
