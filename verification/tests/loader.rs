//! Loader tests: resolution, classification and the JSON-attribute rule.

use sjs::cache_settings::CacheSetting;
use sjs::errors::{LoadError, ResolveError};
use sjs::file_fetcher::{File, FileFetcher};
use sjs::ident::Identity;
use sjs::module_loader::{complete_compile, finish_load, parse_import_map_json, path_extension,
    plan_load, resolve_import, url_path, LoadOutcome, ModuleType, RequestedModuleType,
    SJSModuleLoader};

fn ident(s: &str) -> Identity {
    Identity::parse(s).expect("identity should parse")
}

fn file_for(id: &Identity, bytes: &[u8]) -> File {
    File { specifier: id.clone(), maybe_headers: None, source: bytes.to_vec() }
}

#[test]
fn json_without_the_attribute_is_rejected() {
    let id = ident("https://h/conf/settings.json");
    match plan_load(&id, &RequestedModuleType::Unspecified) {
        Err(LoadError::JsonAttributeMismatch { specifier }) => {
            assert_eq!(specifier, b"https://h/conf/settings.json".to_vec());
        },
        _ => panic!("expected the JSON-attribute error"),
    }
}

#[test]
fn json_with_the_attribute_passes_bytes_through() {
    let id = ident("https://h/conf/settings.json");
    let plan = plan_load(&id, &RequestedModuleType::Json).expect("accepted");
    assert_eq!(plan.module_type, ModuleType::Json);
    match finish_load(plan, file_for(&id, b"{\"a\":1}")) {
        LoadOutcome::Ready(m) => {
            assert_eq!(m.module_type, ModuleType::Json);
            assert_eq!(m.code, b"{\"a\":1}".to_vec());
        },
        LoadOutcome::Compile(_) => panic!("JSON must not reach the compiler"),
    }
}

#[test]
fn javascript_goes_through_the_compiler() {
    let id = ident("https://h/app/main.ts");
    let plan = plan_load(&id, &RequestedModuleType::Unspecified).expect("accepted");
    assert_eq!(plan.module_type, ModuleType::JavaScript);
    let req = match finish_load(plan, file_for(&id, b"let x = 1")) {
        LoadOutcome::Compile(req) => {
            assert_eq!(req.source, b"let x = 1".to_vec());
            req
        },
        LoadOutcome::Ready(_) => panic!("executable code must be compiled"),
    };
    let m = complete_compile(req, Some(b"var x = 1;".to_vec())).expect("compiled");
    assert_eq!(m.code, b"var x = 1;".to_vec());
    assert_eq!(m.module_type, ModuleType::JavaScript);
}

#[test]
fn compile_failure_is_reported() {
    let id = ident("https://h/app/broken.js");
    let plan = plan_load(&id, &RequestedModuleType::Unspecified).expect("accepted");
    let req = match finish_load(plan, file_for(&id, b"(((")) {
        LoadOutcome::Compile(req) => req,
        LoadOutcome::Ready(_) => panic!("executable code must be compiled"),
    };
    match complete_compile(req, None) {
        Err(LoadError::CompileFailed { specifier }) => {
            assert_eq!(specifier, b"https://h/app/broken.js".to_vec());
        },
        _ => panic!("expected the compile failure"),
    }
}

#[test]
fn wasm_and_mime_classification() {
    let wasm = ident("file:///pkg/lib.wasm");
    let plan = plan_load(&wasm, &RequestedModuleType::Unspecified).expect("accepted");
    assert_eq!(plan.module_type, ModuleType::Wasm);
    let json_data = ident("data:application/json,{}");
    match plan_load(&json_data, &RequestedModuleType::Unspecified) {
        Err(LoadError::JsonAttributeMismatch { .. }) => {},
        _ => panic!("a JSON-typed data URL needs the attribute too"),
    }
    let bad_data = ident("data:x");
    match plan_load(&bad_data, &RequestedModuleType::Unspecified) {
        Err(LoadError::Fetch(sjs::errors::FetchError::InvalidDataUrl { .. })) => {},
        other => panic!("expected the invalid-data-url error, got {:?}", other.map(|p| p.module_type)),
    }
    let hinted = ident("https://h/custom.bin");
    let plan = plan_load(&hinted, &RequestedModuleType::Other(b"bytes".to_vec())).expect("accepted");
    assert_eq!(plan.module_type, ModuleType::Other(b"bytes".to_vec()));
}

#[test]
fn media_type_comes_from_headers_before_the_extension() {
    let id = ident("https://h/payload.bin");
    let raw = vec![(b"Content-Type".to_vec(), b"application/json; charset=utf-8".to_vec())];
    let file = File {
        specifier: id.clone(),
        maybe_headers: Some(sjs::transport::headers_from_raw(&raw)),
        source: b"{}".to_vec(),
    };
    let (media, charset) = file.resolve_media_type_and_charset();
    assert_eq!(media, ModuleType::Json);
    assert_eq!(charset, Some(b"utf-8".to_vec()));
    // Without headers the extension decides; without either it is code.
    let plain = file_for(&ident("https://h/data.json"), b"{}");
    let (media, charset) = plain.resolve_media_type_and_charset();
    assert_eq!(media, ModuleType::Json);
    assert_eq!(charset, None);
    let code = file_for(&ident("https://h/app"), b"x");
    let (media, _) = code.resolve_media_type_and_charset();
    assert_eq!(media, ModuleType::JavaScript);
}

#[test]
fn url_paths_and_extensions() {
    assert_eq!(url_path(&b"https://h/a/b.json?v=1#f".to_vec()), b"/a/b.json".to_vec());
    assert_eq!(url_path(&b"data:,x".to_vec()), b"".to_vec());
    assert_eq!(path_extension(&b"/a/b.json".to_vec()), Some(b"json".to_vec()));
    assert_eq!(path_extension(&b"/a/.hidden".to_vec()), None);
    assert_eq!(path_extension(&b"/a/plain".to_vec()), None);
}

#[test]
fn bare_relative_resolution() {
    let referrer = b"https://h/a/main.js".to_vec();
    let r = resolve_import(&b"./b.js".to_vec(), &referrer).expect("resolves");
    assert_eq!(r.text(), &b"https://h/a/b.js".to_vec());
    let r = resolve_import(&b"../up.js".to_vec(), &referrer).expect("resolves");
    assert_eq!(r.text(), &b"https://h/up.js".to_vec());
    let r = resolve_import(&b"/rooted.js".to_vec(), &referrer).expect("resolves");
    assert_eq!(r.text(), &b"https://h/rooted.js".to_vec());
    let r = resolve_import(&b"https://other/x.js".to_vec(), &referrer).expect("resolves");
    assert_eq!(r.text(), &b"https://other/x.js".to_vec());
    match resolve_import(&b"lodash".to_vec(), &referrer) {
        Err(ResolveError::ImportPrefixMissing { reference }) => {
            assert_eq!(reference, b"lodash".to_vec());
        },
        _ => panic!("bare specifiers need an alias map"),
    }
}

#[test]
fn loader_resolves_through_the_alias_map() {
    let json = b"{\"imports\":{\"lodash\":\"https://cdn.example/lodash/mod.js\"}}".to_vec();
    let im = parse_import_map_json(&b"file:///proj/import_map.json".to_vec(), &json)
        .expect("the map parses");
    let loader = SJSModuleLoader::new(
        FileFetcher::new(CacheSetting::Use, false, None),
        Vec::new(),
        Vec::new(),
        Some(im),
    );
    let r = loader
        .resolve(&b"lodash".to_vec(), &b"file:///proj/main.js".to_vec())
        .expect("the alias resolves");
    assert_eq!(r.text(), &b"https://cdn.example/lodash/mod.js".to_vec());
    match loader.resolve(&b"unmapped".to_vec(), &b"file:///proj/main.js".to_vec()) {
        Err(ResolveError::InvalidUrl { .. }) => {},
        Ok(_) => panic!("an unmapped bare specifier must fail"),
        Err(e) => panic!("unexpected error {:?}", e),
    }
    // Without a map, the loader falls back to bare resolution.
    let plain = SJSModuleLoader::new(
        FileFetcher::new(CacheSetting::Use, false, None),
        Vec::new(),
        Vec::new(),
        None,
    );
    let r = plain
        .resolve(&b"./x.js".to_vec(), &b"https://h/a/main.js".to_vec())
        .expect("resolves");
    assert_eq!(r.text(), &b"https://h/a/x.js".to_vec());
}

#[test]
fn script_sources_resolve_at_the_boundary() {
    let cwd = b"/work".to_vec();
    let r = sjs::resolve_script_source(&sjs::ScriptSource::File(String::from("m.js")), &cwd)
        .expect("resolves");
    assert_eq!(r.text(), &b"file:///work/m.js".to_vec());
    let r = sjs::resolve_script_source(&sjs::ScriptSource::Text(String::from("1+1")), &cwd)
        .expect("resolves");
    assert_eq!(r.text(), &b"sjs://text".to_vec());
    let r = sjs::resolve_script_source(
        &sjs::ScriptSource::URL(String::from("https://h/x.js")),
        &cwd,
    )
        .expect("resolves");
    assert_eq!(r.text(), &b"https://h/x.js".to_vec());
    let r = sjs::resolve_script_source(
        &sjs::ScriptSource::FileOrURL(String::from("https://h/y.js")),
        &cwd,
    )
        .expect("resolves");
    assert_eq!(r.text(), &b"https://h/y.js".to_vec());
    let r = sjs::resolve_script_source(
        &sjs::ScriptSource::FileOrURL(String::from("local.js")),
        &cwd,
    )
        .expect("resolves");
    assert_eq!(r.text(), &b"file:///work/local.js".to_vec());
    // The first program argument mirrors the source.
    let a = sjs::script_source_arg0(&sjs::ScriptSource::FileOrURL(String::from("local.js")), &cwd);
    assert_eq!(a, b"/work/local.js".to_vec());
    let a = sjs::script_source_arg0(&sjs::ScriptSource::URL(String::from("https://h/x.js")), &cwd);
    assert_eq!(a, b"https://h/x.js".to_vec());
    let a = sjs::script_source_arg0(&sjs::ScriptSource::Text(String::from("1")), &cwd);
    assert!(a.is_empty());
}

#[test]
fn resolve_maybe_url_prefers_the_url_reading() {
    let cwd = b"/base".to_vec();
    let r = sjs::resolve_maybe_url(&b"https://h/m.js".to_vec(), &cwd).expect("resolves");
    assert_eq!(r.text(), &b"https://h/m.js".to_vec());
    let r = sjs::resolve_maybe_url(&b"rel/m.js".to_vec(), &cwd).expect("resolves");
    assert_eq!(r.text(), &b"file:///base/rel/m.js".to_vec());
}
