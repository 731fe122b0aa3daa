use toast::breadbox::ImportMap;
use toast::cache::{init, Durability, JsRequestOutcome, Target};
use toast::sources::{Source, SourceKind};
use toast::BuildError;

fn im(pairs: &[(&str, &str)]) -> ImportMap {
    ImportMap {
        imports: pairs.iter().map(|(k, v)| (k.to_string(), v.to_string())).collect(),
    }
}

fn raw(content: &str) -> Source {
    Source {
        source: content.to_string(),
        kind: SourceKind::Raw,
    }
}

#[test]
fn idempotence_second_request_hits_cache() {
    let mut cache = init();
    let map = im(&[("preact", "/web_modules/preact.js")]);
    cache.set_source("src/pages/index.js", raw("code v1"));

    let started = cache
        .request_js("src/pages/index.js", Target::Browser, Some(&map))
        .unwrap();
    let source = match started {
        JsRequestOutcome::Started { source } => source,
        _ => panic!("expected a started computation"),
    };
    assert_eq!(source, "code v1");
    assert_eq!(cache.invocations, 1);

    let stored = cache
        .complete_js(
            "src/pages/index.js",
            Target::Browser,
            Some(&map),
            &source,
            Ok(String::from("compiled v1")),
        )
        .unwrap();
    assert_eq!(stored, "compiled v1");

    // The second request for the same id/content/context is answered from
    // the cache, without another invocation.
    let again = cache
        .request_js("src/pages/index.js", Target::Browser, Some(&map))
        .unwrap();
    assert!(matches!(again, JsRequestOutcome::Ready { code } if code == "compiled v1"));
    assert_eq!(cache.invocations, 1);
    assert_eq!(
        cache.get_js_for_browser("src/pages/index.js", &map),
        Some(String::from("compiled v1"))
    );
}

#[test]
fn invalidation_changed_content_recomputes() {
    let mut cache = init();
    let map = im(&[]);
    cache.set_source("a.js", raw("one"));
    match cache.request_js("a.js", Target::Browser, Some(&map)).unwrap() {
        JsRequestOutcome::Started { source } => {
            cache
                .complete_js("a.js", Target::Browser, Some(&map), &source, Ok(String::from("out one")))
                .unwrap();
        }
        _ => panic!("expected a started computation"),
    }
    assert_eq!(cache.invocations, 1);

    // Re-registering different content invalidates the stored entry.
    cache.set_source("a.js", raw("two"));
    assert_eq!(cache.get_js_for_browser("a.js", &map), None);
    match cache.request_js("a.js", Target::Browser, Some(&map)).unwrap() {
        JsRequestOutcome::Started { source } => {
            assert_eq!(source, "two");
            cache
                .complete_js("a.js", Target::Browser, Some(&map), &source, Ok(String::from("out two")))
                .unwrap();
        }
        _ => panic!("the toolchain must be invoked again"),
    }
    assert_eq!(cache.invocations, 2);
    assert_eq!(cache.get_js_for_browser("a.js", &map), Some(String::from("out two")));
}

#[test]
fn invalidation_changed_context_recomputes() {
    let mut cache = init();
    let map1 = im(&[("preact", "/web_modules/preact.js")]);
    let map2 = im(&[("preact", "/elsewhere/preact.js")]);
    cache.set_source("a.js", raw("one"));
    match cache.request_js("a.js", Target::Browser, Some(&map1)).unwrap() {
        JsRequestOutcome::Started { source } => {
            cache
                .complete_js("a.js", Target::Browser, Some(&map1), &source, Ok(String::from("with map1")))
                .unwrap();
        }
        _ => panic!("expected a started computation"),
    }
    assert_eq!(cache.get_js_for_browser("a.js", &map1), Some(String::from("with map1")));
    assert_eq!(cache.get_js_for_browser("a.js", &map2), None);
}

#[test]
fn coalescing_one_invocation_for_concurrent_requests() {
    let mut cache = init();
    cache.set_source("a.js", raw("code"));

    let first = cache.request_js("a.js", Target::Server, None).unwrap();
    let source = match first {
        JsRequestOutcome::Started { source } => source,
        _ => panic!("the first request starts the computation"),
    };
    // Further requests while the computation is in flight are told to
    // wait; no second computation starts.
    assert!(matches!(
        cache.request_js("a.js", Target::Server, None).unwrap(),
        JsRequestOutcome::Pending
    ));
    assert!(matches!(
        cache.request_js("a.js", Target::Server, None).unwrap(),
        JsRequestOutcome::Pending
    ));
    assert_eq!(cache.invocations, 1);

    cache
        .complete_js("a.js", Target::Server, None, &source, Ok(String::from("out")))
        .unwrap();
    assert!(matches!(
        cache.request_js("a.js", Target::Server, None).unwrap(),
        JsRequestOutcome::Ready { code } if code == "out"
    ));
    assert_eq!(cache.invocations, 1);
    assert_eq!(cache.get_js_for_server("a.js"), Some(String::from("out")));
}

#[test]
fn failed_computation_stores_nothing_and_retries() {
    let mut cache = init();
    cache.set_source("bad.js", raw("oops"));
    let source = match cache.request_js("bad.js", Target::Server, None).unwrap() {
        JsRequestOutcome::Started { source } => source,
        _ => panic!("expected a started computation"),
    };
    let err = cache
        .complete_js("bad.js", Target::Server, None, &source, Err(String::from("syntax error")))
        .unwrap_err();
    match err {
        BuildError::ToolchainError { id, message } => {
            assert_eq!(id, "bad.js");
            assert_eq!(message, "syntax error");
        }
        other => panic!("unexpected error {:?}", other),
    }
    // Nothing was stored: the next request retries rather than replaying
    // the stale failure.
    assert_eq!(cache.get_js_for_server("bad.js"), None);
    assert!(matches!(
        cache.request_js("bad.js", Target::Server, None).unwrap(),
        JsRequestOutcome::Started { .. }
    ));
    assert_eq!(cache.invocations, 2);
}

#[test]
fn unregistered_source_is_not_found() {
    let mut cache = init();
    let err = cache.request_js("ghost.js", Target::Server, None).unwrap_err();
    assert!(matches!(err, BuildError::NotFound { id } if id == "ghost.js"));
}

#[test]
fn recorded_reads_are_answered_and_replaced() {
    let mut cache = init();
    let err = cache.read("src/a.js").unwrap_err();
    assert!(matches!(err, BuildError::NotFound { id } if id == "src/a.js"));
    cache.record_read("src/a.js", "first", Durability::Low);
    assert_eq!(cache.read("src/a.js").unwrap(), "first");
    cache.record_read("src/a.js", "second", Durability::High);
    assert_eq!(cache.read("src/a.js").unwrap(), "second");
}

#[test]
fn targets_are_cached_independently() {
    let mut cache = init();
    let map = im(&[]);
    cache.set_source("a.js", raw("code"));
    match cache.request_js("a.js", Target::Browser, Some(&map)).unwrap() {
        JsRequestOutcome::Started { source } => {
            cache
                .complete_js("a.js", Target::Browser, Some(&map), &source, Ok(String::from("browser out")))
                .unwrap();
        }
        _ => panic!("expected a started computation"),
    }
    assert_eq!(cache.get_js_for_browser("a.js", &map), Some(String::from("browser out")));
    assert_eq!(cache.get_js_for_server("a.js"), None);
}

#[test]
fn reregistering_identical_content_keeps_entries_valid() {
    let mut cache = init();
    let map = im(&[]);
    cache.set_source("a.js", raw("same"));
    match cache.request_js("a.js", Target::Browser, Some(&map)).unwrap() {
        JsRequestOutcome::Started { source } => {
            cache
                .complete_js("a.js", Target::Browser, Some(&map), &source, Ok(String::from("out")))
                .unwrap();
        }
        _ => panic!("expected a started computation"),
    }
    // The upsert is idempotent: the same content does not invalidate.
    cache.set_source("a.js", raw("same"));
    assert_eq!(cache.get_js_for_browser("a.js", &map), Some(String::from("out")));
    assert_eq!(cache.invocations, 1);
}
