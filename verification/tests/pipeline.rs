use toast::breadbox::{parse_import_map, ImportMap};
use toast::cache::{JsRequestOutcome, Target};
use toast::incremental::{
    compile_paths, discovered_source_id, should_copy_static, tmp_dir_of, BuildRun, Phase,
};
use toast::internal_api::{ModuleSpec, SetDataForSlug};
use toast::json::{to_json_string, JsonValue};
use toast::node::{render_args, source_data_args, subprocess_outcome, SubprocessOutcome};
use toast::paths::{join_path, parent_dir, with_extension};
use toast::svg::SVGImportToComponent;
use toast::swc_import_map_rewrite::{is_source_import, SWCImportMapRewrite};
use toast::BuildError;

fn map(pairs: &[(&str, &str)]) -> ImportMap {
    ImportMap {
        imports: pairs.iter().map(|(k, v)| (k.to_string(), v.to_string())).collect(),
    }
}

fn compile_both(run: &mut BuildRun, id: &str, import_map: &ImportMap) -> (String, String) {
    let mut outs = Vec::new();
    for target in [Target::Browser, Target::Server] {
        let context = match target {
            Target::Browser => Some(import_map),
            Target::Server => None,
        };
        let source = match run.cache.request_js(id, target, context).unwrap() {
            JsRequestOutcome::Started { source } => source,
            JsRequestOutcome::Ready { code } => {
                outs.push(code);
                continue;
            }
            JsRequestOutcome::Pending => panic!("nothing else is compiling"),
        };
        let compiled = format!("compiled({})", source);
        outs.push(
            run.cache
                .complete_js(id, target, context, &source, Ok(compiled))
                .unwrap(),
        );
    }
    (outs[0].clone(), outs[1].clone())
}

#[test]
fn end_to_end_two_pages_no_events() {
    let import_map = map(&[]);
    let mut run = BuildRun::start();

    // Discover: two on-disk page modules under the project root.
    for (path, content) in [
        ("/proj/src/pages/index.js", "index code"),
        ("/proj/src/pages/about.js", "about code"),
    ] {
        let id = discovered_source_id("/proj", path).unwrap();
        run.register_source_file(&id, path, content);
    }
    assert_eq!(discovered_source_id("/proj", "/proj/src/pages/style.css"), None);
    run.finish_discovery();

    // Collect: the data-sourcing subprocess ran and exited cleanly with
    // zero events.
    run.data_source_exited(&SubprocessOutcome::Exited { code: 0 });
    run.drain_events(vec![]);
    run.finish_apply();

    // Compile: exactly two browser and two server outputs at the
    // expected relative paths.
    let tmp = tmp_dir_of("/proj");
    assert_eq!(tmp, "/proj/.tmp");
    let mut written = Vec::new();
    for i in 0..run.output_files.len() {
        let id = run.output_files[i].source_id.clone();
        let dest = run.output_files[i].dest.clone();
        let (browser_out, server_out) = compile_both(&mut run, &id, &import_map);
        let (browser_path, server_path) = compile_paths("/proj/public", &tmp, &dest);
        written.push((browser_path, browser_out));
        written.push((server_path, server_out));
    }
    assert_eq!(
        written,
        vec![
            (
                String::from("/proj/public/src/pages/index.js"),
                String::from("compiled(index code)")
            ),
            (
                String::from("/proj/.tmp/src/pages/index.js"),
                String::from("compiled(index code)")
            ),
            (
                String::from("/proj/public/src/pages/about.js"),
                String::from("compiled(about code)")
            ),
            (
                String::from("/proj/.tmp/src/pages/about.js"),
                String::from("compiled(about code)")
            ),
        ]
    );
    assert_eq!(run.cache.invocations, 4);
    run.finish_compile();

    // Render: invoked with exactly the two page ids.
    let list = run.render_file_list();
    assert_eq!(
        list,
        vec![String::from("src/pages/index.js"), String::from("src/pages/about.js")]
    );
    run.renderer_exited(&SubprocessOutcome::Exited { code: 0 });
    run.finish_static();
    assert_eq!(run.phase, Phase::Done);
    assert_eq!(run.error, None);
}

#[test]
fn end_to_end_dynamic_page() {
    let import_map = map(&[]);
    let mut run = BuildRun::start();
    run.finish_discovery();
    run.data_source_exited(&SubprocessOutcome::Exited { code: 0 });

    // The IPC event as the listener would hand it over.
    let event = SetDataForSlug {
        slug: String::from("/blog/post-1"),
        component: Some(ModuleSpec::Source {
            code: String::from("export default () => 1"),
        }),
        data: Some(JsonValue::Object(vec![(
            String::from("title"),
            JsonValue::Text(String::from("Hi")),
        )])),
        wrapper: None,
    };
    run.drain_events(vec![event]);

    let plan = run.apply_next_event("/proj/public").unwrap();

    // The inline component was registered as a dynamic source under the
    // slug.
    let job = plan.compile.unwrap();
    assert_eq!(job.source_id, "/blog/post-1");
    assert_eq!(job.dest, "blog/post-1.js");
    let source = match run.cache.request_js(&job.source_id, Target::Server, None).unwrap() {
        JsRequestOutcome::Started { source } => source,
        _ => panic!("the dynamic source must be registered and uncompiled"),
    };
    assert_eq!(source, "export default () => 1");
    run.cache
        .complete_js(&job.source_id, Target::Server, None, &source, Ok(String::from("server js")))
        .unwrap();
    match run.cache.request_js(&job.source_id, Target::Browser, Some(&import_map)).unwrap() {
        JsRequestOutcome::Started { source } => {
            run.cache
                .complete_js(
                    &job.source_id,
                    Target::Browser,
                    Some(&import_map),
                    &source,
                    Ok(String::from("browser js")),
                )
                .unwrap();
        }
        _ => panic!("the browser target is uncompiled"),
    }

    // Its outputs land under both trees at the slug's path.
    let (browser_path, server_path) = compile_paths("/proj/public", "/proj/.tmp", &job.dest);
    assert_eq!(browser_path, "/proj/public/blog/post-1.js");
    assert_eq!(server_path, "/proj/.tmp/blog/post-1.js");

    // The data document is written at the slug's json path, verbatim.
    let write = plan.data_write.unwrap();
    assert_eq!(write.path, "/proj/public/blog/post-1.json");
    assert_eq!(write.contents, "{\"title\":\"Hi\"}");

    // The renderer's file list includes the dynamic page.
    run.finish_apply();
    run.finish_compile();
    assert_eq!(run.render_file_list(), vec![String::from("blog/post-1.js")]);
}

#[test]
fn fatal_data_source_exit_aborts_before_apply() {
    let mut run = BuildRun::start();
    run.finish_discovery();
    run.data_source_exited(&SubprocessOutcome::Exited { code: 2 });
    assert_eq!(run.phase, Phase::Failed);
    match run.error {
        Some(BuildError::SubprocessFailure { ref name, code }) => {
            assert_eq!(name, "sourceData");
            assert_eq!(code, 2);
        }
        ref other => panic!("unexpected error {:?}", other),
    }
    // No event was applied.
    assert_eq!(run.applied, 0);
}

#[test]
fn unimplemented_component_kinds_abort() {
    let mut run = BuildRun::start();
    run.finish_discovery();
    run.data_source_exited(&SubprocessOutcome::Exited { code: 0 });
    run.drain_events(vec![SetDataForSlug {
        slug: String::from("/x"),
        component: Some(ModuleSpec::NoModule),
        data: None,
        wrapper: None,
    }]);
    let err = run.apply_next_event("/out").unwrap_err();
    assert!(matches!(err, BuildError::UnimplementedSpec { .. }));
    assert_eq!(run.phase, Phase::Failed);
}

#[test]
fn wrappers_abort() {
    let mut run = BuildRun::start();
    run.finish_discovery();
    run.data_source_exited(&SubprocessOutcome::Exited { code: 0 });
    run.drain_events(vec![SetDataForSlug {
        slug: String::from("/x"),
        component: None,
        data: None,
        wrapper: Some(ModuleSpec::File { path: String::from("w.js") }),
    }]);
    let err = run.apply_next_event("/out").unwrap_err();
    assert!(matches!(err, BuildError::UnimplementedSpec { .. }));
    assert_eq!(run.phase, Phase::Failed);
}

#[test]
fn null_data_writes_nothing() {
    let mut run = BuildRun::start();
    run.finish_discovery();
    run.data_source_exited(&SubprocessOutcome::Exited { code: 0 });
    run.drain_events(vec![SetDataForSlug {
        slug: String::from("/x"),
        component: None,
        data: Some(JsonValue::Null),
        wrapper: None,
    }]);
    let plan = run.apply_next_event("/out").unwrap();
    assert!(plan.compile.is_none());
    assert!(plan.data_write.is_none());
}

#[test]
fn render_arguments_are_exact() {
    let args = render_args(
        "/proj/.tmp",
        "/proj/public",
        &vec![String::from("src/pages/index.js"), String::from("blog/post-1.js")],
        "/npm/toast",
    );
    assert_eq!(
        args,
        vec![
            String::from("--unhandled-rejections"),
            String::from("strict"),
            String::from("--loader"),
            String::from("toast/src/loader.mjs"),
            String::from("/npm/toast/toast-render.mjs"),
            String::from("/proj/.tmp"),
            String::from("/proj/public"),
            String::from("src/pages/index.js"),
            String::from("blog/post-1.js"),
        ]
    );
}

#[test]
fn source_data_arguments_are_exact() {
    let args = source_data_args("/var/tmp/toaster.sock", "/proj/toast.js", "/npm/toast");
    assert_eq!(
        args,
        vec![
            String::from("--unhandled-rejections"),
            String::from("strict"),
            String::from("--loader"),
            String::from("toast/src/loader.mjs"),
            String::from("/npm/toast/toast-source-data.mjs"),
            String::from("/var/tmp/toaster.sock"),
            String::from("/proj/toast.js"),
        ]
    );
}

#[test]
fn subprocess_outcomes_map_to_errors() {
    assert!(subprocess_outcome("renderHTML", &SubprocessOutcome::Exited { code: 0 }).is_ok());
    match subprocess_outcome("renderHTML", &SubprocessOutcome::Exited { code: 3 }).unwrap_err() {
        BuildError::SubprocessFailure { name, code } => {
            assert_eq!(name, "renderHTML");
            assert_eq!(code, 3);
        }
        other => panic!("unexpected error {:?}", other),
    }
    match subprocess_outcome("sourceData", &SubprocessOutcome::SpawnFailed).unwrap_err() {
        BuildError::SubprocessSpawnFailure { name } => assert_eq!(name, "sourceData"),
        other => panic!("unexpected error {:?}", other),
    }
}

#[test]
fn import_map_values_are_rerooted() {
    let doc = JsonValue::Object(vec![(
        String::from("imports"),
        JsonValue::Object(vec![
            (String::from("preact"), JsonValue::Text(String::from("./preact.js"))),
            (
                String::from("react"),
                JsonValue::Text(String::from("https://cdn.example/react.js")),
            ),
        ]),
    )]);
    let parsed = parse_import_map(&doc).unwrap();
    assert_eq!(
        parsed.imports,
        vec![
            (String::from("preact"), String::from("/web_modules/preact.js")),
            (String::from("react"), String::from("https://cdn.example/react.js")),
        ]
    );

    let bad = JsonValue::Object(vec![]);
    assert!(matches!(
        parse_import_map(&bad).unwrap_err(),
        BuildError::MalformedEvent { .. }
    ));
}

#[test]
fn import_rewrite_decisions() {
    let rewrite = SWCImportMapRewrite {
        import_map: map(&[("preact", "/web_modules/preact.js")]),
    };
    // A mapped specifier takes the import map's value.
    assert_eq!(rewrite.rewrite_import("preact"), "/web_modules/preact.js");
    // A source import gets the `.js` suffix.
    assert_eq!(rewrite.rewrite_import("./components/nav"), "./components/nav.js");
    assert_eq!(rewrite.rewrite_import("/lib/util"), "/lib/util.js");
    // A bare unmapped specifier is untouched.
    assert_eq!(rewrite.rewrite_import("left-pad"), "left-pad");

    assert!(is_source_import("./x"));
    assert!(is_source_import("/x"));
    assert!(is_source_import("\\x"));
    assert!(!is_source_import("x"));
}

#[test]
fn json_serialization_is_compact_and_escaped() {
    let doc = JsonValue::Object(vec![
        (
            String::from("a"),
            JsonValue::Array(vec![
                JsonValue::Number(String::from("1")),
                JsonValue::Bool(true),
                JsonValue::Null,
                JsonValue::Text(String::from("x\"y\\z")),
            ]),
        ),
        (String::from("nl"), JsonValue::Text(String::from("a\nb\u{1}c"))),
    ]);
    assert_eq!(
        to_json_string(&doc),
        "{\"a\":[1,true,null,\"x\\\"y\\\\z\"],\"nl\":\"a\\nb\\u0001c\"}"
    );
}

#[test]
fn path_arithmetic() {
    assert_eq!(with_extension("blog/post-1", "js"), "blog/post-1.js");
    assert_eq!(with_extension("a/b.jsx", "js"), "a/b.js");
    assert_eq!(with_extension("a/.hidden", "json"), "a/.hidden.json");
    assert_eq!(join_path("/out", "a/b.js"), "/out/a/b.js");
    assert_eq!(join_path("/out/", "a/b.js"), "/out/a/b.js");
    assert_eq!(parent_dir("a/b/c.js"), Some(String::from("a/b")));
    assert_eq!(parent_dir("c.js"), None);
    assert!(should_copy_static(true, true));
    assert!(!should_copy_static(true, false));
}

#[test]
fn svg_import_decisions() {
    let pass = SVGImportToComponent {
        filepath: String::from("src/pages/index.js"),
        npm_bin_dir: String::from("/npm/bin"),
    };
    assert!(SVGImportToComponent::is_svg_import("./logo.svg"));
    assert!(!SVGImportToComponent::is_svg_import("./logo.png"));
    assert_eq!(pass.svg_path("./logo.svg"), Some(String::from("src/pages/./logo.svg")));
}

#[test]
fn io_failure_fails_the_run() {
    let mut run = BuildRun::start();
    run.fail(BuildError::IOFailure {
        path: String::from("/proj/.tmp"),
        operation: String::from("create directories for"),
    });
    assert_eq!(run.phase, Phase::Failed);
    assert_eq!(
        run.error,
        Some(BuildError::IOFailure {
            path: String::from("/proj/.tmp"),
            operation: String::from("create directories for"),
        })
    );
}

#[test]
fn empty_imports_object_is_an_empty_map() {
    let doc = JsonValue::Object(vec![(String::from("imports"), JsonValue::Object(vec![]))]);
    let parsed = parse_import_map(&doc).unwrap();
    assert_eq!(parsed.imports, vec![]);
}
