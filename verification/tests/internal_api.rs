use toast::internal_api::{ModuleSpec, SetDataForSlug};
use toast::json::JsonValue;

fn to_model(v: &serde_json::Value) -> JsonValue {
    match v {
        serde_json::Value::Null => JsonValue::Null,
        serde_json::Value::Bool(b) => JsonValue::Bool(*b),
        serde_json::Value::Number(n) => JsonValue::Number(n.to_string()),
        serde_json::Value::String(s) => JsonValue::Text(s.clone()),
        serde_json::Value::Array(items) => JsonValue::Array(items.iter().map(to_model).collect()),
        serde_json::Value::Object(members) => {
            JsonValue::Object(members.iter().map(|(k, m)| (k.clone(), to_model(m))).collect())
        }
    }
}

fn event_from_str(data: &str) -> Result<SetDataForSlug, toast::BuildError> {
    let v: serde_json::Value = serde_json::from_str(data).unwrap();
    SetDataForSlug::from_json(to_model(&v))
}

#[test]
fn test_deserialize_all() {
    let data = r#"
        {
            "slug": "/something",
            "component": {
                "mode": "source",
                "value": "import { h } from 'preact'; export default props => <div>hi</div>"
            },
            "data": {
                "some": "thing"
            },
            "wrapper": {
                "mode": "filepath",
                "value": "./some/where.js"
            }
        }"#;

    let u = event_from_str(data).unwrap();
    assert_eq!(
        SetDataForSlug {
            slug: String::from("/something"),
            component: Some(ModuleSpec::Source {
                code: String::from(
                    "import { h } from 'preact'; export default props => <div>hi</div>"
                )
            }),
            data: Some(JsonValue::Object(vec![(
                String::from("some"),
                JsonValue::Text(String::from("thing"))
            )])),
            wrapper: Some(ModuleSpec::File {
                path: String::from("./some/where.js")
            })
        },
        u
    );
}

#[test]
fn test_deserialize_without_data_and_wrapper() {
    let data = r#"
        {
            "slug": "/something",
            "component": {
                "mode": "source",
                "value": "import { h } from 'preact'; export default props => <div>hi</div>"
            }
        }"#;

    let u = event_from_str(data).unwrap();
    assert_eq!(
        SetDataForSlug {
            slug: String::from("/something"),
            component: Some(ModuleSpec::Source {
                code: String::from(
                    "import { h } from 'preact'; export default props => <div>hi</div>"
                )
            }),
            data: None,
            wrapper: None
        },
        u
    );
}

#[test]
fn test_file_paths_from_slugs() {
    let set = SetDataForSlug {
        slug: String::from("/something/here"),
        component: None,
        data: None,
        wrapper: None,
    };

    assert_eq!(set.slug_as_relative_filepath(), String::from("something/here"));
}

#[test]
fn test_file_paths_from_slug_directories() {
    let set = SetDataForSlug {
        slug: String::from("/something/here/"),
        component: None,
        data: None,
        wrapper: None,
    };

    assert_eq!(set.slug_as_relative_filepath(), String::from("something/here/index"));
}

#[test]
fn normalize_prefixes_slug_with_slash() {
    let mut ev = SetDataForSlug {
        slug: String::from("a/b"),
        component: None,
        data: None,
        wrapper: None,
    };
    ev.normalize();
    assert_eq!(ev.slug, String::from("/a/b"));
}

#[test]
fn normalize_keeps_absolute_slug() {
    let mut ev = SetDataForSlug {
        slug: String::from("/a/b"),
        component: None,
        data: None,
        wrapper: None,
    };
    ev.normalize();
    assert_eq!(ev.slug, String::from("/a/b"));
}

#[test]
fn normalize_erases_empty_object_data() {
    let mut ev = SetDataForSlug {
        slug: String::from("/a"),
        component: None,
        data: Some(JsonValue::Object(vec![])),
        wrapper: None,
    };
    ev.normalize();
    assert_eq!(ev.data, None);
}

#[test]
fn normalize_preserves_nonempty_data() {
    let mut ev = SetDataForSlug {
        slug: String::from("/a"),
        component: None,
        data: Some(JsonValue::Object(vec![(
            String::from("x"),
            JsonValue::Number(String::from("1")),
        )])),
        wrapper: None,
    };
    ev.normalize();
    assert_eq!(
        ev.data,
        Some(JsonValue::Object(vec![(
            String::from("x"),
            JsonValue::Number(String::from("1"))
        )]))
    );
}

#[test]
fn malformed_event_is_rejected() {
    let err = event_from_str(r#"{ "component": null }"#).unwrap_err();
    assert!(matches!(err, toast::BuildError::MalformedEvent { .. }));
    let err = event_from_str(r#"[1, 2]"#).unwrap_err();
    assert!(matches!(err, toast::BuildError::MalformedEvent { .. }));
    let err = event_from_str(r#"{ "slug": "/x", "component": { "mode": "banana" } }"#).unwrap_err();
    assert!(matches!(err, toast::BuildError::MalformedEvent { .. }));
}

#[test]
fn component_mode_aliases_are_accepted() {
    let ev = event_from_str(r#"{ "slug": "/x", "component": { "mode": "no-module" } }"#).unwrap();
    assert_eq!(ev.component, Some(ModuleSpec::NoModule));
    let ev = event_from_str(r#"{ "slug": "/x", "component": { "mode": "File", "path": "p.js" } }"#)
        .unwrap();
    assert_eq!(ev.component, Some(ModuleSpec::File { path: String::from("p.js") }));
    let ev = event_from_str(r#"{ "slug": "/x", "component": null }"#).unwrap();
    assert_eq!(ev.component, None);
}
