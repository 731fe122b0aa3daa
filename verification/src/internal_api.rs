//! The "declare page" event that the data-sourcing process posts to the
//! build: its wire decoding, its normalization, and the mapping from a
//! slug to a relative file path.

use vstd::prelude::*;
use crate::BuildError;
use crate::json::{JsonValue, spec_is_empty_object, is_empty_object};
use crate::table::{tbl_get, tbl_member, tbl_take};

verus! {

/// How a dynamically declared page supplies its component.
#[derive(Debug, Clone, PartialEq, Eq)]
pub enum ModuleSpec {
    NoModule,
    File { path: String },
    Source { code: String },
}

#[derive(Debug, PartialEq, Eq)]
pub struct SetDataForSlug {
    /// `/some/url` or `some/url`; normalization forces the leading `/`.
    pub slug: String,
    pub component: Option<ModuleSpec>,
    pub data: Option<JsonValue>,
    pub wrapper: Option<ModuleSpec>,
}

/// A slug with the leading `/` forced on.
pub open spec fn spec_normal_slug(s: Seq<char>) -> Seq<char> {
    if s.len() > 0 && s[0] == '/' {
        s
    } else {
        seq!['/'] + s
    }
}

/// `data` with an empty object erased: an object with no keys must not
/// produce a file nor blow away data written earlier.
pub open spec fn spec_normal_data(d: Option<JsonValue>) -> Option<JsonValue> {
    match d {
        Some(v) => if spec_is_empty_object(v) {
            None
        } else {
            Some(v)
        },
        None => None,
    }
}

/// The slug with all leading slashes dropped.
pub open spec fn spec_strip_leading_slashes(s: Seq<char>) -> Seq<char>
    decreases s.len(),
{
    if s.len() > 0 && s[0] == '/' {
        spec_strip_leading_slashes(s.drop_first())
    } else {
        s
    }
}

/// The relative file path of a slug: leading slashes dropped; a slug that
/// names a directory (trailing `/`) gets `index` appended.
pub open spec fn spec_slug_relative_filepath(s: Seq<char>) -> Seq<char> {
    let t = spec_strip_leading_slashes(s);
    if t.len() > 0 && t[t.len() - 1] == '/' {
        t + seq!['i', 'n', 'd', 'e', 'x']
    } else {
        t
    }
}

proof fn lemma_strip_leading_slashes(s: Seq<char>, i: int)
    requires
        0 <= i <= s.len(),
        forall|k: int| 0 <= k < i ==> s[k] == '/',
        i == s.len() || s[i] != '/',
    ensures
        spec_strip_leading_slashes(s) == s.subrange(i, s.len() as int),
    decreases i,
{
    if i == 0 {
        assert(s.subrange(0, s.len() as int) =~= s);
    } else {
        let t = s.drop_first();
        assert(t =~= s.subrange(1, s.len() as int));
        lemma_strip_leading_slashes(t, i - 1);
        assert(t.subrange(i - 1, t.len() as int) =~= s.subrange(i, s.len() as int));
    }
}

impl SetDataForSlug {
    /// Forces the slug absolute and erases an empty-object `data`; the
    /// component and wrapper pass through untouched.
    pub fn normalize(&mut self)
        ensures
            final(self).slug@ == spec_normal_slug(old(self).slug@),
            final(self).data == spec_normal_data(old(self).data),
            final(self).component == old(self).component,
            final(self).wrapper == old(self).wrapper,
    {
        let n = self.slug.unicode_len();
        if n == 0 || self.slug.get_char(0) != '/' {
            proof {
                reveal_strlit("/");
            }
            let mut s = String::from_str("/");
            s.append(self.slug.as_str());
            proof {
                assert(s@ =~= seq!['/'] + old(self).slug@);
            }
            self.slug = s;
        }
        let erase = match &self.data {
            Some(v) => is_empty_object(v),
            None => false,
        };
        if erase {
            self.data = None;
        }
    }

    /// The file path a slug maps to, relative to an output root.
    pub fn slug_as_relative_filepath(&self) -> (r: String)
        ensures
            r@ == spec_slug_relative_filepath(self.slug@),
    {
        let n = self.slug.unicode_len();
        let mut i: usize = 0;
        while i < n && self.slug.get_char(i) == '/'
            invariant
                n == self.slug@.len(),
                i <= n,
                forall|k: int| 0 <= k < i ==> self.slug@[k] == '/',
            decreases n - i,
    {
            i = i + 1;
        }
        proof {
            lemma_strip_leading_slashes(self.slug@, i as int);
        }
        let stripped = self.slug.as_str().substring_char(i, n);
        let m = stripped.unicode_len();
        if m > 0 && stripped.get_char(m - 1) == '/' {
            proof {
                reveal_strlit("index");
            }
            let mut out = stripped.to_owned();
            out.append("index");
            proof {
                assert(("index")@ =~= seq!['i', 'n', 'd', 'e', 'x']);
            }
            out
        } else {
            stripped.to_owned()
        }
    }
}

/// The member stored under `key` when `v` is an object.
pub open spec fn member_of(members: Seq<(String, JsonValue)>, key: Seq<char>) -> Option<JsonValue> {
    tbl_get(members, key)
}

/// A string-valued field under its primary name, or under its alias when
/// the primary name is absent.
pub open spec fn spec_string_field(
    members: Seq<(String, JsonValue)>,
    primary: Seq<char>,
    alias: Seq<char>,
) -> Option<String> {
    match member_of(members, primary) {
        Some(JsonValue::Text(s)) => Some(s),
        Some(_) => None,
        None => match member_of(members, alias) {
            Some(JsonValue::Text(s)) => Some(s),
            _ => None,
        },
    }
}

/// Decoding of a component document: an object tagged by its `mode`
/// member, each mode accepting the variant name or its wire alias, with
/// the payload under its field name or under `value`.
pub open spec fn spec_module_spec(m: JsonValue) -> Option<ModuleSpec> {
    match m {
        JsonValue::Object(members) => match member_of(members@, "mode"@) {
            Some(JsonValue::Text(mode)) => if mode@ == "NoModule"@ || mode@ == "no-module"@ {
                Some(ModuleSpec::NoModule)
            } else if mode@ == "File"@ || mode@ == "filepath"@ {
                match spec_string_field(members@, "path"@, "value"@) {
                    Some(s) => Some(ModuleSpec::File { path: s }),
                    None => None,
                }
            } else if mode@ == "Source"@ || mode@ == "source"@ {
                match spec_string_field(members@, "code"@, "value"@) {
                    Some(s) => Some(ModuleSpec::Source { code: s }),
                    None => None,
                }
            } else {
                None
            },
            _ => None,
        },
        _ => None,
    }
}

/// An optional component field: absent or JSON null mean none; anything
/// else must decode as a component. The outer `None` is a malformed field.
pub open spec fn spec_opt_module(
    members: Seq<(String, JsonValue)>,
    key: Seq<char>,
) -> Option<Option<ModuleSpec>> {
    match member_of(members, key) {
        None => Some(None),
        Some(JsonValue::Null) => Some(None),
        Some(m) => match spec_module_spec(m) {
            Some(ms) => Some(Some(ms)),
            None => None,
        },
    }
}

/// The event a JSON document decodes to, if it is well-formed: an object
/// with a string `slug`, optional `component` and `wrapper` components,
/// and an optional `data` document (JSON null counting as absent).
pub open spec fn spec_event_of_json(v: JsonValue) -> Option<SetDataForSlug> {
    match v {
        JsonValue::Object(members) => match member_of(members@, "slug"@) {
            Some(JsonValue::Text(slug)) => match (
                spec_opt_module(members@, "component"@),
                spec_opt_module(members@, "wrapper"@),
            ) {
                (Some(component), Some(wrapper)) => Some(SetDataForSlug {
                    slug,
                    component,
                    data: match member_of(members@, "data"@) {
                        Some(JsonValue::Null) => None,
                        Some(d) => Some(d),
                        None => None,
                    },
                    wrapper,
                }),
                _ => None,
            },
            _ => None,
        },
        _ => None,
    }
}

/// Exec decoding of one string-valued field, mirroring `spec_string_field`.
fn string_field(members: &Vec<(String, JsonValue)>, primary: &str, alias: &str) -> (r: Option<
    String,
>)
    ensures
        r == spec_string_field(members@, primary@, alias@),
{
    match tbl_member(members, primary) {
        Some(m) => match m {
            JsonValue::Text(s) => Some(s.clone()),
            _ => None,
        },
        None => match tbl_member(members, alias) {
            Some(m) => match m {
                JsonValue::Text(s) => Some(s.clone()),
                _ => None,
            },
            None => None,
        },
    }
}

/// Exec decoding of a component document, mirroring `spec_module_spec`.
fn module_spec_of(m: &JsonValue) -> (r: Option<ModuleSpec>)
    ensures
        r == spec_module_spec(*m),
{
    match m {
        JsonValue::Object(members) => match tbl_member(members, "mode") {
            Some(tag) => match tag {
                JsonValue::Text(mode) => {
                    if crate::paths::str_eq(mode.as_str(), "NoModule") || crate::paths::str_eq(
                        mode.as_str(),
                        "no-module",
                    ) {
                        Some(ModuleSpec::NoModule)
                    } else if crate::paths::str_eq(mode.as_str(), "File") || crate::paths::str_eq(
                        mode.as_str(),
                        "filepath",
                    ) {
                        match string_field(members, "path", "value") {
                            Some(s) => Some(ModuleSpec::File { path: s }),
                            None => None,
                        }
                    } else if crate::paths::str_eq(mode.as_str(), "Source") || crate::paths::str_eq(
                        mode.as_str(),
                        "source",
                    ) {
                        match string_field(members, "code", "value") {
                            Some(s) => Some(ModuleSpec::Source { code: s }),
                            None => None,
                        }
                    } else {
                        None
                    }
                },
                _ => None,
            },
            None => None,
        },
        _ => None,
    }
}

/// Exec decoding of an optional component field.
fn opt_module_field(members: &Vec<(String, JsonValue)>, key: &str) -> (r: Option<
    Option<ModuleSpec>,
>)
    ensures
        r == spec_opt_module(members@, key@),
{
    match tbl_member(members, key) {
        None => Some(None),
        Some(m) => match m {
            JsonValue::Null => Some(None),
            _ => match module_spec_of(m) {
                Some(ms) => Some(Some(ms)),
                None => None,
            },
        },
    }
}

impl SetDataForSlug {
    /// Decodes the wire form of a page event. Returns the event exactly
    /// when `spec_event_of_json` accepts the document, and a
    /// `MalformedEvent` otherwise.
    pub fn from_json(v: JsonValue) -> (r: Result<SetDataForSlug, BuildError>)
        ensures
            match r {
                Ok(ev) => spec_event_of_json(v) == Some(ev),
                Err(e) => spec_event_of_json(v) is None && e matches BuildError::MalformedEvent { .. },
            },
    {
        let ghost v_g = v;
        let mut members: Vec<(String, JsonValue)> = match v {
            JsonValue::Object(m) => m,
            _ => {
                return Err(BuildError::MalformedEvent {
                    message: String::from_str("event is not a JSON object"),
                });
            },
        };
        let slug = match tbl_member(&members, "slug") {
            Some(m) => match m {
                JsonValue::Text(s) => s.clone(),
                _ => {
                    return Err(BuildError::MalformedEvent {
                        message: String::from_str("slug is not a string"),
                    });
                },
            },
            None => {
                return Err(BuildError::MalformedEvent {
                    message: String::from_str("slug is missing"),
                });
            },
        };
        let component = match opt_module_field(&members, "component") {
            Some(c) => c,
            None => {
                return Err(BuildError::MalformedEvent {
                    message: String::from_str("component does not describe a module"),
                });
            },
        };
        let wrapper = match opt_module_field(&members, "wrapper") {
            Some(w) => w,
            None => {
                return Err(BuildError::MalformedEvent {
                    message: String::from_str("wrapper does not describe a module"),
                });
            },
        };
        let data = match tbl_take(&mut members, "data") {
            Some(d) => match d {
                JsonValue::Null => None,
                other => Some(other),
            },
            None => None,
        };
        Ok(SetDataForSlug { slug, component, data, wrapper })
    }
}

} // verus!
