//! The import map: module specifiers mapped to the URLs they are rewritten
//! to in browser output. Parsed from the `imports` member of
//! `import-map.json`; relative values are re-rooted under `/web_modules/`.

use vstd::prelude::*;
use crate::BuildError;
use crate::json::JsonValue;
use crate::table::{tbl_get, tbl_member};
use crate::paths::{spec_starts_with, str_starts_with};

verus! {

#[derive(Debug)]
pub struct ImportMap {
    pub imports: Vec<(String, String)>,
}

/// The mathematical content of an import list: each pair as character
/// sequences, in order.
pub open spec fn view_of_imports(s: Seq<(String, String)>) -> Seq<(Seq<char>, Seq<char>)> {
    s.map_values(|p: (String, String)| (p.0@, p.1@))
}

impl ImportMap {
    pub open spec fn view_eq(self, other: ImportMap) -> bool {
        view_of_imports(self.imports@) == view_of_imports(other.imports@)
    }

    /// A copy that is, pair for pair, the same map.
    pub fn duplicate(&self) -> (r: ImportMap)
        ensures
            r.imports@ == self.imports@,
    {
        let n = self.imports.len();
        let mut out: Vec<(String, String)> = Vec::new();
        let mut i: usize = 0;
        while i < n
            invariant
                n == self.imports@.len(),
                i <= n,
                out@ == self.imports@.subrange(0, i as int),
            decreases n - i,
        {
            out.push((self.imports[i].0.clone(), self.imports[i].1.clone()));
            proof {
                assert(out@ =~= self.imports@.subrange(0, i + 1));
            }
            i = i + 1;
        }
        proof {
            assert(self.imports@.subrange(0, n as int) =~= self.imports@);
        }
        ImportMap { imports: out }
    }
}

/// Whether two import maps hold the same pairs in the same order.
pub fn import_map_matches(a: &ImportMap, b: &ImportMap) -> (r: bool)
    ensures
        r == (view_of_imports(a.imports@) == view_of_imports(b.imports@)),
{
    let n = a.imports.len();
    let m = b.imports.len();
    if n != m {
        proof {
            assert(view_of_imports(a.imports@).len() != view_of_imports(b.imports@).len());
        }
        return false;
    }
    let mut i: usize = 0;
    while i < n
        invariant
            n == a.imports@.len(),
            n == b.imports@.len(),
            i <= n,
            forall|j: int| 0 <= j < i ==> view_of_imports(a.imports@)[j] == view_of_imports(
                b.imports@,
            )[j],
        decreases n - i,
    {
        if !(a.imports[i].0 == b.imports[i].0 && a.imports[i].1 == b.imports[i].1) {
            proof {
                assert(view_of_imports(a.imports@)[i as int] != view_of_imports(
                    b.imports@,
                )[i as int]);
            }
            return false;
        }
        i = i + 1;
    }
    proof {
        assert(view_of_imports(a.imports@) =~= view_of_imports(b.imports@));
    }
    true
}

/// A relative import-map value means relative to the `web_modules`
/// directory, so `./x` becomes `/web_modules/x`; anything else stands.
pub open spec fn spec_rewrite_map_value(val: Seq<char>) -> Seq<char> {
    if spec_starts_with(val, "./"@) {
        "/web_modules/"@ + val.subrange(2, val.len() as int)
    } else {
        val
    }
}

/// What the members of the `imports` object parse to: the keys in order,
/// each value rewritten; nothing if some value is not a string.
pub open spec fn spec_imports_view(members: Seq<(String, JsonValue)>) -> Option<
    Seq<(Seq<char>, Seq<char>)>,
>
    decreases members.len(),
{
    if members.len() == 0 {
        Some(Seq::empty())
    } else {
        match members[0].1 {
            JsonValue::Text(s) => match spec_imports_view(members.drop_first()) {
                Some(rest) => Some(seq![(members[0].0@, spec_rewrite_map_value(s@))] + rest),
                None => None,
            },
            _ => None,
        }
    }
}

/// What a whole import-map document parses to: the rewritten `imports`
/// member; nothing if the document or the member has the wrong shape.
pub open spec fn spec_import_map_of_json(v: JsonValue) -> Option<Seq<(Seq<char>, Seq<char>)>> {
    match v {
        JsonValue::Object(members) => match tbl_get(members@, "imports"@) {
            Some(JsonValue::Object(imports)) => spec_imports_view(imports@),
            _ => None,
        },
        _ => None,
    }
}

/// Appending one well-formed member extends the parsed view by one pair.
proof fn lemma_imports_view_snoc(s: Seq<(String, JsonValue)>, p: (String, JsonValue))
    ensures
        spec_imports_view(s.push(p)) == match (spec_imports_view(s), p.1) {
            (Some(rest), JsonValue::Text(t)) => Some(
                rest.push((p.0@, spec_rewrite_map_value(t@))),
            ),
            _ => None::<Seq<(Seq<char>, Seq<char>)>>,
        },
    decreases s.len(),
{
    let w = s.push(p);
    if s.len() == 0 {
        assert(w[0] == p);
        assert(w.drop_first() =~= Seq::<(String, JsonValue)>::empty());
        assert(spec_imports_view(Seq::<(String, JsonValue)>::empty()) == Some(
            Seq::<(Seq<char>, Seq<char>)>::empty(),
        ));
        match p.1 {
            JsonValue::Text(t) => {
                assert(spec_imports_view(w).unwrap() =~= Seq::<(Seq<char>, Seq<char>)>::empty()
                    .push((p.0@, spec_rewrite_map_value(t@))));
            },
            _ => {},
        }
    } else {
        assert(w[0] == s[0]);
        assert(w.drop_first() =~= s.drop_first().push(p));
        lemma_imports_view_snoc(s.drop_first(), p);
        match (s[0].1, spec_imports_view(s.drop_first()), p.1) {
            (JsonValue::Text(_), Some(rest), JsonValue::Text(t)) => {
                assert(spec_imports_view(w).unwrap() =~= spec_imports_view(s).unwrap().push(
                    (p.0@, spec_rewrite_map_value(t@)),
                ));
            },
            _ => {},
        }
    }
}

/// Rewrites one import-map value.
fn rewrite_map_value(val: &str) -> (r: String)
    ensures
        r@ == spec_rewrite_map_value(val@),
{
    if str_starts_with(val, "./") {
        proof {
            reveal_strlit("./");
        }
        let n = val.unicode_len();
        let tail = val.substring_char(2, n);
        let mut out = String::from_str("/web_modules/");
        out.append(tail);
        out
    } else {
        val.to_owned()
    }
}

/// Parses an import-map document: exactly `spec_import_map_of_json`, with
/// a `MalformedEvent` where the document has the wrong shape.
#[verifier::loop_isolation(false)]
pub fn parse_import_map(v: &JsonValue) -> (r: Result<ImportMap, BuildError>)
    ensures
        match r {
            Ok(im) => spec_import_map_of_json(*v) == Some(view_of_imports(im.imports@)),
            Err(e) => spec_import_map_of_json(*v) is None && e matches BuildError::MalformedEvent {
                ..
            },
        },
{
    let members = match v {
        JsonValue::Object(members) => members,
        _ => {
            return Err(BuildError::MalformedEvent {
                message: String::from_str("import map is not a JSON object"),
            });
        },
    };
    let imports = match tbl_member(members, "imports") {
        Some(m) => match m {
            JsonValue::Object(imports) => imports,
            _ => {
                return Err(BuildError::MalformedEvent {
                    message: String::from_str("imports is not a JSON object"),
                });
            },
        },
        None => {
            return Err(BuildError::MalformedEvent {
                message: String::from_str("imports is missing"),
            });
        },
    };
    let n = imports.len();
    let mut out: Vec<(String, String)> = Vec::new();
    let mut i: usize = 0;
    while i < n
        invariant
            n == imports@.len(),
            i <= n,
            spec_imports_view(imports@.subrange(0, i as int)) == Some(view_of_imports(out@)),
        decreases n - i,
    {
        let value = match &imports[i].1 {
            JsonValue::Text(s) => rewrite_map_value(s.as_str()),
            _ => {
                proof {
                    lemma_imports_view_prefix_none(imports@, i as int);
                }
                return Err(BuildError::MalformedEvent {
                    message: String::from_str("an import-map value is not a string"),
                });
            },
        };
        let key = imports[i].0.clone();
        out.push((key, value));
        proof {
            assert(imports@.subrange(0, i + 1) =~= imports@.subrange(0, i as int).push(
            imports@[i as int]));
            lemma_imports_view_snoc(imports@.subrange(0, i as int), imports@[i as int]);
            assert(view_of_imports(out@) =~= spec_imports_view(
                imports@.subrange(0, i + 1),
            ).unwrap());
        }
        i = i + 1;
    }
    proof {
        assert(imports@.subrange(0, n as int) =~= imports@);
    }
    Ok(ImportMap { imports: out })
}

/// If some member up to position `i` is not a string, the whole list
/// fails to parse.
proof fn lemma_imports_view_prefix_none(s: Seq<(String, JsonValue)>, i: int)
    requires
        0 <= i < s.len(),
        !(s[i].1 matches JsonValue::Text(_)),
    ensures
        spec_imports_view(s) is None,
    decreases i,
{
    if i == 0 {
    } else {
        lemma_imports_view_prefix_none(s.drop_first(), i - 1);
    }
}

} // verus!
