//! The JSON document model that page events carry in their `data` field,
//! and its serializer. The pipeline only ever inspects two shapes (a null
//! and an empty object) and otherwise treats the document as a tree to be
//! written out verbatim; numbers therefore keep their literal text.

use vstd::prelude::*;

verus! {

broadcast use vstd::std_specs::vec::group_vec_axioms;

#[derive(Debug, PartialEq, Eq)]
pub enum JsonValue {
    Null,
    Bool(bool),
    /// The literal text of the number, as it appeared in the source document.
    Number(String),
    Text(String),
    Array(Vec<JsonValue>),
    Object(Vec<(String, JsonValue)>),
}

/// The escape sequence a character serializes to inside a JSON string:
/// quote, backslash and ASCII control characters are escaped, everything
/// else stands for itself.
pub open spec fn esc_char(c: char) -> Seq<char> {
    if c == '"' {
        seq!['\\', '"']
    } else if c == '\\' {
        seq!['\\', '\\']
    } else if c == '\u{8}' {
        seq!['\\', 'b']
    } else if c == '\u{c}' {
        seq!['\\', 'f']
    } else if c == '\n' {
        seq!['\\', 'n']
    } else if c == '\r' {
        seq!['\\', 'r']
    } else if c == '\t' {
        seq!['\\', 't']
    } else if (c as u32) < 0x20 {
        seq!['\\', 'u', '0', '0', hex_digit((c as u32 / 16) as nat), hex_digit((c as u32 % 16) as nat)]
    } else {
        seq![c]
    }
}

/// Lower-case hexadecimal digit for `d < 16`.
pub open spec fn hex_digit(d: nat) -> char {
    seq!['0', '1', '2', '3', '4', '5', '6', '7', '8', '9', 'a', 'b', 'c', 'd', 'e', 'f'][
        if d < 16 { d as int } else { 0 }
    ]
}

pub open spec fn esc_str(s: Seq<char>) -> Seq<char>
    decreases s.len(),
{
    if s.len() == 0 {
        Seq::empty()
    } else {
        esc_char(s[0]) + esc_str(s.drop_first())
    }
}

/// A JSON string: the escaped text between double quotes.
pub open spec fn quoted(s: Seq<char>) -> Seq<char> {
    seq!['"'] + esc_str(s) + seq!['"']
}

/// The compact serialization of a JSON document: no spaces, object members
/// and array items joined by single commas, in stored order.
pub open spec fn json_text(v: JsonValue) -> Seq<char>
    decreases v,
{
    match v {
        JsonValue::Null => seq!['n', 'u', 'l', 'l'],
        JsonValue::Bool(b) => if b {
            seq!['t', 'r', 'u', 'e']
        } else {
            seq!['f', 'a', 'l', 's', 'e']
        },
        JsonValue::Number(s) => s@,
        JsonValue::Text(s) => quoted(s@),
        JsonValue::Array(elems) => seq!['['] + json_items(elems@) + seq![']'],
        JsonValue::Object(members) => seq!['{'] + json_members(members@) + seq!['}'],
    }
}

pub open spec fn json_items(s: Seq<JsonValue>) -> Seq<char>
    decreases s,
{
    if s.len() == 0 {
        Seq::empty()
    } else if s.len() == 1 {
        json_text(s[0])
    } else {
        json_text(s[0]) + seq![','] + json_items(s.drop_first())
    }
}

pub open spec fn json_members(s: Seq<(String, JsonValue)>) -> Seq<char>
    decreases s,
{
    if s.len() == 0 {
        Seq::empty()
    } else if s.len() == 1 {
        quoted(s[0].0@) + seq![':'] + json_text(s[0].1)
    } else {
        quoted(s[0].0@) + seq![':'] + json_text(s[0].1) + seq![','] + json_members(s.drop_first())
    }
}

/// An object with no members: the one `data` shape that normalization erases.
pub open spec fn spec_is_empty_object(v: JsonValue) -> bool {
    v matches JsonValue::Object(members) && members@.len() == 0
}

pub fn is_empty_object(v: &JsonValue) -> (r: bool)
    ensures
        r == spec_is_empty_object(*v),
{
    match v {
        JsonValue::Object(members) => members.len() == 0,
        _ => false,
    }
}

/// Appending one element extends the comma-separated item list.
proof fn lemma_json_items_snoc(s: Seq<JsonValue>, x: JsonValue)
    ensures
        json_items(s.push(x)) == if s.len() == 0 {
            json_text(x)
        } else {
            json_items(s) + seq![','] + json_text(x)
        },
    decreases s.len(),
{
    let t = s.push(x);
    if s.len() == 0 {
        assert(t[0] == x);
    } else {
        assert(t[0] == s[0]);
        assert(t.drop_first() =~= s.drop_first().push(x));
        lemma_json_items_snoc(s.drop_first(), x);
        if s.len() == 1 {
            assert(json_items(t) == json_text(s[0]) + seq![','] + json_items(t.drop_first()));
        } else {
            assert(json_items(s) + seq![','] + json_text(x) =~= json_text(s[0]) + seq![','] + (
            json_items(s.drop_first()) + seq![','] + json_text(x)));
        }
    }
}

/// Appending one member extends the comma-separated member list.
#[verifier::rlimit(60)]
proof fn lemma_json_members_snoc(s: Seq<(String, JsonValue)>, x: (String, JsonValue))
    ensures
        json_members(s.push(x)) == if s.len() == 0 {
            quoted(x.0@) + seq![':'] + json_text(x.1)
        } else {
            json_members(s) + seq![','] + quoted(x.0@) + seq![':'] + json_text(x.1)
        },
    decreases s.len(),
{
    let t = s.push(x);
    if s.len() == 0 {
        assert(t[0] == x);
    } else {
        assert(t[0] == s[0]);
        assert(t.drop_first() =~= s.drop_first().push(x));
        lemma_json_members_snoc(s.drop_first(), x);
        if s.len() == 1 {
            assert(json_members(t) == quoted(s[0].0@) + seq![':'] + json_text(s[0].1) + seq![',']
                + json_members(t.drop_first()));
            assert(json_members(s) + seq![','] + quoted(x.0@) + seq![':'] + json_text(x.1) =~= (
            quoted(s[0].0@) + seq![':'] + json_text(s[0].1)) + seq![','] + (quoted(x.0@)
                + seq![':'] + json_text(x.1)));
            assert(json_members(t) =~= json_members(s) + seq![','] + quoted(x.0@) + seq![':']
                + json_text(x.1));
        } else {
            assert(json_members(t) =~= json_members(s) + seq![','] + quoted(x.0@) + seq![':']
                + json_text(x.1));
        }
    }
}

/// One escaped character extends the escaped text.
proof fn lemma_esc_str_snoc(s: Seq<char>, c: char)
    ensures
        esc_str(s.push(c)) == esc_str(s) + esc_char(c),
    decreases s.len(),
{
    let t = s.push(c);
    if s.len() == 0 {
        let e = Seq::<char>::empty();
        assert(t[0] == c);
        assert(t.drop_first() =~= e);
        assert(esc_str(e) =~= e);
        assert(esc_str(t) =~= esc_str(s) + esc_char(c));
    } else {
        assert(t[0] == s[0]);
        assert(t.drop_first() =~= s.drop_first().push(c));
        lemma_esc_str_snoc(s.drop_first(), c);
        assert(esc_str(s) + esc_char(c) =~= esc_char(s[0]) + (esc_str(s.drop_first())
            + esc_char(c)));
    }
}

/// A one-character string holding the lower-case hexadecimal digit of `d`,
/// for `d < 16`.
fn hex_digit_str(d: u32) -> (r: String)
    requires
        d < 16,
    ensures
        r@ == seq![hex_digit(d as nat)],
{
    proof {
        reveal_strlit("0");
        reveal_strlit("1");
        reveal_strlit("2");
        reveal_strlit("3");
        reveal_strlit("4");
        reveal_strlit("5");
        reveal_strlit("6");
        reveal_strlit("7");
        reveal_strlit("8");
        reveal_strlit("9");
        reveal_strlit("a");
        reveal_strlit("b");
        reveal_strlit("c");
        reveal_strlit("d");
        reveal_strlit("e");
        reveal_strlit("f");
    }
    let r = if d == 0 { String::from_str("0") } else if d == 1 { String::from_str("1") }
    else if d == 2 { String::from_str("2") } else if d == 3 { String::from_str("3") }
    else if d == 4 { String::from_str("4") } else if d == 5 { String::from_str("5") }
    else if d == 6 { String::from_str("6") } else if d == 7 { String::from_str("7") }
    else if d == 8 { String::from_str("8") } else if d == 9 { String::from_str("9") }
    else if d == 10 { String::from_str("a") } else if d == 11 { String::from_str("b") }
    else if d == 12 { String::from_str("c") } else if d == 13 { String::from_str("d") }
    else if d == 14 { String::from_str("e") } else { String::from_str("f") };
    proof {
        assert(r@ =~= seq![hex_digit(d as nat)]);
    }
    r
}

/// The escaped form of `s`, as it appears between the quotes of a JSON
/// string.
pub fn escape_json_string(s: &str) -> (r: String)
    ensures
        r@ == esc_str(s@),
{
    let mut out = String::new();
    let n = s.unicode_len();
    let mut i: usize = 0;
    while i < n
        invariant
            n == s@.len(),
            i <= n,
            out@ == esc_str(s@.subrange(0, i as int)),
        decreases n - i,
    {
        let c = s.get_char(i);
        proof {
            reveal_strlit("\\\"");
            reveal_strlit("\\\\");
            reveal_strlit("\\b");
            reveal_strlit("\\f");
            reveal_strlit("\\n");
            reveal_strlit("\\r");
            reveal_strlit("\\t");
            reveal_strlit("\\u00");
        }
        if c == '"' {
            out.append("\\\"");
            proof {
                assert(("\\\"")@ =~= esc_char(c));
            }
        } else if c == '\\' {
            out.append("\\\\");
            proof {
                assert(("\\\\")@ =~= esc_char(c));
            }
        } else if c == '\u{8}' {
            out.append("\\b");
            proof {
                assert(("\\b")@ =~= esc_char(c));
            }
        } else if c == '\u{c}' {
            out.append("\\f");
            proof {
                assert(("\\f")@ =~= esc_char(c));
            }
        } else if c == '\n' {
            out.append("\\n");
            proof {
                assert(("\\n")@ =~= esc_char(c));
            }
        } else if c == '\r' {
            out.append("\\r");
            proof {
                assert(("\\r")@ =~= esc_char(c));
            }
        } else if c == '\t' {
            out.append("\\t");
            proof {
                assert(("\\t")@ =~= esc_char(c));
            }
        } else if (c as u32) < 0x20 {
            let code = c as u32;
            let ghost out0 = out@;
            out.append("\\u00");
            let hi = hex_digit_str(code / 16);
            let lo = hex_digit_str(code % 16);
            out.append(hi.as_str());
            out.append(lo.as_str());
            proof {
                assert(out@ =~= out0 + esc_char(c));
            }
        } else {
            let piece = s.substring_char(i, i + 1);
            out.append(piece);
            proof {
                assert(piece@ =~= seq![s@[i as int]]);
                assert(esc_char(c) == seq![c]);
            }
        }
        proof {
            assert(s@.subrange(0, i + 1) =~= s@.subrange(0, i as int).push(s@[i as int]));
            lemma_esc_str_snoc(s@.subrange(0, i as int), s@[i as int]);
        }
        i = i + 1;
    }
    proof {
        assert(s@.subrange(0, n as int) =~= s@);
    }
    out
}

/// Serializes a document compactly: exactly `json_text(v)`.
#[verifier::loop_isolation(false)]
#[verifier::rlimit(60)]
pub fn to_json_string(v: &JsonValue) -> (r: String)
    ensures
        r@ == json_text(*v),
    decreases *v,
{
    match v {
        JsonValue::Null => {
            proof {
                reveal_strlit("null");
            }
            let r = String::from_str("null");
            proof {
                assert(r@ =~= json_text(*v));
            }
            r
        },
        JsonValue::Bool(b) => {
            proof {
                reveal_strlit("true");
                reveal_strlit("false");
            }
            let r = if *b {
                String::from_str("true")
            } else {
                String::from_str("false")
            };
            proof {
                assert(r@ =~= json_text(*v));
            }
            r
        },
        JsonValue::Number(s) => s.clone(),
        JsonValue::Text(s) => {
            proof {
                reveal_strlit("\"");
            }
            let mut out = String::from_str("\"");
            let body = escape_json_string(s.as_str());
            out.append(body.as_str());
            out.append("\"");
            proof {
                assert(out@ =~= quoted(s@));
            }
            out
        },
        JsonValue::Array(elems) => {
            proof {
                reveal_strlit("[");
                reveal_strlit(",");
                reveal_strlit("]");
            }
            let mut out = String::from_str("[");
            proof {
                assert(elems@.subrange(0, 0) =~= Seq::<JsonValue>::empty());
                assert(json_items(elems@.subrange(0, 0)) =~= Seq::<char>::empty());
                assert(out@ =~= seq!['['] + json_items(elems@.subrange(0, 0)));
            }
            let n = elems.len();
            let mut i: usize = 0;
            while i < n
                invariant
                    n == elems@.len(),
                    i <= n,
                    out@ == seq!['['] + json_items(elems@.subrange(0, i as int)),
                decreases n - i,
            {
                if i > 0 {
                    out.append(",");
                }
                proof {
                    let g = *v;
                    assert(g->Array_0 == *elems);
                    assert(i < g->Array_0@.len());
                    assert(decreases_to!(g => g->Array_0));
                    assert(decreases_to!(g->Array_0 => g->Array_0@));
                    assert(decreases_to!(g->Array_0@ => g->Array_0@[i as int]));
                }
                let piece = to_json_string(&elems[i]);
                out.append(piece.as_str());
                proof {
                    reveal_strlit(",");
                    assert(elems@.subrange(0, i + 1) =~= elems@.subrange(0, i as int).push(
                    elems@[i as int]));
                    lemma_json_items_snoc(elems@.subrange(0, i as int), elems@[i as int]);
                    assert(out@ =~= seq!['['] + json_items(elems@.subrange(0, i + 1)));
                }
                i = i + 1;
            }
            out.append("]");
            proof {
                assert(elems@.subrange(0, n as int) =~= elems@);
                assert(out@ =~= json_text(*v));
            }
            out
        },
        JsonValue::Object(members) => {
            proof {
                reveal_strlit("{");
                reveal_strlit(",");
                reveal_strlit("\"");
                reveal_strlit("\":");
                reveal_strlit("}");
            }
            let mut out = String::from_str("{");
            proof {
                assert(members@.subrange(0, 0) =~= Seq::<(String, JsonValue)>::empty());
                assert(json_members(members@.subrange(0, 0)) =~= Seq::<char>::empty());
                assert(out@ =~= seq!['{'] + json_members(members@.subrange(0, 0)));
            }
            let n = members.len();
            let mut i: usize = 0;
            while i < n
                invariant
                    n == members@.len(),
                    i <= n,
                    out@ == seq!['{'] + json_members(members@.subrange(0, i as int)),
                decreases n - i,
            {
                if i > 0 {
                    out.append(",");
                }
                out.append("\"");
                let key = escape_json_string(members[i].0.as_str());
                out.append(key.as_str());
                out.append("\":");
                proof {
                    let g = *v;
                    assert(g->Object_0 == *members);
                    assert(i < g->Object_0@.len());
                    assert(decreases_to!(g => g->Object_0));
                    assert(decreases_to!(g->Object_0 => g->Object_0@));
                    assert(decreases_to!(g->Object_0@ => g->Object_0@[i as int]));
                    assert(decreases_to!(g->Object_0@[i as int] => g->Object_0@[i as int].1));
                }
                let piece = to_json_string(&members[i].1);
                out.append(piece.as_str());
                proof {
                    reveal_strlit(",");
                    reveal_strlit("\"");
                    reveal_strlit("\":");
                    assert(members@.subrange(0, i + 1) =~= members@.subrange(0, i as int).push(
                    members@[i as int]));
                    lemma_json_members_snoc(members@.subrange(0, i as int), members@[i as int]);
                    assert(out@ =~= seq!['{'] + json_members(members@.subrange(0, i + 1)));
                }
                i = i + 1;
            }
            out.append("}");
            proof {
                assert(members@.subrange(0, n as int) =~= members@);
                assert(out@ =~= json_text(*v));
            }
            out
        },
    }
}

/// `v matches JsonValue::Null`, the shape whose `data` write is skipped.
pub fn is_null(v: &JsonValue) -> (r: bool)
    ensures
        r == (*v matches JsonValue::Null),
{
    match v {
        JsonValue::Null => true,
        _ => false,
    }
}

} // verus!
