//! JSON documents as parsed by serde_json, held as plain values of this library.
use vstd::prelude::*;
use crate::text::{chars_of, join, slice, strip_all_prefix, strip_all_prefix_exec, to_string};

verus! {

/// serde_json's dynamically typed JSON value.
#[verifier::external_type_specification]
#[verifier::external_body]
pub struct ExSerdeJsonValue(serde_json::Value);

/// A JSON value. Numbers keep their decimal text; object members are in the
/// order serde_json's map yields them (sorted by key, one member per key).
pub enum JsonValue {
    Null,
    Bool(bool),
    Number(String),
    Str(String),
    Array(Vec<JsonValue>),
    Object(Vec<(String, JsonValue)>),
}

/// The result of `serde_json::from_str::<Value>` on a whole text: the value,
/// or the text of the error.
pub uninterp spec fn json_document(text: Seq<char>) -> Result<JsonValue, Seq<char>>;


pub open spec fn result_view(r: Result<JsonValue, String>) -> Result<JsonValue, Seq<char>> {
    match r {
        Ok(v) => Ok(v),
        Err(e) => Err(e@),
    }
}

/// Moves a serde_json value into a `JsonValue`, variant for variant.
#[verifier::external_body]
fn from_serde(v: serde_json::Value) -> JsonValue {
    match v {
        serde_json::Value::Null => JsonValue::Null,
        serde_json::Value::Bool(b) => JsonValue::Bool(b),
        serde_json::Value::Number(n) => JsonValue::Number(n.to_string()),
        serde_json::Value::String(s) => JsonValue::Str(s),
        serde_json::Value::Array(a) => JsonValue::Array(a.into_iter().map(from_serde).collect()),
        serde_json::Value::Object(o) => JsonValue::Object(
            o.into_iter().map(|(k, x)| (k, from_serde(x))).collect(),
        ),
    }
}

/// `serde_json::from_str::<serde_json::Value>`: the text must hold exactly one
/// JSON value (white space around it aside). The contract names the result.
#[verifier::external_body]
pub fn parse_document(text: &str) -> (r: Result<JsonValue, String>)
    ensures
        result_view(r) == json_document(text@),
{
    serde_json::from_str::<serde_json::Value>(text).map(from_serde).map_err(|e| e.to_string())
}

/// The member `key` of an object (`Value::get` with a string index).
pub open spec fn members_get(es: Seq<(String, JsonValue)>, key: Seq<char>) -> Option<JsonValue>
    decreases es.len(),
{
    if es.len() == 0 {
        None
    } else if es[0].0@ == key {
        Some(es[0].1)
    } else {
        members_get(es.drop_first(), key)
    }
}

pub open spec fn json_get(v: JsonValue, key: Seq<char>) -> Option<JsonValue> {
    match v {
        JsonValue::Object(es) => members_get(es@, key),
        _ => None,
    }
}

/// `Value::as_str`.
pub open spec fn json_str(v: Option<JsonValue>) -> Option<Seq<char>> {
    match v {
        Some(JsonValue::Str(s)) => Some(s@),
        _ => None,
    }
}

pub fn get<'a>(v: &'a JsonValue, key: &Vec<char>) -> (r: Option<&'a JsonValue>)
    ensures
        match r {
            Some(x) => json_get(*v, key@) == Some(*x),
            None => json_get(*v, key@) is None,
        },
{
    match v {
        JsonValue::Object(es) => {
            let mut i: usize = 0;
            assert(es@.subrange(0, es@.len() as int) =~= es@);
            while i < es.len()
                invariant
                    i <= es.len(),
                    json_get(*v, key@) == members_get(es@, key@),
                    members_get(es@, key@) == members_get(es@.subrange(i as int, es@.len() as int), key@),
                decreases es.len() - i,
            {
                let ghost rest = es@.subrange(i as int, es@.len() as int);
                assert(rest.drop_first() =~= es@.subrange(i + 1, es@.len() as int));
                let entry = &es[i];
                let k = chars_of(entry.0.as_str());
                assert(rest[0] == es@[i as int]);
                if crate::text::eq(&k, key) {
                    return Some(&entry.1);
                }
                i = i + 1;
            }
            None
        },
        _ => None,
    }
}

impl JsonValue {
    /// `Value::get` with a string key: the member of an object.
    pub fn get(&self, key: &str) -> (r: Option<&JsonValue>)
        ensures
            match r {
                Some(x) => json_get(*self, key@) == Some(*x),
                None => json_get(*self, key@) is None,
            },
    {
        crate::json::get(self, &chars_of(key))
    }
}

/// `Value::as_str` of a member.
pub fn get_str(v: &JsonValue, key: &Vec<char>) -> (r: Option<Vec<char>>)
    ensures
        match r {
            Some(s) => json_str(json_get(*v, key@)) == Some(s@),
            None => json_str(json_get(*v, key@)) is None,
        },
{
    match get(v, key) {
        Some(JsonValue::Str(s)) => Some(chars_of(s.as_str())),
        _ => None,
    }
}

/// An array of strings.
pub open spec fn string_array(v: JsonValue) -> Option<Seq<Seq<char>>> {
    match v {
        JsonValue::Array(items) => if forall|i: int| 0 <= i < items@.len() ==> #[trigger] items@[i] is Str {
            Some(items@.map_values(|x: JsonValue| x->Str_0@))
        } else {
            None
        },
        _ => None,
    }
}

pub(crate) fn string_array_exec(v: &JsonValue) -> (r: Option<Vec<String>>)
    ensures
        match r {
            Some(x) => string_array(*v) == Some(x@.map_values(|s: String| s@)),
            None => string_array(*v) is None,
        },
{
    match v {
        JsonValue::Array(items) => {
            let mut out: Vec<String> = Vec::new();
            let mut i: usize = 0;
            while i < items.len()
                invariant
                    i <= items.len(),
                    *v == JsonValue::Array(*items),
                    forall|k: int| 0 <= k < i ==> #[trigger] items@[k] is Str,
                    out@.map_values(|s: String| s@) == items@.subrange(0, i as int).map_values(
                        |x: JsonValue| x->Str_0@,
                    ),
                decreases items.len() - i,
            {
                match &items[i] {
                    JsonValue::Str(s) => {
                        let ghost before = out@.map_values(|s: String| s@);
                        let c = s.clone();
                        assert(c@ == items@[i as int]->Str_0@);
                        out.push(c);
                        assert(out@.map_values(|s: String| s@) =~= before.push(c@));
                        assert(items@.subrange(0, i as int + 1).map_values(|x: JsonValue| x->Str_0@)
                            =~= items@.subrange(0, i as int).map_values(|x: JsonValue| x->Str_0@).push(
                            items@[i as int]->Str_0@,
                        ));
                        i = i + 1;
                    },
                    _ => {
                        return None;
                    },
                }
            }
            assert(items@.subrange(0, items.len() as int) =~= items@);
            Some(out)
        },
        _ => None,
    }
}

/// The text after every leading byte-order mark (`trim_start_matches('\u{feff}')`).
pub open spec fn strip_bom(s: Seq<char>) -> Seq<char> {
    strip_all_prefix(s, seq!['\u{feff}'])
}

pub fn strip_bom_exec(s: &Vec<char>) -> (r: Vec<char>)
    ensures
        r@ == strip_bom(s@),
{
    let mut bom: Vec<char> = Vec::new();
    bom.push('\u{feff}');
    assert(bom@ =~= seq!['\u{feff}']);
    strip_all_prefix_exec(s, &bom)
}

/// The value of the whole text, else of the first `{` from which the rest of
/// the text parses as one document.
pub open spec fn first_document_from(text: Seq<char>, i: nat) -> Option<JsonValue>
    decreases text.len() - i,
{
    if i >= text.len() {
        None
    } else if text[i as int] == '{' && json_document(text.subrange(i as int, text.len() as int)) is Ok {
        Some(json_document(text.subrange(i as int, text.len() as int))->Ok_0)
    } else {
        first_document_from(text, i + 1)
    }
}

pub open spec fn document_in(text: Seq<char>) -> Option<JsonValue> {
    match json_document(text) {
        Ok(v) => Some(v),
        Err(_) => first_document_from(text, 0),
    }
}

/// What `parse_json_value` finds: stdout is tried before stderr.
pub open spec fn json_in_outputs(stdout: Seq<char>, stderr: Seq<char>) -> Result<JsonValue, Seq<char>> {
    match document_in(strip_bom(stdout)) {
        Some(v) => Ok(v),
        None => match document_in(strip_bom(stderr)) {
            Some(v) => Ok(v),
            None => Err("Conda 未返回有效版本 JSON"@),
        },
    }
}

fn document_in_exec(text: &Vec<char>) -> (r: Option<JsonValue>)
    ensures
        r == document_in(text@),
{
    let whole = to_string(text);
    match parse_document(whole.as_str()) {
        Ok(v) => {
            return Some(v);
        },
        Err(_) => {},
    }
    let mut i: usize = 0;
    while i < text.len()
        invariant
            i <= text.len(),
            json_document(text@) is Err,
            first_document_from(text@, 0) == first_document_from(text@, i as nat),
        decreases text.len() - i,
    {
        if text[i] == '{' {
            let rest = to_string(&slice(text, i, text.len()));
            match parse_document(rest.as_str()) {
                Ok(v) => {
                    return Some(v);
                },
                Err(_) => {},
            }
        }
        i = i + 1;
    }
    None
}

/// Finds the JSON document in a command's output, which may be preceded by
/// diagnostics: the whole of stdout, else from a `{` in stdout, then the same
/// in stderr.
pub fn parse_json_value(stdout: &str, stderr: &str) -> (r: Result<JsonValue, String>)
    ensures
        result_view(r) == json_in_outputs(stdout@, stderr@),
{
    match document_in_exec(&strip_bom_exec(&chars_of(stdout))) {
        Some(v) => {
            return Ok(v);
        },
        None => {},
    }
    match document_in_exec(&strip_bom_exec(&chars_of(stderr))) {
        Some(v) => Ok(v),
        None => Err("Conda 未返回有效版本 JSON".to_owned()),
    }
}

pub open spec fn text_result(r: Result<String, String>) -> Result<Seq<char>, Seq<char>> {
    match r {
        Ok(t) => Ok(t@),
        Err(e) => Err(e@),
    }
}

/// How serde_json writes a character inside a string: `"` and `\` behind a
/// backslash, backspace, form feed, line feed, carriage return and tab as
/// `\b \f \n \r \t`, the other characters below U+0020 as `\u00` and two
/// lower-case hex digits, and every other character as it is.
pub open spec fn json_escaped_char(c: char) -> Seq<char> {
    if c == '"' {
        seq!['\\', '"']
    } else if c == '\\' {
        seq!['\\', '\\']
    } else if c == '\u{8}' {
        seq!['\\', 'b']
    } else if c == '\u{c}' {
        seq!['\\', 'f']
    } else if c == '\n' {
        seq!['\\', 'n']
    } else if c == '\r' {
        seq!['\\', 'r']
    } else if c == '\t' {
        seq!['\\', 't']
    } else if (c as u32) < 0x20 {
        seq!['\\', 'u', '0', '0', if (c as u32) < 0x10 {
            '0'
        } else {
            '1'
        }, "0123456789abcdef"@[((c as u32) % 16) as int]]
    } else {
        seq![c]
    }
}

/// The characters of `s`, each written as `json_escaped_char` writes it.
pub open spec fn json_escaped(s: Seq<char>) -> Seq<char>
    decreases s.len(),
{
    if s.len() == 0 {
        seq![]
    } else {
        json_escaped(s.drop_last()) + json_escaped_char(s.last())
    }
}

/// A list of strings as serde_json's compact writer puts it: `[`, each string
/// in quotes with its characters escaped, separated by `,`, then `]`.
pub open spec fn json_string_array(v: Seq<Seq<char>>) -> Seq<char> {
    "["@ + join(v.map_values(|s: Seq<char>| "\""@ + json_escaped(s) + "\""@), ","@) + "]"@
}

/// `serde_json::to_string` of a list of strings. It succeeds: serde_json's
/// serializer fails only where a `Serialize` impl fails or a map has keys
/// that are not strings, and a list of strings has neither. The text is the
/// compact JSON array of the strings (`json_string_array`).
#[verifier::external_body]
pub fn strings_to_json(v: &Vec<String>) -> (r: Result<String, String>)
    ensures
        r is Ok,
        r->Ok_0@ == json_string_array(v@.map_values(|s: String| s@)),
{
    serde_json::to_string(v).map_err(|e| e.to_string())
}

} // verus!
