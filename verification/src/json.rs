use vstd::prelude::*;

verus! {

#[verifier::external_type_specification]
#[verifier::external_body]
pub struct ExJsonValue(serde_json::Value);

/// A JSON document as plain values: what the usage and model extraction read of
/// serde_json's `Value`.
pub enum Json {
    Null,
    Bool(bool),
    /// A number, with its value when it is an integer representable as `i64`
    /// (the value serde_json's `Value::as_i64` gives).
    Number(Option<i64>),
    Str(String),
    Array(Vec<Json>),
    /// Object members in serde_json's map order; keys are distinct.
    Object(Vec<(String, Json)>),
}

/// The document serde_json parses from `text` (`None` when `text` is not one JSON value).
pub uninterp spec fn spec_parse_json(text: Seq<char>) -> Option<Json>;

/// Parses `text` with `serde_json::from_str::<serde_json::Value>` and converts the value to
/// [`Json`]. Trusted: the result is whatever serde_json produces for `text`, named
/// `spec_parse_json`; nothing is claimed about which texts parse.
#[verifier::external_body]
pub fn parse_json(text: &str) -> (r: Option<Json>)
    ensures
        r == spec_parse_json(text@),
{
    serde_json::from_str::<serde_json::Value>(text).ok().map(json_of_value)
}

/// Variant-by-variant conversion of serde_json's `Value` into [`Json`] (part of
/// [`parse_json`]); numbers keep serde_json's `as_i64` reading.
#[verifier::external_body]
fn json_of_value(v: serde_json::Value) -> Json {
    match v {
        serde_json::Value::Null => Json::Null,
        serde_json::Value::Bool(b) => Json::Bool(b),
        serde_json::Value::Number(n) => Json::Number(n.as_i64()),
        serde_json::Value::String(s) => Json::Str(s),
        serde_json::Value::Array(a) => Json::Array(a.into_iter().map(json_of_value).collect()),
        serde_json::Value::Object(m) => Json::Object(
            m.into_iter().map(|(k, v)| (k, json_of_value(v))).collect(),
        ),
    }
}

/// The value of the first member named `key` among `members`.
pub open spec fn member(members: Seq<(String, Json)>, key: Seq<char>) -> Option<Json>
    decreases members.len(),
{
    if members.len() == 0 {
        None
    } else if members[0].0@ == key {
        Some(members[0].1)
    } else {
        member(members.drop_first(), key)
    }
}

/// `v[key]` for an object, `None` for anything else (serde_json's `Value::get` with a
/// string index).
pub open spec fn get(v: Json, key: Seq<char>) -> Option<Json> {
    match v {
        Json::Object(members) => member(members@, key),
        _ => None,
    }
}

/// serde_json's `Value::as_i64`.
pub open spec fn as_i64(v: Json) -> Option<i64> {
    match v {
        Json::Number(n) => n,
        _ => None,
    }
}

/// serde_json's `Value::as_str`.
pub open spec fn as_text(v: Json) -> Option<Seq<char>> {
    match v {
        Json::Str(s) => Some(s@),
        _ => None,
    }
}

impl Json {
    /// The member `key` of an object (`None` for other values or a missing key).
    pub fn get(&self, key: &str) -> (r: Option<&Json>)
        ensures
            r matches Some(x) ==> get(*self, key@) == Some(*x),
            r is None ==> get(*self, key@) is None,
    {
        match self {
            Json::Object(members) => {
                let k = key.to_owned();
                let mut i: usize = 0;
                assert(members@.skip(0) =~= members@);
                while i < members.len()
                    invariant
                        0 <= i <= members@.len(),
                        get(*self, key@) == member(members@, key@),
                        member(members@, key@) == member(members@.skip(i as int), key@),
                        k@ == key@,
                    decreases members.len() - i,
                {
                    proof {
                        assert(members@.skip(i as int).drop_first() =~= members@.skip(i + 1));
                    }
                    if members[i].0 == k {
                        assert(members@.skip(i as int)[0] == members@[i as int]);
                        assert(member(members@.skip(i as int), key@) == Some(members@[i as int].1));
                        let found = &members[i].1;
                        assert(*found == members@[i as int].1);
                        assert(get(*self, key@) == Some(*found));
                        return Some(found);
                    }
                    i = i + 1;
                }
                None
            },
            _ => None,
        }
    }

    /// The integer value of a number representable as `i64`.
    pub fn as_i64(&self) -> (r: Option<i64>)
        ensures
            r == as_i64(*self),
    {
        match self {
            Json::Number(n) => *n,
            _ => None,
        }
    }

    /// The text of a string value.
    pub fn as_str(&self) -> (r: Option<&String>)
        ensures
            r matches Some(s) ==> as_text(*self) == Some(s@),
            r is None ==> as_text(*self) is None,
    {
        match self {
            Json::Str(s) => Some(s),
            _ => None,
        }
    }

    /// Whether the value is an object.
    pub fn is_object(&self) -> (r: bool)
        ensures
            r == (*self is Object),
    {
        match self {
            Json::Object(_) => true,
            _ => false,
        }
    }
}


// ---------------------------------------------------------------------------
// Lists stored as JSON text
// ---------------------------------------------------------------------------

/// The lower-case hexadecimal digit of `d` (below 16).
pub open spec fn hex_lower(d: int) -> char {
    if d < 10 {
        (('0' as int) + d) as char
    } else {
        (('a' as int) + (d - 10)) as char
    }
}

/// How serde_json writes `c` inside a JSON string: `"` and `\` and the control characters
/// below U+0020 escaped (the usual short escapes for backspace, tab, line feed, form feed and
/// carriage return, `\u00xx` with lower-case hex for the others); every other character as is.
pub open spec fn json_escape(c: char) -> Seq<char> {
    if c == '"' {
        seq!['\\', '"']
    } else if c == '\\' {
        seq!['\\', '\\']
    } else if c == '\u{8}' {
        seq!['\\', 'b']
    } else if c == '\t' {
        seq!['\\', 't']
    } else if c == '\n' {
        seq!['\\', 'n']
    } else if c == '\u{c}' {
        seq!['\\', 'f']
    } else if c == '\r' {
        seq!['\\', 'r']
    } else if (c as u32) < 0x20 {
        seq!['\\', 'u', '0', '0', hex_lower((c as u32) as int / 16), hex_lower((c as u32) as int % 16)]
    } else {
        seq![c]
    }
}

/// The characters of `s`, each as serde_json writes it inside a string.
pub open spec fn json_escaped(s: Seq<char>) -> Seq<char>
    decreases s.len(),
{
    if s.len() == 0 {
        Seq::empty()
    } else {
        json_escaped(s.drop_last()) + json_escape(s.last())
    }
}

/// The JSON string literal serde_json writes for `s`.
pub open spec fn json_quoted(s: Seq<char>) -> Seq<char> {
    seq!['"'] + json_escaped(s) + seq!['"']
}

/// The elements of a compact JSON array, separated by commas.
pub open spec fn json_elements(items: Seq<Seq<char>>) -> Seq<char>
    decreases items.len(),
{
    if items.len() == 0 {
        Seq::empty()
    } else if items.len() == 1 {
        items[0]
    } else {
        json_elements(items.drop_last()) + seq![','] + items.last()
    }
}

/// A compact JSON array of the given elements.
pub open spec fn json_array(items: Seq<Seq<char>>) -> Seq<char> {
    seq!['['] + json_elements(items) + seq![']']
}

/// The JSON text serde_json writes for a list of strings.
pub open spec fn json_string_list(items: Seq<String>) -> Seq<char> {
    json_array(items.map_values(|s: String| json_quoted(s@)))
}

/// The JSON text serde_json writes for a list of string pairs (each an array of two strings).
pub open spec fn json_pair_list(items: Seq<(String, String)>) -> Seq<char> {
    json_array(items.map_values(|p: (String, String)| json_array(seq![json_quoted(p.0@), json_quoted(p.1@)])))
}

/// Serializes a list of strings with `serde_json::to_string`. Trusted: the text is the compact
/// array of the quoted, escaped strings (`Serializer::serialize_str` escapes through the
/// `ESCAPE` table and `write_char_escape` of serde_json's `ser.rs`; serializing strings cannot
/// fail).
#[verifier::external_body]
pub fn json_strings(items: &[String]) -> (r: String)
    ensures
        r@ == json_string_list(items@),
{
    serde_json::to_string(items).unwrap_or_default()
}

/// Serializes a list of string pairs with `serde_json::to_string`. Trusted: the text is the
/// compact array of two-element arrays of quoted, escaped strings (a tuple serializes as an
/// array; serializing strings cannot fail).
#[verifier::external_body]
pub fn json_pairs(items: &Vec<(String, String)>) -> (r: String)
    ensures
        r@ == json_pair_list(items@),
{
    serde_json::to_string(items).unwrap_or_default()
}

/// The strings of a JSON array made only of strings (how serde deserializes `Vec<String>`).
pub open spec fn string_list(v: Json) -> Option<Seq<String>> {
    match v {
        Json::Array(items) => if forall|i: int| 0 <= i < items@.len() ==> #[trigger] items@[i] is Str {
            Some(items@.map_values(|x: Json| x->Str_0))
        } else {
            None
        },
        _ => None,
    }
}

/// The pair a JSON array of exactly two strings holds (how serde deserializes a
/// `(String, String)`).
pub open spec fn string_pair(v: Json) -> Option<(String, String)> {
    match v {
        Json::Array(items) => if items@.len() == 2 && items@[0] is Str && items@[1] is Str {
            Some((items@[0]->Str_0, items@[1]->Str_0))
        } else {
            None
        },
        _ => None,
    }
}

/// The pairs of a JSON array made only of two-string arrays (how serde deserializes
/// `Vec<(String, String)>`).
pub open spec fn pair_list(v: Json) -> Option<Seq<(String, String)>> {
    match v {
        Json::Array(items) => if forall|i: int| 0 <= i < items@.len() ==> #[trigger] string_pair(items@[i]) is Some {
            Some(items@.map_values(|x: Json| string_pair(x)->0))
        } else {
            None
        },
        _ => None,
    }
}

/// The list of strings stored as JSON in `text`; empty when `text` is not such a list.
pub open spec fn stored_strings(text: Seq<char>) -> Seq<String> {
    match spec_parse_json(text) {
        Some(v) => match string_list(v) {
            Some(l) => l,
            None => Seq::empty(),
        },
        None => Seq::empty(),
    }
}

/// The list of string pairs stored as JSON in `text`; empty when `text` is not such a list.
pub open spec fn stored_pairs(text: Seq<char>) -> Seq<(String, String)> {
    match spec_parse_json(text) {
        Some(v) => match pair_list(v) {
            Some(l) => l,
            None => Seq::empty(),
        },
        None => Seq::empty(),
    }
}

/// Reads a list of strings stored as JSON (empty when the text is damaged).
pub fn strings_from_json(text: &str) -> (r: Vec<String>)
    ensures
        r@ == stored_strings(text@),
{
    let v = match parse_json(text) {
        Some(v) => v,
        None => return Vec::new(),
    };
    let items = match &v {
        Json::Array(items) => items,
        _ => return Vec::new(),
    };
    let mut out: Vec<String> = Vec::new();
    let mut i: usize = 0;
    while i < items.len()
        invariant
            0 <= i <= items@.len(),
            out@.len() == i,
            spec_parse_json(text@) == Some(v),
            v == Json::Array(*items),
            forall|j: int| 0 <= j < i ==> #[trigger] items@[j] is Str && out@[j] == items@[j]->Str_0,
        decreases items.len() - i,
    {
        match &items[i] {
            Json::Str(s) => {
                out.push(s.clone());
            },
            _ => {
                assert(!(items@[i as int] is Str));
                return Vec::new();
            },
        }
        i = i + 1;
    }
    assert(out@ =~= items@.map_values(|x: Json| x->Str_0));
    out
}

fn pair_of(v: &Json) -> (r: Option<(String, String)>)
    ensures
        r == string_pair(*v),
{
    match v {
        Json::Array(items) => {
            if items.len() == 2 {
                match (&items[0], &items[1]) {
                    (Json::Str(a), Json::Str(b)) => Some((a.clone(), b.clone())),
                    _ => None,
                }
            } else {
                None
            }
        },
        _ => None,
    }
}

/// Reads a list of string pairs stored as JSON (empty when the text is damaged).
pub fn pairs_from_json(text: &str) -> (r: Vec<(String, String)>)
    ensures
        r@ == stored_pairs(text@),
{
    let v = match parse_json(text) {
        Some(v) => v,
        None => return Vec::new(),
    };
    let items = match &v {
        Json::Array(items) => items,
        _ => return Vec::new(),
    };
    let mut out: Vec<(String, String)> = Vec::new();
    let mut i: usize = 0;
    while i < items.len()
        invariant
            0 <= i <= items@.len(),
            out@.len() == i,
            spec_parse_json(text@) == Some(v),
            v == Json::Array(*items),
            forall|j: int|
                0 <= j < i ==> #[trigger] string_pair(items@[j]) is Some && out@[j] == string_pair(
                    items@[j],
                )->0,
        decreases items.len() - i,
    {
        match pair_of(&items[i]) {
            Some(p) => {
                out.push(p);
            },
            None => {
                assert(string_pair(items@[i as int]) is None);
                return Vec::new();
            },
        }
        i = i + 1;
    }
    assert(out@ =~= items@.map_values(|x: Json| string_pair(x)->0));
    out
}

} // verus!
