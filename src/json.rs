use vstd::prelude::*;

verus! {

/// A JSON document as plain values: objects keep their members in order.
pub enum Json {
    Null,
    Bool(bool),
    Number(String),
    Str(String),
    Array(Vec<Json>),
    Object(Vec<(String, Json)>),
}

/// serde_json's document type, which only the conversion below reads.
#[verifier::external_type_specification]
#[verifier::external_body]
pub struct ExValue(serde_json::Value);

/// The document that serde_json reads from these bytes, or `None` where it
/// reports an error.
pub uninterp spec fn json_of_bytes(b: Seq<u8>) -> Option<Json>;

/// Converts serde_json's `Value` one for one: each variant becomes the
/// variant of the same name, a number its `Display` text, and an object its
/// members in the order that serde_json's `Map` walks them. It claims
/// nothing; what `parse_json` returns is named by `json_of_bytes`.
#[verifier::external_body]
fn from_value(v: serde_json::Value) -> (r: Json) {
    match v {
        serde_json::Value::Null => Json::Null,
        serde_json::Value::Bool(b) => Json::Bool(b),
        serde_json::Value::Number(n) => Json::Number(n.to_string()),
        serde_json::Value::String(s) => Json::Str(s),
        serde_json::Value::Array(a) => Json::Array(a.into_iter().map(from_value).collect()),
        serde_json::Value::Object(m) => Json::Object(m.into_iter().map(|(k, v)| (k, from_value(v))).collect()),
    }
}

/// Relies on serde_json::from_slice: it reads one JSON document from the
/// bytes, or fails; the document, converted by `from_value`, depends on the
/// bytes alone.
#[verifier::external_body]
pub(crate) fn parse_json(b: &[u8]) -> (r: Option<Json>)
    ensures
        r == json_of_bytes(b@),
{
    match serde_json::from_slice::<serde_json::Value>(b) {
        Ok(v) => Some(from_value(v)),
        Err(_) => None,
    }
}

/// The value of the first member named `key`, where `j` is an object.
pub open spec fn member(j: Json, key: Seq<char>) -> Option<Json> {
    match j {
        Json::Object(ms) => member_in(ms@, key),
        _ => None,
    }
}

pub open spec fn member_in(ms: Seq<(String, Json)>, key: Seq<char>) -> Option<Json>
    decreases ms.len(),
{
    if ms.len() == 0 {
        None
    } else if ms[0].0@ == key {
        Some(ms[0].1)
    } else {
        member_in(ms.drop_first(), key)
    }
}

/// The text of `j`, where it is a string.
pub open spec fn text_of(j: Json) -> Option<Seq<char>> {
    match j {
        Json::Str(s) => Some(s@),
        _ => None,
    }
}

/// Whether two strings hold the same characters.
pub fn same_text(a: &str, b: &str) -> (r: bool)
    ensures
        r == (a@ == b@),
{
    let n = a.unicode_len();
    if n != b.unicode_len() {
        return false;
    }
    let mut i: usize = 0;
    while i < n
        invariant
            n == a@.len(),
            n == b@.len(),
            i <= n,
            forall|k: int| 0 <= k < i ==> a@[k] == b@[k],
        decreases n - i,
    {
        if a.get_char(i) != b.get_char(i) {
            return false;
        }
        i = i + 1;
    }
    assert(a@ =~= b@);
    true
}

/// The value of the first member of `j` named `key`, where `j` is an object.
pub fn get_member<'a>(j: &'a Json, key: &str) -> (r: Option<&'a Json>)
    ensures
        match r {
            Some(v) => member(*j, key@) == Some(*v),
            None => member(*j, key@) is None,
        },
{
    match j {
        Json::Object(ms) => {
            let mut i: usize = 0;
            assert(ms@.subrange(0, ms@.len() as int) =~= ms@);
            while i < ms.len()
                invariant
                    member(*j, key@) == member_in(ms@, key@),
                    i <= ms@.len(),
                    member_in(ms@, key@) == member_in(ms@.subrange(i as int, ms@.len() as int), key@),
                decreases ms@.len() - i,
            {
                let ghost rest = ms@.subrange(i as int, ms@.len() as int);
                assert(rest[0] == ms@[i as int]);
                let e = &ms[i];
                if same_text(e.0.as_str(), key) {
                    assert(member_in(rest, key@) == Some(rest[0].1));
                    return Some(&e.1);
                }
                assert(rest.drop_first() =~= ms@.subrange(i + 1, ms@.len() as int));
                i = i + 1;
            }
            None
        },
        _ => None,
    }
}

/// The text of `j`, where it is a string.
pub fn get_text(j: &Json) -> (r: Option<&String>)
    ensures
        match r {
            Some(s) => text_of(*j) == Some(s@),
            None => text_of(*j) is None,
        },
{
    match j {
        Json::Str(s) => Some(s),
        _ => None,
    }
}

} // verus!
