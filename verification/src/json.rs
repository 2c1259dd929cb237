use vstd::prelude::*;
use vstd::string::*;

verus! {

/// A JSON document, as far as this library reads one. The value of a number
/// is not kept: no decision here depends on one.
#[derive(Debug, PartialEq, Eq)]
pub enum Json {
    Null,
    Bool(bool),
    Number,
    Text(String),
    List(Vec<Json>),
    /// The members of an object, each key with its value.
    Record(Vec<(String, Json)>),
}

/// `serde_json::Value`, the type at which `serde_json` reads a document.
/// Nothing inside a value is visible to proofs.
#[verifier::external_type_specification]
#[verifier::external_body]
pub struct ExValue(serde_json::Value);

/// The document that `serde_json::from_str` reads from a text as a
/// `serde_json::Value`; `None` for a text that it rejects.
pub uninterp spec fn json_read(text: Seq<char>) -> Option<Json>;

/// What a `serde_json::Value` holds: each variant as the variant of `Json`
/// that bears its name, strings, elements and members carried over, the
/// members of an object in the order in which its map hands them out.
pub uninterp spec fn json_content(value: serde_json::Value) -> Json;

/// `serde_json::from_str` at the type `serde_json::Value`. The contract
/// claims only that the outcome is a function of the text: `json_read` names
/// it, and where a value comes back, it is the one whose content `json_read`
/// gives.
#[verifier::external_body]
fn read_value(text: &str) -> (outcome: Option<serde_json::Value>)
    ensures
        match outcome {
            Some(value) => json_read(text@) == Some(json_content(value)),
            None => json_read(text@) is None,
        },
{
    serde_json::from_str::<serde_json::Value>(text).ok()
}

/// Carries a `serde_json::Value` over into a `Json`: it tells the variants
/// of the value apart, clones a string, walks the elements of an array and,
/// with `serde_json::Map::iter`, the members of an object, and carries each
/// of them over in turn. The contract claims only that the result is a
/// function of the value: `json_content` names it.
#[verifier::external_body]
fn carry_over(value: &serde_json::Value) -> (doc: Json)
    ensures
        doc == json_content(*value),
{
    match value {
        serde_json::Value::Null => Json::Null,
        serde_json::Value::Bool(b) => Json::Bool(*b),
        serde_json::Value::Number(_) => Json::Number,
        serde_json::Value::String(s) => Json::Text(s.clone()),
        serde_json::Value::Array(a) => Json::List(a.iter().map(carry_over).collect()),
        serde_json::Value::Object(m) => Json::Record(
            m.iter().map(|(k, v)| (k.clone(), carry_over(v))).collect(),
        ),
    }
}

/// The value under the first of `members` whose key is `key`.
pub open spec fn member_of(members: Seq<(String, Json)>, key: Seq<char>) -> Option<Json>
    decreases members.len(),
{
    if members.len() == 0 {
        None
    } else if members[0].0@ == key {
        Some(members[0].1)
    } else {
        member_of(members.skip(1), key)
    }
}

/// The value that `path` leads to from `doc`, one member at each step;
/// `None` where a step meets no object or no such key.
pub open spec fn value_at(doc: Json, path: Seq<Seq<char>>) -> Option<Json>
    decreases path.len(),
{
    if path.len() == 0 {
        Some(doc)
    } else {
        match doc.spec_member(path[0]) {
            Some(inner) => value_at(inner, path.skip(1)),
            None => None,
        }
    }
}

/// The keys that a path of string slices names.
pub open spec fn keys_of(path: Seq<&str>) -> Seq<Seq<char>> {
    path.map_values(|key: &str| key@)
}

impl Json {
    /// Reads a JSON text; `None` for a text that is not JSON.
    pub fn parse(text: &str) -> (doc: Option<Json>)
        ensures
            doc == json_read(text@),
    {
        match read_value(text) {
            Some(value) => Some(carry_over(&value)),
            None => None,
        }
    }

    /// The member `key` of an object; `None` for any other value and for an
    /// object without that key.
    pub open spec fn spec_member(self, key: Seq<char>) -> Option<Json> {
        match self {
            Json::Record(members) => member_of(members@, key),
            _ => None,
        }
    }

    /// The element `index` of an array; `None` for any other value and
    /// beyond the array's end.
    pub open spec fn spec_item(self, index: int) -> Option<Json> {
        match self {
            Json::List(items) => if 0 <= index < items@.len() {
                Some(items@[index])
            } else {
                None
            },
            _ => None,
        }
    }

    /// The characters of a string; `None` for any other value.
    pub open spec fn spec_text(self) -> Option<Seq<char>> {
        match self {
            Json::Text(s) => Some(s@),
            _ => None,
        }
    }

    /// The member `key` of an object.
    pub fn member(&self, key: &str) -> (found: Option<&Json>)
        ensures
            match found {
                Some(inner) => self.spec_member(key@) == Some(*inner),
                None => self.spec_member(key@) is None,
            },
    {
        match self {
            Json::Record(members) => {
                let wanted = String::from_str(key);
                let mut i: usize = 0;
                assert(members@.skip(0) =~= members@);
                while i < members.len()
                    invariant
                        i <= members.len(),
                        wanted@ == key@,
                        self.spec_member(key@) == member_of(members@.skip(i as int), key@),
                    decreases members.len() - i,
                {
                    assert(members@.skip(i as int).skip(1) =~= members@.skip(i + 1));
                    assert(members@.skip(i as int)[0] == members@[i as int]);
                    if members[i].0 == wanted {
                        return Some(&members[i].1);
                    }
                    i += 1;
                }
                None
            },
            _ => None,
        }
    }

    /// The element `index` of an array.
    pub fn item(&self, index: usize) -> (found: Option<&Json>)
        ensures
            match found {
                Some(inner) => self.spec_item(index as int) == Some(*inner),
                None => self.spec_item(index as int) is None,
            },
    {
        match self {
            Json::List(items) => if index < items.len() {
                Some(&items[index])
            } else {
                None
            },
            _ => None,
        }
    }

    /// The string that this value is, if it is one.
    pub fn as_text(&self) -> (text: Option<&String>)
        ensures
            match text {
                Some(s) => self.spec_text() == Some(s@),
                None => self.spec_text() is None,
            },
    {
        match self {
            Json::Text(s) => Some(s),
            _ => None,
        }
    }

    /// Follows `path` from this value, one member at each step.
    pub fn at(&self, path: &[&str]) -> (found: Option<&Json>)
        ensures
            match found {
                Some(inner) => value_at(*self, keys_of(path@)) == Some(*inner),
                None => value_at(*self, keys_of(path@)) is None,
            },
    {
        let ghost keys = keys_of(path@);
        let mut here: &Json = self;
        let mut i: usize = 0;
        assert(keys.skip(0) =~= keys);
        while i < path.len()
            invariant
                i <= path.len(),
                keys == keys_of(path@),
                value_at(*self, keys) == value_at(*here, keys.skip(i as int)),
            decreases path.len() - i,
        {
            assert(keys.skip(i as int).skip(1) =~= keys.skip(i + 1));
            assert(keys.skip(i as int)[0] == path@[i as int]@);
            match here.member(path[i]) {
                Some(inner) => {
                    here = inner;
                },
                None => {
                    return None;
                },
            }
            i += 1;
        }
        Some(here)
    }
}

} // verus!
