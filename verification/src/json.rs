//! JSON documents as plain values, and the parser that produces them.

use vstd::prelude::*;

verus! {

/// A JSON document. A number is kept as its decimal text; the members of an
/// object are kept in the order in which the parser hands them over.
#[derive(Debug)]
pub enum Json {
    Null,
    Bool(bool),
    Number(String),
    Text(String),
    Array(Vec<Json>),
    Object(Vec<(String, Json)>),
}

/// A JSON document as a mathematical value.
pub enum JsonView {
    Null,
    Bool(bool),
    Number(Seq<char>),
    Text(Seq<char>),
    Array(Seq<JsonView>),
    Object(Seq<(Seq<char>, JsonView)>),
}

/// The views of the items of an array, in the same order.
pub open spec fn items_view(items: Seq<Json>) -> Seq<JsonView> {
    Seq::new(items.len(), |i: int| json_view(items[i]))
}

/// The views of the members of an object, in the same order.
pub open spec fn fields_view(fields: Seq<(String, Json)>) -> Seq<(Seq<char>, JsonView)> {
    Seq::new(fields.len(), |i: int| (fields[i].0@, json_view(fields[i].1)))
}

/// What a document holds, as a mathematical value.
pub open spec fn json_view(json: Json) -> JsonView
    decreases json,
{
    match json {
        Json::Null => JsonView::Null,
        Json::Bool(flag) => JsonView::Bool(flag),
        Json::Number(text) => JsonView::Number(text@),
        Json::Text(text) => JsonView::Text(text@),
        Json::Array(items) => JsonView::Array(
            Seq::new(
                items@.len(),
                |i: int|
                    if 0 <= i < items@.len() {
                        json_view(items@[i])
                    } else {
                        JsonView::Null
                    },
            ),
        ),
        Json::Object(fields) => JsonView::Object(
            Seq::new(
                fields@.len(),
                |i: int|
                    if 0 <= i < fields@.len() {
                        (fields@[i].0@, json_view(fields@[i].1))
                    } else {
                        (Seq::<char>::empty(), JsonView::Null)
                    },
            ),
        ),
    }
}

impl View for Json {
    type V = JsonView;

    open spec fn view(&self) -> JsonView {
        json_view(*self)
    }
}

/// The view of an array is made of the views of its items, and the view of
/// an object of the views of its members.
pub proof fn lemma_json_view(json: Json)
    ensures
        json matches Json::Array(items) ==> json@ == JsonView::Array(items_view(items@)),
        json matches Json::Object(fields) ==> json@ == JsonView::Object(fields_view(fields@)),
{
    match json {
        Json::Array(items) => {
            assert(json@->Array_0 =~= items_view(items@));
        },
        Json::Object(fields) => {
            assert(json@->Object_0 =~= fields_view(fields@));
        },
        _ => {},
    }
}

/// The place of the first member under `key` at or after `from`, or the
/// number of members where there is none.
pub open spec fn key_position(fields: Seq<(Seq<char>, JsonView)>, key: Seq<char>, from: int) -> int
    decreases fields.len() - from,
{
    if from < 0 || from >= fields.len() {
        fields.len() as int
    } else if fields[from].0 == key {
        from
    } else {
        key_position(fields, key, from + 1)
    }
}

/// The member of an object under `key`; nothing for a missing key and for a
/// document that is no object.
pub open spec fn member(json: JsonView, key: Seq<char>) -> Option<JsonView> {
    match json {
        JsonView::Object(fields) => {
            let at = key_position(fields, key, 0);
            if at < fields.len() {
                Some(fields[at].1)
            } else {
                None
            }
        },
        _ => None,
    }
}

/// The text of a document that is a string.
pub open spec fn text_of(json: JsonView) -> Option<Seq<char>> {
    match json {
        JsonView::Text(text) => Some(text),
        _ => None,
    }
}

/// The text of the member under `key`, where it is a string.
pub open spec fn member_text(json: JsonView, key: Seq<char>) -> Option<Seq<char>> {
    match member(json, key) {
        Some(found) => text_of(found),
        None => None,
    }
}

/// The items of a document that is an array.
pub open spec fn items_of(json: JsonView) -> Option<Seq<JsonView>> {
    match json {
        JsonView::Array(items) => Some(items),
        _ => None,
    }
}

/// What parsing a text as one JSON document gives: the document, or the
/// parser's complaint.
pub uninterp spec fn json_of(text: Seq<char>) -> Result<JsonView, Seq<char>>;

/// A parse result as a mathematical value.
pub open spec fn parsed_view(parsed: Result<Json, String>) -> Result<JsonView, Seq<char>> {
    match parsed {
        Ok(json) => Ok(json@),
        Err(message) => Err(message@),
    }
}

/// The place of the first member under `key`, if there is one.
fn find_key(fields: &Vec<(String, Json)>, key: &str) -> (found: Option<usize>)
    ensures
        match found {
            Some(at) => at < fields@.len() && at == key_position(fields_view(fields@), key@, 0),
            None => key_position(fields_view(fields@), key@, 0) >= fields@.len(),
        },
{
    let wanted = key.to_owned();
    let n: usize = fields.len();
    let mut i: usize = 0;
    while i < n
        invariant
            n == fields@.len(),
            i <= n,
            wanted@ == key@,
            key_position(fields_view(fields@), key@, 0) == key_position(
                fields_view(fields@),
                key@,
                i as int,
            ),
        decreases n - i,
    {
        if fields[i].0 == wanted {
            return Some(i);
        }
        i += 1;
    }
    None
}

impl Json {
    /// The member of an object under `key`.
    pub fn get(&self, key: &str) -> (found: Option<&Json>)
        ensures
            match found {
                Some(json) => member(self@, key@) == Some(json@),
                None => member(self@, key@) is None,
            },
    {
        proof {
            lemma_json_view(*self);
        }
        match self {
            Json::Object(fields) => {
                match find_key(fields, key) {
                    Some(at) => Some(&fields[at].1),
                    None => None,
                }
            },
            _ => None,
        }
    }

    /// The member of an object under `key`, taken out of the document.
    pub fn into_member(self, key: &str) -> (found: Option<Json>)
        ensures
            match found {
                Some(json) => member(self@, key@) == Some(json@),
                None => member(self@, key@) is None,
            },
    {
        proof {
            lemma_json_view(self);
        }
        match self {
            Json::Object(fields) => {
                let mut fields = fields;
                match find_key(&fields, key) {
                    Some(at) => {
                        let (_, json) = fields.remove(at);
                        Some(json)
                    },
                    None => None,
                }
            },
            _ => None,
        }
    }

    /// The text of a document that is a string.
    pub fn as_str(&self) -> (text: Option<&str>)
        ensures
            match text {
                Some(text) => text_of(self@) == Some(text@),
                None => text_of(self@) is None,
            },
    {
        match self {
            Json::Text(text) => Some(text.as_str()),
            _ => None,
        }
    }

    /// The items of a document that is an array.
    pub fn as_array(&self) -> (items: Option<&Vec<Json>>)
        ensures
            match items {
                Some(items) => items_of(self@) == Some(items_view(items@)),
                None => items_of(self@) is None,
            },
    {
        proof {
            lemma_json_view(*self);
        }
        match self {
            Json::Array(items) => Some(items),
            _ => None,
        }
    }

    /// The text of the member under `key`, where it is a string.
    pub fn get_str(&self, key: &str) -> (text: Option<&str>)
        ensures
            match text {
                Some(text) => member_text(self@, key@) == Some(text@),
                None => member_text(self@, key@) is None,
            },
    {
        match self.get(key) {
            Some(found) => found.as_str(),
            None => None,
        }
    }
}

/// A document in `serde_json`'s own form.
#[verifier::external_type_specification]
#[verifier::external_body]
pub struct ExValue(serde_json::Value);

/// Rewrites a `serde_json::Value` as a [`Json`], variant by variant: a
/// number as the text of its `Display` impl, the items of an array and the
/// members of an object in the order of their iterators. Nothing is claimed
/// of it alone.
#[verifier::external_body]
fn json_from_value(value: &serde_json::Value) -> (json: Json) {
    match value {
        serde_json::Value::Null => Json::Null,
        serde_json::Value::Bool(flag) => Json::Bool(*flag),
        serde_json::Value::Number(number) => Json::Number(number.to_string()),
        serde_json::Value::String(text) => Json::Text(text.clone()),
        serde_json::Value::Array(items) => Json::Array(items.iter().map(json_from_value).collect()),
        serde_json::Value::Object(fields) => Json::Object(
            fields.iter().map(|(key, item)| (key.clone(), json_from_value(item))).collect(),
        ),
    }
}

/// Calls `serde_json::from_str` for a `serde_json::Value` and rewrites what
/// it gives as a [`Json`]; a failure comes back as the text of the error's
/// `Display` impl. Trusted: the outcome depends on the text alone.
#[verifier::external_body]
pub(crate) fn parse_json(text: &str) -> (parsed: Result<Json, String>)
    ensures
        parsed_view(parsed) == json_of(text@),
{
    match serde_json::from_str::<serde_json::Value>(text) {
        Ok(value) => Ok(json_from_value(&value)),
        Err(error) => Err(error.to_string()),
    }
}

} // verus!
