use crate::text::texts;
use vstd::prelude::*;
use vstd::string::StringExecFns;

verus! {

/// `serde_json::Value`, a parsed JSON document. Nothing of its inside is
/// visible to the proofs; `json_tree` names what it holds, and the
/// functions below say of each method that is called what it does in
/// terms of that name. None of that is proved here.
#[verifier::external_type_specification]
#[verifier::external_body]
pub struct ExValue(serde_json::Value);

/// What a JSON document holds, as a tree of plain values. A number stands
/// as its numeral.
pub enum Json {
    Null,
    Bool(bool),
    Number(Seq<char>),
    Text(Seq<char>),
    List(Seq<Json>),
    Object(Map<Seq<char>, Json>),
}

impl Json {
    /// The member of an object under a key; none where this is no object
    /// or the object has no such key.
    pub open spec fn member(self, key: Seq<char>) -> Option<Json> {
        match self {
            Json::Object(members) => if members.contains_key(key) {
                Some(members[key])
            } else {
                None
            },
            _ => None,
        }
    }

    /// The text of a string; none where this is no string.
    pub open spec fn text(self) -> Option<Seq<char>> {
        match self {
            Json::Text(s) => Some(s),
            _ => None,
        }
    }

    /// The elements of a list; none where this is no list.
    pub open spec fn elements(self) -> Option<Seq<Json>> {
        match self {
            Json::List(items) => Some(items),
            _ => None,
        }
    }
}

/// What a `serde_json::Value` holds.
pub uninterp spec fn json_tree(v: serde_json::Value) -> Json;

/// What `serde_json::from_str` reads a text as: the document that the
/// text denotes, or the description of the error that it reports.
pub uninterp spec fn json_document(text: Seq<char>) -> Result<Json, Seq<char>>;

/// Calls `serde_json::from_str` for a `serde_json::Value`, which parses
/// the whole text as one JSON document. Assumed: the outcome depends on
/// the text alone. An error comes back as its description.
#[verifier::external_body]
pub(crate) fn parse_document(text: &str) -> (r: Result<serde_json::Value, String>)
    ensures
        match r {
            Ok(v) => json_document(text@) == Ok::<Json, Seq<char>>(json_tree(v)),
            Err(e) => json_document(text@) == Err::<Json, Seq<char>>(e@),
        },
{
    match serde_json::from_str::<serde_json::Value>(text) {
        Ok(v) => Ok(v),
        Err(e) => Err(e.to_string()),
    }
}

/// Calls `serde_json::Value::get` with a string. Assumed: it gives the
/// member under that key where the value is an object that has the key,
/// else nothing.
#[verifier::external_body]
pub(crate) fn member_of<'a>(v: &'a serde_json::Value, key: &str) -> (r: Option<
    &'a serde_json::Value,
>)
    ensures
        match r {
            Some(m) => json_tree(*v).member(key@) == Some(json_tree(*m)),
            None => json_tree(*v).member(key@) is None,
        },
{
    v.get(key)
}

/// Calls `serde_json::Value::as_str`. Assumed: it gives the text where
/// the value is a string, else nothing.
#[verifier::external_body]
pub(crate) fn text_of(v: &serde_json::Value) -> (r: Option<String>)
    ensures
        match r {
            Some(s) => json_tree(*v).text() == Some(s@),
            None => json_tree(*v).text() is None,
        },
{
    v.as_str().map(|s| s.to_string())
}

/// Calls `serde_json::Value::as_array`. Assumed: it gives the elements
/// where the value is a list, else nothing.
#[verifier::external_body]
pub(crate) fn elements_of<'a>(v: &'a serde_json::Value) -> (r: Option<&'a Vec<serde_json::Value>>)
    ensures
        match r {
            Some(items) => json_tree(*v).elements() == Some(
                items@.map_values(|item: serde_json::Value| json_tree(item)),
            ),
            None => json_tree(*v).elements() is None,
        },
{
    v.as_array()
}

/// The members of the object that is made of names and values, pair by
/// pair.
pub open spec fn object_of(names: Seq<Seq<char>>, values: Seq<Json>) -> Map<Seq<char>, Json>
    decreases names.len(),
{
    if names.len() == 0 || values.len() != names.len() {
        Map::empty()
    } else {
        object_of(names.drop_last(), values.drop_last()).insert(names.last(), values.last())
    }
}

/// What each of a sequence of parsed documents holds.
pub open spec fn json_trees(values: Seq<serde_json::Value>) -> Seq<Json> {
    values.map_values(|v: serde_json::Value| json_tree(v))
}

/// The text that `serde_json::to_string_pretty` writes for a document, or
/// the description of the error that it reports.
pub uninterp spec fn json_pretty(tree: Json) -> Result<Seq<char>, Seq<char>>;

/// Calls `serde_json::Value::is_null`. Assumed: it tells whether the
/// value is JSON's null.
#[verifier::external_body]
pub(crate) fn is_null(v: &serde_json::Value) -> (r: bool)
    ensures
        r == (json_tree(*v) == Json::Null),
{
    v.is_null()
}

/// Calls `serde_json::Value::as_object` and, on the map that it gives,
/// `serde_json::Map::keys`. Assumed: where the value is an object, these
/// are the names of all its members, each name once; else there is
/// nothing.
#[verifier::external_body]
pub(crate) fn member_names(v: &serde_json::Value) -> (r: Option<Vec<String>>)
    ensures
        match r {
            Some(names) => match json_tree(*v) {
                Json::Object(members) => texts(names@).no_duplicates()
                    && forall|k: Seq<char>|
                    members.contains_key(k) <==> texts(names@).contains(k),
                _ => false,
            },
            None => !(json_tree(*v) is Object),
        },
{
    v.as_object().map(|m| m.keys().cloned().collect())
}

/// Calls `serde_json::Value::from` with a string slice. Assumed: it gives
/// the JSON string of that text.
#[verifier::external_body]
pub(crate) fn text_value(s: &str) -> (r: serde_json::Value)
    ensures
        json_tree(r) == Json::Text(s@),
{
    serde_json::Value::from(s)
}

/// Calls `serde_json::Value::default`. Assumed: it gives JSON's null.
#[verifier::external_body]
pub(crate) fn null_value() -> (r: serde_json::Value)
    ensures
        json_tree(r) == Json::Null,
{
    serde_json::Value::default()
}

/// Collects pairs of a name and a value with `serde_json::Value::from_iter`.
/// Assumed: for names that differ from one another it gives the object
/// whose members are those pairs.
#[verifier::external_body]
pub(crate) fn object_value(names: Vec<String>, values: Vec<serde_json::Value>) -> (r:
    serde_json::Value)
    requires
        names.len() == values.len(),
        texts(names@).no_duplicates(),
    ensures
        json_tree(r) == Json::Object(
            object_of(texts(names@), json_trees(values@)),
        ),
{
    names.into_iter().zip(values).collect()
}

/// Calls `serde_json::to_string_pretty` on a `serde_json::Value`. Assumed:
/// the outcome depends only on what the value holds; this rests on the
/// crate keeping an object's members sorted by name, as it does unless it
/// is built to preserve their order. An error comes back as its
/// description.
#[verifier::external_body]
pub(crate) fn pretty_text(v: &serde_json::Value) -> (r: Result<String, String>)
    ensures
        match r {
            Ok(t) => json_pretty(json_tree(*v)) == Ok::<Seq<char>, Seq<char>>(t@),
            Err(e) => json_pretty(json_tree(*v)) == Err::<Seq<char>, Seq<char>>(e@),
        },
{
    match serde_json::to_string_pretty(v) {
        Ok(t) => Ok(t),
        Err(e) => Err(e.to_string()),
    }
}

/// Calls `serde_json::Value::from` with a vector of values. Assumed: it
/// gives the list of those values.
#[verifier::external_body]
pub(crate) fn list_value(items: Vec<serde_json::Value>) -> (r: serde_json::Value)
    ensures
        json_tree(r) == Json::List(json_trees(items@)),
{
    serde_json::Value::from(items)
}

/// The object with two members.
pub(crate) fn object2(k1: &str, v1: serde_json::Value, k2: &str, v2: serde_json::Value) -> (r:
    serde_json::Value)
    requires
        k1@ != k2@,
    ensures
        json_tree(r) == Json::Object(
            object_of(seq![k1@, k2@], seq![json_tree(v1), json_tree(v2)]),
        ),
{
    let mut names: Vec<String> = Vec::new();
    names.push(String::from_str(k1));
    names.push(String::from_str(k2));
    let mut values: Vec<serde_json::Value> = Vec::new();
    values.push(v1);
    values.push(v2);
    assert(texts(names@) =~= seq![k1@, k2@]);
    assert(json_trees(values@) =~= seq![json_tree(v1), json_tree(v2)]);
    object_value(names, values)
}

/// The object with three members.
pub(crate) fn object3(
    k1: &str,
    v1: serde_json::Value,
    k2: &str,
    v2: serde_json::Value,
    k3: &str,
    v3: serde_json::Value,
) -> (r: serde_json::Value)
    requires
        k1@ != k2@,
        k1@ != k3@,
        k2@ != k3@,
    ensures
        json_tree(r) == Json::Object(
            object_of(seq![k1@, k2@, k3@], seq![json_tree(v1), json_tree(v2), json_tree(v3)]),
        ),
{
    let mut names: Vec<String> = Vec::new();
    names.push(String::from_str(k1));
    names.push(String::from_str(k2));
    names.push(String::from_str(k3));
    let mut values: Vec<serde_json::Value> = Vec::new();
    values.push(v1);
    values.push(v2);
    values.push(v3);
    assert(texts(names@) =~= seq![k1@, k2@, k3@]);
    assert(json_trees(values@) =~= seq![json_tree(v1), json_tree(v2), json_tree(v3)]);
    object_value(names, values)
}

} // verus!
