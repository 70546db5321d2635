//! The generic structured values that the extension field holds, and the
//! calls into serde_json that the library makes on them.
//!
//! A `serde_json::Value` is opaque here. What the logic reads of one is named
//! by the spec functions below: whether it is null, the text of a string, the
//! items of an array, the entries of an object.
use vstd::prelude::*;

verus! {

/// A JSON object: string keys, each bound to a value.
pub type JsonObject = serde_json::Map<String, serde_json::Value>;

#[verifier::external_type_specification]
#[verifier::external_body]
pub struct ExValue(serde_json::Value);

#[verifier::external_type_specification]
#[verifier::external_body]
#[verifier::reject_recursive_types(K)]
#[verifier::reject_recursive_types(V)]
pub struct ExMap<K, V>(serde_json::Map<K, V>);

/// The entries of a JSON object.
pub uninterp spec fn object_entries(m: serde_json::Map<String, serde_json::Value>) -> Map<
    Seq<char>,
    serde_json::Value,
>;

/// Whether a value is `null`.
pub uninterp spec fn value_is_null(v: serde_json::Value) -> bool;

/// The text of a value that is a string.
pub uninterp spec fn value_text(v: serde_json::Value) -> Option<Seq<char>>;

/// The items of a value that is an array.
pub uninterp spec fn value_items(v: serde_json::Value) -> Option<Seq<serde_json::Value>>;

/// The entries of a value that is an object.
pub uninterp spec fn value_object(v: serde_json::Value) -> Option<Map<Seq<char>, serde_json::Value>>;

/// What parsing a JSON text gives.
pub uninterp spec fn json_parsed(text: Seq<char>) -> Result<serde_json::Value, serde_json::Error>;

/// Relies on serde_json::Value's derived `Clone`: the copy holds the same data.
pub assume_specification[ <serde_json::Value as Clone>::clone ](v: &serde_json::Value) -> (r: serde_json::Value)
    ensures
        r == *v,
;

/// Relies on serde_json::Map::new: a new map has no entries.
pub assume_specification[ serde_json::Map::<String, serde_json::Value>::new ]() -> (r: serde_json::Map<String, serde_json::Value>)
    ensures
        object_entries(r).dom().is_empty(),
;

/// Relies on serde_json::Map::insert: binds the key to the value, and hands
/// back what it was bound to before.
pub assume_specification[ serde_json::Map::<String, serde_json::Value>::insert ](
    m: &mut serde_json::Map<String, serde_json::Value>,
    k: String,
    v: serde_json::Value,
) -> (r: Option<serde_json::Value>)
    ensures
        object_entries(*final(m)) == object_entries(*old(m)).insert(k@, v),
        r == object_entries(*old(m)).get(k@),
;

/// Relies on serde_json::Map::is_empty: whether the map has no entries.
pub assume_specification[ serde_json::Map::<String, serde_json::Value>::is_empty ](
    m: &serde_json::Map<String, serde_json::Value>,
) -> (r: bool)
    ensures
        r == object_entries(*m).dom().is_empty(),
;

/// Relies on serde_json::Map::remove: unbinds the key and hands back what it
/// was bound to.
#[verifier::external_body]
pub(crate) fn remove_key(m: &mut JsonObject, key: &str) -> (r: Option<serde_json::Value>)
    ensures
        object_entries(*final(m)) == object_entries(*old(m)).remove(key@),
        r == object_entries(*old(m)).get(key@),
{
    m.remove(key)
}

/// The map that a sequence of entries builds when they are inserted in order
/// (a later entry wins over an earlier one with the same key).
pub open spec fn entries_map(s: Seq<(String, serde_json::Value)>) -> Map<
    Seq<char>,
    serde_json::Value,
>
    decreases s.len(),
{
    if s.len() == 0 {
        Map::empty()
    } else {
        entries_map(s.drop_last()).insert(s.last().0@, s.last().1)
    }
}

/// No two entries share a key.
pub open spec fn keys_distinct(s: Seq<(String, serde_json::Value)>) -> bool {
    forall|i: int, j: int| 0 <= i < j < s.len() ==> s[i].0@ != s[j].0@
}

/// Relies on serde_json::Map's `into_iter`: hands out every entry once.
#[verifier::external_body]
pub(crate) fn object_into_entries(m: JsonObject) -> (r: Vec<(String, serde_json::Value)>)
    ensures
        entries_map(r@) == object_entries(m),
        keys_distinct(r@),
{
    m.into_iter().collect()
}

/// A value taken apart by its kind.
pub enum ValueShape {
    Null,
    Text(String),
    Array(Vec<serde_json::Value>),
    Object(JsonObject),
    /// A boolean or a number.
    Other(serde_json::Value),
}

/// What taking `v` apart gives.
pub open spec fn shape_of(v: serde_json::Value, r: ValueShape) -> bool {
    match r {
        ValueShape::Null => value_is_null(v) && value_text(v) is None && value_items(v) is None
            && value_object(v) is None,
        ValueShape::Text(s) => !value_is_null(v) && value_text(v) == Some(s@) && value_items(v) is None
            && value_object(v) is None,
        ValueShape::Array(a) => !value_is_null(v) && value_text(v) is None && value_items(v) == Some(
            a@,
        ) && value_object(v) is None,
        ValueShape::Object(m) => !value_is_null(v) && value_text(v) is None && value_items(v) is None
            && value_object(v) == Some(object_entries(m)),
        ValueShape::Other(w) => w == v && !value_is_null(v) && value_text(v) is None && value_items(
            v,
        ) is None && value_object(v) is None,
    }
}

/// Relies on the variants of serde_json::Value: a value is exactly one of
/// null, a string, an array, an object, or a boolean or number.
#[verifier::external_body]
pub(crate) fn take_apart(v: serde_json::Value) -> (r: ValueShape)
    ensures
        shape_of(v, r),
{
    match v {
        serde_json::Value::Null => ValueShape::Null,
        serde_json::Value::String(s) => ValueShape::Text(s),
        serde_json::Value::Array(a) => ValueShape::Array(a),
        serde_json::Value::Object(m) => ValueShape::Object(m),
        other => ValueShape::Other(other),
    }
}

/// Relies on serde_json::Value::Object: the value is an object with the
/// entries of the map.
#[verifier::external_body]
pub(crate) fn object_value(m: JsonObject) -> (r: serde_json::Value)
    ensures
        value_object(r) == Some(object_entries(m)),
        !value_is_null(r),
        value_text(r) is None,
        value_items(r) is None,
{
    serde_json::Value::Object(m)
}

/// Relies on serde_json::from_str: parses a JSON text into a value.
#[verifier::external_body]
pub(crate) fn parse_json(text: &str) -> (r: Result<serde_json::Value, serde_json::Error>)
    ensures
        r == json_parsed(text@),
{
    serde_json::from_str(text)
}

/// Inserts the entries in order.
pub fn insert_all(target: &mut JsonObject, entries: Vec<(String, serde_json::Value)>)
    ensures
        object_entries(*final(target)) == object_entries(*old(target)).union_prefer_right(
            entries_map(entries@),
        ),
{
    let ghost all = entries@;
    let ghost start = object_entries(*target);
    proof {
        assert(start =~= start.union_prefer_right(entries_map(all.take(0))));
    }
    for entry in it: entries
        invariant
            it.seq() == all,
            object_entries(*target) == start.union_prefer_right(
                entries_map(all.take(it.index() as int)),
            ),
    {
        let ghost i = it.index() as int;
        let (k, v) = entry;
        target.insert(k, v);
        proof {
            assert(all.take(i + 1).drop_last() =~= all.take(i));
            assert(object_entries(*target) =~= start.union_prefer_right(
                entries_map(all.take(i + 1)),
            ));
        }
    }
    proof {
        assert(all.take(all.len() as int) =~= all);
    }
}

} // verus!
