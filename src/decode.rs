//! Decoding the metadata record from its encoded bytes, under an
//! unknown-field policy, and reading it from the start of a container.
use crate::error::ProjzstError;
use crate::json::{
    entries_map, object_entries, object_into_entries, object_value, remove_key, take_apart,
    value_is_null, value_items, value_object, value_text, JsonObject, ValueShape,
};
use crate::metadata::{
    empty_object, field_key, is_empty_object, merged_entries, merged_extra, Metadata, MetadataField,
};
use crate::msgpack::{decode_msgpack, msgpack_value};
use crate::policy::{text_eq, IgnoreUnknown};
use crate::string_utils::opt_view;
use vstd::prelude::*;

verus! {

/// The keys that the schema declares.
pub open spec fn known_keys() -> Set<Seq<char>> {
    set!["name"@, "auth"@, "fmt"@, "ed"@, "ver"@, "desc"@, "extra"@]
}

/// The position of a field in the array encoding.
pub open spec fn field_index(f: MetadataField) -> int {
    match f {
        MetadataField::Name => 0,
        MetadataField::Auth => 1,
        MetadataField::Fmt => 2,
        MetadataField::Ed => 3,
        MetadataField::Ver => 4,
        MetadataField::Desc => 5,
        MetadataField::Extra => 6,
    }
}

/// Whether a decoded value can hold a record: a map, or an array of at most
/// seven fields.
pub open spec fn is_record_shape(v: serde_json::Value) -> bool {
    value_object(v) is Some || (value_items(v) matches Some(a) && a.len() <= 7)
}

/// The encoded value of field `f` in the record `v`, if present.
pub open spec fn field_source(v: serde_json::Value, f: MetadataField) -> Option<serde_json::Value> {
    match value_object(v) {
        Some(m) => m.get(field_key(f)),
        None => match value_items(v) {
            Some(a) => if field_index(f) < a.len() {
                Some(a[field_index(f)])
            } else {
                None
            },
            None => None,
        },
    }
}

/// Reading an identity field from its encoded value: null or absent is no
/// text, a string is its text, anything else is an error naming the field.
pub open spec fn text_field(v: Option<serde_json::Value>, f: MetadataField) -> Result<
    Option<Seq<char>>,
    ProjzstError,
> {
    match v {
        None => Ok(None),
        Some(x) => if value_is_null(x) {
            Ok(None)
        } else {
            match value_text(x) {
                Some(t) => Ok(Some(t)),
                None => Err(ProjzstError::InvalidField(f)),
            }
        },
    }
}

/// The error of `r`, or `later` when `r` succeeded.
pub open spec fn error_or(r: Result<Option<Seq<char>>, ProjzstError>, later: Option<ProjzstError>) -> Option<ProjzstError> {
    match r {
        Err(e) => Some(e),
        Ok(_) => later,
    }
}

/// The text that `r` holds when it succeeded.
pub open spec fn text_of(r: Result<Option<Seq<char>>, ProjzstError>) -> Option<Seq<char>> {
    match r {
        Ok(t) => t,
        Err(_) => None,
    }
}

/// The first failure, in field order, of reading the identity fields.
pub open spec fn fields_error(
    name: Option<serde_json::Value>,
    auth: Option<serde_json::Value>,
    fmt: Option<serde_json::Value>,
    ed: Option<serde_json::Value>,
    ver: Option<serde_json::Value>,
    desc: Option<serde_json::Value>,
) -> Option<ProjzstError> {
    error_or(
        text_field(name, MetadataField::Name),
        error_or(
            text_field(auth, MetadataField::Auth),
            error_or(
                text_field(fmt, MetadataField::Fmt),
                error_or(
                    text_field(ed, MetadataField::Ed),
                    error_or(
                        text_field(ver, MetadataField::Ver),
                        error_or(text_field(desc, MetadataField::Desc), None),
                    ),
                ),
            ),
        ),
    )
}

/// The extension field as decoded: the encoded value, or an empty object
/// when absent.
pub open spec fn extra_field(given: Option<serde_json::Value>, extra: serde_json::Value) -> bool {
    match given {
        Some(x) => extra == x,
        None => is_empty_object(extra),
    }
}

/// The first failure of decoding the record `v`, if any.
pub open spec fn record_error(v: serde_json::Value) -> Option<ProjzstError> {
    if !is_record_shape(v) {
        Some(ProjzstError::NotARecord)
    } else {
        fields_error(
            field_source(v, MetadataField::Name),
            field_source(v, MetadataField::Auth),
            field_source(v, MetadataField::Fmt),
            field_source(v, MetadataField::Ed),
            field_source(v, MetadataField::Ver),
            field_source(v, MetadataField::Desc),
        )
    }
}

/// `m` holds the identity fields of the record `v`.
pub open spec fn identity_of(v: serde_json::Value, m: Metadata) -> bool {
    &&& m@.name == text_of(text_field(field_source(v, MetadataField::Name), MetadataField::Name))
    &&& m@.auth == text_of(text_field(field_source(v, MetadataField::Auth), MetadataField::Auth))
    &&& m@.fmt == text_of(text_field(field_source(v, MetadataField::Fmt), MetadataField::Fmt))
    &&& m@.ed == text_of(text_field(field_source(v, MetadataField::Ed), MetadataField::Ed))
    &&& m@.ver == text_of(text_field(field_source(v, MetadataField::Ver), MetadataField::Ver))
    &&& m@.desc == text_of(text_field(field_source(v, MetadataField::Desc), MetadataField::Desc))
}

/// Decoding a record whose fields have the given encoded values (`None`
/// when absent) gives `r`.
pub open spec fn fields_decode(
    name: Option<serde_json::Value>,
    auth: Option<serde_json::Value>,
    fmt: Option<serde_json::Value>,
    ed: Option<serde_json::Value>,
    ver: Option<serde_json::Value>,
    desc: Option<serde_json::Value>,
    extra: Option<serde_json::Value>,
    r: Result<Metadata, ProjzstError>,
) -> bool {
    match fields_error(name, auth, fmt, ed, ver, desc) {
        Some(e) => r matches Err(x) && x == e,
        None => match r {
            Ok(m) => {
                &&& m@.name == text_of(text_field(name, MetadataField::Name))
                &&& m@.auth == text_of(text_field(auth, MetadataField::Auth))
                &&& m@.fmt == text_of(text_field(fmt, MetadataField::Fmt))
                &&& m@.ed == text_of(text_field(ed, MetadataField::Ed))
                &&& m@.ver == text_of(text_field(ver, MetadataField::Ver))
                &&& m@.desc == text_of(text_field(desc, MetadataField::Desc))
                &&& extra_field(extra, m.extra)
            },
            Err(_) => false,
        },
    }
}

/// Decoding the record `v` with the declared fields alone gives `r`.
pub open spec fn decodes_to(v: serde_json::Value, r: Result<Metadata, ProjzstError>) -> bool {
    if !is_record_shape(v) {
        r matches Err(x) && x == ProjzstError::NotARecord
    } else {
        fields_decode(
            field_source(v, MetadataField::Name),
            field_source(v, MetadataField::Auth),
            field_source(v, MetadataField::Fmt),
            field_source(v, MetadataField::Ed),
            field_source(v, MetadataField::Ver),
            field_source(v, MetadataField::Desc),
            field_source(v, MetadataField::Extra),
            r,
        )
    }
}

/// The keys of the record `v` that the schema does not declare.
pub open spec fn unknown_keys(v: serde_json::Value) -> Set<Seq<char>> {
    match value_object(v) {
        Some(m) => m.dom().difference(known_keys()),
        None => Set::empty(),
    }
}

/// `s` lists each key of `keys` once.
pub open spec fn lists_keys(s: Seq<String>, keys: Set<Seq<char>>) -> bool {
    &&& forall|i: int, j: int| 0 <= i < j < s.len() ==> s[i]@ != s[j]@
    &&& forall|i: int| 0 <= i < s.len() ==> keys.contains(#[trigger] s[i]@)
    &&& forall|k: Seq<char>| keys.contains(k) ==> exists|i: int| 0 <= i < s.len() && s[i]@ == k
}

/// Decoding the record `v` under `policy` gives `r`.
pub open spec fn decodes_under(
    v: serde_json::Value,
    policy: IgnoreUnknown,
    r: Result<Metadata, ProjzstError>,
) -> bool {
    match policy {
        IgnoreUnknown::On => decodes_to(v, r),
        IgnoreUnknown::Off => if record_error(v) is None && !unknown_keys(v).is_empty() {
            r matches Err(ProjzstError::UnknownFields(list)) && lists_keys(list@, unknown_keys(v))
        } else {
            decodes_to(v, r)
        },
        IgnoreUnknown::Export => match value_object(v) {
            Some(m) => if unknown_keys(v).is_empty() {
                decodes_to(v, r)
            } else {
                match record_error(v) {
                    Some(e) => r matches Err(x) && x == e,
                    None => match r {
                        Ok(x) => identity_of(v, x) && merged_extra_from(
                            m.get("extra"@),
                            m.remove_keys(known_keys()),
                            x.extra,
                        ),
                        Err(_) => false,
                    },
                }
            },
            None => decodes_to(v, r),
        },
    }
}

/// The extension value after merging `unknown` into the decoded extension
/// field (an empty object when absent).
pub open spec fn merged_extra_from(
    given: Option<serde_json::Value>,
    unknown: Map<Seq<char>, serde_json::Value>,
    after: serde_json::Value,
) -> bool {
    match given {
        Some(x) => merged_extra(x, unknown, after),
        None => merged_entries(Map::empty(), unknown, after),
    }
}

/// Decoding the bytes `blob` under `policy` gives `r`.
pub open spec fn metadata_outcome(
    blob: Seq<u8>,
    policy: IgnoreUnknown,
    r: Result<Metadata, ProjzstError>,
) -> bool {
    match msgpack_value(blob) {
        Ok(v) => decodes_under(v, policy, r),
        Err(e) => r matches Err(x) && x == ProjzstError::MsgPackDecode(e),
    }
}

/// Whether `k` is a key that the schema declares.
pub fn is_known_key(k: &str) -> (r: bool)
    ensures
        r == known_keys().contains(k@),
{
    text_eq(k, "name") || text_eq(k, "auth") || text_eq(k, "fmt") || text_eq(k, "ed") || text_eq(
        k,
        "ver",
    ) || text_eq(k, "desc") || text_eq(k, "extra")
}

/// Reads an identity field from its encoded value.
fn read_text_field(v: Option<serde_json::Value>, f: MetadataField) -> (r: Result<
    Option<String>,
    ProjzstError,
>)
    ensures
        match r {
            Ok(t) => text_field(v, f) == Ok::<Option<Seq<char>>, ProjzstError>(opt_view(t)),
            Err(e) => text_field(v, f) == Err::<Option<Seq<char>>, ProjzstError>(e),
        },
{
    match v {
        None => Ok(None),
        Some(x) => match take_apart(x) {
            ValueShape::Null => Ok(None),
            ValueShape::Text(s) => Ok(Some(s)),
            _ => Err(ProjzstError::InvalidField(f)),
        },
    }
}

/// Builds the record from the encoded values of its fields, absent ones
/// being `None`: the common step of every policy.
pub fn record_from_fields(
    name: Option<serde_json::Value>,
    auth: Option<serde_json::Value>,
    fmt: Option<serde_json::Value>,
    ed: Option<serde_json::Value>,
    ver: Option<serde_json::Value>,
    desc: Option<serde_json::Value>,
    extra: Option<serde_json::Value>,
) -> (r: Result<Metadata, ProjzstError>)
    ensures
        fields_decode(name, auth, fmt, ed, ver, desc, extra, r),
{
    let name = match read_text_field(name, MetadataField::Name) {
        Ok(t) => t,
        Err(e) => return Err(e),
    };
    let auth = match read_text_field(auth, MetadataField::Auth) {
        Ok(t) => t,
        Err(e) => return Err(e),
    };
    let fmt = match read_text_field(fmt, MetadataField::Fmt) {
        Ok(t) => t,
        Err(e) => return Err(e),
    };
    let ed = match read_text_field(ed, MetadataField::Ed) {
        Ok(t) => t,
        Err(e) => return Err(e),
    };
    let ver = match read_text_field(ver, MetadataField::Ver) {
        Ok(t) => t,
        Err(e) => return Err(e),
    };
    let desc = match read_text_field(desc, MetadataField::Desc) {
        Ok(t) => t,
        Err(e) => return Err(e),
    };
    let extra = match extra {
        Some(x) => x,
        None => empty_object(),
    };
    Ok(Metadata { name, auth, fmt, ed, ver, desc, extra })
}

/// Builds the record from a map encoding: each field under its key.
fn record_from_object(m: JsonObject) -> (r: Result<Metadata, ProjzstError>)
    ensures
        fields_decode(
            object_entries(m).get("name"@),
            object_entries(m).get("auth"@),
            object_entries(m).get("fmt"@),
            object_entries(m).get("ed"@),
            object_entries(m).get("ver"@),
            object_entries(m).get("desc"@),
            object_entries(m).get("extra"@),
            r,
        ),
{
    let ghost e = object_entries(m);
    let mut m = m;
    let name = remove_key(&mut m, "name");
    let auth = remove_key(&mut m, "auth");
    let fmt = remove_key(&mut m, "fmt");
    let ed = remove_key(&mut m, "ed");
    let ver = remove_key(&mut m, "ver");
    let desc = remove_key(&mut m, "desc");
    let extra = remove_key(&mut m, "extra");
    proof {
        reveal_strlit("name");
        reveal_strlit("auth");
        reveal_strlit("fmt");
        reveal_strlit("ed");
        reveal_strlit("ver");
        reveal_strlit("desc");
        reveal_strlit("extra");
        assert("name"@[0] == 'n' && "auth"@[0] == 'a' && "fmt"@[0] == 'f' && "ed"@[0] == 'e'
            && "ver"@[0] == 'v' && "desc"@[0] == 'd' && "extra"@[0] == 'e');
        assert("ed"@.len() == 2 && "extra"@.len() == 5);
        let e1 = e.remove("name"@);
        let e2 = e1.remove("auth"@);
        let e3 = e2.remove("fmt"@);
        let e4 = e3.remove("ed"@);
        let e5 = e4.remove("ver"@);
        let e6 = e5.remove("desc"@);
        assert(auth == e.get("auth"@)) by {
            assert("name"@ != "auth"@);
        }
        assert(fmt == e.get("fmt"@)) by {
            assert("name"@ != "fmt"@ && "auth"@ != "fmt"@);
        }
        assert(ed == e.get("ed"@)) by {
            assert("name"@ != "ed"@ && "auth"@ != "ed"@ && "fmt"@ != "ed"@);
        }
        assert(ver == e.get("ver"@)) by {
            assert("name"@ != "ver"@ && "auth"@ != "ver"@ && "fmt"@ != "ver"@ && "ed"@ != "ver"@);
        }
        assert(desc == e.get("desc"@)) by {
            assert("name"@ != "desc"@ && "auth"@ != "desc"@ && "fmt"@ != "desc"@ && "ed"@
                != "desc"@ && "ver"@ != "desc"@);
        }
        assert(extra == e.get("extra"@)) by {
            assert("name"@ != "extra"@ && "auth"@ != "extra"@ && "fmt"@ != "extra"@ && "ed"@
                != "extra"@ && "ver"@ != "extra"@ && "desc"@ != "extra"@);
        }
    }
    record_from_fields(name, auth, fmt, ed, ver, desc, extra)
}

/// Builds the record from an array encoding: the fields by position, the
/// missing trailing ones absent.
fn record_from_items(items: Vec<serde_json::Value>) -> (r: Result<Metadata, ProjzstError>)
    ensures
        forall|v: serde_json::Value|
            value_items(v) == Some(items@) && value_object(v) is None ==> #[trigger] decodes_to(v, r),
{
    if items.len() > 7 {
        return Err(ProjzstError::NotARecord);
    }
    let ghost a = items@;
    let mut items = items;
    let extra = if items.len() > 6 { items.pop() } else { None };
    let desc = if items.len() > 5 { items.pop() } else { None };
    let ver = if items.len() > 4 { items.pop() } else { None };
    let ed = if items.len() > 3 { items.pop() } else { None };
    let fmt = if items.len() > 2 { items.pop() } else { None };
    let auth = if items.len() > 1 { items.pop() } else { None };
    let name = if items.len() > 0 { items.pop() } else { None };
    record_from_fields(name, auth, fmt, ed, ver, desc, extra)
}

/// Decodes the record from a generic value with the declared fields alone.
pub fn record_from_value(v: serde_json::Value) -> (r: Result<Metadata, ProjzstError>)
    ensures
        decodes_to(v, r),
{
    match take_apart(v) {
        ValueShape::Object(m) => record_from_object(m),
        ValueShape::Array(a) => record_from_items(a),
        _ => Err(ProjzstError::NotARecord),
    }
}

/// Splits a map into its entries under declared keys and the others.
pub fn partition_fields(m: JsonObject) -> (r: (JsonObject, JsonObject))
    ensures
        object_entries(r.0) == object_entries(m).restrict(known_keys()),
        object_entries(r.1) == object_entries(m).remove_keys(known_keys()),
{
    let entries = object_into_entries(m);
    let ghost all = entries@;
    let mut known = serde_json::Map::new();
    let mut unknown = serde_json::Map::new();
    proof {
        assert(object_entries(known) =~= entries_map(all.take(0)).restrict(known_keys()));
        assert(object_entries(unknown) =~= entries_map(all.take(0)).remove_keys(known_keys()));
    }
    for entry in it: entries
        invariant
            it.seq() == all,
            object_entries(known) == entries_map(all.take(it.index() as int)).restrict(known_keys()),
            object_entries(unknown) == entries_map(all.take(it.index() as int)).remove_keys(
                known_keys(),
            ),
    {
        let ghost i = it.index() as int;
        let (k, v) = entry;
        proof {
            assert(all.take(i + 1).drop_last() =~= all.take(i));
        }
        if is_known_key(k.as_str()) {
            known.insert(k, v);
        } else {
            unknown.insert(k, v);
        }
        proof {
            assert(object_entries(known) =~= entries_map(all.take(i + 1)).restrict(known_keys()));
            assert(object_entries(unknown) =~= entries_map(all.take(i + 1)).remove_keys(
                known_keys(),
            ));
        }
    }
    proof {
        assert(all.take(all.len() as int) =~= all);
    }
    (known, unknown)
}

proof fn lemma_entries_map_keys(s: Seq<(String, serde_json::Value)>)
    ensures
        forall|i: int| 0 <= i < s.len() ==> entries_map(s).contains_key(#[trigger] s[i].0@),
        forall|k: Seq<char>|
            entries_map(s).contains_key(k) ==> exists|i: int| 0 <= i < s.len() && s[i].0@ == k,
    decreases s.len(),
{
    if s.len() > 0 {
        let t = s.drop_last();
        lemma_entries_map_keys(t);
        assert forall|i: int| 0 <= i < s.len() implies entries_map(s).contains_key(
            #[trigger] s[i].0@,
        ) by {
            if i < t.len() {
                assert(t[i] == s[i]);
            }
        }
        assert forall|k: Seq<char>| entries_map(s).contains_key(k) implies exists|i: int|
            0 <= i < s.len() && s[i].0@ == k by {
            if k != s.last().0@ {
                assert(entries_map(t).contains_key(k));
                let i = choose|i: int| 0 <= i < t.len() && t[i].0@ == k;
                assert(t[i] == s[i]);
                assert(0 <= i < s.len() && s[i].0@ == k);
            } else {
                assert(s[s.len() - 1].0@ == k);
            }
        }
    }
}

/// The keys of a map, each once.
fn keys_of(m: JsonObject) -> (r: Vec<String>)
    ensures
        lists_keys(r@, object_entries(m).dom()),
{
    let entries = object_into_entries(m);
    let ghost all = entries@;
    proof {
        lemma_entries_map_keys(all);
    }
    let mut keys: Vec<String> = Vec::new();
    for entry in it: entries
        invariant
            it.seq() == all,
            keys@.len() == it.index(),
            forall|j: int| 0 <= j < keys@.len() ==> keys@[j]@ == all[j].0@,
    {
        let (k, _v) = entry;
        keys.push(k);
    }
    proof {
        assert forall|k: Seq<char>| object_entries(m).dom().contains(k) implies exists|i: int|
            0 <= i < keys@.len() && keys@[i]@ == k by {
            let i = choose|i: int| 0 <= i < all.len() && all[i].0@ == k;
            assert(keys@[i]@ == k);
        }
    }
    keys
}

/// Decodes the record from a generic value under the unknown-field policy.
pub fn decode_value(v: serde_json::Value, policy: IgnoreUnknown) -> (r: Result<
    Metadata,
    ProjzstError,
>)
    ensures
        decodes_under(v, policy, r),
{
    if let IgnoreUnknown::On = policy {
        return record_from_value(v);
    }
    let ghost v0 = v;
    match take_apart(v) {
        ValueShape::Object(m) => {
            let ghost e = object_entries(m);
            let (known, unknown) = partition_fields(m);
            proof {
                assert(object_entries(unknown).dom() =~= unknown_keys(v0));
            }
            let rec = record_from_object(known);
            let mut rec = match rec {
                Ok(x) => x,
                Err(err) => return Err(err),
            };
            if unknown.is_empty() {
                return Ok(rec);
            }
            match policy {
                IgnoreUnknown::Export => {
                    rec.merge_unknown_fields(object_value(unknown));
                    Ok(rec)
                },
                _ => Err(ProjzstError::UnknownFields(keys_of(unknown))),
            }
        },
        ValueShape::Array(a) => record_from_items(a),
        _ => Err(ProjzstError::NotARecord),
    }
}

/// Decodes the metadata record from its encoded bytes under the
/// unknown-field policy.
pub fn decode_metadata(bytes: &[u8], policy: IgnoreUnknown) -> (r: Result<
    Metadata,
    ProjzstError,
>)
    ensures
        metadata_outcome(bytes@, policy, r),
{
    match decode_msgpack(bytes) {
        Ok(v) => decode_value(v, policy),
        Err(e) => Err(ProjzstError::MsgPackDecode(e)),
    }
}

} // verus!
