//! The metadata record: six optional identity fields and an open-ended
//! extension value.
use crate::json::{
    insert_all, object_into_entries, object_value, remove_key, take_apart, value_object,
    ValueShape,
};
use crate::string_utils::{opt_view, IntoOpStr};
use vstd::prelude::*;

verus! {

/// The fields of the record, in the order of its array encoding.
#[derive(Clone, Copy, Debug, PartialEq, Eq, Structural)]
pub enum MetadataField {
    Name,
    Auth,
    Fmt,
    Ed,
    Ver,
    Desc,
    Extra,
}

/// The key under which a field is encoded.
pub open spec fn field_key(f: MetadataField) -> Seq<char> {
    match f {
        MetadataField::Name => "name"@,
        MetadataField::Auth => "auth"@,
        MetadataField::Fmt => "fmt"@,
        MetadataField::Ed => "ed"@,
        MetadataField::Ver => "ver"@,
        MetadataField::Desc => "desc"@,
        MetadataField::Extra => "extra"@,
    }
}

impl MetadataField {
    /// The key under which the field is encoded.
    pub fn key(&self) -> (r: &'static str)
        ensures
            r@ == field_key(*self),
    {
        match self {
            MetadataField::Name => "name",
            MetadataField::Auth => "auth",
            MetadataField::Fmt => "fmt",
            MetadataField::Ed => "ed",
            MetadataField::Ver => "ver",
            MetadataField::Desc => "desc",
            MetadataField::Extra => "extra",
        }
    }
}

/// The key of the extension entry that collects fields outside the schema.
pub open spec fn ignored_key() -> Seq<char> {
    "ignored"@
}

/// The metadata record stored in a container's header. Two records are equal
/// when all seven fields are.
#[derive(Clone, Debug, PartialEq)]
pub struct Metadata {
    /// Package name.
    pub name: Option<String>,
    /// Author name.
    pub auth: Option<String>,
    /// Package format identifier.
    pub fmt: Option<String>,
    /// Format edition.
    pub ed: Option<String>,
    /// Project version.
    pub ver: Option<String>,
    /// Package description.
    pub desc: Option<String>,
    /// Extension value, of any structure; an empty object unless set.
    pub extra: serde_json::Value,
}

/// The record with its texts as character sequences.
pub ghost struct MetadataView {
    pub name: Option<Seq<char>>,
    pub auth: Option<Seq<char>>,
    pub fmt: Option<Seq<char>>,
    pub ed: Option<Seq<char>>,
    pub ver: Option<Seq<char>>,
    pub desc: Option<Seq<char>>,
    pub extra: serde_json::Value,
}

impl View for Metadata {
    type V = MetadataView;

    open spec fn view(&self) -> MetadataView {
        MetadataView {
            name: opt_view(self.name),
            auth: opt_view(self.auth),
            fmt: opt_view(self.fmt),
            ed: opt_view(self.ed),
            ver: opt_view(self.ver),
            desc: opt_view(self.desc),
            extra: self.extra,
        }
    }
}

/// Whether the value is an object without entries.
pub open spec fn is_empty_object(v: serde_json::Value) -> bool {
    value_object(v) == Some(Map::<Seq<char>, serde_json::Value>::empty())
}

/// The entries of a value read as an object: none when it is not one.
pub open spec fn entries_or_empty(v: serde_json::Value) -> Map<Seq<char>, serde_json::Value> {
    match value_object(v) {
        Some(m) => m,
        None => Map::empty(),
    }
}

/// What merging the fields `unknown` into an extension value whose entries,
/// read as an object, are `base` gives: an object that keeps every entry of
/// `base` but `ignored`, whose `ignored` entry is an object holding the former
/// entries of `ignored` (read as an object) overwritten and extended by
/// `unknown`.
pub open spec fn merged_entries(
    base: Map<Seq<char>, serde_json::Value>,
    unknown: Map<Seq<char>, serde_json::Value>,
    after: serde_json::Value,
) -> bool {
    let prior = match base.get(ignored_key()) {
        Some(v) => entries_or_empty(v),
        None => Map::empty(),
    };
    match value_object(after) {
        Some(e) => {
            &&& e.remove(ignored_key()) == base.remove(ignored_key())
            &&& e.contains_key(ignored_key())
            &&& value_object(e[ignored_key()]) == Some(prior.union_prefer_right(unknown))
        },
        None => false,
    }
}

/// What merging the fields `unknown` into the extension value `before` gives.
pub open spec fn merged_extra(
    before: serde_json::Value,
    unknown: Map<Seq<char>, serde_json::Value>,
    after: serde_json::Value,
) -> bool {
    merged_entries(entries_or_empty(before), unknown, after)
}

/// A fresh extension value: an object without entries.
pub(crate) fn empty_object() -> (r: serde_json::Value)
    ensures
        is_empty_object(r),
{
    let m = serde_json::Map::new();
    proof {
        assert(crate::json::object_entries(m) =~= Map::empty());
    }
    object_value(m)
}

impl Default for Metadata {
    /// No identity field, and an empty extension object.
    fn default() -> (r: Self)
        ensures
            r@.name is None,
            r@.auth is None,
            r@.fmt is None,
            r@.ed is None,
            r@.ver is None,
            r@.desc is None,
            is_empty_object(r@.extra),
    {
        Metadata {
            name: None,
            auth: None,
            fmt: None,
            ed: None,
            ver: None,
            desc: None,
            extra: empty_object(),
        }
    }
}

impl Metadata {
    /// A record with the given identity fields and an empty extension object.
    pub fn new<I1, I2, I3, I4, I5, I6>(
        name: I1,
        auth: I2,
        fmt: I3,
        ed: I4,
        ver: I5,
        desc: I6,
    ) -> (r: Self) where
        I1: IntoOpStr,
        I2: IntoOpStr,
        I3: IntoOpStr,
        I4: IntoOpStr,
        I5: IntoOpStr,
        I6: IntoOpStr,

        ensures
            r@.name == name.op_str_view(),
            r@.auth == auth.op_str_view(),
            r@.fmt == fmt.op_str_view(),
            r@.ed == ed.op_str_view(),
            r@.ver == ver.op_str_view(),
            r@.desc == desc.op_str_view(),
            is_empty_object(r@.extra),
    {
        Metadata {
            name: name.into_op_str(),
            auth: auth.into_op_str(),
            fmt: fmt.into_op_str(),
            ed: ed.into_op_str(),
            ver: ver.into_op_str(),
            desc: desc.into_op_str(),
            extra: empty_object(),
        }
    }

    /// Replaces the extension value wholesale.
    pub fn with_extra(self, extra: serde_json::Value) -> (r: Self)
        ensures
            r@ == (MetadataView { extra, ..self@ }),
    {
        let mut m = self;
        m.extra = extra;
        m
    }

    /// Merges fields outside the schema into the `ignored` entry of the
    /// extension value. When `unknown` is an object, the extension value and
    /// its `ignored` entry are each made an object first if they are not
    /// (dropping what they held), and every entry of `unknown` is written into
    /// `ignored`, over an entry of the same key. Otherwise nothing changes.
    pub fn merge_unknown_fields(&mut self, unknown: serde_json::Value)
        ensures
            final(self)@.name == old(self)@.name,
            final(self)@.auth == old(self)@.auth,
            final(self)@.fmt == old(self)@.fmt,
            final(self)@.ed == old(self)@.ed,
            final(self)@.ver == old(self)@.ver,
            final(self)@.desc == old(self)@.desc,
            value_object(unknown) is None ==> final(self).extra == old(self).extra,
            value_object(unknown) matches Some(u) ==> merged_extra(
                old(self).extra,
                u,
                final(self).extra,
            ),
    {
        let unknown_map = match take_apart(unknown) {
            ValueShape::Object(m) => m,
            _ => {
                return ;
            },
        };
        let mut extra = empty_object();
        core::mem::swap(&mut extra, &mut self.extra);
        let mut extra_map = match take_apart(extra) {
            ValueShape::Object(m) => m,
            _ => serde_json::Map::new(),
        };
        let ghost base = crate::json::object_entries(extra_map);
        proof {
            assert(base =~= entries_or_empty(old(self).extra));
        }
        let mut ignored_map = match remove_key(&mut extra_map, "ignored") {
            Some(v) => match take_apart(v) {
                ValueShape::Object(m) => m,
                _ => serde_json::Map::new(),
            },
            None => serde_json::Map::new(),
        };
        let ghost prior = crate::json::object_entries(ignored_map);
        proof {
            assert(prior =~= match base.get(ignored_key()) {
                Some(v) => entries_or_empty(v),
                None => Map::empty(),
            });
        }
        insert_all(&mut ignored_map, object_into_entries(unknown_map));
        extra_map.insert("ignored".to_owned(), object_value(ignored_map));
        self.extra = object_value(extra_map);
        proof {
            let e = crate::json::object_entries(extra_map);
            assert(e.remove(ignored_key()) =~= base.remove(ignored_key()));
        }
    }
}

} // verus!
