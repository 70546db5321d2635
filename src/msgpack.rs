//! The binary encoding of the metadata record, through rmp_serde.
use crate::metadata::{Metadata, MetadataView};
use vstd::prelude::*;

verus! {

/// What decoding the bytes as one MessagePack value gives.
pub uninterp spec fn msgpack_value(bytes: Seq<u8>) -> Result<serde_json::Value, rmp_serde::decode::Error>;

/// What encoding the record gives: an array of the seven fields in order.
pub uninterp spec fn msgpack_record(m: MetadataView) -> Result<Seq<u8>, rmp_serde::encode::Error>;

/// Relies on rmp_serde::from_slice: decodes the first MessagePack value of
/// the bytes into a generic value.
#[verifier::external_body]
pub(crate) fn decode_msgpack(bytes: &[u8]) -> (r: Result<serde_json::Value, rmp_serde::decode::Error>)
    ensures
        r == msgpack_value(bytes@),
{
    rmp_serde::from_slice(bytes)
}

/// Relies on rmp_serde::to_vec: encodes the seven fields as one array, which
/// is how it encodes a record type by default.
#[verifier::external_body]
pub(crate) fn encode_record(m: &Metadata) -> (r: Result<Vec<u8>, rmp_serde::encode::Error>)
    ensures
        match r {
            Ok(b) => msgpack_record(m@) == Ok::<Seq<u8>, rmp_serde::encode::Error>(b@),
            Err(e) => msgpack_record(m@) == Err::<Seq<u8>, rmp_serde::encode::Error>(e),
        },
{
    rmp_serde::to_vec(&(&m.name, &m.auth, &m.fmt, &m.ed, &m.ver, &m.desc, &m.extra))
}

} // verus!
