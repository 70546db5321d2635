//! The container header as a whole: building it from a record, and reading
//! the record back from the start of a container.
use crate::decode::{decode_metadata, metadata_outcome};
use crate::error::ProjzstError;
use crate::frame::{
    frame_bytes, frame_metadata, header_of, is_payload_start, lemma_two_blocks, split_header,
    MAX_METADATA_SIZE,
};
use crate::json::{json_parsed, parse_json, value_object};
use crate::metadata::{ignored_key, merged_extra, Metadata, MetadataView};
use crate::msgpack::{encode_record, msgpack_record};
use crate::policy::IgnoreUnknown;
use vstd::prelude::*;

verus! {

/// The header that encoding the record `m` gives: one header block holding
/// its encoding, or the error.
pub open spec fn header_for(m: MetadataView, r: Result<Vec<u8>, ProjzstError>) -> bool {
    match msgpack_record(m) {
        Err(e) => r matches Err(x) && x == ProjzstError::MsgPackEncode(e),
        Ok(blob) => if blob.len() == 0 || blob.len() > MAX_METADATA_SIZE {
            r matches Err(x) && x == ProjzstError::InvalidMetadataLength(blob.len() as usize)
        } else {
            r matches Ok(h) && h@ == frame_bytes(blob)
        },
    }
}

/// Encodes the record and frames it as one header block.
pub fn encode_header(m: &Metadata) -> (r: Result<Vec<u8>, ProjzstError>)
    ensures
        header_for(m@, r),
{
    match encode_record(m) {
        Ok(blob) => frame_metadata(blob.as_slice()),
        Err(e) => Err(ProjzstError::MsgPackEncode(e)),
    }
}

/// Builds the header of a new container: when `extra_json` is given, its
/// parsed content replaces the extension value first.
pub fn pack_header(metadata: Metadata, extra_json: Option<&str>) -> (r: Result<
    Vec<u8>,
    ProjzstError,
>)
    ensures
        match extra_json {
            None => header_for(metadata@, r),
            Some(t) => match json_parsed(t@) {
                Err(e) => r matches Err(x) && x == ProjzstError::Json(e),
                Ok(x) => header_for(MetadataView { extra: x, ..metadata@ }, r),
            },
        },
{
    let metadata = match extra_json {
        Some(t) => match parse_json(t) {
            Ok(x) => metadata.with_extra(x),
            Err(e) => return Err(ProjzstError::Json(e)),
        },
        None => metadata,
    };
    encode_header(&metadata)
}

/// Reading the container `data` under `policy`: the record, or the error.
pub open spec fn header_metadata(
    data: Seq<u8>,
    policy: IgnoreUnknown,
    r: Result<Metadata, ProjzstError>,
) -> bool {
    match header_of(data) {
        Err(e) => r matches Err(x) && x == e,
        Ok((blob, _)) => metadata_outcome(blob, policy, r),
    }
}

/// Reading the container `data` under `policy` gives `r`: the record and the
/// offset of the payload, or the error.
pub open spec fn read_outcome(
    data: Seq<u8>,
    policy: IgnoreUnknown,
    r: Result<(Metadata, usize), ProjzstError>,
) -> bool {
    match r {
        Ok((m, p)) => header_metadata(data, policy, Ok(m)) && (header_of(data) matches Ok((_, q))
            && p == q),
        Err(e) => header_metadata(data, policy, Err(e)),
    }
}

/// Reads the metadata record from the start of a container, and where its
/// payload starts.
pub fn read_header(data: &[u8], policy: IgnoreUnknown) -> (r: Result<
    (Metadata, usize),
    ProjzstError,
>)
    ensures
        read_outcome(data@, policy, r),
{
    let split = match split_header(data) {
        Ok(s) => s,
        Err(e) => return Err(e),
    };
    match decode_metadata(split.metadata.as_slice(), policy) {
        Ok(m) => Ok((m, split.payload_start)),
        Err(e) => Err(e),
    }
}

/// Splitting the encoded record over two consecutive header blocks reads
/// back, under every policy, exactly as one block holding it all.
pub proof fn lemma_two_blocks_same_record(
    a: Seq<u8>,
    b: Seq<u8>,
    payload: Seq<u8>,
    policy: IgnoreUnknown,
    r: Result<Metadata, ProjzstError>,
)
    requires
        0 < a.len() + b.len() <= MAX_METADATA_SIZE,
        is_payload_start(payload),
    ensures
        header_metadata(frame_bytes(a) + frame_bytes(b) + payload, policy, r) == header_metadata(
            frame_bytes(a + b) + payload,
            policy,
            r,
        ),
{
    lemma_two_blocks(a, b, payload);
}

/// Merging into an extension value whose `ignored` entry is not an object
/// discards that entry's former content: afterwards `ignored` holds exactly
/// the merged fields.
pub proof fn lemma_merge_replaces_malformed_ignored(
    before: serde_json::Value,
    unknown: Map<Seq<char>, serde_json::Value>,
    after: serde_json::Value,
)
    requires
        value_object(before) matches Some(b) && b.contains_key(ignored_key()) && value_object(
            b[ignored_key()],
        ) is None,
        merged_extra(before, unknown, after),
    ensures
        value_object(after) matches Some(e) && value_object(e[ignored_key()]) == Some(unknown),
{
    assert(Map::<Seq<char>, serde_json::Value>::empty().union_prefer_right(unknown) =~= unknown);
}

} // verus!
