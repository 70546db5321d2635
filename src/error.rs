//! Error kinds of the library.
use crate::metadata::MetadataField;
use vstd::prelude::*;

verus! {

/// An I/O error, carried through unchanged.
#[verifier::external_type_specification]
#[verifier::external_body]
pub struct ExIoError(std::io::Error);

/// A JSON parse error, carried through unchanged.
#[verifier::external_type_specification]
#[verifier::external_body]
pub struct ExJsonError(serde_json::Error);

/// A MessagePack encode error, carried through unchanged.
#[verifier::external_type_specification]
#[verifier::external_body]
pub struct ExMsgPackEncodeError(rmp_serde::encode::Error);

/// A MessagePack decode error, carried through unchanged.
#[verifier::external_type_specification]
#[verifier::external_body]
pub struct ExMsgPackDecodeError(rmp_serde::decode::Error);

/// What can go wrong while packing, unpacking or reading metadata.
#[derive(Debug)]
pub enum ProjzstError {
    /// A read, write or directory creation failed.
    Io(std::io::Error),
    /// Text that should hold JSON did not parse.
    Json(serde_json::Error),
    /// The metadata record could not be encoded.
    MsgPackEncode(rmp_serde::encode::Error),
    /// The metadata bytes are not a MessagePack value.
    MsgPackDecode(rmp_serde::decode::Error),
    /// The metadata bytes decode to a value that is neither a map nor an
    /// array of at most seven fields.
    NotARecord,
    /// The metadata bytes decode to a record whose field has the wrong type.
    InvalidField(MetadataField),
    /// The encoded metadata is empty or larger than the maximum; holds the size.
    InvalidMetadataLength(usize),
    /// The file meant to hold the extension value cannot be read; holds its path.
    ExtraFileNotFound(String),
    /// The directory to pack does not exist; holds its path.
    SourceNotFound(String),
    /// The file does not start with a well-formed header.
    InvalidFileHeader,
    /// Fields outside the schema were found while they are rejected; holds
    /// every offending field path.
    UnknownFields(Vec<String>),
    /// The policy token names no unknown-field policy.
    InvalidIgnoreUnknownParam,
}

} // verus!
