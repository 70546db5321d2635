//! Pack a directory into a container file whose header carries a structured
//! metadata record, and read that record back without touching the payload.
//!
//! Container layout: one or more header blocks, then one compressed archive
//! stream. A header block is a 4-byte little-endian tag taken from a reserved
//! window, a 4-byte little-endian length, and that many bytes of the
//! MessagePack-encoded metadata record (the fragments of all blocks are
//! concatenated before decoding).
pub mod container;
pub mod decode;
pub mod error;
pub mod frame;
pub mod json;
pub mod metadata;
pub mod msgpack;
pub mod policy;
pub mod string_utils;

pub use crate::container::{encode_header, pack_header, read_header};
pub use crate::error::ProjzstError;
pub use crate::frame::{
    frame_metadata, split_header, HeaderAction, HeaderScan, HeaderSplit, MAX_METADATA_SIZE,
};
pub use crate::metadata::{Metadata, MetadataField};
pub use crate::policy::IgnoreUnknown;
pub use crate::string_utils::IntoOpStr;
