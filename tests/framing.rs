use projzst::frame::{
    frame_metadata, read_le_u32, split_header, HeaderAction, HeaderScan, MAX_METADATA_SIZE,
    METADATA_FRAME_MAGIC,
};
use projzst::ProjzstError;

const ZSTD_MAGIC: [u8; 4] = [0x28, 0xB5, 0x2F, 0xFD];

fn block(tag: u32, body: &[u8]) -> Vec<u8> {
    let mut out = tag.to_le_bytes().to_vec();
    out.extend_from_slice(&(body.len() as u32).to_le_bytes());
    out.extend_from_slice(body);
    out
}

#[test]
fn frame_layout_is_tag_length_body() {
    let framed = frame_metadata(&[7, 8, 9]).unwrap();
    assert_eq!(framed, vec![0x50, 0x2A, 0x4D, 0x18, 3, 0, 0, 0, 7, 8, 9]);
}

#[test]
fn frame_round_trip_with_payload() {
    let blob = vec![0x97u8, 0xc0, 1, 2, 3];
    let mut data = frame_metadata(&blob).unwrap();
    data.extend_from_slice(&ZSTD_MAGIC);
    data.extend_from_slice(&[1, 2, 3]);
    let split = split_header(&data).unwrap();
    assert_eq!(split.metadata, blob);
    assert_eq!(split.payload_start, 8 + blob.len());
    assert_eq!(&data[split.payload_start..split.payload_start + 4], &ZSTD_MAGIC);
}

#[test]
fn metadata_only_container_ends_at_input_end() {
    let data = frame_metadata(&[1, 2]).unwrap();
    let split = split_header(&data).unwrap();
    assert_eq!(split.metadata, vec![1, 2]);
    assert_eq!(split.payload_start, data.len());
}

#[test]
fn two_blocks_read_as_one() {
    let blob = vec![10u8, 20, 30, 40, 50];
    let mut two = block(METADATA_FRAME_MAGIC, &blob[..2]);
    two.extend(block(0x184D2A5F, &blob[2..]));
    two.extend_from_slice(&ZSTD_MAGIC);
    let mut one = frame_metadata(&blob).unwrap();
    one.extend_from_slice(&ZSTD_MAGIC);
    let a = split_header(&two).unwrap();
    let b = split_header(&one).unwrap();
    assert_eq!(a.metadata, b.metadata);
    assert_eq!(a.metadata, blob);
    assert_eq!(a.payload_start, 16 + blob.len());
    assert_eq!(b.payload_start, 8 + blob.len());
}

#[test]
fn payload_first_is_invalid_header() {
    let mut data = ZSTD_MAGIC.to_vec();
    data.extend(block(METADATA_FRAME_MAGIC, &[1]));
    assert!(matches!(split_header(&data), Err(ProjzstError::InvalidFileHeader)));
}

#[test]
fn tag_just_outside_window_is_payload() {
    let data = block(0x184D2A60, &[1]);
    assert!(matches!(split_header(&data), Err(ProjzstError::InvalidFileHeader)));
    let data = block(0x184D2A4F, &[1]);
    assert!(matches!(split_header(&data), Err(ProjzstError::InvalidFileHeader)));
}

#[test]
fn empty_and_short_inputs_are_invalid_header() {
    assert!(matches!(split_header(&[]), Err(ProjzstError::InvalidFileHeader)));
    assert!(matches!(split_header(&[0, 1, 2]), Err(ProjzstError::InvalidFileHeader)));
}

#[test]
fn zero_length_block_fails_on_read() {
    let mut data = block(METADATA_FRAME_MAGIC, &[]);
    data.extend_from_slice(&ZSTD_MAGIC);
    assert!(matches!(split_header(&data), Err(ProjzstError::InvalidFileHeader)));
    let data = block(METADATA_FRAME_MAGIC, &[]);
    assert!(matches!(split_header(&data), Err(ProjzstError::InvalidFileHeader)));
}

#[test]
fn truncated_block_is_invalid_header() {
    let data = block(METADATA_FRAME_MAGIC, &[1, 2, 3]);
    assert!(matches!(split_header(&data[..6]), Err(ProjzstError::InvalidFileHeader)));
    assert!(matches!(split_header(&data[..10]), Err(ProjzstError::InvalidFileHeader)));
}

#[test]
fn oversized_block_length_is_rejected_on_read() {
    let mut data = METADATA_FRAME_MAGIC.to_le_bytes().to_vec();
    data.extend_from_slice(&((MAX_METADATA_SIZE + 1) as u32).to_le_bytes());
    data.extend_from_slice(&[0; 16]);
    assert!(matches!(
        split_header(&data),
        Err(ProjzstError::InvalidMetadataLength(n)) if n == MAX_METADATA_SIZE + 1
    ));
}

#[test]
fn blocks_summing_over_the_maximum_are_rejected() {
    let first = vec![0u8; 16];
    let mut data = block(METADATA_FRAME_MAGIC, &first);
    data.extend_from_slice(&METADATA_FRAME_MAGIC.to_le_bytes());
    data.extend_from_slice(&((MAX_METADATA_SIZE - 15) as u32).to_le_bytes());
    assert!(matches!(
        split_header(&data),
        Err(ProjzstError::InvalidMetadataLength(n)) if n == MAX_METADATA_SIZE - 15
    ));
}

#[test]
fn framing_rejects_empty_and_oversized_blobs() {
    assert!(matches!(frame_metadata(&[]), Err(ProjzstError::InvalidMetadataLength(0))));
    let big = vec![0u8; MAX_METADATA_SIZE + 1];
    assert!(matches!(
        frame_metadata(&big),
        Err(ProjzstError::InvalidMetadataLength(n)) if n == 10 * 1024 * 1024 + 1
    ));
}

#[test]
fn framing_accepts_exactly_the_maximum() {
    let big = vec![1u8; MAX_METADATA_SIZE];
    let framed = frame_metadata(&big).unwrap();
    assert_eq!(framed.len(), MAX_METADATA_SIZE + 8);
    assert_eq!(&framed[4..8], &(MAX_METADATA_SIZE as u32).to_le_bytes());
    let split = split_header(&framed).unwrap();
    assert_eq!(split.metadata.len(), MAX_METADATA_SIZE);
}

#[test]
fn little_endian_read() {
    assert_eq!(read_le_u32(&[0x50, 0x2A, 0x4D, 0x18], 0), 0x184D2A50);
    assert_eq!(read_le_u32(&[9, 0xFF, 0xFF, 0xFF, 0xFF], 1), u32::MAX);
}

fn drive(data: &[u8], chunk_limit: usize) -> Result<(Vec<u8>, usize), ProjzstError> {
    let mut scan = HeaderScan::new();
    loop {
        let end = (scan.pos + scan.wanted()).min(data.len());
        let got = data[scan.pos..end].to_vec();
        assert!(got.len() <= chunk_limit.max(scan.wanted()));
        match scan.step(&got)? {
            HeaderAction::Read(n) => assert_eq!(n, scan.wanted()),
            HeaderAction::Done(p) => return Ok((scan.collected.clone(), p)),
        }
    }
}

#[test]
fn step_machine_agrees_with_split() {
    let blob = vec![1u8, 2, 3, 4, 5, 6];
    let mut data = block(METADATA_FRAME_MAGIC, &blob[..1]);
    data.extend(block(0x184D2A55, &[]));
    data.extend(block(0x184D2A5A, &blob[1..]));
    data.extend_from_slice(&ZSTD_MAGIC);
    let (collected, start) = drive(&data, 8).unwrap();
    let split = split_header(&data).unwrap();
    assert_eq!(collected, blob);
    assert_eq!(collected, split.metadata);
    assert_eq!(start, split.payload_start);
    assert_eq!(start, data.len() - 4);
}

#[test]
fn step_machine_reports_errors() {
    let data = block(METADATA_FRAME_MAGIC, &[1, 2, 3]);
    assert!(matches!(drive(&data[..9], 8), Err(ProjzstError::InvalidFileHeader)));
    assert!(matches!(drive(&ZSTD_MAGIC, 8), Err(ProjzstError::InvalidFileHeader)));
    let mut scan = HeaderScan::new();
    assert_eq!(scan.step(&METADATA_FRAME_MAGIC.to_le_bytes()).unwrap(), HeaderAction::Read(4));
    assert!(matches!(
        scan.step(&u32::MAX.to_le_bytes()),
        Err(ProjzstError::InvalidMetadataLength(n)) if n == u32::MAX as usize
    ));
}
