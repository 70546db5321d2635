//! Header blocks: framing the encoded metadata and finding it again.
use crate::error::ProjzstError;
use vstd::prelude::*;

verus! {

/// Largest accepted size of the encoded metadata record, in bytes.
pub const MAX_METADATA_SIZE: usize = 10 * 1024 * 1024;

/// Lowest tag (inclusive) that marks a header block.
pub const SKIPPABLE_FRAME_MAGIC_MIN: u32 = 0x184D2A50;

/// Highest tag (inclusive) that marks a header block.
pub const SKIPPABLE_FRAME_MAGIC_MAX: u32 = 0x184D2A5F;

/// The tag this library writes on the header blocks it produces.
pub const METADATA_FRAME_MAGIC: u32 = 0x184D2A50;

/// Reads the little-endian `u32` stored at `s[i..i + 4]`.
pub open spec fn le_u32_at(s: Seq<u8>, i: int) -> nat {
    (s[i] + 256 * s[i + 1] + 65536 * s[i + 2] + 16777216 * s[i + 3]) as nat
}

/// The four little-endian bytes of `x`.
pub open spec fn le_bytes(x: nat) -> Seq<u8> {
    seq![
        (x % 256) as u8,
        ((x / 256) % 256) as u8,
        ((x / 65536) % 256) as u8,
        ((x / 16777216) % 256) as u8,
    ]
}

proof fn lemma_le_round_trip(x: nat)
    requires
        x <= u32::MAX,
    ensures
        le_bytes(x).len() == 4,
        le_u32_at(le_bytes(x), 0) == x,
{
    let b = le_bytes(x);
    assert(b[0] == x % 256);
    assert(b[1] == (x / 256) % 256);
    assert(b[2] == (x / 65536) % 256);
    assert(b[3] == (x / 16777216) % 256);
    assert(x == x % 256 + 256 * ((x / 256) % 256) + 65536 * ((x / 65536) % 256) + 16777216 * (
    (x / 16777216) % 256)) by (nonlinear_arith)
        requires
            x <= u32::MAX,
    ;
}

/// Reads a little-endian `u32` from four bytes.
pub fn read_le_u32(s: &[u8], i: usize) -> (r: u32)
    requires
        i + 4 <= s@.len(),
    ensures
        r as nat == le_u32_at(s@, i as int),
{
    let r = s[i] as u32 + 256 * (s[i + 1] as u32) + 65536 * (s[i + 2] as u32) + 16777216 * (s[i
        + 3] as u32);
    r
}

/// Appends the four little-endian bytes of `x`.
pub fn push_le_u32(out: &mut Vec<u8>, x: u32)
    ensures
        final(out)@ == old(out)@ + le_bytes(x as nat),
{
    out.push((x % 256) as u8);
    out.push(((x / 256) % 256) as u8);
    out.push(((x / 65536) % 256) as u8);
    out.push(((x / 16777216) % 256) as u8);
    assert(out@ =~= old(out)@ + le_bytes(x as nat));
}

/// Whether a tag marks a header block rather than the start of the payload.
pub open spec fn is_metadata_tag(t: nat) -> bool {
    SKIPPABLE_FRAME_MAGIC_MIN <= t <= SKIPPABLE_FRAME_MAGIC_MAX
}

/// One header block carrying `blob`, as written by this library.
pub open spec fn frame_bytes(blob: Seq<u8>) -> Seq<u8> {
    le_bytes(METADATA_FRAME_MAGIC as nat) + le_bytes(blob.len()) + blob
}

/// What reading header blocks from `data` yields, starting at `pos` with
/// `acc` collected so far: the concatenated fragments and the offset at which
/// the payload starts, or the error.
#[verifier::opaque]
pub open spec fn scan_header(data: Seq<u8>, pos: nat, acc: Seq<u8>) -> Result<
    (Seq<u8>, nat),
    ProjzstError,
>
    decreases data.len() - pos,
{
    if pos + 4 > data.len() {
        // End of input where a tag was due.
        if acc.len() == 0 {
            Err(ProjzstError::InvalidFileHeader)
        } else {
            Ok((acc, data.len()))
        }
    } else if !is_metadata_tag(le_u32_at(data, pos as int)) {
        // The payload starts with these four bytes.
        if acc.len() == 0 {
            Err(ProjzstError::InvalidFileHeader)
        } else {
            Ok((acc, pos))
        }
    } else if pos + 8 > data.len() {
        Err(ProjzstError::InvalidFileHeader)
    } else {
        let n = le_u32_at(data, pos + 4 as int);
        if acc.len() + n > MAX_METADATA_SIZE {
            Err(ProjzstError::InvalidMetadataLength(n as usize))
        } else if pos + 8 + n > data.len() {
            Err(ProjzstError::InvalidFileHeader)
        } else {
            scan_header(data, pos + 8 + n, acc + data.subrange(pos + 8 as int, pos + 8 + n as int))
        }
    }
}

/// What reading the header blocks at the start of `data` yields.
pub open spec fn header_of(data: Seq<u8>) -> Result<(Seq<u8>, nat), ProjzstError> {
    scan_header(data, 0, Seq::empty())
}

/// The metadata bytes found in the header blocks, and where the payload starts.
pub struct HeaderSplit {
    /// The fragments of all header blocks, concatenated.
    pub metadata: Vec<u8>,
    /// Offset of the first payload byte (the length of the input when the
    /// input holds metadata only).
    pub payload_start: usize,
}

/// The view of a split result, for contracts.
pub open spec fn split_view(r: Result<HeaderSplit, ProjzstError>) -> Result<
    (Seq<u8>, nat),
    ProjzstError,
> {
    match r {
        Ok(h) => Ok((h.metadata@, h.payload_start as nat)),
        Err(e) => Err(e),
    }
}

/// What a header reader is waiting for.
#[derive(Clone, Copy, Debug, PartialEq, Eq, Structural)]
pub enum ScanPhase {
    /// The 4-byte tag of the next block (or the payload, or the end).
    Tag,
    /// The 4-byte length of the block whose tag was read.
    Length,
    /// The body of the block, of this many bytes.
    Body(usize),
}

/// What the header reader asks for after a step.
#[derive(Clone, Copy, Debug, PartialEq, Eq, Structural)]
pub enum HeaderAction {
    /// Read this many more bytes (fewer if the input ends) and step again.
    Read(usize),
    /// The header is complete; the payload starts at this offset.
    Done(usize),
}

/// Reads header blocks from input handed over piece by piece, so that the
/// input need not be held whole: each step takes the bytes that the previous
/// one asked for.
pub struct HeaderScan {
    /// The fragments of the blocks read so far, concatenated.
    pub collected: Vec<u8>,
    /// Offset in the input of the next byte to read.
    pub pos: usize,
    /// What the next bytes are.
    pub phase: ScanPhase,
}

impl HeaderScan {
    /// How many bytes the next step takes.
    pub open spec fn wanted_spec(&self) -> nat {
        match self.phase {
            ScanPhase::Tag => 4,
            ScanPhase::Length => 4,
            ScanPhase::Body(n) => n as nat,
        }
    }

    /// The bytes that the next step takes when the input is `data`: the
    /// wanted number from the current offset, fewer at the end.
    pub open spec fn next_read(&self, data: Seq<u8>) -> Seq<u8> {
        let end = if self.pos + self.wanted_spec() <= data.len() {
            self.pos + self.wanted_spec()
        } else {
            data.len() as int
        };
        data.subrange(self.pos as int, end)
    }

    /// The reader stands at a point of reading the header of `data`.
    pub open spec fn agrees(&self, data: Seq<u8>) -> bool {
        let p = self.pos as int;
        let acc = self.collected@;
        &&& acc.len() <= MAX_METADATA_SIZE
        &&& match self.phase {
            ScanPhase::Tag => p <= data.len() && scan_header(data, p as nat, acc) == header_of(
                data,
            ),
            ScanPhase::Length => {
                &&& 4 <= p <= data.len()
                &&& is_metadata_tag(le_u32_at(data, p - 4))
                &&& scan_header(data, (p - 4) as nat, acc) == header_of(data)
            },
            ScanPhase::Body(n) => {
                &&& 8 <= p <= data.len()
                &&& is_metadata_tag(le_u32_at(data, p - 8))
                &&& le_u32_at(data, p - 4) == n
                &&& acc.len() + n <= MAX_METADATA_SIZE
                &&& scan_header(data, (p - 8) as nat, acc) == header_of(data)
            },
        }
    }

    /// A reader at the start of the input.
    pub fn new() -> (r: Self)
        ensures
            forall|data: Seq<u8>| #[trigger] r.agrees(data),
            r.wanted_spec() == 4,
            r.pos == 0,
    {
        let r = HeaderScan { collected: Vec::new(), pos: 0, phase: ScanPhase::Tag };
        assert forall|data: Seq<u8>| #[trigger] r.agrees(data) by {
            assert(r.collected@ =~= Seq::<u8>::empty());
        }
        r
    }

    /// How many bytes the next step takes.
    pub fn wanted(&self) -> (r: usize)
        ensures
            r == self.wanted_spec(),
    {
        match self.phase {
            ScanPhase::Tag => 4,
            ScanPhase::Length => 4,
            ScanPhase::Body(n) => n,
        }
    }

    /// Takes the bytes that were asked for (fewer only where the input
    /// ended) and decides: read on, stop at the payload or the end of input,
    /// or fail.
    pub fn step(&mut self, got: &[u8]) -> (r: Result<HeaderAction, ProjzstError>)
        requires
            old(self).pos + got@.len() <= usize::MAX,
            got@.len() <= old(self).wanted_spec(),
        ensures
            forall|data: Seq<u8>|
                #[trigger] old(self).agrees(data) && got@ == old(self).next_read(data) ==> match r {
                    Ok(HeaderAction::Read(k)) => {
                        &&& final(self).agrees(data)
                        &&& k == final(self).wanted_spec()
                    },
                    Ok(HeaderAction::Done(p)) => header_of(data) == Ok::<
                        (Seq<u8>, nat),
                        ProjzstError,
                    >((final(self).collected@, p as nat)),
                    Err(e) => header_of(data) == Err::<(Seq<u8>, nat), ProjzstError>(e),
                },
            r matches Ok(HeaderAction::Read(_)) ==> final(self).pos == old(self).pos + got@.len(),
            r matches Ok(HeaderAction::Read(_)) ==> (got@.len() > 0 || (old(self).phase is Body
                && final(self).phase is Tag)),
    {
        proof {
            reveal(scan_header);
        }
        let ghost pre = *self;
        match self.phase {
            ScanPhase::Tag => {
                if got.len() < 4 {
                    if self.collected.len() == 0 {
                        return Err(ProjzstError::InvalidFileHeader);
                    }
                    return Ok(HeaderAction::Done(self.pos + got.len()));
                }
                let tag = read_le_u32(got, 0);
                if !(SKIPPABLE_FRAME_MAGIC_MIN <= tag && tag <= SKIPPABLE_FRAME_MAGIC_MAX) {
                    if self.collected.len() == 0 {
                        return Err(ProjzstError::InvalidFileHeader);
                    }
                    return Ok(HeaderAction::Done(self.pos));
                }
                self.pos = self.pos + 4;
                self.phase = ScanPhase::Length;
                proof {
                    assert forall|data: Seq<u8>| #[trigger]
                        pre.agrees(data) && got@ == pre.next_read(data) implies self.agrees(
                        data,
                    ) by {
                        let p = pre.pos as int;
                        assert(got@[0] == data[p] && got@[1] == data[p + 1] && got@[2] == data[p
                            + 2] && got@[3] == data[p + 3]);
                    }
                }
                Ok(HeaderAction::Read(4))
            },
            ScanPhase::Length => {
                if got.len() < 4 {
                    return Err(ProjzstError::InvalidFileHeader);
                }
                let n = read_le_u32(got, 0) as usize;
                proof {
                    assert forall|data: Seq<u8>| #[trigger]
                        pre.agrees(data) && got@ == pre.next_read(data) implies le_u32_at(
                        data,
                        pre.pos as int,
                    ) == n by {
                        let p = pre.pos as int;
                        assert(got@[0] == data[p] && got@[1] == data[p + 1] && got@[2] == data[p
                            + 2] && got@[3] == data[p + 3]);
                    }
                }
                if n > MAX_METADATA_SIZE || self.collected.len() > MAX_METADATA_SIZE - n {
                    return Err(ProjzstError::InvalidMetadataLength(n));
                }
                self.pos = self.pos + 4;
                self.phase = ScanPhase::Body(n);
                Ok(HeaderAction::Read(n))
            },
            ScanPhase::Body(n) => {
                if got.len() < n {
                    return Err(ProjzstError::InvalidFileHeader);
                }
                extend_from_range(&mut self.collected, got, 0, n);
                self.pos = self.pos + n;
                self.phase = ScanPhase::Tag;
                proof {
                    assert(got@.subrange(0, n as int) =~= got@);
                    assert forall|data: Seq<u8>| #[trigger]
                        pre.agrees(data) && got@ == pre.next_read(data) implies self.agrees(
                        data,
                    ) by {
                        let p = pre.pos as int;
                        assert(data.subrange(p - 8 + 8, p - 8 + 8 + n) =~= got@);
                    }
                }
                Ok(HeaderAction::Read(4))
            },
        }
    }
}

/// Appends `s[from..to]` to `out`.
fn extend_from_range(out: &mut Vec<u8>, s: &[u8], from: usize, to: usize)
    requires
        from <= to <= s@.len(),
    ensures
        final(out)@ == old(out)@ + s@.subrange(from as int, to as int),
{
    let mut i = from;
    while i < to
        invariant
            from <= i <= to <= s@.len(),
            out@ == old(out)@ + s@.subrange(from as int, i as int),
        decreases to - i,
    {
        out.push(s[i]);
        assert(out@ =~= old(out)@ + s@.subrange(from as int, i + 1));
        i = i + 1;
    }
}

/// Orders the phases so that a step that reads nothing still makes progress.
pub open spec fn phase_rank(p: ScanPhase) -> nat {
    match p {
        ScanPhase::Length => 0,
        ScanPhase::Tag => 1,
        ScanPhase::Body(_) => 2,
    }
}

/// Reads the header blocks at the start of `data`: collects their fragments
/// until a tag outside the reserved window (the payload) or the end of input.
pub fn split_header(data: &[u8]) -> (r: Result<HeaderSplit, ProjzstError>)
    ensures
        split_view(r) == header_of(data@),
{
    let mut scan = HeaderScan::new();
    loop
        invariant
            scan.agrees(data@),
        decreases data@.len() - scan.pos, phase_rank(scan.phase),
    {
        let want = scan.wanted();
        let end = if want <= data.len() - scan.pos {
            scan.pos + want
        } else {
            data.len()
        };
        let mut got: Vec<u8> = Vec::new();
        extend_from_range(&mut got, data, scan.pos, end);
        assert(got@ =~= scan.next_read(data@));
        match scan.step(got.as_slice()) {
            Ok(HeaderAction::Read(_)) => {},
            Ok(HeaderAction::Done(p)) => {
                return Ok(HeaderSplit { metadata: scan.collected, payload_start: p });
            },
            Err(e) => {
                return Err(e);
            },
        }
    }
}

/// Frames an encoded metadata record as one header block. Fails, with the
/// size, when the record is empty or larger than the maximum.
pub fn frame_metadata(blob: &[u8]) -> (r: Result<Vec<u8>, ProjzstError>)
    ensures
        blob@.len() == 0 || blob@.len() > MAX_METADATA_SIZE ==> r == Err::<Vec<u8>, ProjzstError>(
            ProjzstError::InvalidMetadataLength(blob@.len() as usize),
        ),
        0 < blob@.len() <= MAX_METADATA_SIZE ==> (r matches Ok(v) && v@ == frame_bytes(blob@)),
{
    let len = blob.len();
    if len == 0 || len > MAX_METADATA_SIZE {
        return Err(ProjzstError::InvalidMetadataLength(len));
    }
    let mut out: Vec<u8> = Vec::new();
    push_le_u32(&mut out, METADATA_FRAME_MAGIC);
    push_le_u32(&mut out, len as u32);
    extend_from_range(&mut out, blob, 0, len);
    assert(blob@.subrange(0, len as int) =~= blob@);
    assert(out@ =~= frame_bytes(blob@));
    Ok(out)
}

/// Reading a header block of this library's own making at `pos` moves past it
/// and adds its fragment.
proof fn lemma_scan_frame(data: Seq<u8>, pos: nat, acc: Seq<u8>, blob: Seq<u8>)
    requires
        pos + 8 + blob.len() <= data.len(),
        data.subrange(pos as int, pos + 8 + blob.len() as int) == frame_bytes(blob),
        acc.len() + blob.len() <= MAX_METADATA_SIZE,
    ensures
        scan_header(data, pos, acc) == scan_header(data, pos + 8 + blob.len(), acc + blob),
{
    reveal(scan_header);
    let p = pos as int;
    let m = blob.len() as int;
    let f = frame_bytes(blob);
    lemma_le_round_trip(METADATA_FRAME_MAGIC as nat);
    lemma_le_round_trip(blob.len());
    assert forall|i: int| 0 <= i < f.len() implies data[p + i] == #[trigger] f[i] by {
        assert(data.subrange(p, p + 8 + m)[i] == f[i]);
    }
    assert(le_u32_at(data, p) == le_u32_at(f, 0)) by {
        assert(data[p + 0] == f[0]);
        assert(data[p + 1] == f[1]);
        assert(data[p + 2] == f[2]);
        assert(data[p + 3] == f[3]);
    }
    assert(le_u32_at(f, 0) == le_u32_at(le_bytes(METADATA_FRAME_MAGIC as nat), 0));
    assert(le_u32_at(data, p + 4) == le_u32_at(f, 4)) by {
        assert(data[p + 4] == f[4]);
        assert(data[p + 5] == f[5]);
        assert(data[p + 6] == f[6]);
        assert(data[p + 7] == f[7]);
    }
    assert(le_u32_at(f, 4) == le_u32_at(le_bytes(blob.len()), 0));
    assert(data.subrange(p + 8, p + 8 + m) =~= blob) by {
        assert forall|i: int| 0 <= i < m implies data.subrange(p + 8, p + 8 + m)[i]
            == blob[i] by {
            assert(f[8 + i] == blob[i]);
            assert(data[p + (8 + i)] == f[8 + i]);
        }
    }
}

/// Once something is collected, the payload or the end of input ends the scan.
proof fn lemma_scan_stop(data: Seq<u8>, pos: nat, acc: Seq<u8>)
    requires
        acc.len() > 0,
        pos == data.len() || (pos + 4 <= data.len() && !is_metadata_tag(
            le_u32_at(data, pos as int),
        )),
    ensures
        scan_header(data, pos, acc) == Ok::<(Seq<u8>, nat), ProjzstError>((acc, pos)),
{
    reveal(scan_header);
}

/// Whether `payload` may follow the header blocks: empty, or starting with a
/// tag outside the reserved window.
pub open spec fn is_payload_start(payload: Seq<u8>) -> bool {
    payload.len() == 0 || (payload.len() >= 4 && !is_metadata_tag(le_u32_at(payload, 0)))
}

proof fn lemma_payload_start_at(prefix: Seq<u8>, payload: Seq<u8>)
    requires
        is_payload_start(payload),
    ensures
        (prefix + payload).len() == prefix.len() || (prefix.len() + 4 <= (prefix
            + payload).len() && !is_metadata_tag(le_u32_at(prefix + payload, prefix.len() as int))),
{
    let d = prefix + payload;
    if payload.len() > 0 {
        let k = prefix.len() as int;
        assert(d[k + 0] == payload[0]);
        assert(d[k + 1] == payload[1]);
        assert(d[k + 2] == payload[2]);
        assert(d[k + 3] == payload[3]);
    }
}

/// Round trip of the framing: a header block made by this library, followed by
/// a payload, reads back as exactly the framed bytes, with the payload starting
/// right after the block.
pub proof fn lemma_frame_round_trip(blob: Seq<u8>, payload: Seq<u8>)
    requires
        0 < blob.len() <= MAX_METADATA_SIZE,
        is_payload_start(payload),
    ensures
        header_of(frame_bytes(blob) + payload) == Ok::<(Seq<u8>, nat), ProjzstError>(
            (blob, 8 + blob.len()),
        ),
{
    let f = frame_bytes(blob);
    let d = f + payload;
    assert(d.subrange(0, 8 + blob.len() as int) =~= f);
    lemma_scan_frame(d, 0, Seq::empty(), blob);
    assert(Seq::<u8>::empty() + blob =~= blob);
    lemma_payload_start_at(f, payload);
    lemma_scan_stop(d, 8 + blob.len(), blob);
}

/// Splitting the metadata bytes over two consecutive header blocks reads back
/// the same bytes as one block holding them all.
pub proof fn lemma_two_blocks(a: Seq<u8>, b: Seq<u8>, payload: Seq<u8>)
    requires
        0 < a.len() + b.len() <= MAX_METADATA_SIZE,
        is_payload_start(payload),
    ensures
        header_of(frame_bytes(a) + frame_bytes(b) + payload) == Ok::<(Seq<u8>, nat), ProjzstError>(
            (a + b, 16 + a.len() + b.len()),
        ),
        header_of(frame_bytes(a + b) + payload) == Ok::<(Seq<u8>, nat), ProjzstError>(
            (a + b, 8 + a.len() + b.len()),
        ),
{
    let fa = frame_bytes(a);
    let fb = frame_bytes(b);
    let d = fa + fb + payload;
    let e = Seq::<u8>::empty();
    let ma = 8 + a.len();
    let mb = ma + 8 + b.len();
    assert(header_of(d) == scan_header(d, ma, a)) by {
        assert(d.subrange(0, ma as int) =~= fa);
        assert(e + a =~= a);
        lemma_scan_frame(d, 0, e, a);
    }
    assert(scan_header(d, ma, a) == scan_header(d, mb, a + b)) by {
        assert(d.subrange(ma as int, mb as int) =~= fb);
        lemma_scan_frame(d, ma, a, b);
    }
    assert(scan_header(d, mb, a + b) == Ok::<(Seq<u8>, nat), ProjzstError>((a + b, mb))) by {
        lemma_payload_start_at(fa + fb, payload);
        lemma_scan_stop(d, mb, a + b);
    }
    lemma_frame_round_trip(a + b, payload);
}

/// A header block of length zero, with nothing collected before it, is no
/// header: reading fails.
pub proof fn lemma_zero_length_block_fails(payload: Seq<u8>)
    requires
        is_payload_start(payload),
    ensures
        header_of(frame_bytes(Seq::empty()) + payload) == Err::<(Seq<u8>, nat), ProjzstError>(
            ProjzstError::InvalidFileHeader,
        ),
{
    let e = Seq::<u8>::empty();
    let f = frame_bytes(e);
    let d = f + payload;
    assert(d.subrange(0, 8) =~= f);
    lemma_scan_frame(d, 0, e, e);
    assert(e + e =~= e);
    lemma_payload_start_at(f, payload);
    reveal(scan_header);
}

/// Input that starts with a tag outside the reserved window has no header.
pub proof fn lemma_payload_first_fails(data: Seq<u8>)
    requires
        data.len() >= 4,
        !is_metadata_tag(le_u32_at(data, 0)),
    ensures
        header_of(data) == Err::<(Seq<u8>, nat), ProjzstError>(ProjzstError::InvalidFileHeader),
{
    reveal(scan_header);
}

} // verus!
