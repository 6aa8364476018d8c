//! The fixed little-endian records of a G64 image and of a CBM DOS sector
//! header, and their decoding from bytes.
use vstd::prelude::*;

verus! {

/// Size in bytes of the G64 file header.
pub const G64_HEADER_SIZE: usize = 12;

/// Size in bytes of one entry of the track location (and speed zone) table.
pub const TRACK_LOCATION_SIZE: usize = 8;

/// Size in bytes of the length field that precedes every track's data.
pub const TRACK_LENGTH_SIZE: usize = 2;

/// Size in bytes of a decoded CBM DOS sector header block.
pub const CBM_HEADER_SIZE: usize = 8;

/// The tag that opens every G64 image: the ASCII text `GCR-1541`.
pub open spec fn g64_tag() -> Seq<u8> {
    seq![71u8, 67u8, 82u8, 45u8, 49u8, 53u8, 52u8, 49u8]
}

/// The little-endian 16-bit number at `at` in `b`.
pub open spec fn le_u16(b: Seq<u8>, at: int) -> u16 {
    (b[at] + b[at + 1] * 0x100) as u16
}

/// The little-endian 32-bit number at `at` in `b`.
pub open spec fn le_u32(b: Seq<u8>, at: int) -> u32 {
    (b[at] + b[at + 1] * 0x100 + b[at + 2] * 0x1_0000 + b[at + 3] * 0x100_0000) as u32
}

fn read_le_u16(b: &[u8], at: usize) -> (r: u16)
    requires
        at + 2 <= b@.len(),
    ensures
        r == le_u16(b@, at as int),
{
    b[at] as u16 + (b[at + 1] as u16) * 256
}

fn read_le_u32(b: &[u8], at: usize) -> (r: u32)
    requires
        at + 4 <= b@.len(),
    ensures
        r == le_u32(b@, at as int),
{
    b[at] as u32 + (b[at + 1] as u32) * 0x100 + (b[at + 2] as u32) * 0x1_0000 + (b[at + 3] as u32)
        * 0x100_0000
}

/// The header at the start of a G64 image.
#[derive(Clone, Debug, PartialEq, Eq)]
pub struct G64HeaderInfo {
    tag: [u8; 8],
    revision: u8,
    total_tracks: u8,
    track_size: u16,
}

/// The values held by a [`G64HeaderInfo`].
pub struct G64HeaderView {
    pub tag: Seq<u8>,
    pub revision: u8,
    pub total_tracks: u8,
    pub track_size: u16,
}

/// The G64 header that the first twelve bytes of `b` encode.
pub open spec fn g64_header_of(b: Seq<u8>) -> G64HeaderView {
    G64HeaderView {
        tag: b.subrange(0, 8),
        revision: b[8],
        total_tracks: b[9],
        track_size: le_u16(b, 10),
    }
}

impl View for G64HeaderInfo {
    type V = G64HeaderView;

    closed spec fn view(&self) -> G64HeaderView {
        G64HeaderView {
            tag: self.tag@,
            revision: self.revision,
            total_tracks: self.total_tracks,
            track_size: self.track_size,
        }
    }
}

impl G64HeaderInfo {
    /// Decodes the header from the first twelve bytes of `bytes` (any further
    /// bytes are not read).
    pub fn decode_from_le_bytes(bytes: &[u8]) -> (r: G64HeaderInfo)
        requires
            G64_HEADER_SIZE <= bytes@.len(),
        ensures
            r@ == g64_header_of(bytes@),
            r@.tag == bytes@.subrange(0, 8),
            r@.revision == bytes@[8],
            r@.total_tracks == bytes@[9],
            r@.track_size == bytes@[10] + 256 * bytes@[11],
    {
        let tag: [u8; 8] = [
            bytes[0],
            bytes[1],
            bytes[2],
            bytes[3],
            bytes[4],
            bytes[5],
            bytes[6],
            bytes[7],
        ];
        assert(tag@ =~= bytes@.subrange(0, 8));
        G64HeaderInfo {
            tag,
            revision: bytes[8],
            total_tracks: bytes[9],
            track_size: read_le_u16(bytes, 10),
        }
    }

    /// Whether the tag reads `GCR-1541`.
    pub fn has_g64_tag(&self) -> (r: bool)
        ensures
            r == (self@.tag == g64_tag()),
    {
        let ok = self.tag[0] == 71 && self.tag[1] == 67 && self.tag[2] == 82 && self.tag[3] == 45
            && self.tag[4] == 49 && self.tag[5] == 53 && self.tag[6] == 52 && self.tag[7] == 49;
        assert(ok ==> self@.tag =~= g64_tag());
        ok
    }

    /// The number of tracks and half tracks that the header announces.
    pub fn total_tracks(&self) -> (r: u8)
        ensures
            r == self@.total_tracks,
    {
        self.total_tracks
    }
}

/// One entry of the track location table: the file offsets of a track and of
/// the half track after it (0 where there is none). The speed zone table has
/// the same shape.
#[derive(Clone, Debug, PartialEq, Eq)]
pub struct TrackLocation {
    pub track_offset: u32,
    pub half_track_offset: u32,
}

impl TrackLocation {
    /// Decodes an entry from the first eight bytes of `bytes`.
    pub fn decode_from_le_bytes(bytes: &[u8]) -> (r: TrackLocation)
        requires
            TRACK_LOCATION_SIZE <= bytes@.len(),
        ensures
            r.track_offset == le_u32(bytes@, 0),
            r.half_track_offset == le_u32(bytes@, 4),
            r.track_offset == bytes@[0] + 0x100 * bytes@[1] + 0x1_0000 * bytes@[2] + 0x100_0000
                * bytes@[3],
            r.half_track_offset == bytes@[4] + 0x100 * bytes@[5] + 0x1_0000 * bytes@[6] + 0x100_0000
                * bytes@[7],
    {
        TrackLocation { track_offset: read_le_u32(bytes, 0), half_track_offset: read_le_u32(bytes, 4) }
    }
}

/// The length field in front of a track's data.
#[derive(Clone, Debug, PartialEq, Eq)]
pub struct G64TrackData {
    pub track_data_size: u16,
}

impl G64TrackData {
    /// Decodes the length field from the first two bytes of `bytes`.
    pub fn decode_from_le_bytes(bytes: &[u8]) -> (r: G64TrackData)
        requires
            TRACK_LENGTH_SIZE <= bytes@.len(),
        ensures
            r.track_data_size == le_u16(bytes@, 0),
            r.track_data_size == bytes@[0] + 0x100 * bytes@[1],
    {
        G64TrackData { track_data_size: read_le_u16(bytes, 0) }
    }
}

/// A decoded CBM DOS sector header block.
#[derive(Clone, Debug, PartialEq, Eq)]
pub struct CbmHeaderInfo {
    pub header_block_id: u8,
    pub header_block_checksum: u8,
    pub sector: u8,
    pub track: u8,
    pub format_id_low: u8,
    pub format_id_high: u8,
    pub reserved: u8,
    pub reserved2: u8,
}

impl CbmHeaderInfo {
    /// Reads the eight fields, one byte each, from the first eight bytes of `bytes`.
    pub fn decode_from_le_bytes(bytes: &[u8]) -> (r: CbmHeaderInfo)
        requires
            CBM_HEADER_SIZE <= bytes@.len(),
        ensures
            r.header_block_id == bytes@[0],
            r.header_block_checksum == bytes@[1],
            r.sector == bytes@[2],
            r.track == bytes@[3],
            r.format_id_low == bytes@[4],
            r.format_id_high == bytes@[5],
            r.reserved == bytes@[6],
            r.reserved2 == bytes@[7],
    {
        CbmHeaderInfo {
            header_block_id: bytes[0],
            header_block_checksum: bytes[1],
            sector: bytes[2],
            track: bytes[3],
            format_id_low: bytes[4],
            format_id_high: bytes[5],
            reserved: bytes[6],
            reserved2: bytes[7],
        }
    }
}

} // verus!
