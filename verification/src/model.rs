//! The meaning of parsing a G64 image, stated over byte sequences: where the
//! sync marks are, which sectors a track holds, which tracks an image holds,
//! and on which images parsing is defined.
use vstd::prelude::*;
use crate::gcr::gcr_decode;
use crate::layout::{g64_header_of, g64_tag, le_u16, le_u32, G64_HEADER_SIZE};
use crate::sector::{empty_block, BlockView, ParsedView, SectorView, TrackView};

verus! {

/// Number of 0xFF bytes that form a sync mark.
pub const PATTERN_SIZE: usize = 4;

/// Number of GCR bytes of a sector header block, identifier included.
pub const TRACK_HEADER_SIZE: usize = 10;

/// Number of GCR bytes of a sector data block, identifier included.
pub const TRACK_DATA_SIZE: usize = 325;

/// The byte that opens a sector header block after a sync mark.
pub const TRACK_HEADER_IDENTIFIER: u8 = 0x52;

/// The byte that opens a sector data block after a sync mark.
pub const TRACK_DATA_IDENTIFIER: u8 = 0x55;

/// A sync mark ends just before `p`: the four bytes before `p` are 0xFF and the
/// byte at `p` has its most significant bit clear.
pub open spec fn is_sync_mark_at(data: Seq<u8>, p: int) -> bool {
    &&& PATTERN_SIZE <= p < data.len()
    &&& data[p - 4] == 0xFF
    &&& data[p - 3] == 0xFF
    &&& data[p - 2] == 0xFF
    &&& data[p - 1] == 0xFF
    &&& data[p] < 0x80
}

/// The positions `p < n` at which a sync mark ends, in increasing order.
pub open spec fn sync_marks_before(data: Seq<u8>, n: nat) -> Seq<usize>
    decreases n,
{
    if n == 0 {
        Seq::empty()
    } else {
        let prev = sync_marks_before(data, (n - 1) as nat);
        if is_sync_mark_at(data, n - 1) {
            prev.push((n - 1) as usize)
        } else {
            prev
        }
    }
}

/// All positions of `data` at which a sync mark ends, in increasing order.
pub open spec fn sync_marks(data: Seq<u8>) -> Seq<usize> {
    sync_marks_before(data, data.len())
}

/// The header block that starts at `p`: ten GCR bytes and their decoding.
pub open spec fn header_block_at(track: Seq<u8>, p: int) -> BlockView {
    BlockView {
        encoded: track.subrange(p, p + TRACK_HEADER_SIZE),
        decoded: gcr_decode(track.subrange(p, p + TRACK_HEADER_SIZE)).unwrap(),
    }
}

/// The data block that starts at `p`: 325 GCR bytes and their decoding, or
/// no decoded bytes when they do not decode.
pub open spec fn data_block_at(track: Seq<u8>, p: int) -> BlockView {
    BlockView {
        encoded: track.subrange(p, p + TRACK_DATA_SIZE),
        decoded: match gcr_decode(track.subrange(p, p + TRACK_DATA_SIZE)) {
            Some(d) => d,
            None => Seq::empty(),
        },
    }
}

/// Walking the sync marks `marks` of `track` in order: the last header block
/// seen (the empty block before the first) and the sectors found so far, one
/// for every data block, paired with the last header block before it.
pub open spec fn scan_marks(track: Seq<u8>, marks: Seq<usize>) -> (BlockView, Seq<SectorView>)
    decreases marks.len(),
{
    if marks.len() == 0 {
        (empty_block(), Seq::empty())
    } else {
        let (header, sectors) = scan_marks(track, marks.drop_last());
        let p = marks.last() as int;
        if track[p] == TRACK_HEADER_IDENTIFIER {
            (header_block_at(track, p), sectors)
        } else if track[p] == TRACK_DATA_IDENTIFIER {
            (header, sectors.push(SectorView { header: header, data: data_block_at(track, p) }))
        } else {
            (header, sectors)
        }
    }
}

/// The sectors found on a track.
pub open spec fn track_sectors(track: Seq<u8>) -> Seq<SectorView> {
    scan_marks(track, sync_marks(track)).1
}

/// The block that a sync mark at `p` opens lies within the track, and a header
/// block decodes.
pub open spec fn mark_decodable(track: Seq<u8>, p: int) -> bool {
    &&& track[p] == TRACK_HEADER_IDENTIFIER ==> {
        &&& p + TRACK_HEADER_SIZE <= track.len()
        &&& gcr_decode(track.subrange(p, p + TRACK_HEADER_SIZE)) is Some
    }
    &&& track[p] == TRACK_DATA_IDENTIFIER ==> p + TRACK_DATA_SIZE <= track.len()
}

/// Every block that a sync mark of the track opens can be read.
pub open spec fn track_decodable(track: Seq<u8>) -> bool {
    forall|i: int|
        #![trigger sync_marks(track)[i]]
        0 <= i < sync_marks(track).len() ==> mark_decodable(track, sync_marks(track)[i] as int)
}

/// A track offset names a track: it is not 0 and not past the end of the image.
pub open spec fn track_present(data: Seq<u8>, offset: int) -> bool {
    offset != 0 && offset <= data.len()
}

/// The bytes of the track whose length field is at `offset`.
pub open spec fn track_capture(data: Seq<u8>, offset: int) -> Seq<u8> {
    data.subrange(offset + 2, offset + 2 + le_u16(data, offset))
}

/// Reading the track at `offset` stays within the image and its blocks can be read.
pub open spec fn track_at_ok(data: Seq<u8>, offset: int) -> bool {
    track_present(data, offset) ==> {
        &&& offset + 2 <= data.len()
        &&& offset + 2 + le_u16(data, offset) <= data.len()
        &&& track_decodable(track_capture(data, offset))
    }
}

/// The track at `offset`, when the offset names a track on which sectors are
/// found; its speed zone is 0 until the caller sets it.
pub open spec fn track_at(data: Seq<u8>, offset: int) -> Option<TrackView> {
    if !track_present(data, offset) || track_sectors(track_capture(data, offset)).len() == 0 {
        None
    } else {
        Some(TrackView { sectors: Some(track_sectors(track_capture(data, offset))), speed_zone: 0 })
    }
}

/// Number of entries of the track location table: half the announced tracks.
pub open spec fn track_count(data: Seq<u8>) -> int {
    (data[9] / 2) as int
}

/// File offset of the `i`-th track location entry.
pub open spec fn location_entry(i: int) -> int {
    G64_HEADER_SIZE + 8 * i
}

/// File offset of the `i`-th speed zone entry.
pub open spec fn speed_zone_entry(data: Seq<u8>, i: int) -> int {
    G64_HEADER_SIZE + 8 * track_count(data) + 8 * i
}

/// Offset of the `i`-th full track.
pub open spec fn full_track_offset(data: Seq<u8>, i: int) -> u32 {
    le_u32(data, location_entry(i))
}

/// Offset of the `i`-th half track.
pub open spec fn half_track_offset(data: Seq<u8>, i: int) -> u32 {
    le_u32(data, location_entry(i) + 4)
}

/// Speed zone of the `i`-th full track.
pub open spec fn full_track_zone(data: Seq<u8>, i: int) -> u32 {
    le_u32(data, speed_zone_entry(data, i))
}

/// Speed zone of the `i`-th half track.
pub open spec fn half_track_zone(data: Seq<u8>, i: int) -> u32 {
    le_u32(data, speed_zone_entry(data, i) + 4)
}

/// `tracks` with the track at `offset` appended, given speed zone `zone`,
/// when sectors are found there.
pub open spec fn add_track(data: Seq<u8>, tracks: Seq<TrackView>, offset: u32, zone: u32) -> Seq<TrackView> {
    match track_at(data, offset as int) {
        Some(t) => tracks.push(TrackView { sectors: t.sectors, speed_zone: zone as i32 }),
        None => tracks,
    }
}

/// The tracks found for the first `n` entries of the location table, each full
/// track before its half track.
pub open spec fn tracks_before(data: Seq<u8>, n: nat) -> Seq<TrackView>
    decreases n,
{
    if n == 0 {
        Seq::empty()
    } else {
        let i = n - 1;
        let prev = tracks_before(data, (n - 1) as nat);
        let with_full = add_track(data, prev, full_track_offset(data, i), full_track_zone(data, i));
        add_track(data, with_full, half_track_offset(data, i), half_track_zone(data, i))
    }
}

/// Both tracks of the `i`-th location entry can be read.
pub open spec fn entry_ok(data: Seq<u8>, i: int) -> bool {
    &&& track_at_ok(data, full_track_offset(data, i) as int)
    &&& track_at_ok(data, half_track_offset(data, i) as int)
}

/// The images that parsing is defined on: a complete header with the tag
/// `GCR-1541`, complete location and speed zone tables, and readable tracks.
pub open spec fn image_ok(data: Seq<u8>) -> bool {
    &&& G64_HEADER_SIZE <= data.len()
    &&& data.subrange(0, 8) == g64_tag()
    &&& G64_HEADER_SIZE + 16 * track_count(data) <= data.len()
    &&& forall|i: int| 0 <= i < track_count(data) ==> #[trigger] entry_ok(data, i)
}

/// The parsed image: its header, and its tracks when sectors were found on any.
pub open spec fn parsed_image(data: Seq<u8>) -> ParsedView {
    let tracks = tracks_before(data, track_count(data) as nat);
    ParsedView {
        g64_header: Some(g64_header_of(data)),
        tracks: if tracks.len() == 0 {
            None
        } else {
            Some(tracks)
        },
    }
}

} // verus!
