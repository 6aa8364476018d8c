//! Properties of the parsing model that hold for every input.
use vstd::prelude::*;
use crate::gcr::{gcr_decode, lemma_gcr_decode_len};
use crate::layout::{g64_header_of, g64_tag, le_u16, le_u32};
use crate::model::{
    add_track, image_ok, track_at_ok, track_capture, is_sync_mark_at, mark_decodable, parsed_image, scan_marks,
    sync_marks, sync_marks_before, track_at, track_count, track_decodable, track_sectors,
    tracks_before, TRACK_DATA_IDENTIFIER, TRACK_DATA_SIZE, TRACK_HEADER_IDENTIFIER,
    TRACK_HEADER_SIZE,
};
use crate::sector::{empty_block, BlockView, SectorView, TrackView};

verus! {

/// The sync marks of `data` are listed exactly once each, in increasing
/// order: every listed position is a sync mark, and every sync mark is listed.
pub proof fn law_sync_marks_exact(data: Seq<u8>)
    requires
        data.len() <= usize::MAX,
    ensures
        forall|i: int|
            0 <= i < sync_marks(data).len() ==> is_sync_mark_at(
                data,
                #[trigger] sync_marks(data)[i] as int,
            ),
        forall|i: int, j: int|
            0 <= i < j < sync_marks(data).len() ==> #[trigger] sync_marks(data)[i] < #[trigger] sync_marks(
                data,
            )[j],
        forall|p: int| #[trigger] is_sync_mark_at(data, p) ==> sync_marks(data).contains(p as usize),
{
    lemma_marks_before(data, data.len());
}

proof fn lemma_marks_before(data: Seq<u8>, n: nat)
    requires
        n <= data.len(),
        data.len() <= usize::MAX,
    ensures
        forall|i: int|
            0 <= i < sync_marks_before(data, n).len() ==> {
                &&& is_sync_mark_at(data, #[trigger] sync_marks_before(data, n)[i] as int)
                &&& sync_marks_before(data, n)[i] < n
            },
        forall|i: int, j: int|
            0 <= i < j < sync_marks_before(data, n).len() ==> #[trigger] sync_marks_before(data, n)[i]
                < #[trigger] sync_marks_before(data, n)[j],
        forall|p: int|
            0 <= p < n && #[trigger] is_sync_mark_at(data, p) ==> sync_marks_before(
                data,
                n,
            ).contains(p as usize),
    decreases n,
{
    if n > 0 {
        lemma_marks_before(data, (n - 1) as nat);
        let prev = sync_marks_before(data, (n - 1) as nat);
        let cur = sync_marks_before(data, n);
        assert forall|i: int| 0 <= i < prev.len() implies cur[i] == prev[i] by {}
        assert forall|p: int| 0 <= p < n && #[trigger] is_sync_mark_at(data, p) implies cur.contains(
            p as usize,
        ) by {
            if p < n - 1 {
                let k = choose|k: int| 0 <= k < prev.len() && prev[k] == p as usize;
                assert(cur[k] == p as usize);
            } else {
                assert(cur[cur.len() - 1] == p as usize);
            }
        }
    }
}

/// What a sector of a readable track holds: a data block of 325 GCR bytes
/// opened by the data identifier, decoded to 260 bytes or, when it does not
/// decode, to nothing; and either the empty header (no header block came
/// before it) or a header block of ten GCR bytes opened by the header
/// identifier that decodes to its eight decoded bytes.
pub proof fn law_sector_blocks(track: Seq<u8>)
    requires
        track_decodable(track),
        track.len() <= usize::MAX,
    ensures
        forall|k: int|
            0 <= k < track_sectors(track).len() ==> {
                &&& data_block_ok(#[trigger] track_sectors(track)[k].data)
                &&& header_block_ok(track_sectors(track)[k].header)
            },
{
    law_sync_marks_exact(track);
    lemma_scan_blocks(track, sync_marks(track));
}

/// A data block as the parser produces it.
pub open spec fn data_block_ok(b: BlockView) -> bool {
    &&& b.encoded.len() == TRACK_DATA_SIZE
    &&& b.encoded[0] == TRACK_DATA_IDENTIFIER
    &&& match gcr_decode(b.encoded) {
        Some(d) => b.decoded == d && d.len() == 260,
        None => b.decoded.len() == 0,
    }
}

/// A header block as the parser produces it: empty, or a decodable header.
pub open spec fn header_block_ok(b: BlockView) -> bool {
    ||| b == empty_block()
    ||| {
        &&& b.encoded.len() == TRACK_HEADER_SIZE
        &&& b.encoded[0] == TRACK_HEADER_IDENTIFIER
        &&& gcr_decode(b.encoded) == Some(b.decoded)
        &&& b.decoded.len() == 8
    }
}

proof fn lemma_scan_blocks(track: Seq<u8>, marks: Seq<usize>)
    requires
        forall|i: int|
            0 <= i < marks.len() ==> {
                &&& is_sync_mark_at(track, #[trigger] marks[i] as int)
                &&& mark_decodable(track, marks[i] as int)
            },
    ensures
        header_block_ok(scan_marks(track, marks).0),
        forall|k: int|
            0 <= k < scan_marks(track, marks).1.len() ==> {
                &&& data_block_ok(#[trigger] scan_marks(track, marks).1[k].data)
                &&& header_block_ok(scan_marks(track, marks).1[k].header)
            },
    decreases marks.len(),
{
    if marks.len() > 0 {
        let rest = marks.drop_last();
        assert forall|i: int| 0 <= i < rest.len() implies {
            &&& is_sync_mark_at(track, #[trigger] rest[i] as int)
            &&& mark_decodable(track, rest[i] as int)
        } by {
            assert(rest[i] == marks[i]);
        }
        lemma_scan_blocks(track, rest);
        let p = marks.last() as int;
        assert(is_sync_mark_at(track, marks[marks.len() - 1] as int));
        assert(mark_decodable(track, marks[marks.len() - 1] as int));
        let (header, sectors) = scan_marks(track, rest);
        if track[p] == TRACK_HEADER_IDENTIFIER {
            lemma_gcr_decode_len(track.subrange(p, p + TRACK_HEADER_SIZE));
        } else if track[p] == TRACK_DATA_IDENTIFIER {
            lemma_gcr_decode_len(track.subrange(p, p + TRACK_DATA_SIZE));
            let all = scan_marks(track, marks).1;
            assert forall|k: int| 0 <= k < all.len() implies {
                &&& data_block_ok(#[trigger] all[k].data)
                &&& header_block_ok(all[k].header)
            } by {
                if k < sectors.len() {
                    assert(all[k] == sectors[k]);
                }
            }
        }
    }
}

/// A parsed image carries the header it was read from, whose tag is
/// `GCR-1541`; its track list is either absent or holds between one and two
/// tracks per entry of the location table; and every track in it holds at
/// least one sector.
pub proof fn law_parsed_image_shape(data: Seq<u8>)
    requires
        image_ok(data),
    ensures
        parsed_image(data).g64_header matches Some(h) && h.tag == g64_tag(),
        parsed_image(data).tracks matches Some(ts) ==> {
            &&& 0 < ts.len() <= 2 * track_count(data)
            &&& forall|k: int|
                0 <= k < ts.len() ==> track_has_sectors(#[trigger] ts[k])
        },
{
    lemma_tracks_before_shape(data, track_count(data) as nat);
}

/// Every track that parsing keeps has sectors.
pub open spec fn track_has_sectors(t: TrackView) -> bool {
    t.sectors matches Some(s) && s.len() > 0
}

proof fn lemma_add_track_shape(data: Seq<u8>, tracks: Seq<TrackView>, offset: u32, zone: u32)
    requires
        forall|k: int| 0 <= k < tracks.len() ==> track_has_sectors(#[trigger] tracks[k]),
    ensures
        forall|k: int|
            0 <= k < add_track(data, tracks, offset, zone).len() ==> track_has_sectors(
                #[trigger] add_track(data, tracks, offset, zone)[k],
            ),
        tracks.len() <= add_track(data, tracks, offset, zone).len() <= tracks.len() + 1,
{
    let r = add_track(data, tracks, offset, zone);
    if let Some(t) = track_at(data, offset as int) {
        assert forall|k: int| 0 <= k < r.len() implies track_has_sectors(#[trigger] r[k]) by {
            if k < tracks.len() {
                assert(r[k] == tracks[k]);
            }
        }
    }
}

proof fn lemma_tracks_before_shape(data: Seq<u8>, n: nat)
    ensures
        tracks_before(data, n).len() <= 2 * n,
        forall|k: int|
            0 <= k < tracks_before(data, n).len() ==> track_has_sectors(
                #[trigger] tracks_before(data, n)[k],
            ),
    decreases n,
{
    if n > 0 {
        let i = n - 1;
        lemma_tracks_before_shape(data, (n - 1) as nat);
        let prev = tracks_before(data, (n - 1) as nat);
        let with_full = add_track(
            data,
            prev,
            crate::model::full_track_offset(data, i),
            crate::model::full_track_zone(data, i),
        );
        lemma_add_track_shape(
            data,
            prev,
            crate::model::full_track_offset(data, i),
            crate::model::full_track_zone(data, i),
        );
        lemma_add_track_shape(
            data,
            with_full,
            crate::model::half_track_offset(data, i),
            crate::model::half_track_zone(data, i),
        );
    }
}

/// The header of a parsed image is read from its first twelve bytes: the tag
/// from bytes 0 to 7, the revision from byte 8, the number of tracks from
/// byte 9 and the track size, little-endian, from bytes 10 and 11.
pub proof fn law_header_fields(data: Seq<u8>)
    requires
        12 <= data.len(),
    ensures
        parsed_image(data).g64_header == Some(g64_header_of(data)),
        g64_header_of(data).tag == data.subrange(0, 8),
        g64_header_of(data).revision == data[8],
        g64_header_of(data).total_tracks == data[9],
        g64_header_of(data).track_size == data[10] + 256 * data[11],
{
}

/// The `size` bytes of `data` that start at `p`.
pub open spec fn window(data: Seq<u8>, p: int, size: int) -> Seq<u8> {
    data.subrange(p, p + size)
}

/// `b` is `size` consecutive bytes of `data` lying within `start .. start + len`.
pub open spec fn lies_within(data: Seq<u8>, b: Seq<u8>, start: int, len: int, size: int) -> bool {
    exists|p: int| start <= p && p + size <= start + len && #[trigger] window(data, p, size) == b
}

/// Both blocks of a sector are bytes of `data` within `start .. start + len`
/// (the header may be the empty header instead).
pub open spec fn sector_within(data: Seq<u8>, s: SectorView, start: int, len: int) -> bool {
    &&& lies_within(data, s.data.encoded, start, len, TRACK_DATA_SIZE as int)
    &&& (s.header.encoded.len() == 0 || lies_within(data, s.header.encoded, start, len, TRACK_HEADER_SIZE as int))
}

/// A track is read from exactly the bytes its length field covers: for the
/// track whose 16-bit little-endian length `len` is at `offset`, the header
/// and data blocks of every sector found lie within `offset + 2 .. offset + 2 + len`.
pub proof fn law_track_reads_its_length(data: Seq<u8>, offset: int)
    requires
        0 <= offset,
        track_at_ok(data, offset),
        data.len() <= usize::MAX,
    ensures
        track_at(data, offset) matches Some(t) ==> (t.sectors matches Some(ss) && forall|k: int|
            0 <= k < ss.len() ==> sector_within(
                data,
                #[trigger] ss[k],
                offset + 2,
                data[offset] + 256 * data[offset + 1],
            )),
{
    if let Some(t) = track_at(data, offset) {
        let len = data[offset] + 256 * data[offset + 1];
        let track = track_capture(data, offset);
        assert(le_u16(data, offset) == len);
        assert(track.len() == len);
        law_sync_marks_exact(track);
        lemma_scan_located(track, sync_marks(track));
        let ss = track_sectors(track);
        assert forall|k: int| 0 <= k < ss.len() implies sector_within(data, #[trigger] ss[k], offset + 2, len) by {
            lemma_within_shift(data, offset + 2, len, ss[k].data.encoded, TRACK_DATA_SIZE as int);
            if ss[k].header.encoded.len() != 0 {
                lemma_within_shift(data, offset + 2, len, ss[k].header.encoded, TRACK_HEADER_SIZE as int);
            }
        }
    }
}

proof fn lemma_within_shift(data: Seq<u8>, start: int, len: int, b: Seq<u8>, size: int)
    requires
        0 <= start,
        0 <= len,
        start + len <= data.len(),
        size >= 0,
        lies_within(data.subrange(start, start + len), b, 0, len, size),
    ensures
        lies_within(data, b, start, len, size),
{
    let track = data.subrange(start, start + len);
    let p = choose|p: int| 0 <= p && p + size <= len && #[trigger] window(track, p, size) == b;
    assert(window(data, start + p, size) =~= window(track, p, size));
}

/// The blocks read while walking `marks` are bytes of the track.
proof fn lemma_scan_located(track: Seq<u8>, marks: Seq<usize>)
    requires
        forall|i: int|
            0 <= i < marks.len() ==> {
                &&& is_sync_mark_at(track, #[trigger] marks[i] as int)
                &&& mark_decodable(track, marks[i] as int)
            },
    ensures
        scan_marks(track, marks).0.encoded.len() == 0 || lies_within(
            track,
            scan_marks(track, marks).0.encoded,
            0,
            track.len() as int,
            TRACK_HEADER_SIZE as int,
        ),
        forall|k: int|
            0 <= k < scan_marks(track, marks).1.len() ==> sector_within(
                track,
                #[trigger] scan_marks(track, marks).1[k],
                0,
                track.len() as int,
            ),
    decreases marks.len(),
{
    if marks.len() > 0 {
        let rest = marks.drop_last();
        assert forall|i: int| 0 <= i < rest.len() implies {
            &&& is_sync_mark_at(track, #[trigger] rest[i] as int)
            &&& mark_decodable(track, rest[i] as int)
        } by {
            assert(rest[i] == marks[i]);
        }
        lemma_scan_located(track, rest);
        let p = marks.last() as int;
        assert(is_sync_mark_at(track, marks[marks.len() - 1] as int));
        assert(mark_decodable(track, marks[marks.len() - 1] as int));
        let (header, sectors) = scan_marks(track, rest);
        if track[p] == TRACK_HEADER_IDENTIFIER {
            assert(window(track, p, TRACK_HEADER_SIZE as int) == scan_marks(track, marks).0.encoded);
        } else if track[p] == TRACK_DATA_IDENTIFIER {
            assert(window(track, p, TRACK_DATA_SIZE as int) == scan_marks(track, marks).1.last().data.encoded);
            let all = scan_marks(track, marks).1;
            assert forall|k: int| 0 <= k < all.len() implies sector_within(track, #[trigger] all[k], 0, track.len() as int) by {
                if k < sectors.len() {
                    assert(all[k] == sectors[k]);
                }
            }
        }
    }
}

/// The numbers of the image are little-endian: the least significant byte first.
pub proof fn law_little_endian(b: Seq<u8>, at: int)
    ensures
        le_u16(b, at) == b[at] + 0x100 * b[at + 1],
        le_u32(b, at) == b[at] + 0x100 * b[at + 1] + 0x1_0000 * b[at + 2] + 0x100_0000 * b[at + 3],
{
}

/// The byte position of the table entry for slot `j` of the location table:
/// slot `2i` is the full track of entry `i`, slot `2i + 1` its half track.
pub open spec fn slot_location(j: int) -> int {
    12 + 8 * (j / 2) + 4 * (j % 2)
}

/// The byte position of the speed zone entry for slot `j`: the speed zone
/// table follows the `total_tracks / 2` entries of the location table.
pub open spec fn slot_zone_location(data: Seq<u8>, j: int) -> int {
    12 + 8 * (data[9] / 2) + 8 * (j / 2) + 4 * (j % 2)
}

/// The track that slot `j` names, with the speed zone the speed zone table
/// gives it, when sectors are found on it.
pub open spec fn slot_track(data: Seq<u8>, j: int) -> Option<TrackView> {
    match track_at(data, le_u32(data, slot_location(j)) as int) {
        Some(t) => Some(
            TrackView { sectors: t.sectors, speed_zone: le_u32(data, slot_zone_location(data, j)) as i32 },
        ),
        None => None,
    }
}

/// The tracks of a parsed image, none when it has no track list.
pub open spec fn parsed_tracks(data: Seq<u8>) -> Seq<TrackView> {
    match parsed_image(data).tracks {
        Some(ts) => ts,
        None => Seq::empty(),
    }
}

/// `ts` lists, in table order, the tracks of exactly those slots `src` below
/// `slots` that hold sectors: `src` is strictly increasing, every listed track
/// is the track of its slot, and every slot with sectors is listed.
pub open spec fn listed_in_table_order(data: Seq<u8>, ts: Seq<TrackView>, src: Seq<int>, slots: int) -> bool {
    &&& src.len() == ts.len()
    &&& forall|k: int| 0 <= k < src.len() ==> 0 <= #[trigger] src[k] < slots
    &&& forall|k: int, l: int| 0 <= k < l < src.len() ==> #[trigger] src[k] < #[trigger] src[l]
    &&& forall|k: int| 0 <= k < src.len() ==> slot_track(data, #[trigger] src[k]) == Some(ts[k])
    &&& forall|j: int| 0 <= j < slots && (#[trigger] slot_track(data, j)) is Some ==> src.contains(j)
}

/// Parsing lists the tracks of the location table in table order: for entry
/// `i` the full track at the little-endian offset stored at byte `12 + 8i`,
/// then the half track at the offset stored at byte `16 + 8i`, each exactly
/// once when sectors are found on it and with the speed zone stored at byte
/// `12 + 8 * (total_tracks / 2) + 8i` (plus 4 for the half track).
pub proof fn law_tracks_in_table_order(data: Seq<u8>)
    ensures
        exists|src: Seq<int>|
            #[trigger] listed_in_table_order(data, parsed_tracks(data), src, 2 * (data[9] / 2)),
{
    let n = track_count(data) as nat;
    lemma_tracks_before_order(data, n);
    let src = order_witness(data, n);
    assert(parsed_tracks(data) == tracks_before(data, n));
    assert(listed_in_table_order(data, parsed_tracks(data), src, 2 * (data[9] / 2)));
}

/// The slots below `2n` that hold sectors, in increasing order.
spec fn order_witness(data: Seq<u8>, n: nat) -> Seq<int>
    decreases n,
{
    if n == 0 {
        Seq::empty()
    } else {
        let prev = order_witness(data, (n - 1) as nat);
        let full = 2 * (n - 1);
        let with_full = if slot_track(data, full) is Some { prev.push(full) } else { prev };
        if slot_track(data, full + 1) is Some { with_full.push(full + 1) } else { with_full }
    }
}

proof fn lemma_push_slot(data: Seq<u8>, ts: Seq<TrackView>, src: Seq<int>, slots: int)
    requires
        listed_in_table_order(data, ts, src, slots),
        slots >= 0,
    ensures
        listed_in_table_order(
            data,
            match slot_track(data, slots) { Some(t) => ts.push(t), None => ts },
            if slot_track(data, slots) is Some { src.push(slots) } else { src },
            slots + 1,
        ),
{
    if let Some(t) = slot_track(data, slots) {
        let ts2 = ts.push(t);
        let src2 = src.push(slots);
        assert forall|k: int| 0 <= k < src2.len() implies slot_track(data, #[trigger] src2[k]) == Some(ts2[k]) by {
            if k < src.len() {
                assert(src2[k] == src[k]);
            }
        }
        assert forall|k: int, l: int| 0 <= k < l < src2.len() implies #[trigger] src2[k] < #[trigger] src2[l] by {
            if l < src.len() {
                assert(src2[k] == src[k] && src2[l] == src[l]);
            } else {
                assert(src2[k] == src[k]);
            }
        }
        assert forall|j: int| 0 <= j < slots + 1 && (#[trigger] slot_track(data, j)) is Some implies src2.contains(j) by {
            if j < slots {
                let k = choose|k: int| 0 <= k < src.len() && src[k] == j;
                assert(src2[k] == j);
            } else {
                assert(src2[src.len() as int] == j);
            }
        }
    }
}

#[verifier::rlimit(40)]
proof fn lemma_tracks_before_order(data: Seq<u8>, n: nat)
    ensures
        listed_in_table_order(data, tracks_before(data, n), order_witness(data, n), 2 * (n as int)),
    decreases n,
{
    if n > 0 {
        let i = n - 1;
        lemma_tracks_before_order(data, (n - 1) as nat);
        let prev = tracks_before(data, (n - 1) as nat);
        let full = 2 * i;
        assert(slot_location(full) == 12 + 8 * i);
        assert(slot_location(full + 1) == 12 + 8 * i + 4);
        assert(slot_zone_location(data, full) == 12 + 8 * track_count(data) + 8 * i);
        assert(slot_zone_location(data, full + 1) == 12 + 8 * track_count(data) + 8 * i + 4);
        lemma_push_slot(data, prev, order_witness(data, (n - 1) as nat), full);
        let ts1 = match slot_track(data, full) { Some(t) => prev.push(t), None => prev };
        let src1 = if slot_track(data, full) is Some { order_witness(data, (n - 1) as nat).push(full) } else { order_witness(data, (n - 1) as nat) };
        assert(ts1 == add_track(data, prev, crate::model::full_track_offset(data, i), crate::model::full_track_zone(data, i)));
        lemma_push_slot(data, ts1, src1, full + 1);
    }
}

} // verus!
