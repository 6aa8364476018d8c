//! The parser: it holds the bytes of a G64 image and turns them into tracks
//! and sectors.
use vstd::prelude::*;
use crate::gcr::{gcr_decode, lemma_gcr_decode_len};
use crate::layout::{
    g64_tag, CbmHeaderInfo, G64HeaderInfo, G64TrackData, TrackLocation, G64_HEADER_SIZE,
    TRACK_LENGTH_SIZE, TRACK_LOCATION_SIZE,
};
use crate::model::{
    add_track, data_block_at, entry_ok, full_track_offset, full_track_zone, half_track_offset,
    half_track_zone, header_block_at, image_ok, is_sync_mark_at, mark_decodable, parsed_image,
    scan_marks, sync_marks, sync_marks_before, track_at, track_at_ok, track_capture,
    track_decodable, track_sectors, tracks_before, PATTERN_SIZE, TRACK_DATA_IDENTIFIER,
    TRACK_DATA_SIZE, TRACK_HEADER_IDENTIFIER, TRACK_HEADER_SIZE,
};
use crate::sector::{
    sectors_view, tracks_view, ParsedData, Sector, SectorData, SectorHeader, Track,
};

verus! {

/// A G64 image parser holding the bytes of the image it last read.
pub struct Fluxhead {
    data: Vec<u8>,
}

impl View for Fluxhead {
    type V = Seq<u8>;

    /// The bytes of the image held.
    closed spec fn view(&self) -> Seq<u8> {
        self.data@
    }
}

impl Fluxhead {
    /// A parser that holds no bytes yet.
    pub fn new() -> (r: Fluxhead)
        ensures
            r@ == Seq::<u8>::empty(),
    {
        Fluxhead { data: Vec::new() }
    }

    /// The positions in `data` at which a sync mark ends: four 0xFF bytes
    /// followed by a byte whose most significant bit is clear. `None` when
    /// there is no such position.
    pub fn find_sync_mark_locations(&self, data: &[u8]) -> (r: Option<Vec<usize>>)
        ensures
            match r {
                Some(v) => v@ == sync_marks(data@) && v@.len() > 0,
                None => sync_marks(data@).len() == 0,
            },
    {
        let mut offsets: Vec<usize> = Vec::new();
        let len = data.len();
        let mut ptr: usize = 0;
        proof {
            reveal_with_fuel(sync_marks_before, 5);
        }
        while ptr + PATTERN_SIZE < len
            invariant
                len == data@.len(),
                offsets@ == sync_marks_before(data@, (ptr + PATTERN_SIZE) as nat),
                ptr + PATTERN_SIZE <= len || ptr == 0,
            decreases len - ptr,
        {
            let b = data[ptr + PATTERN_SIZE];
            if data[ptr] == 0xFF && data[ptr + 1] == 0xFF && data[ptr + 2] == 0xFF && data[ptr + 3]
                == 0xFF {
                if b & 0x80 == 0 {
                    let offset = ptr + PATTERN_SIZE;
                    offsets.push(offset);
                }
            }
            assert((b & 0x80 == 0) == (b < 0x80)) by (bit_vector);
            ptr = ptr + 1;
        }
        if offsets.len() > 0 {
            return Some(offsets);
        }
        None
    }

    /// The sectors on `track`: every data block that a sync mark opens, paired
    /// with the last header block opened before it (an empty header when there
    /// was none). `None` when no data block is found.
    pub fn parse_track(&self, track: &[u8]) -> (r: Option<Vec<Sector>>)
        requires
            track_decodable(track@),
        ensures
            match r {
                Some(v) => sectors_view(v@) == track_sectors(track@) && v@.len() > 0,
                None => track_sectors(track@).len() == 0,
            },
    {
        let mut found_tracks: Vec<Sector> = Vec::new();
        let gcr_decoder = cbm_dos::GCR::new();
        let mut sector_header = SectorHeader::empty();

        if let Some(sync_offsets) = self.find_sync_mark_locations(track) {
            let n = sync_offsets.len();
            let mut i: usize = 0;
            while i < n
                invariant
                    n == sync_offsets@.len(),
                    sync_offsets@ == sync_marks(track@),
                    track_decodable(track@),
                    track@.len() == track.len(),
                    i <= n,
                    scan_marks(track@, sync_offsets@.take(i as int)) == (
                        sector_header@,
                        sectors_view(found_tracks@),
                    ),
                decreases n - i,
            {
                let offset = sync_offsets[i];
                proof {
                    assert(sync_offsets@.take(i + 1).drop_last() == sync_offsets@.take(i as int));
                    assert(mark_decodable(track@, sync_marks(track@)[i as int] as int));
                    lemma_sync_mark_in_bounds(track@, i as int);
                }
                if track[offset] == TRACK_HEADER_IDENTIFIER {
                    sector_header = self.process_track_header(track, offset, &gcr_decoder);
                }
                if track[offset] == TRACK_DATA_IDENTIFIER {
                    let sector_data = self.process_track_data(track, offset, &gcr_decoder);
                    found_tracks.push(Sector { header: sector_header.duplicate(), data: sector_data });
                }
                proof {
                    assert(sectors_view(found_tracks@) =~= scan_marks(
                        track@,
                        sync_offsets@.take(i + 1),
                    ).1);
                }
                i = i + 1;
            }
            proof {
                assert(sync_offsets@.take(n as int) == sync_offsets@);
            }
        }
        if !found_tracks.is_empty() {
            Some(found_tracks)
        } else {
            None
        }
    }

    /// The header block that opens at `offset`: its ten GCR bytes and their decoding.
    fn process_track_header(&self, track: &[u8], offset: usize, gcr_decoder: &cbm_dos::GCR) -> (r:
        SectorHeader)
        requires
            offset + TRACK_HEADER_SIZE <= track.len(),
            gcr_decode(track@.subrange(offset as int, offset + TRACK_HEADER_SIZE)) is Some,
        ensures
            r@ == header_block_at(track@, offset as int),
    {
        let encoded_data = vstd::slice::slice_to_vec(
            vstd::slice::slice_subrange(track, offset, offset + TRACK_HEADER_SIZE),
        );
        let decoded_data = gcr_decoder.decode(encoded_data.as_slice()).unwrap();
        proof {
            lemma_gcr_decode_len(encoded_data@);
        }
        // The eight decoded bytes are the header's fields: block id, checksum,
        // sector, track and format id.
        let _header_info = CbmHeaderInfo::decode_from_le_bytes(decoded_data.as_slice());
        SectorHeader { gcr_encoded_data: encoded_data, gcr_decoded_data: decoded_data }
    }

    /// The data block that opens at `offset`: its 325 GCR bytes and their
    /// decoding, or no decoded bytes when they do not decode.
    fn process_track_data(&self, track: &[u8], offset: usize, gcr_decoder: &cbm_dos::GCR) -> (r:
        SectorData)
        requires
            offset + TRACK_DATA_SIZE <= track.len(),
        ensures
            r@ == data_block_at(track@, offset as int),
    {
        let encoded_data = vstd::slice::slice_to_vec(
            vstd::slice::slice_subrange(track, offset, offset + TRACK_DATA_SIZE),
        );
        if let Some(decoded_data) = gcr_decoder.decode(encoded_data.as_slice()) {
            SectorData { gcr_encoded_data: encoded_data, gcr_decoded_data: decoded_data }
        } else {
            SectorData { gcr_encoded_data: encoded_data, gcr_decoded_data: Vec::new() }
        }
    }
}

impl Fluxhead {
    /// The track whose length field is at `offset` in the image held, when
    /// `offset` names a track (it is neither 0 nor past the end of the image)
    /// and sectors are found on it. Its speed zone is 0.
    fn process_track(&self, offset: usize) -> (r: Option<Track>)
        requires
            track_at_ok(self@, offset as int),
        ensures
            match r {
                Some(t) => track_at(self@, offset as int) == Some(t@),
                None => track_at(self@, offset as int) is None,
            },
    {
        let len = self.data.len();
        if offset == 0 || offset > len {
            return None;
        }
        let track_data = G64TrackData::decode_from_le_bytes(
            vstd::slice::slice_subrange(self.data.as_slice(), offset, len),
        );
        let data_start = offset + TRACK_LENGTH_SIZE;
        let capture = vstd::slice::slice_subrange(
            self.data.as_slice(),
            data_start,
            data_start + track_data.track_data_size as usize,
        );
        assert(capture@ == track_capture(self@, offset as int));
        if let Some(sectors) = self.parse_track(capture) {
            return Some(Track { tracks: Some(sectors), speed_zone: 0 });
        }
        None
    }

    /// Parses the image held: its header, then for every entry of the track
    /// location table the full track and the half track, each with the speed
    /// zone that the speed zone table gives it. Only tracks on which sectors
    /// are found are kept.
    fn parse(&self) -> (r: Option<ParsedData>)
        requires
            image_ok(self@),
        ensures
            r matches Some(p) && p@ == parsed_image(self@),
    {
        let data = self.data.as_slice();
        let hdr = G64HeaderInfo::decode_from_le_bytes(data);
        assert(hdr@.tag == g64_tag());

        let track_count = (hdr.total_tracks() / 2) as usize;
        let mut tracks: Vec<Track> = Vec::with_capacity(track_count * 2);

        let header_size = G64_HEADER_SIZE;
        let track_location_size = TRACK_LOCATION_SIZE;
        let speedzone_base_offset = header_size + track_count * track_location_size;

        let mut i: usize = 0;
        while i < track_count
            invariant
                data@ == self@,
                image_ok(self@),
                track_count == crate::model::track_count(self@),
                speedzone_base_offset == G64_HEADER_SIZE + 8 * track_count,
                header_size == G64_HEADER_SIZE,
                track_location_size == TRACK_LOCATION_SIZE,
                i <= track_count,
                tracks_view(tracks@) == tracks_before(self@, i as nat),
            decreases track_count - i,
        {
            let offset = header_size + i * track_location_size;
            let track_location = TrackLocation::decode_from_le_bytes(
                vstd::slice::slice_subrange(data, offset, offset + track_location_size),
            );

            let speedzone_offset = speedzone_base_offset + i * track_location_size;
            let speedzone = TrackLocation::decode_from_le_bytes(
                vstd::slice::slice_subrange(data, speedzone_offset, speedzone_offset + track_location_size),
            );
            assert(entry_ok(self@, i as int));
            let ghost prev = tracks_view(tracks@);

            if let Some(mut track) = self.process_track(track_location.track_offset as usize) {
                track.speed_zone = speedzone.track_offset as i32;
                tracks.push(track);
            }
            let ghost with_full = tracks_view(tracks@);
            assert(with_full =~= add_track(
                self@,
                prev,
                full_track_offset(self@, i as int),
                full_track_zone(self@, i as int),
            ));

            if let Some(mut track) = self.process_track(track_location.half_track_offset as usize) {
                track.speed_zone = speedzone.half_track_offset as i32;
                tracks.push(track);
            }
            assert(tracks_view(tracks@) =~= add_track(
                self@,
                with_full,
                half_track_offset(self@, i as int),
                half_track_zone(self@, i as int),
            ));
            i = i + 1;
        }

        Some(
            ParsedData {
                g64_header: Some(hdr),
                tracks: if tracks.is_empty() {
                    None
                } else {
                    Some(tracks)
                },
            },
        )
    }

    /// Stores a copy of `data` as the image held and parses it.
    pub fn parse_from_buffer(&mut self, data: &Vec<u8>) -> (r: Option<ParsedData>)
        requires
            image_ok(data@),
        ensures
            final(self)@ == data@,
            r matches Some(p) && p@ == parsed_image(data@),
    {
        self.data = vstd::slice::slice_to_vec(data.as_slice());
        self.parse()
    }

    /// Parses the contents of an image file. `contents` is what reading the
    /// file gave: `None` when it could not be read, in which case nothing is
    /// parsed and the image held stays as it was. Otherwise the contents become
    /// the image held and are parsed.
    pub fn parse_from_file(&mut self, contents: Option<Vec<u8>>) -> (r: Option<ParsedData>)
        requires
            contents matches Some(d) ==> image_ok(d@),
        ensures
            match contents {
                None => r is None && final(self)@ == old(self)@,
                Some(d) => final(self)@ == d@ && (r matches Some(p) && p@ == parsed_image(d@)),
            },
    {
        match contents {
            None => None,
            Some(bytes) => {
                self.data = bytes;
                self.parse()
            },
        }
    }
}

impl Fluxhead {
    /// Whether every block that a sync mark of `track` opens lies within the
    /// track and every header block decodes.
    fn track_is_decodable(&self, track: &[u8], gcr_decoder: &cbm_dos::GCR) -> (r: bool)
        ensures
            r == track_decodable(track@),
    {
        let len = track.len();
        match self.find_sync_mark_locations(track) {
            None => true,
            Some(offsets) => {
                let n = offsets.len();
                let mut i: usize = 0;
                while i < n
                    invariant
                        n == offsets@.len(),
                        offsets@ == sync_marks(track@),
                        len == track@.len(),
                        i <= n,
                        forall|j: int|
                            0 <= j < i ==> mark_decodable(track@, #[trigger] offsets@[j] as int),
                    decreases n - i,
                {
                    let p = offsets[i];
                    proof {
                        lemma_sync_mark_in_bounds(track@, i as int);
                    }
                    if track[p] == TRACK_HEADER_IDENTIFIER {
                        if p > len || len - p < TRACK_HEADER_SIZE {
                            assert(!mark_decodable(track@, sync_marks(track@)[i as int] as int));
                            return false;
                        }
                        let header = vstd::slice::slice_subrange(track, p, p + TRACK_HEADER_SIZE);
                        if gcr_decoder.decode(header).is_none() {
                            assert(!mark_decodable(track@, sync_marks(track@)[i as int] as int));
                            return false;
                        }
                    }
                    if track[p] == TRACK_DATA_IDENTIFIER {
                        if p > len || len - p < TRACK_DATA_SIZE {
                            assert(!mark_decodable(track@, sync_marks(track@)[i as int] as int));
                            return false;
                        }
                    }
                    i = i + 1;
                }
                true
            },
        }
    }

    /// Whether reading the track whose length field is at `offset` stays within
    /// `data` and its blocks can be read (trivially so when `offset` names no track).
    fn track_is_readable(&self, data: &[u8], offset: usize, gcr_decoder: &cbm_dos::GCR) -> (r:
        bool)
        ensures
            r == track_at_ok(data@, offset as int),
    {
        let len = data.len();
        if offset == 0 || offset > len {
            return true;
        }
        if len - offset < TRACK_LENGTH_SIZE {
            return false;
        }
        let track_data = G64TrackData::decode_from_le_bytes(
            vstd::slice::slice_subrange(data, offset, len),
        );
        let size = track_data.track_data_size as usize;
        let data_start = offset + TRACK_LENGTH_SIZE;
        if size > len - data_start {
            return false;
        }
        let capture = vstd::slice::slice_subrange(data, data_start, data_start + size);
        assert(capture@ == track_capture(data@, offset as int));
        self.track_is_decodable(capture, gcr_decoder)
    }

    /// Whether `data` is an image that [`Fluxhead::parse_from_buffer`] accepts:
    /// a complete header tagged `GCR-1541`, complete track location and speed
    /// zone tables, and tracks whose blocks can be read.
    pub fn is_parsable(&self, data: &[u8]) -> (r: bool)
        ensures
            r == image_ok(data@),
    {
        let len = data.len();
        if len < G64_HEADER_SIZE {
            return false;
        }
        let hdr = G64HeaderInfo::decode_from_le_bytes(data);
        if !hdr.has_g64_tag() {
            return false;
        }
        let track_count = (hdr.total_tracks() / 2) as usize;
        if len - G64_HEADER_SIZE < 16 * track_count {
            return false;
        }
        let gcr_decoder = cbm_dos::GCR::new();
        let mut i: usize = 0;
        while i < track_count
            invariant
                len == data@.len(),
                G64_HEADER_SIZE <= len,
                track_count == crate::model::track_count(data@),
                G64_HEADER_SIZE + 16 * track_count <= len,
                i <= track_count,
                forall|j: int| 0 <= j < i ==> #[trigger] entry_ok(data@, j),
            decreases track_count - i,
        {
            let offset = G64_HEADER_SIZE + i * TRACK_LOCATION_SIZE;
            let track_location = TrackLocation::decode_from_le_bytes(
                vstd::slice::slice_subrange(data, offset, offset + TRACK_LOCATION_SIZE),
            );
            let full_ok = self.track_is_readable(
                data,
                track_location.track_offset as usize,
                &gcr_decoder,
            );
            let half_ok = self.track_is_readable(
                data,
                track_location.half_track_offset as usize,
                &gcr_decoder,
            );
            if !full_ok || !half_ok {
                assert(!entry_ok(data@, i as int));
                return false;
            }
            i = i + 1;
        }
        true
    }
}

/// Every entry of `sync_marks(data)` is a position inside `data`.
proof fn lemma_sync_mark_in_bounds(data: Seq<u8>, i: int)
    requires
        0 <= i < sync_marks(data).len(),
        data.len() <= usize::MAX,
    ensures
        is_sync_mark_at(data, sync_marks(data)[i] as int),
        (sync_marks(data)[i] as int) < data.len(),
{
    crate::laws::law_sync_marks_exact(data);
}


} // verus!
