//! What parsing a G64 image yields: sectors, tracks and the parsed image,
//! each with the mathematical value it stands for.
use vstd::prelude::*;
use crate::layout::{G64HeaderInfo, G64HeaderView};

verus! {

/// A block as read from the disk surface: its GCR bytes and what they decode to.
pub struct BlockView {
    pub encoded: Seq<u8>,
    pub decoded: Seq<u8>,
}

/// The block that stands in for "no header seen yet": nothing encoded, nothing decoded.
pub open spec fn empty_block() -> BlockView {
    BlockView { encoded: Seq::empty(), decoded: Seq::empty() }
}

/// A sector header block of a track.
#[derive(Clone)]
pub struct SectorHeader {
    pub gcr_encoded_data: Vec<u8>,
    pub gcr_decoded_data: Vec<u8>,
}

impl View for SectorHeader {
    type V = BlockView;

    open spec fn view(&self) -> BlockView {
        BlockView { encoded: self.gcr_encoded_data@, decoded: self.gcr_decoded_data@ }
    }
}

impl SectorHeader {
    /// A header that holds no bytes.
    pub fn empty() -> (r: SectorHeader)
        ensures
            r@ == empty_block(),
    {
        SectorHeader { gcr_encoded_data: Vec::new(), gcr_decoded_data: Vec::new() }
    }

    /// A copy of this header with the same bytes.
    pub fn duplicate(&self) -> (r: SectorHeader)
        ensures
            r@ == self@,
    {
        SectorHeader {
            gcr_encoded_data: vstd::slice::slice_to_vec(self.gcr_encoded_data.as_slice()),
            gcr_decoded_data: vstd::slice::slice_to_vec(self.gcr_decoded_data.as_slice()),
        }
    }
}

/// A sector data block of a track.
pub struct SectorData {
    pub gcr_encoded_data: Vec<u8>,
    pub gcr_decoded_data: Vec<u8>,
}

impl View for SectorData {
    type V = BlockView;

    open spec fn view(&self) -> BlockView {
        BlockView { encoded: self.gcr_encoded_data@, decoded: self.gcr_decoded_data@ }
    }
}

/// The value of a sector: its header block and its data block.
pub struct SectorView {
    pub header: BlockView,
    pub data: BlockView,
}

/// A sector: the data block together with the header block that preceded it.
pub struct Sector {
    pub header: SectorHeader,
    pub data: SectorData,
}

impl View for Sector {
    type V = SectorView;

    open spec fn view(&self) -> SectorView {
        SectorView { header: self.header@, data: self.data@ }
    }
}

/// The values of a list of sectors.
pub open spec fn sectors_view(v: Seq<Sector>) -> Seq<SectorView> {
    v.map_values(|s: Sector| s@)
}

/// The value of a track: its sectors and its speed zone.
pub struct TrackView {
    pub sectors: Option<Seq<SectorView>>,
    pub speed_zone: i32,
}

/// A track (or half track) of the image with the sectors found on it.
pub struct Track {
    pub tracks: Option<Vec<Sector>>,
    pub speed_zone: i32,
}

impl View for Track {
    type V = TrackView;

    open spec fn view(&self) -> TrackView {
        TrackView {
            sectors: match self.tracks {
                Some(v) => Some(sectors_view(v@)),
                None => None,
            },
            speed_zone: self.speed_zone,
        }
    }
}

/// The values of a list of tracks.
pub open spec fn tracks_view(v: Seq<Track>) -> Seq<TrackView> {
    v.map_values(|t: Track| t@)
}

/// The value of a parsed image.
pub struct ParsedView {
    pub g64_header: Option<G64HeaderView>,
    pub tracks: Option<Seq<TrackView>>,
}

/// A parsed G64 image: its header and the tracks on which sectors were found.
pub struct ParsedData {
    pub g64_header: Option<G64HeaderInfo>,
    pub tracks: Option<Vec<Track>>,
}

impl View for ParsedData {
    type V = ParsedView;

    open spec fn view(&self) -> ParsedView {
        ParsedView {
            g64_header: match self.g64_header {
                Some(h) => Some(h@),
                None => None,
            },
            tracks: match self.tracks {
                Some(v) => Some(tracks_view(v@)),
                None => None,
            },
        }
    }
}

} // verus!
