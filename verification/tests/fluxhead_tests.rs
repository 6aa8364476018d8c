use fluxhead::layout::{CbmHeaderInfo, G64TrackData, TrackLocation};
use fluxhead::{Fluxhead, G64HeaderInfo};

const TAG: [u8; 8] = [71, 67, 82, 45, 49, 53, 52, 49];

/// The eight decoded bytes of a sector header block.
fn header_bytes(track: u8, sector: u8) -> Vec<u8> {
    let checksum = sector ^ track ^ 0x30 ^ 0x30;
    vec![0x08, checksum, sector, track, 0x30, 0x30, 0x0f, 0x0f]
}

/// The 260 decoded bytes of a sector data block whose payload is `fill`.
fn data_bytes(fill: u8) -> Vec<u8> {
    let mut d = vec![0x07];
    d.extend(std::iter::repeat(fill).take(256));
    d.push(0);
    d.push(0);
    d.push(0);
    d
}

fn encode(bytes: &[u8]) -> Vec<u8> {
    cbm_dos::GCR::new().encode(bytes)
}

/// A track: a sync mark, a header block, a gap, a sync mark, a data block, a gap.
fn track_bytes(track: u8, sector: u8, fill: u8) -> Vec<u8> {
    let mut t = vec![0xFF; 5];
    t.extend(encode(&header_bytes(track, sector)));
    t.extend(vec![0x55; 9]);
    t.extend(vec![0xFF; 5]);
    t.extend(encode(&data_bytes(fill)));
    t.extend(vec![0x55; 8]);
    t
}

/// An image with one location entry: the given full and half tracks (an
/// empty track stands for "no track") and the given speed zones.
fn image(full: &[u8], half: &[u8], zone_full: u32, zone_half: u32) -> Vec<u8> {
    let mut img = TAG.to_vec();
    img.push(0); // revision
    img.push(2); // tracks and half tracks
    img.extend(7928u16.to_le_bytes());
    let tables_end = 12 + 16;
    let full_offset = if full.is_empty() { 0 } else { tables_end as u32 };
    let half_offset = if half.is_empty() {
        0
    } else {
        (tables_end + if full.is_empty() { 0 } else { 2 + full.len() }) as u32
    };
    img.extend(full_offset.to_le_bytes());
    img.extend(half_offset.to_le_bytes());
    img.extend(zone_full.to_le_bytes());
    img.extend(zone_half.to_le_bytes());
    for t in [full, half] {
        if !t.is_empty() {
            img.extend((t.len() as u16).to_le_bytes());
            img.extend_from_slice(t);
        }
    }
    img
}

#[test]
fn it_works() {}

#[test]
fn sync_marks_of_doc_example() {
    let flux = Fluxhead::new();
    let data: &[u8] = &[0xFF, 0xFF, 0xFF, 0xFF, 0x00, 0x12, 0x34, 0xFF, 0xFF, 0xFF, 0xFF, 0x7F];
    assert_eq!(flux.find_sync_mark_locations(data), Some(vec![4, 11]));
}

#[test]
fn sync_marks_need_four_ff_and_a_clear_msb() {
    let flux = Fluxhead::new();
    assert_eq!(flux.find_sync_mark_locations(&[]), None);
    assert_eq!(flux.find_sync_mark_locations(&[0xFF, 0xFF, 0xFF, 0xFF]), None);
    assert_eq!(flux.find_sync_mark_locations(&[0xFF, 0xFF, 0xFF, 0x00, 0x00]), None);
    assert_eq!(flux.find_sync_mark_locations(&[0xFF, 0xFF, 0xFF, 0xFF, 0x80]), None);
    // a long run of 0xFF marks only the position after the run
    assert_eq!(
        flux.find_sync_mark_locations(&[0xFF, 0xFF, 0xFF, 0xFF, 0xFF, 0xFF, 0x52, 0xFF]),
        Some(vec![6])
    );
}

#[test]
fn header_decodes_little_endian() {
    let mut bytes = TAG.to_vec();
    bytes.extend([3, 84, 0xf8, 0x1e, 99]);
    let hdr = G64HeaderInfo::decode_from_le_bytes(&bytes);
    assert!(hdr.has_g64_tag());
    assert_eq!(hdr.total_tracks(), 84);
    let loc = TrackLocation::decode_from_le_bytes(&[0x01, 0x02, 0x03, 0x04, 0x05, 0x06, 0x07, 0x08]);
    assert_eq!(loc.track_offset, 0x04030201);
    assert_eq!(loc.half_track_offset, 0x08070605);
    assert_eq!(G64TrackData::decode_from_le_bytes(&[0xf8, 0x1e]).track_data_size, 7928);
    let cbm = CbmHeaderInfo::decode_from_le_bytes(&header_bytes(18, 3));
    assert_eq!((cbm.header_block_id, cbm.sector, cbm.track), (0x08, 3, 18));
}

#[test]
fn wrong_tag_is_reported() {
    let mut bytes = b"GCR-1571".to_vec();
    bytes.extend([0, 0, 0, 0]);
    assert!(!G64HeaderInfo::decode_from_le_bytes(&bytes).has_g64_tag());
}

#[test]
fn parse_track_pairs_data_with_preceding_header() {
    let flux = Fluxhead::new();
    let track = track_bytes(1, 0, 0xAB);
    let sectors = flux.parse_track(&track).expect("a sector");
    assert_eq!(sectors.len(), 1);
    let s = &sectors[0];
    assert_eq!(s.header.gcr_encoded_data, encode(&header_bytes(1, 0)));
    assert_eq!(s.header.gcr_encoded_data.len(), 10);
    assert_eq!(s.header.gcr_encoded_data[0], 0x52);
    assert_eq!(s.header.gcr_decoded_data, header_bytes(1, 0));
    assert_eq!(s.data.gcr_encoded_data.len(), 325);
    assert_eq!(s.data.gcr_encoded_data[0], 0x55);
    assert_eq!(s.data.gcr_decoded_data, data_bytes(0xAB));
    assert_eq!(s.data.gcr_decoded_data.len(), 260);
}

#[test]
fn gcr_decode_of_known_header() {
    // the decoding that cbm-dos documents for this header block
    let flux = Fluxhead::new();
    let mut track = vec![0xFF; 4];
    track.extend([0x52, 0x54, 0xb5, 0x29, 0x4b, 0x9a, 0xa6, 0xa5, 0x29, 0x4a]);
    track.extend(vec![0xFF; 5]);
    track.extend(encode(&data_bytes(0)));
    let sectors = flux.parse_track(&track).expect("a sector");
    assert_eq!(
        sectors[0].header.gcr_decoded_data,
        vec![0x08, 0x01, 0x00, 0x01, 0x30, 0x30, 0x00, 0x00]
    );
}

#[test]
fn data_block_without_header_gets_empty_header() {
    let flux = Fluxhead::new();
    let mut track = vec![0xFF; 5];
    track.extend(encode(&data_bytes(1)));
    let sectors = flux.parse_track(&track).expect("a sector");
    assert_eq!(sectors.len(), 1);
    assert!(sectors[0].header.gcr_encoded_data.is_empty());
    assert!(sectors[0].header.gcr_decoded_data.is_empty());
}

#[test]
fn undecodable_data_block_keeps_its_bytes() {
    let flux = Fluxhead::new();
    let mut track = vec![0xFF; 5];
    let mut block = vec![0x55];
    block.extend(vec![0x00; 324]);
    track.extend(block.clone());
    let sectors = flux.parse_track(&track).expect("a sector");
    assert_eq!(sectors[0].data.gcr_encoded_data, block);
    assert!(sectors[0].data.gcr_decoded_data.is_empty());
}

#[test]
fn track_without_data_block_has_no_sectors() {
    let flux = Fluxhead::new();
    let mut track = vec![0xFF; 5];
    track.extend(encode(&header_bytes(1, 0)));
    assert!(flux.parse_track(&track).is_none());
    assert!(flux.parse_track(&[0x55; 400]).is_none());
}

#[test]
fn every_data_block_is_a_sector() {
    let flux = Fluxhead::new();
    let mut track = track_bytes(1, 0, 0x11);
    track.extend(track_bytes(1, 1, 0x22));
    let sectors = flux.parse_track(&track).expect("sectors");
    assert_eq!(sectors.len(), 2);
    assert_eq!(sectors[0].header.gcr_decoded_data, header_bytes(1, 0));
    assert_eq!(sectors[1].header.gcr_decoded_data, header_bytes(1, 1));
    assert_eq!(sectors[1].data.gcr_decoded_data, data_bytes(0x22));
}

#[test]
fn parse_image_with_one_track() {
    let track = track_bytes(1, 0, 0x5A);
    let img = image(&track, &[], 3, 0);
    let mut flux = Fluxhead::new();
    assert!(flux.is_parsable(&img));
    let parsed = flux.parse_from_buffer(&img).expect("parsed");
    assert_eq!(parsed.g64_header, Some(G64HeaderInfo::decode_from_le_bytes(&img)));
    let tracks = parsed.tracks.expect("tracks");
    assert_eq!(tracks.len(), 1);
    assert_eq!(tracks[0].speed_zone, 3);
    let sectors = tracks[0].tracks.as_ref().expect("sectors");
    assert_eq!(sectors.len(), 1);
    assert_eq!(sectors[0].data.gcr_decoded_data, data_bytes(0x5A));
}

#[test]
fn parse_image_with_full_and_half_track() {
    let full = track_bytes(1, 0, 0x01);
    let half = track_bytes(1, 1, 0x02);
    let img = image(&full, &half, 3, 0xFFFF_FFFF);
    let mut flux = Fluxhead::new();
    assert!(flux.is_parsable(&img));
    let tracks = flux.parse_from_buffer(&img).expect("parsed").tracks.expect("tracks");
    assert_eq!(tracks.len(), 2);
    assert_eq!(tracks[0].speed_zone, 3);
    // the speed zone is the 32-bit entry read as a signed number
    assert_eq!(tracks[1].speed_zone, -1);
    assert_eq!(tracks[1].tracks.as_ref().unwrap()[0].data.gcr_decoded_data, data_bytes(0x02));
}

#[test]
fn image_without_tracks_has_header_only() {
    let img = image(&[], &[], 0, 0);
    let mut flux = Fluxhead::new();
    assert!(flux.is_parsable(&img));
    let parsed = flux.parse_from_buffer(&img).expect("parsed");
    assert!(parsed.g64_header.is_some());
    assert!(parsed.tracks.is_none());
}

#[test]
fn track_without_sectors_is_left_out() {
    let img = image(&[0x55; 40], &[], 3, 0);
    let mut flux = Fluxhead::new();
    assert!(flux.is_parsable(&img));
    assert!(flux.parse_from_buffer(&img).expect("parsed").tracks.is_none());
}

#[test]
fn track_offset_past_the_end_names_no_track() {
    let mut img = image(&[], &[], 0, 0);
    let len = img.len() as u32;
    img[12..16].copy_from_slice(&(len + 1).to_le_bytes());
    let mut flux = Fluxhead::new();
    assert!(flux.is_parsable(&img));
    assert!(flux.parse_from_buffer(&img).expect("parsed").tracks.is_none());
}

#[test]
fn malformed_images_are_not_parsable() {
    let flux = Fluxhead::new();
    // too short for a header
    assert!(!flux.is_parsable(&TAG));
    // wrong tag
    let mut img = image(&[], &[], 0, 0);
    img[7] = b'0';
    assert!(!flux.is_parsable(&img));
    // tables cut short
    let img = image(&[], &[], 0, 0);
    assert!(!flux.is_parsable(&img[..20]));
    // track length runs past the end of the image
    let track = track_bytes(1, 0, 0);
    let img = image(&track, &[], 0, 0);
    assert!(!flux.is_parsable(&img[..img.len() - 1]));
    // a header block that does not decode
    let mut bad = vec![0xFF; 5];
    bad.push(0x52);
    bad.extend([0x00; 9]);
    bad.extend(vec![0x55; 10]);
    assert!(!flux.is_parsable(&image(&bad, &[], 0, 0)));
    // a header block cut short by the end of the track
    let mut short = vec![0xFF; 5];
    short.extend(&encode(&header_bytes(1, 0))[..6]);
    assert!(!flux.is_parsable(&image(&short, &[], 0, 0)));
    // a data block cut short by the end of the track
    let mut short = vec![0xFF; 5];
    short.extend(&encode(&data_bytes(0))[..100]);
    assert!(!flux.is_parsable(&image(&short, &[], 0, 0)));
}

#[test]
fn parse_from_file_contents() {
    let mut flux = Fluxhead::new();
    assert!(flux.parse_from_file(None).is_none());
    let img = image(&track_bytes(2, 5, 0x33), &[], 1, 0);
    let parsed = flux.parse_from_file(Some(img.clone())).expect("parsed");
    assert_eq!(parsed.tracks.expect("tracks").len(), 1);
    // a failed read afterwards leaves nothing parsed
    assert!(flux.parse_from_file(None).is_none());
}
