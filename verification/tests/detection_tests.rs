use cc2_openwebui::detection::obico::{
    all_detections_excluded, kept_detections, normalize_base_url, prune_selection,
    read_jpeg_dims, score_source, ObicoClient, ScoreSource,
};

/// A minimal JPEG header: SOI, an APP0 segment, then a SOF marker with the given size.
fn jpeg_with(marker: u8, width: u16, height: u16) -> Vec<u8> {
    let mut b = vec![0xFF, 0xD8];
    b.extend_from_slice(&[0xFF, 0xE0, 0x00, 0x04, 0x4A, 0x46]);
    b.extend_from_slice(&[0xFF, marker, 0x00, 0x11, 0x08]);
    b.extend_from_slice(&height.to_be_bytes());
    b.extend_from_slice(&width.to_be_bytes());
    b.extend_from_slice(&[0x03, 0x01, 0x22, 0x00]);
    b
}

#[test]
fn jpeg_dims_baseline_and_progressive() {
    assert_eq!(read_jpeg_dims(&jpeg_with(0xC0, 1280, 720)), Some((1280, 720)));
    assert_eq!(read_jpeg_dims(&jpeg_with(0xC2, 640, 480)), Some((640, 480)));
}

#[test]
fn jpeg_dims_rejects_non_jpeg_and_short_input() {
    assert_eq!(read_jpeg_dims(&[]), None);
    assert_eq!(read_jpeg_dims(&[0xFF, 0xD8, 0xFF]), None);
    assert_eq!(read_jpeg_dims(&[0x89, 0x50, 0x4E, 0x47, 0x0D, 0x0A]), None);
}

#[test]
fn jpeg_dims_stops_at_end_of_image_and_broken_chain() {
    let mut eoi = vec![0xFF, 0xD8, 0xFF, 0xD9];
    eoi.extend_from_slice(&jpeg_with(0xC0, 10, 10)[2..]);
    assert_eq!(read_jpeg_dims(&eoi), None);
    let mut broken = jpeg_with(0xC0, 10, 10);
    broken[2] = 0x00;
    assert_eq!(read_jpeg_dims(&broken), None);
}

#[test]
fn jpeg_dims_skips_zero_sized_frame() {
    let mut b = jpeg_with(0xC0, 0, 0);
    let tail = jpeg_with(0xC2, 32, 16);
    b.extend_from_slice(&tail[2..]);
    assert_eq!(read_jpeg_dims(&b), Some((32, 16)));
}

#[test]
fn jpeg_dims_segment_past_end() {
    let b = vec![0xFF, 0xD8, 0xFF, 0xE0, 0xFF, 0xFF, 0x00, 0x00];
    assert_eq!(read_jpeg_dims(&b), None);
}

#[test]
fn base_url_normalization() {
    assert_eq!(normalize_base_url("http://127.0.0.1:3333/p/"), "http://127.0.0.1:3333");
    assert_eq!(normalize_base_url("  http://host:3333/p  "), "http://host:3333");
    assert_eq!(normalize_base_url("http://host:3333///"), "http://host:3333");
    assert_eq!(normalize_base_url("http://host:3333/api"), "http://host:3333/api");
    assert_eq!(normalize_base_url("http://host/p/p/"), "http://host/p");
    assert_eq!(normalize_base_url("\t\n"), "");
}

#[test]
fn obico_client_uses_normalized_base() {
    let c = ObicoClient::new(" http://127.0.0.1:3333/p/ ");
    assert_eq!(c.prediction_url(), "http://127.0.0.1:3333/p/");
}

#[test]
fn prune_keeps_newest_files() {
    let times: Vec<u128> = vec![50, 10, 40, 10, 30];
    assert_eq!(prune_selection(&times, 2), vec![1, 3, 4]);
    assert_eq!(prune_selection(&times, 5), Vec::<usize>::new());
    assert_eq!(prune_selection(&times, 9), Vec::<usize>::new());
    assert_eq!(prune_selection(&times, 0), vec![1, 3, 4, 2, 0]);
}

#[test]
fn exclusion_zone_decisions() {
    assert!(all_detections_excluded(1, &vec![true, true]));
    assert!(!all_detections_excluded(0, &vec![true]));
    assert!(!all_detections_excluded(2, &vec![]));
    assert!(!all_detections_excluded(1, &vec![true, false]));
    assert_eq!(kept_detections(&vec![true, false, false, true]), vec![1, 2]);
    assert_eq!(score_source(1, &vec![true, false]), ScoreSource::MaxConfidence);
    assert_eq!(score_source(1, &vec![true, true]), ScoreSource::AllExcluded);
    assert_eq!(score_source(0, &vec![]), ScoreSource::Reported);
}
