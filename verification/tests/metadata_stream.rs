use audioleaf::metadata::{
    classify_metadata_item, decode_fourcc, detect_image_mime_type, dmap_payload_u32,
    dmap_payload_u64, parse_prgr, payload_bytes_to_string, wrapping_sub_u64, MetadataItem,
    NowPlayingRuntimeState, NowPlayingTrackData, PlaybackState,
};
use audioleaf::shairport::{MetadataCursor, XmlEvent};

#[test]
fn dmap_integers() {
    assert_eq!(dmap_payload_u32(&[0x01, 0x02]), Some(258));
    assert_eq!(dmap_payload_u32(&[0x07]), Some(7));
    assert_eq!(dmap_payload_u32(&[0, 0, 1, 0]), Some(256));
    assert_eq!(dmap_payload_u32(&[1, 2, 3]), None);
    assert_eq!(dmap_payload_u64(&[0, 0, 0, 0, 0, 0, 1, 0]), Some(256));
    assert_eq!(dmap_payload_u64(&[0xff; 8]), Some(u64::MAX));
    assert_eq!(dmap_payload_u64(&[]), None);
}

#[test]
fn progress_payloads() {
    assert_eq!(parse_prgr(b"1/2/3"), Some((1, 2, 3)));
    assert_eq!(parse_prgr(b" 10 / 20/30/40"), Some((10, 20, 30)));
    assert_eq!(parse_prgr(b"1/2"), None);
    assert_eq!(parse_prgr(b"a/2/3"), None);
    assert_eq!(parse_prgr(b"1/2/\xff"), None);
}

#[test]
fn text_payloads() {
    assert_eq!(payload_bytes_to_string(b"\0Hello \0"), Some("Hello".to_string()));
    assert_eq!(payload_bytes_to_string(b""), None);
    assert_eq!(payload_bytes_to_string(b"  "), None);
    assert_eq!(payload_bytes_to_string(b"Caf\xe9"), Some("Caf\u{FFFD}".to_string()));
}

#[test]
fn four_character_codes() {
    assert_eq!(decode_fourcc("636f7265"), Some("core".to_string()));
    assert_eq!(decode_fourcc("50494354"), Some("PICT".to_string()));
    assert_eq!(decode_fourcc("zz"), None);
    assert_eq!(decode_fourcc("1ffffffff"), None);
}

#[test]
fn image_types() {
    assert_eq!(detect_image_mime_type(&[0xFF, 0xD8, 0xFF, 0xE0]), Some("image/jpeg"));
    assert_eq!(detect_image_mime_type(&[0x89, 0x50, 0x4E, 0x47, 0x0D, 0x0A, 0x1A, 0x0A]), Some("image/png"));
    assert_eq!(detect_image_mime_type(b"RIFF\0\0\0\0WEBPVP8 "), Some("image/webp"));
    assert_eq!(detect_image_mime_type(b"GIF89a"), None);
}

#[test]
fn item_classes() {
    assert_eq!(classify_metadata_item("core", "minm"), MetadataItem::Title);
    assert_eq!(classify_metadata_item("core", "asar"), MetadataItem::Artist);
    assert_eq!(classify_metadata_item("ssnc", "PICT"), MetadataItem::Artwork);
    assert_eq!(classify_metadata_item("ssnc", "pict"), MetadataItem::Other);
    assert_eq!(classify_metadata_item("ssnc", "paus"), MetadataItem::PlaybackPause);
    assert_eq!(classify_metadata_item("ssnc", "disc"), MetadataItem::PlaybackEnd);
    assert_eq!(classify_metadata_item("core", "pvol"), MetadataItem::Other);
}

#[test]
fn track_data_presence() {
    let mut t = NowPlayingTrackData::new();
    assert!(!t.has_data());
    t.genre = Some("Jazz".to_string());
    assert!(!t.has_data());
    t.title = Some(String::new());
    assert!(!t.has_data());
    t.title = Some("So What".to_string());
    assert!(t.has_data());
}

#[test]
fn playback_items_update_the_state() {
    let mut s = NowPlayingRuntimeState::new("/tmp/shairport-sync-metadata".to_string());
    assert_eq!(s.apply_metadata_item(MetadataItem::Title, b"Blue in Green".to_vec(), 10, Vec::new(), None), None);
    assert_eq!(s.track.title.as_deref(), Some("Blue in Green"));
    assert!(s.reader_running);
    assert_eq!(s.updated_at_ms, Some(10));
    s.drive_visualizer_palette = true;
    let handed = s.apply_metadata_item(MetadataItem::Artwork, vec![0xFF, 0xD8, 0xFF], 11, vec![[1, 2, 3]], None);
    assert_eq!(handed, Some(vec![[1, 2, 3]]));
    assert_eq!(s.artwork_generation, 1);
    assert_eq!(s.artwork_mime_type.as_deref(), Some("image/jpeg"));
    assert_eq!(s.apply_metadata_item(MetadataItem::Artwork, Vec::new(), 12, vec![[9, 9, 9]], None), None);
    assert_eq!(s.artwork_generation, 1);
    s.apply_metadata_item(MetadataItem::PlaybackPause, Vec::new(), 13, Vec::new(), None);
    assert_eq!(s.playback_state, PlaybackState::Paused);
    s.apply_metadata_item(MetadataItem::Progress, b"100/44200/441100".to_vec(), 14, Vec::new(), None);
    assert_eq!(s.progress_frames(), Some((44100, 441000)));
    s.apply_metadata_item(MetadataItem::PlaybackBegin, Vec::new(), 15, Vec::new(), None);
    assert_eq!(s.playback_state, PlaybackState::Playing);
    assert_eq!(s.track.title, None);
    assert!(s.palette_colors.is_empty());
    assert_eq!(s.artwork_generation, 2);
    assert_eq!(s.progress_frames(), None);
    assert!(s.drive_visualizer_palette);
}

#[test]
fn progress_wraps_around() {
    assert_eq!(wrapping_sub_u64(1, 2), u64::MAX);
    assert_eq!(wrapping_sub_u64(5, 2), 3);
    let mut s = NowPlayingRuntimeState::new(String::new());
    s.progress_rtp = Some((10, 4, 20));
    assert_eq!(s.progress_frames(), Some((u64::MAX - 5, 10)));
}

#[test]
fn clearing_bumps_the_artwork_generation() {
    let mut s = NowPlayingRuntimeState::new(String::new());
    s.artwork_generation = u64::MAX;
    s.clear_session_data(3);
    assert_eq!(s.artwork_generation, u64::MAX);
    assert_eq!(s.updated_at_ms, Some(3));
}

fn element(cursor: &mut MetadataCursor, name: &str, text: &[u8]) {
    assert!(cursor.step(XmlEvent::Start(name.to_string())).is_none());
    assert!(cursor.step(XmlEvent::Text(text.to_vec())).is_none());
    assert!(cursor.step(XmlEvent::End(name.to_string())).is_none());
}

#[test]
fn stream_items_are_decoded() {
    let mut c = MetadataCursor::new();
    assert!(c.step(XmlEvent::Start("item".to_string())).is_none());
    element(&mut c, "type", b"53534e43");
    element(&mut c, "code", b"50494354");
    element(&mut c, "length", b"3");
    element(&mut c, "data", b" AQ\nID ");
    let item = c.step(XmlEvent::End("item".to_string())).unwrap();
    assert_eq!(item.item_type, "ssnc");
    assert_eq!(item.code, "PICT");
    assert_eq!(item.payload, vec![1, 2, 3]);
}

#[test]
fn items_without_data_have_empty_payload() {
    let mut c = MetadataCursor::new();
    assert!(c.step(XmlEvent::Start("item".to_string())).is_none());
    element(&mut c, "type", b"636f7265");
    element(&mut c, "code", b"6d696e6d");
    assert!(c.step(XmlEvent::Other).is_none());
    let item = c.step(XmlEvent::End("item".to_string())).unwrap();
    assert_eq!(item.item_type, "core");
    assert_eq!(item.code, "minm");
    assert!(item.payload.is_empty());
}

#[test]
fn cdata_payload_and_bad_base64() {
    let mut c = MetadataCursor::new();
    c.step(XmlEvent::Start("item".to_string()));
    element(&mut c, "type", b"636f7265");
    element(&mut c, "code", b"6d696e6d");
    c.step(XmlEvent::Start("data".to_string()));
    c.step(XmlEvent::CData(b"SGk=".to_vec()));
    c.step(XmlEvent::End("data".to_string()));
    assert_eq!(c.step(XmlEvent::End("item".to_string())).unwrap().payload, b"Hi".to_vec());
    c.step(XmlEvent::Start("item".to_string()));
    element(&mut c, "type", b"636f7265");
    element(&mut c, "code", b"6d696e6d");
    element(&mut c, "data", b"!!!");
    assert!(c.step(XmlEvent::End("item".to_string())).unwrap().payload.is_empty());
}

#[test]
fn items_without_codes_are_dropped() {
    let mut c = MetadataCursor::new();
    c.step(XmlEvent::Start("item".to_string()));
    element(&mut c, "type", b"636f7265");
    assert!(c.step(XmlEvent::End("item".to_string())).is_none());
    assert!(c.step(XmlEvent::Text(b"stray".to_vec())).is_none());
}

#[test]
fn valid_utf8_payload_is_decoded_unchanged_then_trimmed() {
    assert_eq!(payload_bytes_to_string("  Café del Mar\0".as_bytes()), Some("Café del Mar".to_string()));
    assert_eq!(payload_bytes_to_string(b"\0 \0"), None);
}
