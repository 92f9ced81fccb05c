use audioleaf::now_playing::{
    artwork_location, fetch_artwork_and_palette, get_track_title, prominent_colors, ArtworkLocation,
};

#[test]
fn track_title_is_trimmed_text() {
    assert_eq!(get_track_title(true, b"  Song Title \n"), Some("Song Title".to_string()));
}

#[test]
fn failed_or_blank_query_has_no_title() {
    assert_eq!(get_track_title(false, b"Song"), None);
    assert_eq!(get_track_title(true, b"   \n"), None);
    assert_eq!(get_track_title(true, b""), None);
}

#[test]
fn invalid_utf8_is_replaced() {
    assert_eq!(get_track_title(true, b"Caf\xe9 Tacvba"), Some("Caf\u{FFFD} Tacvba".to_string()));
}

#[test]
fn file_urls_become_paths() {
    match artwork_location(true, b"file:///tmp/cover.jpg\n") {
        Some(ArtworkLocation::File(p)) => assert_eq!(p, "/tmp/cover.jpg"),
        other => panic!("unexpected {:?}", other),
    }
    match artwork_location(true, b"file://file:///x.png") {
        Some(ArtworkLocation::File(p)) => assert_eq!(p, "/x.png"),
        other => panic!("unexpected {:?}", other),
    }
}

#[test]
fn other_urls_are_downloaded() {
    match artwork_location(true, b" https://i.scdn.co/image/ab67 ") {
        Some(ArtworkLocation::Url(u)) => assert_eq!(u, "https://i.scdn.co/image/ab67"),
        other => panic!("unexpected {:?}", other),
    }
}

#[test]
fn no_artwork_location() {
    assert!(artwork_location(false, b"file:///tmp/x").is_none());
    assert!(artwork_location(true, b"  ").is_none());
}

#[test]
fn artwork_and_palette_come_together() {
    assert_eq!(
        fetch_artwork_and_palette(Some(vec![1, 2]), Some(vec![[9, 9, 9]])),
        Some((vec![1, 2], vec![[9, 9, 9]]))
    );
    assert_eq!(fetch_artwork_and_palette(None, Some(vec![[9, 9, 9]])), None);
    assert_eq!(fetch_artwork_and_palette(Some(vec![1]), None), None);
}

#[test]
fn first_four_bright_swatches_are_kept() {
    let swatches = [[1, 1, 1], [2, 2, 2], [3, 3, 3], [4, 4, 4], [5, 5, 5], [6, 6, 6]];
    let bright = [true, false, true, true, true, true];
    assert_eq!(
        prominent_colors(&swatches, &bright),
        Some(vec![[1, 1, 1], [3, 3, 3], [4, 4, 4], [5, 5, 5]])
    );
    let kept = prominent_colors(&swatches, &[true, true, true, true, true, true]).unwrap();
    assert_eq!(kept.len(), 4);
}

#[test]
fn no_bright_swatch_means_no_colors() {
    assert_eq!(prominent_colors(&[[1, 1, 1]], &[false]), None);
    assert_eq!(prominent_colors(&[], &[]), None);
    assert_eq!(prominent_colors(&[[7, 7, 7]], &[true]), Some(vec![[7, 7, 7]]));
}
