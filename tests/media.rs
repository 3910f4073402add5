use playback_core::media::{is_web_address_str, track_metadata, ControlEvent};

#[test]
fn event_codes() {
    assert_eq!(ControlEvent::Play.code(), 0);
    assert_eq!(ControlEvent::Pause.code(), 1);
    assert_eq!(ControlEvent::Toggle.code(), 2);
    assert_eq!(ControlEvent::Next.code(), 3);
    assert_eq!(ControlEvent::Previous.code(), 4);
    assert_eq!(ControlEvent::Stop.code(), 5);
}

#[test]
fn web_addresses() {
    assert!(is_web_address_str("https://example.com/a.jpg"));
    assert!(is_web_address_str("http"));
    assert!(!is_web_address_str("htt"));
    assert!(!is_web_address_str(""));
    assert!(!is_web_address_str("file:///tmp/a.jpg"));
    assert!(!is_web_address_str("HTTP://example.com"));
}

#[test]
fn full_metadata() {
    let m = track_metadata(
        "Song".to_string(),
        "Album".to_string(),
        "Artist".to_string(),
        "https://example.com/c.jpg".to_string(),
        183_250,
    );
    assert_eq!(m.title, "Song");
    assert_eq!(m.album.as_deref(), Some("Album"));
    assert_eq!(m.artist.as_deref(), Some("Artist"));
    assert_eq!(m.cover_url.as_deref(), Some("https://example.com/c.jpg"));
    assert_eq!(m.duration_millis, Some(183_250));
}

#[test]
fn sparse_metadata() {
    let m = track_metadata(
        "Only title".to_string(),
        String::new(),
        String::new(),
        "/local/cover.png".to_string(),
        0,
    );
    assert_eq!(m.title, "Only title");
    assert_eq!(m.album, None);
    assert_eq!(m.artist, None);
    assert_eq!(m.cover_url, None);
    assert_eq!(m.duration_millis, None);
}

#[test]
fn empty_title_is_kept() {
    let m = track_metadata(String::new(), "A".to_string(), String::new(), String::new(), 1);
    assert_eq!(m.title, "");
    assert_eq!(m.album.as_deref(), Some("A"));
    assert_eq!(m.duration_millis, Some(1));
}
