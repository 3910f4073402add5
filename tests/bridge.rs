use playback_core::bridge::{encode_metadata, encode_playback};
use playback_core::media::track_metadata;

#[test]
fn playback_lines() {
    assert_eq!(encode_playback(true, 1500), "true,1.5001\n");
    assert_eq!(encode_playback(false, 0), "false,0.0001\n");
    assert_eq!(encode_playback(true, 123_456_789), "true,123456.7891\n");
    assert_eq!(encode_playback(false, 7), "false,0.0071\n");
    assert_eq!(
        encode_playback(true, u64::MAX),
        "true,18446744073709551.6151\n"
    );
}

#[test]
fn full_metadata_line() {
    let m = track_metadata(
        "Song".to_string(),
        "Album".to_string(),
        "Artist".to_string(),
        "https://example.com/c.jpg".to_string(),
        183_250,
    );
    assert_eq!(
        encode_metadata(&m),
        "title:Song\talbum:Album\tartist:Artist\tcover_url:https://example.com/c.jpg\tduration:183.2500\n"
    );
}

#[test]
fn sparse_metadata_line() {
    let m = track_metadata(
        "Only".to_string(),
        String::new(),
        "Someone".to_string(),
        "cover.png".to_string(),
        0,
    );
    assert_eq!(encode_metadata(&m), "title:Only\tartist:Someone0\n");
}

#[test]
fn metadata_line_keeps_unicode() {
    let m = track_metadata("曲名".to_string(), "专辑".to_string(), String::new(), String::new(), 60_000);
    assert_eq!(encode_metadata(&m), "title:曲名\talbum:专辑\tduration:60.0000\n");
}

use playback_core::bridge::{decode_line, decode_metadata, decode_playback, HelperMessage};

#[test]
fn playback_lines_read_back() {
    assert_eq!(decode_playback("true,1.5001\n"), Some((true, 1500)));
    assert_eq!(decode_playback("false,0.0001\n"), Some((false, 0)));
    for (playing, millis) in [(true, 0u64), (false, 123_456_789), (true, u64::MAX)] {
        let line = encode_playback(playing, millis);
        assert_eq!(decode_playback(&line), Some((playing, millis)));
    }
}

#[test]
fn malformed_playback_lines_refused() {
    assert_eq!(decode_playback(""), None);
    assert_eq!(decode_playback("true,1.5001"), None);
    assert_eq!(decode_playback("true,1.5000\n"), None);
    assert_eq!(decode_playback("yes,1.5001\n"), None);
    assert_eq!(decode_playback("true,1.51\n"), None);
    assert_eq!(decode_playback("true,01.5001\n"), None);
    assert_eq!(decode_playback("true1.5001\n"), None);
    assert_eq!(decode_playback("true,18446744073709551.6161\n"), None);
}

#[test]
fn metadata_lines_read_back() {
    let m = track_metadata(
        "Song: live".to_string(),
        "Album".to_string(),
        String::new(),
        "https://example.com/c.jpg".to_string(),
        183_250,
    );
    let back = decode_metadata(&encode_metadata(&m)).unwrap();
    assert_eq!(back.title, "Song: live");
    assert_eq!(back.album.as_deref(), Some("Album"));
    assert_eq!(back.artist, None);
    assert_eq!(back.cover_url.as_deref(), Some("https://example.com/c.jpg"));
    assert_eq!(back.duration_millis, Some(183_250));

    let bare = decode_metadata("title:0\n").unwrap();
    assert_eq!(bare.title, "");
    assert_eq!(bare.album, None);
    assert_eq!(bare.duration_millis, None);

    let some = decode_metadata("title:x\tartist:y\tduration:2.0050\n").unwrap();
    assert_eq!(some.title, "x");
    assert_eq!(some.album, None);
    assert_eq!(some.artist.as_deref(), Some("y"));
    assert_eq!(some.duration_millis, Some(2005));
}

#[test]
fn malformed_metadata_lines_refused() {
    assert!(decode_metadata("title:x0").is_none());
    assert!(decode_metadata("name:x0\n").is_none());
    assert!(decode_metadata("title:x\talbum:b1\n").is_none());
    // Fields out of order.
    assert!(decode_metadata("title:x\tartist:a\talbum:b0\n").is_none());
    // Unknown field.
    assert!(decode_metadata("title:x\tgenre:pop0\n").is_none());
    assert!(decode_metadata("title:x\tduration:2.50\n").is_none());
    // A tab inside a text does not survive the line.
    let m = track_metadata("a\tb".to_string(), String::new(), String::new(), String::new(), 0);
    assert!(decode_metadata(&encode_metadata(&m)).is_none());
}

#[test]
fn lines_dispatch_on_their_tag() {
    match decode_line("title:Song\talbum:A0\n") {
        Some(HelperMessage::Metadata(m)) => {
            assert_eq!(m.title, "Song");
            assert_eq!(m.album.as_deref(), Some("A"));
        }
        _ => panic!("expected metadata"),
    }
    match decode_line("false,42.0001\n") {
        Some(HelperMessage::Playback { playing, position_millis }) => {
            assert!(!playing);
            assert_eq!(position_millis, 42_000);
        }
        _ => panic!("expected playback"),
    }
    assert!(decode_line("hello\n").is_none());
}
