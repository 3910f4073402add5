//! What is handed to the system's "now playing" session, and what comes back
//! from it.
use vstd::prelude::*;

verus! {

/// A control request from the media session (media keys, lock screen, ...).
#[derive(Clone, Copy, Debug, PartialEq, Eq, Structural)]
pub enum ControlEvent {
    Play,
    Pause,
    Toggle,
    Next,
    Previous,
    Stop,
}

pub open spec fn event_code(e: ControlEvent) -> u32 {
    match e {
        ControlEvent::Play => 0,
        ControlEvent::Pause => 1,
        ControlEvent::Toggle => 2,
        ControlEvent::Next => 3,
        ControlEvent::Previous => 4,
        ControlEvent::Stop => 5,
    }
}

impl ControlEvent {
    /// The number under which the host receives this event.
    pub fn code(&self) -> (r: u32)
        ensures
            r == event_code(*self),
    {
        match self {
            ControlEvent::Play => 0,
            ControlEvent::Pause => 1,
            ControlEvent::Toggle => 2,
            ControlEvent::Next => 3,
            ControlEvent::Previous => 4,
            ControlEvent::Stop => 5,
        }
    }
}

/// Whether `s` begins with `http`, as a cover address that the session can fetch does.
pub open spec fn is_web_address(s: Seq<char>) -> bool {
    s.len() >= 4 && s.subrange(0, 4) == seq!['h', 't', 't', 'p']
}

/// A text field that is shown only when it says something.
pub open spec fn shown_text(s: Seq<char>, shown: Option<String>) -> bool {
    if s.len() == 0 {
        shown is None
    } else {
        shown is Some && shown->0@ == s
    }
}

/// The fields that the media session shows for a track.
pub struct TrackMetadata {
    pub title: String,
    pub album: Option<String>,
    pub artist: Option<String>,
    pub cover_url: Option<String>,
    /// Length of the track in milliseconds.
    pub duration_millis: Option<u64>,
}

fn shown(s: String) -> (r: Option<String>)
    ensures
        shown_text(s@, r),
{
    if s.as_str().is_empty() {
        None
    } else {
        Some(s)
    }
}

/// Whether `s` begins with `http`.
pub fn is_web_address_str(s: &str) -> (r: bool)
    ensures
        r == is_web_address(s@),
{
    if s.unicode_len() < 4 {
        return false;
    }
    let r = s.get_char(0) == 'h' && s.get_char(1) == 't' && s.get_char(2) == 't' && s.get_char(3)
        == 'p';
    assert(r == is_web_address(s@)) by {
        if r {
            assert(s@.subrange(0, 4) =~= seq!['h', 't', 't', 'p']);
        } else if is_web_address(s@) {
            assert(s@.subrange(0, 4)[0] == 'h');
            assert(s@.subrange(0, 4)[1] == 't');
            assert(s@.subrange(0, 4)[2] == 't');
            assert(s@.subrange(0, 4)[3] == 'p');
        }
    }
    r
}

/// The metadata for a track: the title always; album and artist when not
/// empty; the cover only when it is a web address; the duration only when it
/// is known (not zero).
pub fn track_metadata(
    title: String,
    album: String,
    artist: String,
    cover_url: String,
    duration_millis: u64,
) -> (r: TrackMetadata)
    ensures
        r.title@ == title@,
        shown_text(album@, r.album),
        shown_text(artist@, r.artist),
        is_web_address(cover_url@) ==> r.cover_url is Some && r.cover_url->0@ == cover_url@,
        !is_web_address(cover_url@) ==> r.cover_url is None,
        r.duration_millis == (if duration_millis == 0 {
            None::<u64>
        } else {
            Some(duration_millis)
        }),
{
    let web = is_web_address_str(cover_url.as_str());
    TrackMetadata {
        title,
        album: shown(album),
        artist: shown(artist),
        cover_url: if web {
            Some(cover_url)
        } else {
            None
        },
        duration_millis: if duration_millis == 0 {
            None
        } else {
            Some(duration_millis)
        },
    }
}

} // verus!
