//! The line protocol spoken to a helper process that runs the system's media
//! session. Each message is one line: its fields, then a one-character tag
//! (`0` for track metadata, `1` for playback state), then a newline. Metadata
//! fields are `key:value`, separated by tabs; times are seconds with three
//! decimals.
use vstd::prelude::*;
use crate::media::TrackMetadata;

verus! {

/// The decimal digit for `d`, taken below ten.
pub open spec fn digit_char(d: nat) -> char {
    if d == 0 {
        '0'
    } else if d == 1 {
        '1'
    } else if d == 2 {
        '2'
    } else if d == 3 {
        '3'
    } else if d == 4 {
        '4'
    } else if d == 5 {
        '5'
    } else if d == 6 {
        '6'
    } else if d == 7 {
        '7'
    } else if d == 8 {
        '8'
    } else {
        '9'
    }
}

/// The value of a decimal digit, if `c` is one.
pub open spec fn digit_value(c: char) -> Option<nat> {
    if c == '0' {
        Some(0)
    } else if c == '1' {
        Some(1)
    } else if c == '2' {
        Some(2)
    } else if c == '3' {
        Some(3)
    } else if c == '4' {
        Some(4)
    } else if c == '5' {
        Some(5)
    } else if c == '6' {
        Some(6)
    } else if c == '7' {
        Some(7)
    } else if c == '8' {
        Some(8)
    } else if c == '9' {
        Some(9)
    } else {
        None
    }
}

pub open spec fn digit_text(d: nat) -> Seq<char> {
    seq![digit_char(d)]
}

/// `n` in decimal, without leading zeros.
pub open spec fn decimal_text(n: nat) -> Seq<char>
    decreases n,
{
    if n < 10 {
        digit_text(n)
    } else {
        decimal_text(n / 10) + digit_text(n % 10)
    }
}

/// `millis` milliseconds as seconds with three decimals.
pub open spec fn seconds_text(millis: u64) -> Seq<char> {
    decimal_text(millis as nat / 1000) + "."@ + digit_text((millis as nat / 100) % 10)
        + digit_text((millis as nat / 10) % 10) + digit_text(millis as nat % 10)
}

pub open spec fn bool_text(b: bool) -> Seq<char> {
    if b {
        "true"@
    } else {
        "false"@
    }
}

/// A field that is sent only when there is a value for it.
pub open spec fn optional_field(prefix: Seq<char>, value: Option<String>) -> Seq<char> {
    match value {
        Some(v) => prefix + v@,
        None => Seq::empty(),
    }
}

pub open spec fn album_part(m: TrackMetadata) -> Seq<char> {
    optional_field("\talbum:"@, m.album)
}

pub open spec fn artist_part(m: TrackMetadata) -> Seq<char> {
    optional_field("\tartist:"@, m.artist)
}

pub open spec fn cover_part(m: TrackMetadata) -> Seq<char> {
    optional_field("\tcover_url:"@, m.cover_url)
}

pub open spec fn duration_part(m: TrackMetadata) -> Seq<char> {
    match m.duration_millis {
        Some(ms) => "\tduration:"@ + seconds_text(ms),
        None => Seq::empty(),
    }
}

pub open spec fn metadata_line(m: TrackMetadata) -> Seq<char> {
    "title:"@ + m.title@ + album_part(m) + artist_part(m) + cover_part(m) + duration_part(m)
        + "0\n"@
}

pub open spec fn playback_line(playing: bool, position_millis: u64) -> Seq<char> {
    bool_text(playing) + ","@ + seconds_text(position_millis) + "1\n"@
}

fn push_digit(out: &mut String, d: u64)
    requires
        d < 10,
    ensures
        final(out)@ == old(out)@ + digit_text(d as nat),
{
    let text = if d == 0 {
        "0"
    } else if d == 1 {
        "1"
    } else if d == 2 {
        "2"
    } else if d == 3 {
        "3"
    } else if d == 4 {
        "4"
    } else if d == 5 {
        "5"
    } else if d == 6 {
        "6"
    } else if d == 7 {
        "7"
    } else if d == 8 {
        "8"
    } else {
        "9"
    };
    proof {
        reveal_strlit("0");
        reveal_strlit("1");
        reveal_strlit("2");
        reveal_strlit("3");
        reveal_strlit("4");
        reveal_strlit("5");
        reveal_strlit("6");
        reveal_strlit("7");
        reveal_strlit("8");
        reveal_strlit("9");
    }
    out.append(text);
}

fn push_decimal(out: &mut String, n: u64)
    ensures
        final(out)@ == old(out)@ + decimal_text(n as nat),
    decreases n,
{
    if n >= 10 {
        push_decimal(out, n / 10);
        push_digit(out, n % 10);
        assert(final(out)@ =~= old(out)@ + decimal_text(n as nat));
    } else {
        push_digit(out, n);
    }
}

fn push_seconds(out: &mut String, millis: u64)
    ensures
        final(out)@ =~= old(out)@ + seconds_text(millis),
{
    push_decimal(out, millis / 1000);
    out.append(".");
    push_digit(out, (millis / 100) % 10);
    push_digit(out, (millis / 10) % 10);
    push_digit(out, millis % 10);
}

fn push_optional(out: &mut String, prefix: &str, value: &Option<String>)
    ensures
        final(out)@ =~= old(out)@ + optional_field(prefix@, *value),
{
    if let Some(v) = value {
        out.append(prefix);
        out.append(v.as_str());
    }
}

/// The line that hands track metadata to the helper.
pub fn encode_metadata(m: &TrackMetadata) -> (r: String)
    ensures
        r@ == metadata_line(*m),
{
    let mut out = String::new();
    out.append("title:");
    out.append(m.title.as_str());
    push_optional(&mut out, "\talbum:", &m.album);
    push_optional(&mut out, "\tartist:", &m.artist);
    push_optional(&mut out, "\tcover_url:", &m.cover_url);
    if let Some(ms) = m.duration_millis {
        out.append("\tduration:");
        push_seconds(&mut out, ms);
    }
    out.append("0\n");
    assert(out@ =~= metadata_line(*m));
    out
}

/// The line that hands the playback state to the helper.
pub fn encode_playback(playing: bool, position_millis: u64) -> (r: String)
    ensures
        r@ == playback_line(playing, position_millis),
{
    let mut out = String::new();
    if playing {
        out.append("true");
    } else {
        out.append("false");
    }
    out.append(",");
    push_seconds(&mut out, position_millis);
    out.append("1\n");
    assert(out@ =~= playback_line(playing, position_millis));
    out
}

/// Whether every character of `s` is a decimal digit.
pub open spec fn all_digits(s: Seq<char>) -> bool {
    forall|i: int| 0 <= i < s.len() ==> digit_value(s[i]) is Some
}

/// The value of a run of decimal digits, most significant first.
pub open spec fn digits_value(s: Seq<char>) -> nat
    decreases s.len(),
{
    if s.len() == 0 {
        0
    } else {
        digits_value(s.drop_last()) * 10 + match digit_value(s.last()) {
            Some(d) => d,
            None => 0,
        }
    }
}

/// The milliseconds that `s` writes as seconds with three decimals: at least
/// one digit, a point, then exactly three digits.
pub open spec fn seconds_value(s: Seq<char>) -> Option<nat> {
    let n = s.len() as int;
    if n >= 5 && s[n - 4] == '.' && all_digits(s.subrange(0, n - 4)) && all_digits(
        s.subrange(n - 3, n),
    ) {
        Some(digits_value(s.subrange(0, n - 4)) * 1000 + digits_value(s.subrange(n - 3, n)))
    } else {
        None
    }
}

proof fn lemma_digit_round_trip(d: nat)
    requires
        d < 10,
    ensures
        digit_value(digit_char(d)) == Some(d),
{
}

proof fn lemma_decimal_round_trip(n: nat)
    ensures
        decimal_text(n).len() >= 1,
        all_digits(decimal_text(n)),
        digits_value(decimal_text(n)) == n,
    decreases n,
{
    if n < 10 {
        lemma_digit_round_trip(n);
        assert(decimal_text(n).drop_last() =~= Seq::<char>::empty());
        assert(digits_value(Seq::<char>::empty()) == 0);
        assert(digits_value(decimal_text(n)) == n);
    } else {
        lemma_decimal_round_trip(n / 10);
        lemma_digit_round_trip(n % 10);
        let t = decimal_text(n);
        assert(t.drop_last() =~= decimal_text(n / 10));
        assert(t.last() == digit_char(n % 10));
        assert forall|i: int| 0 <= i < t.len() implies digit_value(t[i]) is Some by {
            if i < t.len() - 1 {
                assert(t[i] == decimal_text(n / 10)[i]);
            }
        }
    }
}

proof fn lemma_digits_grow(x: Seq<char>, y: Seq<char>)
    ensures
        digits_value(x + y) >= digits_value(x),
    decreases y.len(),
{
    if y.len() > 0 {
        assert((x + y).drop_last() =~= x + y.drop_last());
        lemma_digits_grow(x, y.drop_last());
    } else {
        assert(x + y =~= x);
    }
}

proof fn lemma_seconds_round_trip(millis: u64)
    ensures
        seconds_value(seconds_text(millis)) == Some(millis as nat),
{
    let m = millis as nat;
    let whole = decimal_text(m / 1000);
    let s = seconds_text(millis);
    reveal_strlit(".");
    lemma_decimal_round_trip(m / 1000);
    lemma_digit_round_trip((m / 100) % 10);
    lemma_digit_round_trip((m / 10) % 10);
    lemma_digit_round_trip(m % 10);
    let n = s.len() as int;
    assert(n == whole.len() + 4);
    assert(s.subrange(0, n - 4) =~= whole);
    let frac = s.subrange(n - 3, n);
    assert(frac =~= seq![digit_char((m / 100) % 10), digit_char((m / 10) % 10), digit_char(m % 10)]);
    let f2 = frac.drop_last();
    let f1 = f2.drop_last();
    assert(f1.drop_last() =~= Seq::<char>::empty());
    assert(digits_value(Seq::<char>::empty()) == 0);
    assert(f1 =~= seq![digit_char((m / 100) % 10)]);
    assert(f2 =~= seq![digit_char((m / 100) % 10), digit_char((m / 10) % 10)]);
    assert(digits_value(f1) == (m / 100) % 10);
    assert(digits_value(f2) == ((m / 100) % 10) * 10 + (m / 10) % 10);
    assert(digits_value(frac) == ((m / 100) % 10) * 100 + ((m / 10) % 10) * 10 + m % 10);
    lemma_millis_digits(m);
}

proof fn lemma_millis_digits(m: nat)
    ensures
        (m / 1000) * 1000 + ((m / 100) % 10) * 100 + ((m / 10) % 10) * 10 + m % 10 == m,
{
    let t = m / 10;
    let h = t / 10;
    assert(m == t * 10 + m % 10);
    assert(t == h * 10 + t % 10);
    assert(h == (h / 10) * 10 + h % 10);
    assert(m / 100 == h);
    assert(m / 1000 == h / 10);
}

fn char_digit(c: char) -> (r: Option<u64>)
    ensures
        match digit_value(c) {
            Some(d) => r == Some(d as u64),
            None => r is None,
        },
{
    match c {
        '0' => Some(0),
        '1' => Some(1),
        '2' => Some(2),
        '3' => Some(3),
        '4' => Some(4),
        '5' => Some(5),
        '6' => Some(6),
        '7' => Some(7),
        '8' => Some(8),
        '9' => Some(9),
        _ => None,
    }
}

/// The value of the digits of `s` from `from` to `to`, if they are all
/// digits and their value fits.
fn parse_digits(s: &str, from: usize, to: usize) -> (r: Option<u64>)
    requires
        from <= to <= s@.len(),
    ensures
        match r {
            Some(v) => all_digits(s@.subrange(from as int, to as int)) && v == digits_value(
                s@.subrange(from as int, to as int),
            ),
            None => !all_digits(s@.subrange(from as int, to as int)) || digits_value(
                s@.subrange(from as int, to as int),
            ) > u64::MAX,
        },
{
    let mut v: u64 = 0;
    let mut i: usize = from;
    while i < to
        invariant
            from <= i <= to <= s@.len(),
            all_digits(s@.subrange(from as int, i as int)),
            v == digits_value(s@.subrange(from as int, i as int)),
        decreases to - i,
    {
        let c = s.get_char(i);
        let ghost next = s@.subrange(from as int, i + 1);
        assert(next.drop_last() =~= s@.subrange(from as int, i as int));
        assert(next.last() == c);
        let d = match char_digit(c) {
            Some(d) => d,
            None => {
                assert(!all_digits(s@.subrange(from as int, to as int))) by {
                    assert(s@.subrange(from as int, to as int)[i - from] == c);
                }
                return None;
            },
        };
        if v > (u64::MAX - d) / 10 {
            proof {
                let whole = s@.subrange(from as int, to as int);
                if all_digits(whole) {
                    assert(whole =~= next + s@.subrange(i + 1, to as int));
                    lemma_digits_grow(next, s@.subrange(i + 1, to as int));
                }
            }
            return None;
        }
        v = v * 10 + d;
        i = i + 1;
        assert forall|k: int| 0 <= k < next.len() implies digit_value(next[k]) is Some by {
            if k < next.len() - 1 {
                assert(next[k] == s@.subrange(from as int, i - 1)[k]);
            }
        }
    }
    Some(v)
}

/// The milliseconds written from `from` to `to` of `s` as seconds with three
/// decimals, if they are so written and fit.
fn parse_seconds(s: &str, from: usize, to: usize) -> (r: Option<u64>)
    requires
        from <= to <= s@.len(),
    ensures
        match r {
            Some(v) => seconds_value(s@.subrange(from as int, to as int)) == Some(v as nat),
            None => match seconds_value(s@.subrange(from as int, to as int)) {
                Some(v) => v > u64::MAX,
                None => true,
            },
        },
{
    let ghost t = s@.subrange(from as int, to as int);
    if to - from < 5 || s.get_char(to - 4) != '.' {
        assert(t.len() < 5 || t[t.len() - 4] != '.');
        return None;
    }
    assert(t.subrange(0, t.len() - 4) =~= s@.subrange(from as int, to - 4));
    assert(t.subrange(t.len() - 3, t.len() as int) =~= s@.subrange(to - 3, to as int));
    let whole = match parse_digits(s, from, to - 4) {
        Some(w) => w,
        None => return None,
    };
    let frac = match parse_digits(s, to - 3, to) {
        Some(f) => f,
        None => return None,
    };
    proof {
        let f = s@.subrange(to - 3, to as int);
        assert(f.drop_last().drop_last().drop_last() =~= Seq::<char>::empty());
    }
    if whole > (u64::MAX - frac) / 1000 {
        return None;
    }
    Some(whole * 1000 + frac)
}

/// A message read back from a protocol line.
pub enum HelperMessage {
    Metadata(TrackMetadata),
    Playback { playing: bool, position_millis: u64 },
}

/// The first index from `from` on, below `to`, where `s` holds `c`; `to` if none.
fn find_char(s: &str, from: usize, to: usize, c: char) -> (r: usize)
    requires
        from <= to <= s@.len(),
    ensures
        from <= r <= to,
        forall|k: int| from <= k < r ==> s@[k] != c,
        r < to ==> s@[r as int] == c,
{
    let mut i: usize = from;
    while i < to
        invariant
            from <= i <= to <= s@.len(),
            forall|k: int| from <= k < i ==> s@[k] != c,
        decreases to - i,
    {
        if s.get_char(i) == c {
            return i;
        }
        i = i + 1;
    }
    i
}

/// Whether `s` holds exactly `lit` from `from` to `to`.
fn is_text_at(s: &str, from: usize, to: usize, lit: &str) -> (r: bool)
    requires
        from <= to <= s@.len(),
    ensures
        r == (s@.subrange(from as int, to as int) == lit@),
{
    let len = lit.unicode_len();
    if to - from != len {
        return false;
    }
    let mut i: usize = 0;
    while i < len
        invariant
            to - from == len == lit@.len(),
            from <= to <= s@.len(),
            i <= len,
            forall|k: int| 0 <= k < i ==> s@[from + k] == lit@[k],
        decreases len - i,
    {
        if s.get_char(from + i) != lit.get_char(i) {
            assert(s@.subrange(from as int, to as int)[i as int] != lit@[i as int]);
            return false;
        }
        i = i + 1;
    }
    assert(s@.subrange(from as int, to as int) =~= lit@);
    true
}

fn same_text(a: &String, b: &str) -> (r: bool)
    ensures
        r == (a@ == b@),
{
    let owned = b.to_owned();
    a.eq(&owned)
}

proof fn lemma_playback_shape(playing: bool, millis: u64)
    ensures
        ({
            let l = playback_line(playing, millis);
            let n = l.len() as int;
            let b = bool_text(playing).len() as int;
            &&& n >= 2
            &&& l[n - 1] == '\n'
            &&& l[n - 2] == '1'
            &&& b < n - 2
            &&& l[b] == ','
            &&& forall|k: int| 0 <= k < b ==> l[k] != ','
            &&& l.subrange(0, b) == bool_text(playing)
            &&& l.subrange(b + 1, n - 2) == seconds_text(millis)
        }),
{
    reveal_strlit("true");
    reveal_strlit("false");
    reveal_strlit(",");
    reveal_strlit("1\n");
    let l = playback_line(playing, millis);
    let n = l.len() as int;
    let b = bool_text(playing).len() as int;
    lemma_seconds_round_trip(millis);
    assert(l.subrange(0, b) =~= bool_text(playing));
    assert(l.subrange(b + 1, n - 2) =~= seconds_text(millis));
}

/// Reads a playback line back. Exactly the lines that `encode_playback` writes
/// are accepted, each giving back what it was written from.
pub fn decode_playback(line: &str) -> (r: Option<(bool, u64)>)
    ensures
        match r {
            Some((playing, millis)) => playback_line(playing, millis) == line@,
            None => true,
        },
        forall|playing: bool, millis: u64|
            playback_line(playing, millis) == line@ ==> r == Some((playing, millis)),
{
    let n = line.unicode_len();
    if n < 2 || line.get_char(n - 1) != '\n' || line.get_char(n - 2) != '1' {
        proof {
            assert forall|p: bool, ms: u64| playback_line(p, ms) != line@ by {
                if playback_line(p, ms) == line@ {
                    lemma_playback_shape(p, ms);
                }
            }
        }
        return None;
    }
    let end = n - 2;
    let comma = find_char(line, 0, end, ',');
    let is_true = is_text_at(line, 0, comma, "true");
    let is_false = is_text_at(line, 0, comma, "false");
    let millis = if comma < end {
        parse_seconds(line, comma + 1, end)
    } else {
        None
    };
    if let Some(ms) = millis {
        if is_true || is_false {
            let enc = encode_playback(is_true, ms);
            if same_text(&enc, line) {
                proof {
                    assert forall|p: bool, m: u64| playback_line(p, m) == line@ implies p
                        == is_true && m == ms by {
                        reveal_strlit("true");
                        reveal_strlit("false");
                        lemma_playback_shape(p, m);
                        lemma_playback_shape(is_true, ms);
                        lemma_seconds_round_trip(m);
                        lemma_seconds_round_trip(ms);
                        let b = bool_text(p).len() as int;
                        let c = bool_text(is_true).len() as int;
                        assert(b == c);
                    }
                }
                return Some((is_true, ms));
            }
        }
    }
    proof {
        reveal_strlit("true");
        reveal_strlit("false");
        assert forall|p: bool, ms: u64| playback_line(p, ms) != line@ by {
            if playback_line(p, ms) == line@ {
                lemma_playback_shape(p, ms);
                lemma_seconds_round_trip(ms);
                let b = bool_text(p).len() as int;
                assert(comma == b);
                assert(is_true == p);
            }
        }
    }
    None
}

/// Whether `s` holds no tab, the separator of metadata fields.
pub open spec fn tab_free(s: Seq<char>) -> bool {
    forall|i: int| 0 <= i < s.len() ==> s[i] != '\t'
}

pub open spec fn optional_tab_free(v: Option<String>) -> bool {
    match v {
        Some(x) => tab_free(x@),
        None => true,
    }
}

/// Whether no text field of `m` holds a tab; such metadata is read back as written.
pub open spec fn fields_tab_free(m: TrackMetadata) -> bool {
    &&& tab_free(m.title@)
    &&& optional_tab_free(m.album)
    &&& optional_tab_free(m.artist)
    &&& optional_tab_free(m.cover_url)
}

pub open spec fn same_text_field(a: Option<String>, b: Option<String>) -> bool {
    match (a, b) {
        (Some(x), Some(y)) => x@ == y@,
        (None, None) => true,
        _ => false,
    }
}

/// Whether `a` and `b` hold the same texts and duration.
pub open spec fn same_metadata(a: TrackMetadata, b: TrackMetadata) -> bool {
    &&& a.title@ == b.title@
    &&& same_text_field(a.album, b.album)
    &&& same_text_field(a.artist, b.artist)
    &&& same_text_field(a.cover_url, b.cover_url)
    &&& a.duration_millis == b.duration_millis
}

/// Whether `line` is the metadata line of `m`, whose fields hold no tab.
pub open spec fn written_from(m: TrackMetadata, line: Seq<char>) -> bool {
    fields_tab_free(m) && metadata_line(m) == line
}

pub open spec fn starts_with(s: Seq<char>, prefix: Seq<char>) -> bool {
    prefix.len() <= s.len() && s.subrange(0, prefix.len() as int) == prefix
}

pub open spec fn tab_or_nothing(s: Seq<char>) -> bool {
    s.len() == 0 || s[0] == '\t'
}

proof fn lemma_same_line(a: TrackMetadata, b: TrackMetadata)
    requires
        same_metadata(a, b),
    ensures
        metadata_line(a) == metadata_line(b),
{
    assert(album_part(a) == album_part(b));
    assert(artist_part(a) == artist_part(b));
    assert(cover_part(a) == cover_part(b));
}

/// Each optional part, and what follows it, is empty or opens with a tab, and
/// no part opens with the key of an earlier one.
proof fn lemma_parts(m: TrackMetadata)
    ensures
        tab_or_nothing(album_part(m) + artist_part(m) + cover_part(m) + duration_part(m)),
        tab_or_nothing(artist_part(m) + cover_part(m) + duration_part(m)),
        tab_or_nothing(cover_part(m) + duration_part(m)),
        tab_or_nothing(duration_part(m)),
        !starts_with(artist_part(m) + cover_part(m) + duration_part(m), "\talbum:"@),
        !starts_with(cover_part(m) + duration_part(m), "\tartist:"@),
        !starts_with(duration_part(m), "\tcover_url:"@),
{
    reveal_strlit("\talbum:");
    reveal_strlit("\tartist:");
    reveal_strlit("\tcover_url:");
    reveal_strlit("\tduration:");
    let a = album_part(m);
    let r = artist_part(m);
    let c = cover_part(m);
    let d = duration_part(m);
    let album_key = "\talbum:"@;
    let artist_key = "\tartist:"@;
    let cover_key = "\tcover_url:"@;
    if d.len() > 0 {
        assert(d[0] == '\t' && d[1] == 'd');
    }
    if c.len() > 0 {
        assert((c + d)[0] == '\t' && (c + d)[1] == 'c');
    } else {
        assert(c + d =~= d);
    }
    if r.len() > 0 {
        assert((r + c + d)[0] == '\t' && (r + c + d)[2] == 'r');
    } else {
        assert(r + c + d =~= c + d);
    }
    if a.len() > 0 {
        assert((a + r + c + d)[0] == '\t');
    } else {
        assert(a + r + c + d =~= r + c + d);
    }
    if starts_with(r + c + d, album_key) {
        assert((r + c + d).subrange(0, 7)[1] == album_key[1]);
        assert((r + c + d).subrange(0, 7)[2] == album_key[2]);
    }
    if starts_with(c + d, artist_key) {
        assert((c + d).subrange(0, 8)[1] == artist_key[1]);
    }
    if starts_with(d, cover_key) {
        assert(d.subrange(0, 11)[1] == cover_key[1]);
    }
}

/// A scan for the next tab over a tab-free value and what follows it stops
/// right after the value.
proof fn lemma_tab_scan(
    line: Seq<char>,
    from: int,
    end: int,
    v: Seq<char>,
    follow: Seq<char>,
    r: int,
)
    requires
        0 <= from <= end <= line.len(),
        line.subrange(from, end) == v + follow,
        tab_free(v),
        tab_or_nothing(follow),
        from <= r <= end,
        forall|k: int| from <= k < r ==> line[k] != '\t',
        r < end ==> line[r] == '\t',
    ensures
        r == from + v.len(),
        line.subrange(from, r) == v,
        line.subrange(r, end) == follow,
{
    let w = from + v.len();
    let whole = line.subrange(from, end);
    assert(whole.len() == v.len() + follow.len());
    if r < w {
        assert(line[r] == line.subrange(from, end)[r - from]);
        assert((v + follow)[r - from] == v[r - from]);
    } else if r > w {
        assert(line[w] == line.subrange(from, end)[w - from]);
        assert((v + follow)[w - from] == follow[0]);
    }
    assert(r == w);
    assert forall|k: int| 0 <= k < r - from implies line.subrange(from, r)[k] == v[k] by {
        assert(line.subrange(from, r)[k] == whole[k]);
        assert((v + follow)[k] == v[k]);
    }
    assert forall|k: int| 0 <= k < end - r implies line.subrange(r, end)[k] == follow[k] by {
        assert(line.subrange(r, end)[k] == whole[k + v.len()]);
        assert((v + follow)[k + v.len()] == follow[k]);
    }
    assert(line.subrange(from, r) =~= v);
    assert(line.subrange(r, end) =~= follow);
}

/// `found` is the value of the field under `key` that starts at `p` in
/// `line`, if one does, running to the next tab before `end`; `stop` is where
/// the field ends.
pub open spec fn field_read(
    line: Seq<char>,
    p: int,
    end: int,
    key: Seq<char>,
    found: Option<String>,
    stop: int,
) -> bool {
    &&& found is Some == starts_with(line.subrange(p, end), key)
    &&& found is Some ==> {
        &&& p + key.len() <= stop <= end
        &&& forall|k: int| p + key.len() <= k < stop ==> line[k] != '\t'
        &&& (stop < end ==> line[stop] == '\t')
        &&& found->0@ == line.subrange(p + key.len(), stop)
    }
    &&& found is None ==> stop == p
}

/// The value of the field under `key` that starts at `p`, if one does, and
/// where the field ends.
fn optional_value(line: &str, p: usize, end: usize, key: &str) -> (r: (Option<String>, usize))
    requires
        p <= end <= line@.len(),
    ensures
        field_read(line@, p as int, end as int, key@, r.0, r.1 as int),
{
    let len = key.unicode_len();
    let found = len <= end - p && is_text_at(line, p, p + len, key);
    proof {
        let rest = line@.subrange(p as int, end as int);
        if len <= end - p {
            assert(rest.subrange(0, len as int) =~= line@.subrange(p as int, p + len));
        }
    }
    if !found {
        return (None, p);
    }
    let stop = find_char(line, p + len, end, '\t');
    let value = line.substring_char(p + len, stop).to_owned();
    (Some(value), stop)
}

proof fn lemma_optional_step(
    line: Seq<char>,
    p: int,
    end: int,
    key: Seq<char>,
    v: Option<String>,
    follow: Seq<char>,
    found: Option<String>,
    stop: int,
)
    requires
        0 <= p <= end <= line.len(),
        key.len() > 0,
        key[0] == '\t',
        line.subrange(p, end) == optional_field(key, v) + follow,
        optional_tab_free(v),
        tab_or_nothing(follow),
        v is None ==> !starts_with(follow, key),
        field_read(line, p, end, key, found, stop),
    ensures
        same_text_field(found, v),
        line.subrange(stop, end) == follow,
{
    match v {
        Some(x) => {
            let rest = line.subrange(p, end);
            assert(rest == key + x@ + follow);
            assert(rest.subrange(0, key.len() as int) =~= key);
            let k0 = key.len() as int;
            assert forall|k: int| 0 <= k < end - p - k0 implies line.subrange(p + k0, end)[k] == (
            x@ + follow)[k] by {
                assert(line.subrange(p + k0, end)[k] == rest[k + k0]);
                assert((key + x@ + follow)[k + k0] == (x@ + follow)[k]);
            }
            assert(line.subrange(p + key.len(), end) =~= x@ + follow);
            lemma_tab_scan(line, p + key.len(), end, x@, follow, stop);
        },
        None => {
            assert(optional_field(key, v) + follow =~= follow);
        },
    }
}

proof fn lemma_metadata_frame(m: TrackMetadata)
    ensures
        ({
            let l = metadata_line(m);
            let n = l.len() as int;
            &&& n >= 8
            &&& l[n - 1] == '\n'
            &&& l[n - 2] == '0'
            &&& l.subrange(0, 6) == "title:"@
            &&& l.subrange(6, n - 2) == m.title@ + (album_part(m) + artist_part(m) + cover_part(
                m,
            ) + duration_part(m))
        }),
{
    reveal_strlit("title:");
    reveal_strlit("0\n");
    let l = metadata_line(m);
    let n = l.len() as int;
    let body = album_part(m) + artist_part(m) + cover_part(m) + duration_part(m);
    assert(l =~= "title:"@ + (m.title@ + body) + "0\n"@);
    assert(l.subrange(0, 6) =~= "title:"@);
    assert(l.subrange(6, n - 2) =~= m.title@ + body);
}

/// On a line written from `m`, each step of the reading lands where the
/// writing put the field.
proof fn lemma_read_back(
    l: Seq<char>,
    end: int,
    title_end: int,
    album: Option<String>,
    p1: int,
    artist: Option<String>,
    p2: int,
    cover_url: Option<String>,
    p3: int,
    has_duration: bool,
    seconds: Option<u64>,
    m: TrackMetadata,
)
    requires
        written_from(m, l),
        end == l.len() - 2,
        6 <= title_end <= end,
        forall|k: int| 6 <= k < title_end ==> l[k] != '\t',
        title_end < end ==> l[title_end] == '\t',
        field_read(l, title_end, end, "\talbum:"@, album, p1),
        field_read(l, p1, end, "\tartist:"@, artist, p2),
        field_read(l, p2, end, "\tcover_url:"@, cover_url, p3),
        has_duration == (10 <= end - p3 && l.subrange(p3, p3 + 10) == "\tduration:"@),
        has_duration ==> match seconds {
            Some(v) => seconds_value(l.subrange(p3 + 10, end)) == Some(v as nat),
            None => match seconds_value(l.subrange(p3 + 10, end)) {
                Some(v) => v > u64::MAX,
                None => true,
            },
        },
        !has_duration ==> seconds is None,
    ensures
        !has_duration || seconds is Some,
        l.subrange(6, title_end) == m.title@,
        same_text_field(album, m.album),
        same_text_field(artist, m.artist),
        same_text_field(cover_url, m.cover_url),
        seconds == m.duration_millis,
{
    reveal_strlit("\talbum:");
    reveal_strlit("\tartist:");
    reveal_strlit("\tcover_url:");
    reveal_strlit("\tduration:");
    lemma_metadata_frame(m);
    lemma_parts(m);
    let a = album_part(m);
    let r = artist_part(m);
    let c = cover_part(m);
    let d = duration_part(m);
    assert(a + r + c + d =~= a + (r + c + d));
    assert(r + c + d =~= r + (c + d));
    lemma_tab_scan(l, 6, end, m.title@, a + r + c + d, title_end);
    lemma_optional_step(l, title_end, end, "\talbum:"@, m.album, r + c + d, album, p1);
    lemma_optional_step(l, p1, end, "\tartist:"@, m.artist, c + d, artist, p2);
    lemma_optional_step(l, p2, end, "\tcover_url:"@, m.cover_url, d, cover_url, p3);
    let rest = l.subrange(p3, end);
    match m.duration_millis {
        Some(ms) => {
            lemma_seconds_round_trip(ms);
            assert(rest.subrange(0, 10) =~= l.subrange(p3, p3 + 10));
            assert(rest.subrange(0, 10) =~= "\tduration:"@);
            assert(l.subrange(p3 + 10, end) =~= seconds_text(ms));
        },
        None => {
            assert(rest.len() == 0);
        },
    }
}

/// Reads a metadata line back. Exactly the lines that `encode_metadata` writes
/// for metadata whose text fields hold no tab are accepted, each giving back
/// the texts and the duration it was written from.
pub fn decode_metadata(line: &str) -> (r: Option<TrackMetadata>)
    ensures
        match r {
            Some(m) => written_from(m, line@),
            None => true,
        },
        forall|m: TrackMetadata| #[trigger]
            written_from(m, line@) ==> r is Some && same_metadata(r->0, m),
{
    proof {
        reveal_strlit("title:");
        reveal_strlit("\talbum:");
        reveal_strlit("\tartist:");
        reveal_strlit("\tcover_url:");
        reveal_strlit("\tduration:");
    }
    let n = line.unicode_len();
    if n < 8 || line.get_char(n - 1) != '\n' || line.get_char(n - 2) != '0' || !is_text_at(
        line,
        0,
        6,
        "title:",
    ) {
        proof {
            assert forall|m: TrackMetadata| !#[trigger] written_from(m, line@) by {
                if written_from(m, line@) {
                    lemma_metadata_frame(m);
                }
            }
        }
        return None;
    }
    let end = n - 2;
    let title_end = find_char(line, 6, end, '\t');
    let title = line.substring_char(6, title_end).to_owned();
    let (album, p1) = optional_value(line, title_end, end, "\talbum:");
    let (artist, p2) = optional_value(line, p1, end, "\tartist:");
    let (cover_url, p3) = optional_value(line, p2, end, "\tcover_url:");
    let has_duration = 10 <= end - p3 && is_text_at(line, p3, p3 + 10, "\tduration:");
    let seconds = if has_duration {
        parse_seconds(line, p3 + 10, end)
    } else {
        None
    };
    let parsed_ok = !has_duration || seconds.is_some();
    let m = TrackMetadata { title, album, artist, cover_url, duration_millis: seconds };
    proof {
        assert forall|m0: TrackMetadata| #[trigger]
            written_from(m0, line@) implies parsed_ok && same_metadata(m, m0) by {
            lemma_read_back(
                line@,
                end as int,
                title_end as int,
                m.album,
                p1 as int,
                m.artist,
                p2 as int,
                m.cover_url,
                p3 as int,
                has_duration,
                seconds,
                m0,
            );
        }
    }
    if parsed_ok {
        let enc = encode_metadata(&m);
        if same_text(&enc, line) {
            return Some(m);
        }
    }
    proof {
        assert forall|m0: TrackMetadata| !#[trigger] written_from(m0, line@) by {
            if written_from(m0, line@) {
                lemma_same_line(m, m0);
            }
        }
    }
    None
}

/// Reads any protocol line back: a line is accepted exactly when it is the
/// metadata line of tab-free metadata or a playback line.
pub fn decode_line(line: &str) -> (r: Option<HelperMessage>)
    ensures
        match r {
            Some(HelperMessage::Metadata(m)) => written_from(m, line@),
            Some(HelperMessage::Playback { playing, position_millis }) => playback_line(
                playing,
                position_millis,
            ) == line@,
            None => (forall|m: TrackMetadata| !#[trigger] written_from(m, line@)) && (forall|
                playing: bool,
                millis: u64,
            | #[trigger] playback_line(playing, millis) != line@),
        },
{
    if let Some(m) = decode_metadata(line) {
        return Some(HelperMessage::Metadata(m));
    }
    match decode_playback(line) {
        Some((playing, position_millis)) => Some(HelperMessage::Playback { playing, position_millis }),
        None => None,
    }
}

} // verus!
