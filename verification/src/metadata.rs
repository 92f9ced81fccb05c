//! Now-playing state fed by the Shairport Sync metadata stream: payload
//! decoding (DMAP integers, progress, text, four-character codes, image types)
//! and the state machine that applies each metadata item.
use vstd::prelude::*;
use vstd::utf8::{valid_utf8, decode_utf8};
use crate::text::{
    chars_is, chars_of, decimal_literal, fields, hex_literal, lemma_fields_step, parse_hex_u32, parse_u64,
    split_once, string_from, trim, trim_by, trim_chars,
};

verus! {

/// `std::str::from_utf8`: the text that `bytes` encode, where they are valid UTF-8.
#[verifier::external_body]
pub(crate) fn utf8_str(bytes: &[u8]) -> (r: Option<&str>)
    ensures
        r is Some <==> valid_utf8(bytes@),
        r matches Some(s) ==> s@ == decode_utf8(bytes@),
{
    std::str::from_utf8(bytes).ok()
}

/// What `String::from_utf8_lossy` makes of `bytes`.
pub uninterp spec fn utf8_lossy(bytes: Seq<u8>) -> Seq<char>;

/// `String::from_utf8_lossy`: the text of `bytes`, each invalid sequence replaced
/// by U+FFFD; valid UTF-8 is decoded unchanged.
#[verifier::external_body]
pub(crate) fn lossy_chars(bytes: &[u8]) -> (r: String)
    ensures
        r@ == utf8_lossy(bytes@),
        valid_utf8(bytes@) ==> r@ == decode_utf8(bytes@),
{
    String::from_utf8_lossy(bytes).into_owned()
}

/// The unsigned big-endian value of a byte sequence.
pub open spec fn be_value(s: Seq<u8>) -> nat
    decreases s.len(),
{
    if s.len() == 0 {
        0
    } else {
        be_value(s.drop_last()) * 256 + s.last() as nat
    }
}

proof fn lemma_be_prefix(s: Seq<u8>, k: int)
    requires
        0 <= k < s.len(),
    ensures
        be_value(s.subrange(0, k + 1)) == be_value(s.subrange(0, k)) * 256 + s[k],
{
    assert(s.subrange(0, k + 1).drop_last() =~= s.subrange(0, k));
}

proof fn lemma_be_value_short(s: Seq<u8>)
    ensures
        s.len() == 1 ==> be_value(s) == s[0],
        s.len() == 2 ==> be_value(s) == s[0] * 256 + s[1],
        s.len() == 4 ==> be_value(s) == s[0] * 16777216 + s[1] * 65536 + s[2] * 256 + s[3],
        s.len() == 8 ==> be_value(s) == be_value(s.subrange(0, 4)) * 4294967296 + s[4] * 16777216
            + s[5] * 65536 + s[6] * 256 + s[7],
{
    assert(be_value(s.subrange(0, 0)) == 0);
    if s.len() >= 1 {
        lemma_be_prefix(s, 0);
    }
    if s.len() >= 2 {
        lemma_be_prefix(s, 1);
    }
    if s.len() >= 3 {
        lemma_be_prefix(s, 2);
    }
    if s.len() >= 4 {
        lemma_be_prefix(s, 3);
    }
    if s.len() >= 5 {
        lemma_be_prefix(s, 4);
    }
    if s.len() >= 6 {
        lemma_be_prefix(s, 5);
    }
    if s.len() >= 7 {
        lemma_be_prefix(s, 6);
    }
    if s.len() >= 8 {
        lemma_be_prefix(s, 7);
    }
    assert(s.subrange(0, s.len() as int) =~= s);
    if s.len() >= 1 {
        assert(be_value(s.subrange(0, 1)) == s[0]);
    }
    if s.len() >= 2 {
        assert(be_value(s.subrange(0, 2)) == s[0] * 256 + s[1]);
    }
    if s.len() >= 4 {
        assert(be_value(s.subrange(0, 3)) == s[0] * 65536 + s[1] * 256 + s[2]);
        assert(be_value(s.subrange(0, 4)) == s[0] * 16777216 + s[1] * 65536 + s[2] * 256 + s[3]);
    }
    if s.len() == 8 {
        let v4 = be_value(s.subrange(0, 4));
        assert(be_value(s.subrange(0, 5)) == v4 * 256 + s[4]);
        assert(be_value(s.subrange(0, 6)) == v4 * 65536 + s[4] * 256 + s[5]);
        assert(be_value(s.subrange(0, 7)) == v4 * 16777216 + s[4] * 65536 + s[5] * 256 + s[6]);
        assert(be_value(s.subrange(0, 8)) == v4 * 4294967296 + s[4] * 16777216 + s[5] * 65536
            + s[6] * 256 + s[7]);
    }
}

/// The `u32` a DMAP integer payload holds: 1, 2 or 4 bytes, big-endian.
pub open spec fn dmap_u32_spec(payload: Seq<u8>) -> Option<u32> {
    if payload.len() == 1 || payload.len() == 2 || payload.len() == 4 {
        Some(be_value(payload) as u32)
    } else {
        None
    }
}

/// The `u64` a DMAP integer payload holds: 1, 2, 4 or 8 bytes, big-endian.
pub open spec fn dmap_u64_spec(payload: Seq<u8>) -> Option<u64> {
    if payload.len() == 1 || payload.len() == 2 || payload.len() == 4 || payload.len() == 8 {
        Some(be_value(payload) as u64)
    } else {
        None
    }
}

/// A DMAP integer payload read as a `u32`: payloads of 1, 2 or 4 bytes, big-endian.
pub fn dmap_payload_u32(payload: &[u8]) -> (r: Option<u32>)
    ensures
        r == dmap_u32_spec(payload@),
        r is Some <==> (payload@.len() == 1 || payload@.len() == 2 || payload@.len() == 4),
        r matches Some(v) ==> v == be_value(payload@),
{
    proof {
        lemma_be_value_short(payload@);
    }
    if payload.len() == 1 {
        Some(payload[0] as u32)
    } else if payload.len() == 2 {
        Some(payload[0] as u32 * 256 + payload[1] as u32)
    } else if payload.len() == 4 {
        Some(
            payload[0] as u32 * 16777216 + payload[1] as u32 * 65536 + payload[2] as u32 * 256
                + payload[3] as u32,
        )
    } else {
        None
    }
}

/// A DMAP integer payload read as a `u64`: payloads of 1 to 4 bytes as `u32`
/// (so 3 bytes read nothing), or of 8 bytes, big-endian.
pub fn dmap_payload_u64(payload: &[u8]) -> (r: Option<u64>)
    ensures
        r == dmap_u64_spec(payload@),
        r is Some <==> (payload@.len() == 1 || payload@.len() == 2 || payload@.len() == 4
            || payload@.len() == 8),
        r matches Some(v) ==> v == be_value(payload@),
{
    proof {
        lemma_be_value_short(payload@);
    }
    if payload.len() >= 1 && payload.len() <= 4 {
        match dmap_payload_u32(payload) {
            Some(v) => Some(v as u64),
            None => None,
        }
    } else if payload.len() == 8 {
        let hi = payload[0] as u64 * 16777216 + payload[1] as u64 * 65536 + payload[2] as u64 * 256
            + payload[3] as u64;
        proof {
            lemma_be_value_short(payload@.subrange(0, 4));
        }
        Some(
            hi * 4294967296 + payload[4] as u64 * 16777216 + payload[5] as u64 * 65536
                + payload[6] as u64 * 256 + payload[7] as u64,
        )
    } else {
        None
    }
}

/// The value `u64::from_str` reads from `s`, where it reads one.
pub open spec fn u64_literal(s: Seq<char>) -> Option<nat> {
    match decimal_literal(s) {
        Some(v) => if v <= u64::MAX {
            Some(v)
        } else {
            None
        },
        None => None,
    }
}

/// The progress triple of a `prgr` payload: UTF-8 text `start/current/end` whose
/// first three `/`-separated fields, trimmed, are `u64` literals.
pub open spec fn prgr_spec(payload: Seq<u8>) -> Option<(nat, nat, nat)> {
    if !valid_utf8(payload) {
        None
    } else {
        let f = fields(decode_utf8(payload), seq!['/']);
        if f.len() < 3 {
            None
        } else {
            match (u64_literal(trim(f[0])), u64_literal(trim(f[1])), u64_literal(trim(f[2]))) {
                (Some(a), Some(b), Some(c)) => Some((a, b, c)),
                _ => None,
            }
        }
    }
}

fn u64_field(s: &[char]) -> (r: Option<u64>)
    ensures
        match r {
            Some(v) => u64_literal(trim(s@)) == Some(v as nat),
            None => u64_literal(trim(s@)) is None,
        },
{
    let t = trim_chars(s, false);
    parse_u64(&t)
}

/// `prgr_spec` with its values as `u64`.
pub open spec fn prgr_u64(payload: Seq<u8>) -> Option<(u64, u64, u64)> {
    match prgr_spec(payload) {
        Some((a, b, c)) => Some((a as u64, b as u64, c as u64)),
        None => None,
    }
}

/// Parses a `prgr` progress payload: start, current and end RTP timestamps.
pub fn parse_prgr(payload: &[u8]) -> (r: Option<(u64, u64, u64)>)
    ensures
        r == prgr_u64(payload@),
        match r {
            Some((a, b, c)) => prgr_spec(payload@) == Some((a as nat, b as nat, c as nat)),
            None => prgr_spec(payload@) is None,
        },
{
    let text = match utf8_str(payload) {
        Some(t) => t,
        None => {
            return None;
        },
    };
    let t = chars_of(text);
    let slash = ['/'];
    assert(slash@ =~= seq!['/']);
    proof {
        lemma_fields_step(t@, slash@);
    }
    let (f0, r0) = match split_once(&t, &slash) {
        Some(x) => x,
        None => {
            return None;
        },
    };
    proof {
        lemma_fields_step(r0@, slash@);
    }
    let (f1, r1) = match split_once(&r0, &slash) {
        Some(x) => x,
        None => {
            return None;
        },
    };
    proof {
        lemma_fields_step(r1@, slash@);
    }
    let f2 = match split_once(&r1, &slash) {
        Some((a, _)) => a,
        None => r1,
    };
    proof {
        let f = fields(t@, seq!['/']);
        assert(f[0] == f0@);
        assert(f[1] == f1@);
        assert(f[2] == f2@);
    }
    let a = match u64_field(&f0) {
        Some(v) => v,
        None => {
            return None;
        },
    };
    let b = match u64_field(&f1) {
        Some(v) => v,
        None => {
            return None;
        },
    };
    let c = match u64_field(&f2) {
        Some(v) => v,
        None => {
            return None;
        },
    };
    Some((a, b, c))
}

/// The text of a metadata payload: decoded leniently, NUL characters and then
/// white space trimmed from both ends; nothing for an empty payload or text.
pub open spec fn payload_text(payload: Seq<u8>) -> Option<Seq<char>> {
    if payload.len() == 0 {
        None
    } else {
        let v = trim(trim_by(true, utf8_lossy(payload)));
        if v.len() == 0 {
            None
        } else {
            Some(v)
        }
    }
}

/// The view of an optional string.
pub open spec fn opt_view(o: Option<String>) -> Option<Seq<char>> {
    match o {
        Some(s) => Some(s@),
        None => None,
    }
}

/// The text of a metadata payload that is valid UTF-8: decoded unchanged, NUL
/// characters and then white space trimmed from both ends; nothing for an empty
/// payload or text.
pub open spec fn valid_payload_text(payload: Seq<u8>) -> Option<Seq<char>> {
    if payload.len() == 0 {
        None
    } else {
        let v = trim(trim_by(true, decode_utf8(payload)));
        if v.len() == 0 {
            None
        } else {
            Some(v)
        }
    }
}

/// Reads a metadata payload as text (see `payload_text`); valid UTF-8 is read
/// as it decodes (see `valid_payload_text`).
pub fn payload_bytes_to_string(payload: &[u8]) -> (r: Option<String>)
    ensures
        opt_view(r) == payload_text(payload@),
        valid_utf8(payload@) ==> opt_view(r) == valid_payload_text(payload@),
{
    if payload.len() == 0 {
        return None;
    }
    let lossy = lossy_chars(payload);
    let cs = chars_of(lossy.as_str());
    let no_nul = trim_chars(&cs, true);
    let v = trim_chars(&no_nul, false);
    if v.len() == 0 {
        None
    } else {
        Some(string_from(&v))
    }
}

/// The four characters whose code points are the bytes of `v`, high byte first.
pub open spec fn fourcc_chars(v: nat) -> Seq<char> {
    seq![
        ((v / 16777216) % 256) as u8 as char,
        ((v / 65536) % 256) as u8 as char,
        ((v / 256) % 256) as u8 as char,
        (v % 256) as u8 as char,
    ]
}

/// The four-character code a hexadecimal `u32` literal stands for.
pub open spec fn fourcc_spec(hex: Seq<char>) -> Option<Seq<char>> {
    match hex_literal(hex) {
        Some(v) => if v <= u32::MAX {
            Some(fourcc_chars(v))
        } else {
            None
        },
        None => None,
    }
}

/// Decodes a hexadecimal four-character code given as characters.
pub fn fourcc_of_chars(hex: &[char]) -> (r: Option<Vec<char>>)
    ensures
        match r {
            Some(v) => fourcc_spec(hex@) == Some(v@),
            None => fourcc_spec(hex@) is None,
        },
{
    let v = match parse_hex_u32(hex) {
        Some(v) => v,
        None => {
            return None;
        },
    };
    let mut out: Vec<char> = Vec::new();
    out.push(((v / 16777216) % 256) as u8 as char);
    out.push(((v / 65536) % 256) as u8 as char);
    out.push(((v / 256) % 256) as u8 as char);
    out.push((v % 256) as u8 as char);
    assert(out@ =~= fourcc_chars(v as nat));
    Some(out)
}

/// Decodes a hexadecimal four-character code such as `636f7265` (`core`): the `u32`
/// value, its bytes high first, each byte the code point of one character.
pub fn decode_fourcc(hex_value: &str) -> (r: Option<String>)
    ensures
        opt_view(r) == fourcc_spec(hex_value@),
{
    let cs = chars_of(hex_value);
    match fourcc_of_chars(&cs) {
        Some(v) => Some(string_from(&v)),
        None => None,
    }
}

/// Whether `bytes` begins with `prefix`.
pub open spec fn bytes_start_with(bytes: Seq<u8>, prefix: Seq<u8>) -> bool {
    prefix.len() <= bytes.len() && bytes.subrange(0, prefix.len() as int) == prefix
}

/// The MIME type of an image recognised by its signature: JPEG, PNG or WebP.
pub open spec fn mime_spec(bytes: Seq<u8>) -> Option<Seq<char>> {
    if bytes_start_with(bytes, seq![0xFFu8, 0xD8, 0xFF]) {
        Some("image/jpeg"@)
    } else if bytes_start_with(bytes, seq![0x89u8, 0x50, 0x4E, 0x47, 0x0D, 0x0A, 0x1A, 0x0A]) {
        Some("image/png"@)
    } else if bytes.len() >= 12 && bytes.subrange(0, 4) == seq![0x52u8, 0x49, 0x46, 0x46]
        && bytes.subrange(8, 12) == seq![0x57u8, 0x45, 0x42, 0x50] {
        Some("image/webp"@)
    } else {
        None
    }
}

fn bytes_match(bytes: &[u8], at: usize, expected: &[u8]) -> (r: bool)
    requires
        at + expected@.len() <= bytes@.len(),
    ensures
        r == (bytes@.subrange(at as int, at + expected@.len()) == expected@),
{
    let n = bytes.len();
    let mut i: usize = 0;
    while i < expected.len()
        invariant
            n == bytes@.len(),
            at + expected@.len() <= bytes@.len(),
            i <= expected@.len(),
            forall|k: int| 0 <= k < i ==> bytes@[at + k] == expected@[k],
        decreases expected.len() - i,
    {
        if bytes[at + i] != expected[i] {
            assert(bytes@.subrange(at as int, at + expected@.len())[i as int] != expected@[i as int]);
            return false;
        }
        i = i + 1;
    }
    assert(bytes@.subrange(at as int, at + expected@.len()) =~= expected@);
    true
}

/// Recognises an image type from its first bytes (see `mime_spec`).
pub fn detect_image_mime_type(bytes: &[u8]) -> (r: Option<&'static str>)
    ensures
        match r {
            Some(m) => mime_spec(bytes@) == Some(m@),
            None => mime_spec(bytes@) is None,
        },
{
    let jpeg: [u8; 3] = [0xFF, 0xD8, 0xFF];
    let png: [u8; 8] = [0x89, 0x50, 0x4E, 0x47, 0x0D, 0x0A, 0x1A, 0x0A];
    let riff: [u8; 4] = [0x52, 0x49, 0x46, 0x46];
    let webp: [u8; 4] = [0x57, 0x45, 0x42, 0x50];
    assert(jpeg@ =~= seq![0xFFu8, 0xD8, 0xFF]);
    assert(png@ =~= seq![0x89u8, 0x50, 0x4E, 0x47, 0x0D, 0x0A, 0x1A, 0x0A]);
    assert(riff@ =~= seq![0x52u8, 0x49, 0x46, 0x46]);
    assert(webp@ =~= seq![0x57u8, 0x45, 0x42, 0x50]);
    if bytes.len() >= 3 && bytes_match(bytes, 0, &jpeg) {
        return Some("image/jpeg");
    }
    if bytes.len() >= 8 && bytes_match(bytes, 0, &png) {
        return Some("image/png");
    }
    if bytes.len() >= 12 && bytes_match(bytes, 0, &riff) && bytes_match(bytes, 8, &webp) {
        return Some("image/webp");
    }
    None
}

/// Whether a receiver is playing.
#[derive(Clone, Copy, Debug, PartialEq, Eq, Structural)]
pub enum PlaybackState {
    Stopped,
    Playing,
    Paused,
}

impl Default for PlaybackState {
    fn default() -> (r: Self)
        ensures
            r == PlaybackState::Stopped,
    {
        PlaybackState::Stopped
    }
}

/// Metadata of the track being played.
#[derive(Debug)]
pub struct NowPlayingTrackData {
    pub title: Option<String>,
    pub artist: Option<String>,
    pub album: Option<String>,
    pub genre: Option<String>,
    pub composer: Option<String>,
    pub stream_url: Option<String>,
    pub source_name: Option<String>,
    pub source_ip: Option<String>,
    pub user_agent: Option<String>,
    /// Song data kind: 0 = timed track (has duration), 1 = untimed stream (radio).
    pub song_data_kind: Option<u32>,
    /// Track duration in milliseconds.
    pub duration_ms: Option<u64>,
}

/// The contents of `NowPlayingTrackData`.
pub ghost struct TrackView {
    pub title: Option<Seq<char>>,
    pub artist: Option<Seq<char>>,
    pub album: Option<Seq<char>>,
    pub genre: Option<Seq<char>>,
    pub composer: Option<Seq<char>>,
    pub stream_url: Option<Seq<char>>,
    pub source_name: Option<Seq<char>>,
    pub source_ip: Option<Seq<char>>,
    pub user_agent: Option<Seq<char>>,
    pub song_data_kind: Option<u32>,
    pub duration_ms: Option<u64>,
}

impl View for NowPlayingTrackData {
    type V = TrackView;

    open spec fn view(&self) -> TrackView {
        TrackView {
            title: opt_view(self.title),
            artist: opt_view(self.artist),
            album: opt_view(self.album),
            genre: opt_view(self.genre),
            composer: opt_view(self.composer),
            stream_url: opt_view(self.stream_url),
            source_name: opt_view(self.source_name),
            source_ip: opt_view(self.source_ip),
            user_agent: opt_view(self.user_agent),
            song_data_kind: self.song_data_kind,
            duration_ms: self.duration_ms,
        }
    }
}

/// A track about which nothing is known.
pub open spec fn empty_track() -> TrackView {
    TrackView {
        title: None,
        artist: None,
        album: None,
        genre: None,
        composer: None,
        stream_url: None,
        source_name: None,
        source_ip: None,
        user_agent: None,
        song_data_kind: None,
        duration_ms: None,
    }
}

/// A non-empty text.
pub open spec fn present(o: Option<Seq<char>>) -> bool {
    o matches Some(s) && s.len() > 0
}

/// Whether any displayable field of the track holds a non-empty text.
pub open spec fn track_has_data(t: TrackView) -> bool {
    present(t.title) || present(t.artist) || present(t.album) || present(t.stream_url) || present(
        t.source_name,
    ) || present(t.source_ip) || present(t.user_agent)
}

fn nonempty(o: &Option<String>) -> (r: bool)
    ensures
        r == present(opt_view(*o)),
{
    match o {
        Some(s) => !s.as_str().is_empty(),
        None => false,
    }
}

impl NowPlayingTrackData {
    /// A track about which nothing is known.
    pub fn new() -> (r: Self)
        ensures
            r@ == empty_track(),
    {
        NowPlayingTrackData {
            title: None,
            artist: None,
            album: None,
            genre: None,
            composer: None,
            stream_url: None,
            source_name: None,
            source_ip: None,
            user_agent: None,
            song_data_kind: None,
            duration_ms: None,
        }
    }

    /// Whether there is anything to show: a non-empty title, artist, album, stream
    /// URL, source name, source address or user agent.
    pub fn has_data(&self) -> (r: bool)
        ensures
            r == track_has_data(self@),
    {
        nonempty(&self.title) || nonempty(&self.artist) || nonempty(&self.album) || nonempty(
            &self.stream_url,
        ) || nonempty(&self.source_name) || nonempty(&self.source_ip) || nonempty(
            &self.user_agent,
        )
    }
}

/// Everything known about what the AirPlay receiver is playing.
#[derive(Debug)]
pub struct NowPlayingRuntimeState {
    pub metadata_pipe_path: String,
    pub reader_running: bool,
    pub last_error: Option<String>,
    pub drive_visualizer_palette: bool,
    pub track: NowPlayingTrackData,
    pub palette_colors: Vec<[u8; 3]>,
    pub artwork_bytes: Option<Vec<u8>>,
    pub artwork_mime_type: Option<String>,
    pub artwork_generation: u64,
    pub updated_at_ms: Option<u64>,
    pub playback_state: PlaybackState,
    /// Progress as RTP timestamps at 44100 frames per second: start, current, end.
    pub progress_rtp: Option<(u64, u64, u64)>,
    /// AirPlay volume in dB, as the bits of the `f32` read from the payload.
    pub volume_db_bits: Option<u32>,
}

/// The contents of `NowPlayingRuntimeState`.
pub ghost struct NowPlayingView {
    pub metadata_pipe_path: Seq<char>,
    pub reader_running: bool,
    pub last_error: Option<Seq<char>>,
    pub drive_visualizer_palette: bool,
    pub track: TrackView,
    pub palette_colors: Seq<[u8; 3]>,
    pub artwork_bytes: Option<Seq<u8>>,
    pub artwork_mime_type: Option<Seq<char>>,
    pub artwork_generation: u64,
    pub updated_at_ms: Option<u64>,
    pub playback_state: PlaybackState,
    pub progress_rtp: Option<(u64, u64, u64)>,
    pub volume_db_bits: Option<u32>,
}

/// The view of optional bytes.
pub open spec fn opt_bytes(o: Option<Vec<u8>>) -> Option<Seq<u8>> {
    match o {
        Some(v) => Some(v@),
        None => None,
    }
}

/// The view of an optional colour list.
pub open spec fn opt_colors(o: Option<Vec<[u8; 3]>>) -> Option<Seq<[u8; 3]>> {
    match o {
        Some(v) => Some(v@),
        None => None,
    }
}

impl View for NowPlayingRuntimeState {
    type V = NowPlayingView;

    open spec fn view(&self) -> NowPlayingView {
        NowPlayingView {
            metadata_pipe_path: self.metadata_pipe_path@,
            reader_running: self.reader_running,
            last_error: opt_view(self.last_error),
            drive_visualizer_palette: self.drive_visualizer_palette,
            track: self.track@,
            palette_colors: self.palette_colors@,
            artwork_bytes: opt_bytes(self.artwork_bytes),
            artwork_mime_type: opt_view(self.artwork_mime_type),
            artwork_generation: self.artwork_generation,
            updated_at_ms: self.updated_at_ms,
            playback_state: self.playback_state,
            progress_rtp: self.progress_rtp,
            volume_db_bits: self.volume_db_bits,
        }
    }
}

/// `u64::saturating_add(1)`.
pub open spec fn bump(g: u64) -> u64 {
    if g == u64::MAX {
        g
    } else {
        (g + 1) as u64
    }
}

/// The state before anything was read from the pipe at `path`.
pub open spec fn initial_state(path: Seq<char>) -> NowPlayingView {
    NowPlayingView {
        metadata_pipe_path: path,
        reader_running: false,
        last_error: None,
        drive_visualizer_palette: false,
        track: empty_track(),
        palette_colors: seq![],
        artwork_bytes: None,
        artwork_mime_type: None,
        artwork_generation: 0,
        updated_at_ms: None,
        playback_state: PlaybackState::Stopped,
        progress_rtp: None,
        volume_db_bits: None,
    }
}

/// The state after the data of a play session is cleared at time `now`: no track,
/// palette, artwork or progress; a new artwork generation.
pub open spec fn cleared(v: NowPlayingView, now: u64) -> NowPlayingView {
    NowPlayingView {
        track: empty_track(),
        palette_colors: seq![],
        artwork_bytes: None,
        artwork_mime_type: None,
        artwork_generation: bump(v.artwork_generation),
        progress_rtp: None,
        updated_at_ms: Some(now),
        ..v
    }
}

/// What a metadata item reports.
#[derive(Clone, Copy, Debug, PartialEq, Eq, Structural)]
pub enum MetadataItem {
    Title,
    Artist,
    Album,
    Genre,
    Composer,
    StreamUrl,
    DurationMs,
    SongDataKind,
    SourceName,
    UserAgent,
    SourceIp,
    Artwork,
    PlaybackBegin,
    PlaybackResume,
    PlaybackPause,
    PlaybackEnd,
    Progress,
    Volume,
    Other,
}

/// What the item of the given (lower-case) type and code reports.
pub open spec fn metadata_item_spec(item_type: Seq<char>, code: Seq<char>) -> MetadataItem {
    if item_type == "core"@ {
        if code == "minm"@ {
            MetadataItem::Title
        } else if code == "asar"@ {
            MetadataItem::Artist
        } else if code == "asal"@ {
            MetadataItem::Album
        } else if code == "asgn"@ {
            MetadataItem::Genre
        } else if code == "ascp"@ {
            MetadataItem::Composer
        } else if code == "asul"@ {
            MetadataItem::StreamUrl
        } else if code == "astm"@ {
            MetadataItem::DurationMs
        } else if code == "asdk"@ {
            MetadataItem::SongDataKind
        } else {
            MetadataItem::Other
        }
    } else if item_type == "ssnc"@ {
        if code == "snam"@ {
            MetadataItem::SourceName
        } else if code == "snua"@ {
            MetadataItem::UserAgent
        } else if code == "clip"@ || code == "conn"@ {
            MetadataItem::SourceIp
        } else if code == "PICT"@ {
            MetadataItem::Artwork
        } else if code == "pbeg"@ {
            MetadataItem::PlaybackBegin
        } else if code == "prsm"@ || code == "pres"@ {
            MetadataItem::PlaybackResume
        } else if code == "pfls"@ || code == "paus"@ {
            MetadataItem::PlaybackPause
        } else if code == "pend"@ || code == "disc"@ {
            MetadataItem::PlaybackEnd
        } else if code == "prgr"@ {
            MetadataItem::Progress
        } else if code == "pvol"@ {
            MetadataItem::Volume
        } else {
            MetadataItem::Other
        }
    } else {
        MetadataItem::Other
    }
}

/// Classifies a metadata item by its (lower-case) type and its code.
pub fn classify_metadata_item(item_type: &str, code: &str) -> (r: MetadataItem)
    ensures
        r == metadata_item_spec(item_type@, code@),
{
    let t = chars_of(item_type);
    let c = chars_of(code);
    if chars_is(&t, "core") {
        if chars_is(&c, "minm") {
            MetadataItem::Title
        } else if chars_is(&c, "asar") {
            MetadataItem::Artist
        } else if chars_is(&c, "asal") {
            MetadataItem::Album
        } else if chars_is(&c, "asgn") {
            MetadataItem::Genre
        } else if chars_is(&c, "ascp") {
            MetadataItem::Composer
        } else if chars_is(&c, "asul") {
            MetadataItem::StreamUrl
        } else if chars_is(&c, "astm") {
            MetadataItem::DurationMs
        } else if chars_is(&c, "asdk") {
            MetadataItem::SongDataKind
        } else {
            MetadataItem::Other
        }
    } else if chars_is(&t, "ssnc") {
        if chars_is(&c, "snam") {
            MetadataItem::SourceName
        } else if chars_is(&c, "snua") {
            MetadataItem::UserAgent
        } else if chars_is(&c, "clip") || chars_is(&c, "conn") {
            MetadataItem::SourceIp
        } else if chars_is(&c, "PICT") {
            MetadataItem::Artwork
        } else if chars_is(&c, "pbeg") {
            MetadataItem::PlaybackBegin
        } else if chars_is(&c, "prsm") || chars_is(&c, "pres") {
            MetadataItem::PlaybackResume
        } else if chars_is(&c, "pfls") || chars_is(&c, "paus") {
            MetadataItem::PlaybackPause
        } else if chars_is(&c, "pend") || chars_is(&c, "disc") {
            MetadataItem::PlaybackEnd
        } else if chars_is(&c, "prgr") {
            MetadataItem::Progress
        } else if chars_is(&c, "pvol") {
            MetadataItem::Volume
        } else {
            MetadataItem::Other
        }
    } else {
        MetadataItem::Other
    }
}

/// The state after an item, and the palette the visualizer is then to take. Any
/// item marks the reader running, clears the last error and stamps the time; text
/// items set their field to the payload's text, integer items to its DMAP value;
/// a non-empty artwork payload becomes the artwork, with its type, a new
/// generation and the palette extracted from it (`colors`), which the visualizer
/// takes where the palette drives it and is not empty; playback items move the
/// playback state, a begin or an end also clearing the session's data; progress
/// and volume items store their readings.
pub open spec fn apply_spec(
    v: NowPlayingView,
    item: MetadataItem,
    payload: Seq<u8>,
    now: u64,
    colors: Seq<[u8; 3]>,
    volume: Option<u32>,
) -> (NowPlayingView, Option<Seq<[u8; 3]>>) {
    let base = NowPlayingView { reader_running: true, last_error: None, updated_at_ms: Some(now), ..v };
    let text = payload_text(payload);
    let t = base.track;
    match item {
        MetadataItem::Title => (NowPlayingView { track: TrackView { title: text, ..t }, ..base }, None),
        MetadataItem::Artist => (NowPlayingView { track: TrackView { artist: text, ..t }, ..base }, None),
        MetadataItem::Album => (NowPlayingView { track: TrackView { album: text, ..t }, ..base }, None),
        MetadataItem::Genre => (NowPlayingView { track: TrackView { genre: text, ..t }, ..base }, None),
        MetadataItem::Composer => (
            NowPlayingView { track: TrackView { composer: text, ..t }, ..base },
            None,
        ),
        MetadataItem::StreamUrl => (
            NowPlayingView { track: TrackView { stream_url: text, ..t }, ..base },
            None,
        ),
        MetadataItem::DurationMs => (
            NowPlayingView { track: TrackView { duration_ms: dmap_u64_spec(payload), ..t }, ..base },
            None,
        ),
        MetadataItem::SongDataKind => (
            NowPlayingView {
                track: TrackView { song_data_kind: dmap_u32_spec(payload), ..t },
                ..base
            },
            None,
        ),
        MetadataItem::SourceName => (
            NowPlayingView { track: TrackView { source_name: text, ..t }, ..base },
            None,
        ),
        MetadataItem::UserAgent => (
            NowPlayingView { track: TrackView { user_agent: text, ..t }, ..base },
            None,
        ),
        MetadataItem::SourceIp => (
            NowPlayingView { track: TrackView { source_ip: text, ..t }, ..base },
            None,
        ),
        MetadataItem::Artwork => if payload.len() == 0 {
            (base, None)
        } else {
            (
                NowPlayingView {
                    artwork_mime_type: mime_spec(payload),
                    artwork_bytes: Some(payload),
                    artwork_generation: bump(base.artwork_generation),
                    palette_colors: colors,
                    ..base
                },
                if base.drive_visualizer_palette && colors.len() > 0 {
                    Some(colors)
                } else {
                    None
                },
            )
        },
        MetadataItem::PlaybackBegin => (
            NowPlayingView { playback_state: PlaybackState::Playing, ..cleared(base, now) },
            None,
        ),
        MetadataItem::PlaybackResume => (
            NowPlayingView { playback_state: PlaybackState::Playing, ..base },
            None,
        ),
        MetadataItem::PlaybackPause => (
            NowPlayingView { playback_state: PlaybackState::Paused, ..base },
            None,
        ),
        MetadataItem::PlaybackEnd => (
            cleared(NowPlayingView { playback_state: PlaybackState::Stopped, ..base }, now),
            None,
        ),
        MetadataItem::Progress => (NowPlayingView { progress_rtp: prgr_u64(payload), ..base }, None),
        MetadataItem::Volume => (NowPlayingView { volume_db_bits: volume, ..base }, None),
        MetadataItem::Other => (base, None),
    }
}

/// `a.wrapping_sub(b)` on `u64`: the difference modulo 2^64.
pub open spec fn wrapping_diff(a: u64, b: u64) -> u64 {
    if a >= b {
        (a - b) as u64
    } else {
        (a - b + 0x1_0000_0000_0000_0000) as u64
    }
}

/// `u64::wrapping_sub`.
pub fn wrapping_sub_u64(a: u64, b: u64) -> (r: u64)
    ensures
        r == wrapping_diff(a, b),
{
    if a >= b {
        a - b
    } else {
        (u64::MAX - b) + a + 1
    }
}

impl NowPlayingRuntimeState {
    /// The state before anything was read from the pipe at `metadata_pipe_path`.
    pub fn new(metadata_pipe_path: String) -> (r: Self)
        ensures
            r@ == initial_state(metadata_pipe_path@),
    {
        NowPlayingRuntimeState {
            metadata_pipe_path,
            reader_running: false,
            last_error: None,
            drive_visualizer_palette: false,
            track: NowPlayingTrackData::new(),
            palette_colors: Vec::new(),
            artwork_bytes: None,
            artwork_mime_type: None,
            artwork_generation: 0,
            updated_at_ms: None,
            playback_state: PlaybackState::Stopped,
            progress_rtp: None,
            volume_db_bits: None,
        }
    }

    /// Forgets the data of the play session, at time `now_ms` (see `cleared`).
    pub fn clear_session_data(&mut self, now_ms: u64)
        ensures
            final(self)@ == cleared(old(self)@, now_ms),
    {
        self.track = NowPlayingTrackData::new();
        self.palette_colors = Vec::new();
        self.artwork_bytes = None;
        self.artwork_mime_type = None;
        self.artwork_generation = self.artwork_generation.saturating_add(1);
        self.progress_rtp = None;
        self.updated_at_ms = Some(now_ms);
    }

    /// The playback progress in RTP frames (44100 per second): elapsed since the
    /// start and the whole length, each a wrapping difference of timestamps.
    pub fn progress_frames(&self) -> (r: Option<(u64, u64)>)
        ensures
            r == (match self.progress_rtp {
                Some((start, current, end)) => Some((wrapping_diff(current, start), wrapping_diff(end, start))),
                None => None,
            }),
    {
        match self.progress_rtp {
            Some((start, current, end)) => Some((wrapping_sub_u64(current, start), wrapping_sub_u64(end, start))),
            None => None,
        }
    }

    /// Applies one metadata item received at `now_ms` (see `apply_spec`). `colors`
    /// is the palette extracted from an artwork payload, `volume_db_bits` the volume
    /// read from a volume payload. Returns the palette the visualizer is to take.
    pub fn apply_metadata_item(
        &mut self,
        item: MetadataItem,
        payload: Vec<u8>,
        now_ms: u64,
        colors: Vec<[u8; 3]>,
        volume_db_bits: Option<u32>,
    ) -> (r: Option<Vec<[u8; 3]>>)
        ensures
            (final(self)@, opt_colors(r)) == apply_spec(
                old(self)@,
                item,
                payload@,
                now_ms,
                colors@,
                volume_db_bits,
            ),
    {
        let text = payload_bytes_to_string(&payload);
        self.reader_running = true;
        self.last_error = None;
        self.updated_at_ms = Some(now_ms);
        match item {
            MetadataItem::Title => {
                self.track.title = text;
            },
            MetadataItem::Artist => {
                self.track.artist = text;
            },
            MetadataItem::Album => {
                self.track.album = text;
            },
            MetadataItem::Genre => {
                self.track.genre = text;
            },
            MetadataItem::Composer => {
                self.track.composer = text;
            },
            MetadataItem::StreamUrl => {
                self.track.stream_url = text;
            },
            MetadataItem::DurationMs => {
                self.track.duration_ms = dmap_payload_u64(&payload);
            },
            MetadataItem::SongDataKind => {
                self.track.song_data_kind = dmap_payload_u32(&payload);
            },
            MetadataItem::SourceName => {
                self.track.source_name = text;
            },
            MetadataItem::UserAgent => {
                self.track.user_agent = text;
            },
            MetadataItem::SourceIp => {
                self.track.source_ip = text;
            },
            MetadataItem::Artwork => {
                if payload.len() > 0 {
                    let mime = detect_image_mime_type(&payload);
                    self.artwork_mime_type = match mime {
                        Some(m) => Some(String::from_str(m)),
                        None => None,
                    };
                    self.artwork_generation = self.artwork_generation.saturating_add(1);
                    let apply = self.drive_visualizer_palette && colors.len() > 0;
                    let result = if apply {
                        Some(copy_colors(&colors))
                    } else {
                        None
                    };
                    self.palette_colors = colors;
                    self.artwork_bytes = Some(payload);
                    return result;
                }
            },
            MetadataItem::PlaybackBegin => {
                self.clear_session_data(now_ms);
                self.playback_state = PlaybackState::Playing;
            },
            MetadataItem::PlaybackResume => {
                self.playback_state = PlaybackState::Playing;
            },
            MetadataItem::PlaybackPause => {
                self.playback_state = PlaybackState::Paused;
            },
            MetadataItem::PlaybackEnd => {
                self.playback_state = PlaybackState::Stopped;
                self.clear_session_data(now_ms);
            },
            MetadataItem::Progress => {
                self.progress_rtp = parse_prgr(&payload);
            },
            MetadataItem::Volume => {
                self.volume_db_bits = volume_db_bits;
            },
            MetadataItem::Other => {},
        }
        None
    }
}

/// A copy of a colour list.
pub fn copy_colors(colors: &[[u8; 3]]) -> (r: Vec<[u8; 3]>)
    ensures
        r@ == colors@,
{
    let mut r: Vec<[u8; 3]> = Vec::new();
    let mut i: usize = 0;
    while i < colors.len()
        invariant
            i <= colors.len(),
            r@ == colors@.subrange(0, i as int),
        decreases colors.len() - i,
    {
        r.push(colors[i]);
        assert(colors@.subrange(0, i + 1) =~= colors@.subrange(0, i as int).push(colors@[i as int]));
        i = i + 1;
    }
    assert(colors@.subrange(0, colors.len() as int) =~= colors@);
    r
}


/// Over any metadata item: the artwork generation never goes back; the
/// setting that the art drives the palette, and the pipe, stay as they were;
/// and a palette is handed to the visualizer only while the art drives it,
/// never an empty one, and always the palette that is kept.
pub proof fn lemma_metadata_item_laws(
    v: NowPlayingView,
    item: MetadataItem,
    payload: Seq<u8>,
    now: u64,
    colors: Seq<[u8; 3]>,
    volume: Option<u32>,
)
    ensures
        ({
            let (next, handed) = apply_spec(v, item, payload, now, colors, volume);
            &&& next.artwork_generation >= v.artwork_generation
            &&& next.drive_visualizer_palette == v.drive_visualizer_palette
            &&& next.metadata_pipe_path == v.metadata_pipe_path
            &&& (handed matches Some(c) ==> v.drive_visualizer_palette && c.len() > 0
                && c == next.palette_colors)
        }),
{
}

/// The playback state follows the receiver's playback items whatever it was
/// before: playing after a begin or a resume, paused after a pause, stopped
/// after an end; every other item leaves it as it was.
pub proof fn lemma_playback_state_follows_items(
    v: NowPlayingView,
    item: MetadataItem,
    payload: Seq<u8>,
    now: u64,
    colors: Seq<[u8; 3]>,
    volume: Option<u32>,
)
    ensures
        ({
            let next = apply_spec(v, item, payload, now, colors, volume).0;
            &&& (item == MetadataItem::PlaybackBegin || item == MetadataItem::PlaybackResume)
                ==> next.playback_state == PlaybackState::Playing
            &&& item == MetadataItem::PlaybackPause ==> next.playback_state == PlaybackState::Paused
            &&& item == MetadataItem::PlaybackEnd ==> next.playback_state == PlaybackState::Stopped
            &&& !(item == MetadataItem::PlaybackBegin || item == MetadataItem::PlaybackResume
                || item == MetadataItem::PlaybackPause || item == MetadataItem::PlaybackEnd)
                ==> next.playback_state == v.playback_state
        }),
{
}

/// The resume codes of the receiver (`prsm`, `pres`) are resume items, so after
/// either the receiver is playing, whatever it was doing before.
pub proof fn lemma_resume_codes_play(
    v: NowPlayingView,
    code: Seq<char>,
    payload: Seq<u8>,
    now: u64,
    colors: Seq<[u8; 3]>,
    volume: Option<u32>,
)
    requires
        code == "prsm"@ || code == "pres"@,
    ensures
        metadata_item_spec("ssnc"@, code) == MetadataItem::PlaybackResume,
        apply_spec(v, metadata_item_spec("ssnc"@, code), payload, now, colors, volume).0.playback_state
            == PlaybackState::Playing,
{
    reveal_strlit("ssnc");
    reveal_strlit("core");
    reveal_strlit("prsm");
    reveal_strlit("pres");
    reveal_strlit("snam");
    reveal_strlit("snua");
    reveal_strlit("clip");
    reveal_strlit("conn");
    reveal_strlit("PICT");
    reveal_strlit("pbeg");
    assert("ssnc"@[0] != "core"@[0]);
    assert(code[0] == 'p' && code[1] == 'r');
    assert(code != "snam"@ && code != "snua"@ && code != "clip"@ && code != "conn"@ && code != "PICT"@
        && code != "pbeg"@);
}

/// A text item of the track sets its own field to the payload's text and leaves
/// the other fields of the track, and the playback, artwork and palette, as they
/// were.
pub proof fn lemma_track_text_items(
    v: NowPlayingView,
    payload: Seq<u8>,
    now: u64,
    colors: Seq<[u8; 3]>,
    volume: Option<u32>,
)
    ensures
        ({
            let step = |item: MetadataItem| apply_spec(v, item, payload, now, colors, volume).0;
            let text = payload_text(payload);
            let t = v.track;
            &&& step(MetadataItem::Title).track == TrackView { title: text, ..t }
            &&& step(MetadataItem::Artist).track == TrackView { artist: text, ..t }
            &&& step(MetadataItem::Album).track == TrackView { album: text, ..t }
            &&& step(MetadataItem::Genre).track == TrackView { genre: text, ..t }
            &&& step(MetadataItem::Composer).track == TrackView { composer: text, ..t }
            &&& step(MetadataItem::StreamUrl).track == TrackView { stream_url: text, ..t }
            &&& step(MetadataItem::SourceName).track == TrackView { source_name: text, ..t }
            &&& step(MetadataItem::UserAgent).track == TrackView { user_agent: text, ..t }
            &&& step(MetadataItem::SourceIp).track == TrackView { source_ip: text, ..t }
            &&& step(MetadataItem::Title).playback_state == v.playback_state
            &&& step(MetadataItem::Title).palette_colors == v.palette_colors
            &&& step(MetadataItem::Title).artwork_bytes == v.artwork_bytes
        }),
{
}

/// An artwork item with a payload keeps the payload as the artwork, takes the
/// colours given for it as the palette, and counts a new artwork; an empty one
/// changes neither artwork nor palette.
pub proof fn lemma_artwork_item(v: NowPlayingView, payload: Seq<u8>, now: u64, colors: Seq<[u8; 3]>, volume: Option<u32>)
    ensures
        ({
            let next = apply_spec(v, MetadataItem::Artwork, payload, now, colors, volume).0;
            &&& payload.len() > 0 ==> next.artwork_bytes == Some(payload) && next.palette_colors == colors
                && (v.artwork_generation < u64::MAX ==> next.artwork_generation == v.artwork_generation + 1)
            &&& payload.len() == 0 ==> next.artwork_bytes == v.artwork_bytes && next.palette_colors
                == v.palette_colors && next.artwork_generation == v.artwork_generation
        }),
{
}

} // verus!
