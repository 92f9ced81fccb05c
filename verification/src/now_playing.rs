//! Decisions of the "now playing" reader: the track title and album art that a
//! media player reports, and the colours kept from the art.
use vstd::prelude::*;
use crate::metadata::{lossy_chars, opt_view, utf8_lossy};
use crate::text::{chars_of, has_prefix, slice_chars, starts_with, string_from, trim, trim_chars};

verus! {

/// What a media player printed, as text: invalid UTF-8 replaced, surrounding
/// white space removed; nothing when the query failed or printed only blanks.
pub open spec fn player_text(success: bool, output: Seq<u8>) -> Option<Seq<char>> {
    let t = trim(utf8_lossy(output));
    if success && t.len() > 0 {
        Some(t)
    } else {
        None
    }
}

fn player_output_text(success: bool, output: &[u8]) -> (r: Option<Vec<char>>)
    ensures
        match r {
            Some(v) => player_text(success, output@) == Some(v@),
            None => player_text(success, output@) is None,
        },
{
    if !success {
        return None;
    }
    let text = lossy_chars(output);
    let cs = chars_of(text.as_str());
    let t = trim_chars(&cs, false);
    if t.len() == 0 {
        None
    } else {
        Some(t)
    }
}

/// The title of the playing track, from the output of the media player's title
/// query and whether that query succeeded.
pub fn get_track_title(success: bool, stdout: &[u8]) -> (r: Option<String>)
    ensures
        opt_view(r) == player_text(success, stdout@),
{
    match player_output_text(success, stdout) {
        Some(t) => Some(string_from(&t)),
        None => None,
    }
}

/// Where the album art of the playing track is to be read from.
#[derive(Debug)]
pub enum ArtworkLocation {
    /// A path on this machine (a `file://` URL without its scheme).
    File(String),
    /// A URL to download.
    Url(String),
}

/// `s` without any number of leading copies of `p` (`str::trim_start_matches`).
pub open spec fn strip_all(s: Seq<char>, p: Seq<char>) -> Seq<char>
    decreases s.len(),
{
    if p.len() > 0 && starts_with(s, p) {
        strip_all(s.subrange(p.len() as int, s.len() as int), p)
    } else {
        s
    }
}

/// The album-art location that a media player reports: `(true, path)` for a
/// `file://` URL, `(false, url)` for any other.
pub open spec fn artwork_location_spec(success: bool, output: Seq<u8>) -> Option<(bool, Seq<char>)> {
    match player_text(success, output) {
        None => None,
        Some(url) => if starts_with(url, "file://"@) {
            Some((true, strip_all(url, "file://"@)))
        } else {
            Some((false, url))
        },
    }
}

/// The view of an optional artwork location.
pub open spec fn location_view(l: Option<ArtworkLocation>) -> Option<(bool, Seq<char>)> {
    match l {
        Some(ArtworkLocation::File(p)) => Some((true, p@)),
        Some(ArtworkLocation::Url(u)) => Some((false, u@)),
        None => None,
    }
}

fn strip_all_prefix(s: &[char], p: &[char]) -> (r: Vec<char>)
    requires
        p@.len() > 0,
    ensures
        r@ == strip_all(s@, p@),
{
    let mut cur = slice_chars(s, 0, s.len());
    assert(cur@ =~= s@);
    while has_prefix(&cur, p)
        invariant
            p@.len() > 0,
            strip_all(s@, p@) == strip_all(cur@, p@),
        decreases cur.len(),
    {
        cur = slice_chars(&cur, p.len(), cur.len());
    }
    cur
}

/// Where to read the album art from, given the output of the media player's
/// art-URL query and whether that query succeeded.
pub fn artwork_location(success: bool, stdout: &[u8]) -> (r: Option<ArtworkLocation>)
    ensures
        location_view(r) == artwork_location_spec(success, stdout@),
{
    let url = match player_output_text(success, stdout) {
        Some(u) => u,
        None => return None,
    };
    let scheme = chars_of("file://");
    proof {
        reveal_strlit("file://");
    }
    if has_prefix(&url, &scheme) {
        let path = strip_all_prefix(&url, &scheme);
        Some(ArtworkLocation::File(string_from(&path)))
    } else {
        Some(ArtworkLocation::Url(string_from(&url)))
    }
}

/// The album art together with its colours, fetched once so that both belong
/// to the same track: only when both the art and its colours were had.
pub fn fetch_artwork_and_palette(
    artwork: Option<Vec<u8>>,
    palette: Option<Vec<[u8; 3]>>,
) -> (r: Option<(Vec<u8>, Vec<[u8; 3]>)>)
    ensures
        r is Some <==> (artwork is Some && palette is Some),
        r matches Some((bytes, colors)) ==> bytes@ == artwork->0@ && colors@ == palette->0@,
{
    match (artwork, palette) {
        (Some(bytes), Some(colors)) => Some((bytes, colors)),
        _ => None,
    }
}

/// How many colours are kept from an image at most.
pub const MAX_PROMINENT_COLORS: usize = 4;

/// The swatches that are bright enough, in order.
pub open spec fn bright_swatches(swatches: Seq<[u8; 3]>, bright: Seq<bool>) -> Seq<[u8; 3]>
    decreases swatches.len(),
{
    if swatches.len() == 0 {
        seq![]
    } else {
        let rest = bright_swatches(swatches.drop_last(), bright.drop_last());
        if bright[swatches.len() - 1] {
            rest.push(swatches.last())
        } else {
            rest
        }
    }
}

/// The first `n` items of `s`, or all of them when there are fewer.
pub open spec fn at_most<T>(s: Seq<T>, n: nat) -> Seq<T> {
    if s.len() <= n {
        s
    } else {
        s.take(n as int)
    }
}

/// The colours kept from an image's swatches: the first four bright enough ones,
/// nothing when none is.
pub open spec fn prominent_spec(swatches: Seq<[u8; 3]>, bright: Seq<bool>) -> Option<Seq<[u8; 3]>> {
    let kept = at_most(bright_swatches(swatches, bright), MAX_PROMINENT_COLORS as nat);
    if kept.len() == 0 {
        None
    } else {
        Some(kept)
    }
}

/// Chooses the prominent colours of an image from its palette swatches (in the
/// order the palette gives them) and, for each, whether it is bright enough.
pub fn prominent_colors(swatches: &[[u8; 3]], bright: &[bool]) -> (r: Option<Vec<[u8; 3]>>)
    requires
        swatches.len() == bright.len(),
    ensures
        match r {
            Some(v) => prominent_spec(swatches@, bright@) == Some(v@),
            None => prominent_spec(swatches@, bright@) is None,
        },
{
    let n = swatches.len();
    let mut out: Vec<[u8; 3]> = Vec::new();
    let mut i: usize = 0;
    while i < n
        invariant
            n == swatches@.len(),
            n == bright@.len(),
            i <= n,
            out@ == at_most(
                bright_swatches(swatches@.take(i as int), bright@.take(i as int)),
                MAX_PROMINENT_COLORS as nat,
            ),
        decreases n - i,
    {
        let ghost before = bright_swatches(swatches@.take(i as int), bright@.take(i as int));
        proof {
            let s1 = swatches@.take(i + 1);
            let b1 = bright@.take(i + 1);
            assert(s1.drop_last() =~= swatches@.take(i as int));
            assert(b1.drop_last() =~= bright@.take(i as int));
            assert(b1[i as int] == bright@[i as int]);
            assert(s1.last() == swatches@[i as int]);
        }
        if bright[i] {
            if out.len() < MAX_PROMINENT_COLORS {
                out.push(swatches[i]);
            } else {
                proof {
                    assert(before.push(swatches@[i as int]).take(MAX_PROMINENT_COLORS as int)
                        =~= before.take(MAX_PROMINENT_COLORS as int));
                }
            }
        }
        i = i + 1;
    }
    assert(swatches@.take(n as int) =~= swatches@);
    assert(bright@.take(n as int) =~= bright@);
    if out.len() == 0 {
        None
    } else {
        Some(out)
    }
}


/// Whether `color` is one of the swatches marked bright.
pub open spec fn bright_swatch(swatches: Seq<[u8; 3]>, bright: Seq<bool>, color: [u8; 3]) -> bool {
    exists|i: int| 0 <= i < swatches.len() && bright[i] && swatches[i] == color
}

/// Every colour among the bright swatches is a swatch marked bright.
proof fn lemma_bright_swatches_from(swatches: Seq<[u8; 3]>, bright: Seq<bool>)
    requires
        swatches.len() == bright.len(),
    ensures
        forall|k: int|
            0 <= k < bright_swatches(swatches, bright).len() ==> bright_swatch(
                swatches,
                bright,
                #[trigger] bright_swatches(swatches, bright)[k],
            ),
    decreases swatches.len(),
{
    if swatches.len() > 0 {
        let s0 = swatches.drop_last();
        let b0 = bright.drop_last();
        lemma_bright_swatches_from(s0, b0);
        let rest = bright_swatches(s0, b0);
        let all = bright_swatches(swatches, bright);
        assert forall|k: int| 0 <= k < all.len() implies bright_swatch(swatches, bright, #[trigger] all[k]) by {
            if k < rest.len() {
                assert(all[k] == rest[k]);
                assert(bright_swatch(s0, b0, rest[k]));
                let i = choose|i: int| 0 <= i < s0.len() && b0[i] && s0[i] == rest[k];
                assert(swatches[i] == s0[i] && bright[i] == b0[i]);
            } else {
                let i = swatches.len() - 1;
                assert(bright[i] && swatches[i] == all[k]);
            }
        }
    }
}

/// At most four colours are kept from an image, each a swatch marked bright
/// enough.
pub proof fn lemma_prominent_colors_bright(swatches: Seq<[u8; 3]>, bright: Seq<bool>)
    requires
        swatches.len() == bright.len(),
    ensures
        prominent_spec(swatches, bright) matches Some(c) ==> {
            &&& 0 < c.len() <= MAX_PROMINENT_COLORS
            &&& forall|k: int| 0 <= k < c.len() ==> bright_swatch(swatches, bright, #[trigger] c[k])
        },
{
    lemma_bright_swatches_from(swatches, bright);
    let all = bright_swatches(swatches, bright);
    let kept = at_most(all, MAX_PROMINENT_COLORS as nat);
    assert forall|k: int| 0 <= k < kept.len() implies bright_swatch(swatches, bright, #[trigger] kept[k]) by {
        assert(kept[k] == all[k]);
    }
}

} // verus!
