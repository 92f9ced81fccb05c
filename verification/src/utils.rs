//! Small helpers of the visualizer: protocol bytes, colour spreading and the
//! interactive device choice.
use vstd::prelude::*;
use crate::text::{chars_is, chars_of, decimal_literal, parse_usize, trim, trim_chars};

verus! {

/// Splits a 16-bit value into its high and low bytes, as the Nanoleaf UDP
/// protocol sends them.
pub fn split_into_bytes(x: u16) -> (r: (u8, u8))
    ensures
        r.0 == x / 256,
        r.1 == x % 256,
        r.0 * 256 + r.1 == x,
{
    ((x / 256) as u8, (x % 256) as u8)
}

/// The colour that panel `i` of `n` gets when `len` colours are spread evenly
/// over the panels.
pub open spec fn spread_index(i: int, len: int, n: int) -> int {
    i * len / n
}

proof fn lemma_spread_index_bounds(i: int, len: int, n: int)
    requires
        0 <= i < n,
        0 < len,
    ensures
        0 <= spread_index(i, len, n) < len,
{
    assert(0 <= i * len) by (nonlinear_arith)
        requires
            0 <= i,
            0 < len,
    ;
    assert(i * len < n * len) by (nonlinear_arith)
        requires
            0 <= i < n,
            0 < len,
    ;
    assert(i * len / n < len) by (nonlinear_arith)
        requires
            0 <= i * len < n * len,
            0 < n,
    ;
    assert(0 <= i * len / n) by (nonlinear_arith)
        requires
            0 <= i * len,
            0 < n,
    ;
}

/// The base colour of each of `n` panels: the colours spread evenly over the
/// panels, in order, so that with 4 colours and 12 panels each colour covers 3.
pub fn spread_colors(rgb_colors: &[[u8; 3]], n: usize) -> (r: Vec<[u8; 3]>)
    requires
        n > 0 ==> rgb_colors.len() > 0,
        n == 0 || (n - 1) * rgb_colors.len() <= usize::MAX,
    ensures
        r.len() == n,
        forall|i: int|
            0 <= i < n ==> r@[i] == rgb_colors@[spread_index(i, rgb_colors.len() as int, n as int)],
{
    let len = rgb_colors.len();
    let mut out: Vec<[u8; 3]> = Vec::new();
    let mut i: usize = 0;
    while i < n
        invariant
            i <= n,
            len == rgb_colors@.len(),
            n > 0 ==> len > 0,
            n == 0 || (n - 1) * len <= usize::MAX,
            out@.len() == i,
            forall|k: int| 0 <= k < i ==> out@[k] == rgb_colors@[spread_index(k, len as int, n as int)],
        decreases n - i,
    {
        assert(i * len <= (n - 1) * len) by (nonlinear_arith)
            requires
                i < n,
                0 <= len,
        ;
        let idx = i * len / n;
        proof {
            lemma_spread_index_bounds(i as int, len as int, n as int);
        }
        out.push(rgb_colors[idx]);
        i = i + 1;
    }
    out
}

/// What the user chose from the numbered list of discovered devices.
#[derive(Debug, Clone, Copy, PartialEq, Eq, Structural)]
pub enum Choice {
    /// The device at this position of the list (counting from 0).
    Automatic(usize),
    /// Enter the IP address by hand.
    Manual,
    /// Give up.
    Quit,
}

/// What a line typed at the device prompt means, with `n` devices listed:
/// a number from 1 to `n` picks that device, `M` asks for manual entry, `Q`
/// quits; anything else asks again (`None`).
pub open spec fn choice_spec(input: Seq<char>, n: usize) -> Option<Choice> {
    let t = trim(input);
    match decimal_literal(t) {
        Some(x) if 1 <= x <= n => Some(Choice::Automatic((x - 1) as usize)),
        _ => if t == "M"@ {
            Some(Choice::Manual)
        } else if t == "Q"@ {
            Some(Choice::Quit)
        } else {
            None
        },
    }
}

/// Reads one answer at the device prompt (see `choice_spec`).
pub fn interpret_choice(input: &str, n: usize) -> (r: Option<Choice>)
    ensures
        r == choice_spec(input@, n),
{
    let cs = chars_of(input);
    let t = trim_chars(&cs, false);
    if let Some(x) = parse_usize(&t) {
        if x >= 1 && x <= n {
            return Some(Choice::Automatic(x - 1));
        }
    }
    if chars_is(&t, "M") {
        Some(Choice::Manual)
    } else if chars_is(&t, "Q") {
        Some(Choice::Quit)
    } else {
        None
    }
}


/// A pick from the list always names a listed device: the position it gives
/// is below the number of devices.
pub proof fn lemma_choice_within_list(input: Seq<char>, n: usize)
    ensures
        choice_spec(input, n) matches Some(Choice::Automatic(i)) ==> i < n,
{
}

/// Spreading keeps the palette's order: a later panel never gets an earlier
/// colour, the first panel gets the first colour, and every index is a colour
/// of the palette.
pub proof fn lemma_spread_in_order(i: int, j: int, len: int, n: int)
    requires
        0 <= i <= j < n,
        0 < len,
    ensures
        spread_index(i, len, n) <= spread_index(j, len, n),
        spread_index(0, len, n) == 0,
        0 <= spread_index(j, len, n) < len,
{
    assert(i * len <= j * len) by (nonlinear_arith)
        requires
            0 <= i <= j,
            0 < len,
    ;
    assert(i * len / n <= j * len / n) by (nonlinear_arith)
        requires
            i * len <= j * len,
            0 < n,
    ;
    assert(0 * len / n == 0) by (nonlinear_arith)
        requires
            0 < n,
    ;
    lemma_spread_index_bounds(j, len, n);
}

/// With as many panels as colours, each panel gets its own colour.
pub proof fn lemma_spread_one_colour_each(i: int, n: int)
    requires
        0 <= i < n,
    ensures
        spread_index(i, n, n) == i,
{
    assert(i * n / n == i) by (nonlinear_arith)
        requires
            0 <= i < n,
    ;
}

} // verus!
