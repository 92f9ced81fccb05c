//! Choosing the audio input device that a configured backend name stands for:
//! the names under which input devices are offered, how a selector is read,
//! and which capture profile a loopback device is opened with.
use vstd::prelude::*;
use crate::ssdp::opt_chars;
use crate::text::{
    chars_eq, chars_is, chars_of, contains, contains_chars, decimal_chars, decimal_literal, digit_char,
    ends_with, eq_ignore_case, fields, first_match, first_word, first_word_of, find, has_suffix,
    is_digit, last_match, lemma_fields_nonempty, lemma_fields_step,
    lemma_first_match_found, lemma_first_match_none, lemma_first_match_some, lemma_last_match_found,
    lemma_last_match_none, lower, occurs_at, parse_usize, rfind, slice_chars, split_once,
    split_once_spec, string_from, to_lower, to_upper, trim, trim_chars, trim_start_by, trim_start_ws,
    upper, usize_to_chars, chars_eq_ignore_case,
};

verus! {

/// The view of an optional string slice.
pub open spec fn opt_str_view(o: Option<&str>) -> Option<Seq<char>> {
    match o {
        Some(s) => Some(s@),
        None => None,
    }
}

/// A name as given, trimmed; nothing where it is missing or blank.
pub open spec fn present_name(o: Option<Seq<char>>) -> Option<Seq<char>> {
    match o {
        Some(s) => if trim(s).len() > 0 {
            Some(trim(s))
        } else {
            None
        },
        None => None,
    }
}

/// The backend name and the friendly name of a device, from its backend id and
/// its description: each falls back on the other, and a device with neither is
/// not offered.
pub open spec fn device_names_spec(id: Option<Seq<char>>, description: Option<Seq<char>>) -> Option<(Seq<char>, Seq<char>)> {
    match (present_name(id), present_name(description)) {
        (Some(b), Some(f)) => Some((b, f)),
        (Some(b), None) => Some((b, b)),
        (None, Some(f)) => Some((f, f)),
        (None, None) => None,
    }
}

fn present(o: Option<&str>) -> (r: Option<Vec<char>>)
    ensures
        opt_chars(r) == present_name(opt_str_view(o)),
{
    match o {
        Some(s) => {
            let cs = chars_of(s);
            let t = trim_chars(&cs, false);
            if t.len() > 0 {
                Some(t)
            } else {
                None
            }
        },
        None => None,
    }
}

/// The backend and friendly names of an input device (see `device_names_spec`).
pub fn device_names(id: Option<&str>, description: Option<&str>) -> (r: Option<(String, String)>)
    ensures
        match r {
            Some((b, f)) => device_names_spec(opt_str_view(id), opt_str_view(description)) == Some((b@, f@)),
            None => device_names_spec(opt_str_view(id), opt_str_view(description)) is None,
        },
{
    match (present(id), present(description)) {
        (Some(b), Some(f)) => Some((string_from(&b), string_from(&f))),
        (Some(b), None) => Some((string_from(&b), string_from(&b))),
        (None, Some(f)) => Some((string_from(&f), string_from(&f))),
        (None, None) => None,
    }
}

/// The names under which an input device is offered and can be selected.
#[derive(Debug)]
pub struct InputDeviceNames {
    pub backend_name: String,
    pub friendly_name: String,
    /// The friendly name, numbered (`Name [#2]`) where several devices share it.
    pub legacy_display_name: String,
}

/// How often `n` occurs in `names`.
pub open spec fn occurrences(names: Seq<Seq<char>>, n: Seq<char>) -> nat
    decreases names.len(),
{
    if names.len() == 0 {
        0
    } else {
        occurrences(names.drop_last(), n) + if names.last() == n {
            1nat
        } else {
            0nat
        }
    }
}

/// The marker that opens a duplicate number.
pub open spec fn number_marker() -> Seq<char> {
    seq![' ', '[', '#']
}

/// The display name of device `i` among devices with these friendly names: its
/// friendly name, followed by ` [#k]` where other devices share the name and it
/// is the k-th of them.
pub open spec fn numbered_name(friendly: Seq<Seq<char>>, i: int) -> Seq<char> {
    let f = friendly[i];
    if occurrences(friendly, f) > 1 {
        f + number_marker() + decimal_chars(occurrences(friendly.take(i + 1), f)) + seq![']']
    } else {
        f
    }
}

/// The friendly names of a list of (backend, friendly) name pairs.
pub open spec fn friendly_names(names: Seq<(String, String)>) -> Seq<Seq<char>> {
    names.map_values(|p: (String, String)| p.1@)
}

/// Counts by name, held in a `hashbrown::HashMap<String, usize>`. The map is
/// kept in a field hidden from Verus: its type's allocator parameter is bound by
/// a trait that `hashbrown` does not make public, so the type itself cannot be
/// declared.
#[verifier::external_body]
pub struct NameCounts {
    counts: hashbrown::HashMap<String, usize>,
}

/// The count a `NameCounts` holds for each name.
pub uninterp spec fn name_counts(c: NameCounts) -> Map<Seq<char>, usize>;

/// `hashbrown::HashMap::new`: no counts.
#[verifier::external_body]
fn counts_new() -> (r: NameCounts)
    ensures
        name_counts(r).dom() == Set::<Seq<char>>::empty(),
{
    NameCounts { counts: hashbrown::HashMap::new() }
}

/// `hashbrown::HashMap::get`: the count held for `name`, if any.
#[verifier::external_body]
fn count_of(c: &NameCounts, name: &str) -> (r: Option<usize>)
    ensures
        r == (if name_counts(*c).contains_key(name@) {
            Some(name_counts(*c)[name@])
        } else {
            None
        }),
{
    c.counts.get(name).copied()
}

/// `hashbrown::HashMap::insert`: `name` now counts `value`, the other names as before.
#[verifier::external_body]
fn set_count(c: &mut NameCounts, name: &str, value: usize)
    ensures
        name_counts(*final(c)) == name_counts(*old(c)).insert(name@, value),
{
    c.counts.insert(name.to_string(), value);
}

/// The count that follows the one held for `name`: one more, or one where none
/// is held.
fn count_one_more(c: &mut NameCounts, name: &str)
    requires
        name_counts(*old(c)).contains_key(name@) ==> name_counts(*old(c))[name@] < usize::MAX,
    ensures
        name_counts(*final(c)) == name_counts(*old(c)).insert(
            name@,
            if name_counts(*old(c)).contains_key(name@) {
                (name_counts(*old(c))[name@] + 1) as usize
            } else {
                1usize
            },
        ),
{
    let next = match count_of(c, name) {
        Some(k) => k + 1,
        None => 1,
    };
    set_count(c, name, next);
}

/// One step of `occurrences` over a prefix.
proof fn lemma_occurrences_step(fr: Seq<Seq<char>>, j: int, s: Seq<char>)
    requires
        0 <= j < fr.len(),
    ensures
        occurrences(fr.take(j + 1), s) == occurrences(fr.take(j), s) + if fr[j] == s {
            1nat
        } else {
            0nat
        },
{
    assert(fr.take(j + 1).drop_last() =~= fr.take(j));
}

/// A name occurs in a prefix no more often than in the whole.
proof fn lemma_occurrences_prefix(fr: Seq<Seq<char>>, j: int, s: Seq<char>)
    requires
        0 <= j <= fr.len(),
    ensures
        occurrences(fr.take(j), s) <= occurrences(fr, s),
        occurrences(fr.take(j), s) <= j,
    decreases fr.len() - j,
{
    lemma_occurrences_bounded(fr.take(j), s);
    if j < fr.len() {
        lemma_occurrences_step(fr, j, s);
        lemma_occurrences_prefix(fr, j + 1, s);
    } else {
        assert(fr.take(j) =~= fr);
    }
}

/// A name occurs no more often than there are names.
proof fn lemma_occurrences_bounded(fr: Seq<Seq<char>>, s: Seq<char>)
    ensures
        occurrences(fr, s) <= fr.len(),
    decreases fr.len(),
{
    if fr.len() > 0 {
        lemma_occurrences_bounded(fr.drop_last(), s);
    }
}

/// Appends the characters of `s` to `v`.
fn push_all(v: &mut Vec<char>, s: &[char])
    ensures
        final(v)@ == old(v)@ + s@,
{
    let mut t = slice_chars(s, 0, s.len());
    assert(t@ =~= s@);
    v.append(&mut t);
}

/// Names each device for display (see `numbered_name`), keeping its backend
/// and friendly names.
pub fn label_devices(names: &Vec<(String, String)>) -> (r: Vec<InputDeviceNames>)
    ensures
        r.len() == names.len(),
        forall|i: int|
            0 <= i < names.len() ==> {
                &&& (#[trigger] r@[i]).backend_name@ == names@[i].0@
                &&& r@[i].friendly_name@ == names@[i].1@
                &&& r@[i].legacy_display_name@ == numbered_name(friendly_names(names@), i)
            },
{
    let ghost fr = friendly_names(names@);
    let n = names.len();
    let mut counts = counts_new();
    let mut j: usize = 0;
    while j < n
        invariant
            j <= n,
            n == names.len(),
            fr == friendly_names(names@),
            forall|s: Seq<char>|
                #![trigger name_counts(counts).contains_key(s)]
                name_counts(counts).contains_key(s) == (occurrences(fr.take(j as int), s) > 0),
            forall|s: Seq<char>|
                #![trigger name_counts(counts)[s]]
                name_counts(counts).contains_key(s) ==> name_counts(counts)[s] == occurrences(
                    fr.take(j as int),
                    s,
                ),
        decreases n - j,
    {
        let f = names[j].1.as_str();
        assert(fr[j as int] == f@);
        proof {
            assert forall|s: Seq<char>| true implies occurrences(fr.take(j + 1), s) == occurrences(
                fr.take(j as int),
                s,
            ) + if fr[j as int] == s {
                1nat
            } else {
                0nat
            } by {
                lemma_occurrences_step(fr, j as int, s);
            }
            lemma_occurrences_prefix(fr, j as int, f@);
        }
        count_one_more(&mut counts, f);
        j = j + 1;
    }
    assert(fr.take(n as int) =~= fr);
    let mut seen = counts_new();
    let mut out: Vec<InputDeviceNames> = Vec::new();
    let mut i: usize = 0;
    while i < n
        invariant
            i <= n,
            n == names.len(),
            fr == friendly_names(names@),
            forall|s: Seq<char>|
                #![trigger name_counts(counts).contains_key(s)]
                name_counts(counts).contains_key(s) == (occurrences(fr, s) > 0),
            forall|s: Seq<char>|
                #![trigger name_counts(counts)[s]]
                name_counts(counts).contains_key(s) ==> name_counts(counts)[s] == occurrences(fr, s),
            forall|s: Seq<char>|
                #![trigger name_counts(seen)[s]]
                name_counts(seen).contains_key(s) ==> name_counts(seen)[s] == occurrences(
                    fr.take(i as int),
                    s,
                ),
            forall|s: Seq<char>|
                #![trigger name_counts(seen).contains_key(s)]
                name_counts(seen).contains_key(s) ==> occurrences(fr, s) > 1,
            forall|s: Seq<char>|
                #![trigger name_counts(seen).contains_key(s)]
                occurrences(fr.take(i as int), s) > 0 && occurrences(fr, s) > 1 ==> name_counts(
                    seen,
                ).contains_key(s),
            out.len() == i,
            forall|k: int|
                0 <= k < i ==> {
                    &&& (#[trigger] out@[k]).backend_name@ == names@[k].0@
                    &&& out@[k].friendly_name@ == names@[k].1@
                    &&& out@[k].legacy_display_name@ == numbered_name(fr, k)
                },
        decreases n - i,
    {
        let fs = names[i].1.as_str();
        let f = chars_of(fs);
        let b = chars_of(names[i].0.as_str());
        assert(fr[i as int] == f@);
        proof {
            lemma_occurrences_step(fr, i as int, f@);
            lemma_occurrences_prefix(fr, i as int + 1, f@);
            assert forall|s: Seq<char>| true implies occurrences(fr.take(i + 1), s) == occurrences(
                fr.take(i as int),
                s,
            ) + if fr[i as int] == s {
                1nat
            } else {
                0nat
            } by {
                lemma_occurrences_step(fr, i as int, s);
            }
        }
        let total = match count_of(&counts, fs) {
            Some(t) => t,
            None => 1,
        };
        let legacy = if total > 1 {
            proof {
                lemma_occurrences_prefix(fr, i as int, f@);
            }
            count_one_more(&mut seen, fs);
            let k = match count_of(&seen, fs) {
                Some(k) => k,
                None => 1,
            };
            let mut v = slice_chars(&f, 0, f.len());
            assert(v@ =~= f@);
            push_all(&mut v, &[' ', '[', '#']);
            let digits = usize_to_chars(k);
            push_all(&mut v, &digits);
            push_all(&mut v, &[']']);
            proof {
                assert([' ', '[', '#']@ =~= number_marker());
                assert([']']@ =~= seq![']']);
            }
            v
        } else {
            slice_chars(&f, 0, f.len())
        };
        proof {
            if total <= 1 {
                assert(legacy@ =~= f@);
            }
        }
        out.push(
            InputDeviceNames {
                backend_name: string_from(&b),
                friendly_name: string_from(&f),
                legacy_display_name: string_from(&legacy),
            },
        );
        i = i + 1;
    }
    out
}

/// The host names a selector may start with, before a `:`.
pub open spec fn is_host_name(p: Seq<char>) -> bool {
    ||| eq_ignore_case(p, "alsa"@)
    ||| eq_ignore_case(p, "coreaudio"@)
    ||| eq_ignore_case(p, "wasapi"@)
    ||| eq_ignore_case(p, "asio"@)
    ||| eq_ignore_case(p, "jack"@)
    ||| eq_ignore_case(p, "pipewire"@)
    ||| eq_ignore_case(p, "aaudio"@)
    ||| eq_ignore_case(p, "webaudio"@)
    ||| eq_ignore_case(p, "emscripten"@)
    ||| eq_ignore_case(p, "null"@)
}

/// A selector without a leading host name and `:` (then trimmed); unchanged
/// where it has none.
pub open spec fn without_host_prefix(name: Seq<char>) -> Seq<char> {
    match split_once_spec(name, seq![':']) {
        Some((prefix, rest)) => if is_host_name(prefix) {
            trim(rest)
        } else {
            name
        },
        None => name,
    }
}

fn host_name(p: &[char]) -> (r: bool)
    ensures
        r == is_host_name(p@),
{
    let a = chars_eq_ignore_case(p, &chars_of("alsa"));
    let b = chars_eq_ignore_case(p, &chars_of("coreaudio"));
    let c = chars_eq_ignore_case(p, &chars_of("wasapi"));
    let d = chars_eq_ignore_case(p, &chars_of("asio"));
    let e = chars_eq_ignore_case(p, &chars_of("jack"));
    let f = chars_eq_ignore_case(p, &chars_of("pipewire"));
    let g = chars_eq_ignore_case(p, &chars_of("aaudio"));
    let h = chars_eq_ignore_case(p, &chars_of("webaudio"));
    let i = chars_eq_ignore_case(p, &chars_of("emscripten"));
    let j = chars_eq_ignore_case(p, &chars_of("null"));
    a || b || c || d || e || f || g || h || i || j
}

/// Removes a leading host name from a selector (see `without_host_prefix`).
pub fn strip_host_prefix(name: &[char]) -> (r: Vec<char>)
    ensures
        r@ == without_host_prefix(name@),
{
    let colon = [':'];
    assert(colon@ =~= seq![':']);
    match split_once(name, &colon) {
        Some((prefix, rest)) => {
            if host_name(&prefix) {
                trim_chars(&rest, false)
            } else {
                slice_chars(name, 0, name.len())
            }
        },
        None => slice_chars(name, 0, name.len()),
    }
}

/// A name of the form `Base [#k]` with `k` from 1 up (a duplicate's display
/// name): its base and `k`.
pub open spec fn indexed_name(name: Seq<char>) -> Option<(Seq<char>, nat)> {
    if !ends_with(name, seq![']']) {
        None
    } else {
        match last_match(name, number_marker(), name.len() as int) {
            None => None,
            Some(m) => match decimal_literal(name.subrange(m + 3, name.len() - 1)) {
                Some(k) => if k == 0 || k > usize::MAX || m == 0 {
                    None
                } else {
                    Some((name.subrange(0, m), k))
                },
                None => None,
            },
        }
    }
}

/// Reads a duplicate's display name (see `indexed_name`).
pub fn parse_indexed_name(name: &[char]) -> (r: Option<(Vec<char>, usize)>)
    ensures
        match r {
            Some((base, k)) => indexed_name(name@) == Some((base@, k as nat)),
            None => indexed_name(name@) is None,
        },
{
    let close = [']'];
    assert(close@ =~= seq![']']);
    if !has_suffix(name, &close) {
        return None;
    }
    let marker = [' ', '[', '#'];
    assert(marker@ =~= number_marker());
    let m = match rfind(name, &marker) {
        Some(m) => m,
        None => {
            proof {
                lemma_last_match_none(name@, number_marker(), name@.len() as int);
            }
            return None;
        },
    };
    proof {
        lemma_last_match_found(name@, number_marker(), m as int, name@.len() as int);
        assert(occurs_at(name@, number_marker(), m as int));
        assert(name@.subrange(m as int, m + 3)[2] == '#');
        assert(name@.subrange(name@.len() - 1, name@.len() as int)[0] == ']');
        assert(number_marker().len() == 3);
        assert(m + 3 <= name@.len());
        if m + 3 == name@.len() {
            assert(name@[m + 2] == '#');
            assert(name@[name@.len() - 1] == ']');
        }
    }
    assert(m + 3 <= name.len() - 1);
    let index_part = slice_chars(name, m + 3, name.len() - 1);
    let k = match parse_usize(&index_part) {
        Some(k) => k,
        None => return None,
    };
    if k == 0 || m == 0 {
        return None;
    }
    Some((slice_chars(name, 0, m), k))
}

/// Whether `s` is a non-empty run of ASCII digits.
pub open spec fn ascii_digits(s: Seq<char>) -> bool {
    s.len() > 0 && forall|i: int| 0 <= i < s.len() ==> is_digit(#[trigger] s[i])
}

/// Whether `s` is a non-empty run of ASCII digits.
pub fn is_ascii_digits(s: &[char]) -> (r: bool)
    ensures
        r == ascii_digits(s@),
{
    if s.len() == 0 {
        return false;
    }
    let mut i: usize = 0;
    while i < s.len()
        invariant
            i <= s.len(),
            forall|k: int| 0 <= k < i ==> is_digit(#[trigger] s@[k]),
        decreases s.len() - i,
    {
        if !('0' <= s[i] && s[i] <= '9') {
            return false;
        }
        i = i + 1;
    }
    true
}

/// The card, device and optional subdevice of a short ALSA selector
/// `card,dev[,subdev]`, each trimmed; card and device must not be blank, a
/// blank subdevice counts as none.
pub open spec fn short_parts(rem: Seq<char>) -> Option<(Seq<char>, Seq<char>, Option<Seq<char>>)> {
    let ps = fields(rem, seq![',']);
    if ps.len() < 2 {
        None
    } else if trim(ps[0]).len() == 0 || trim(ps[1]).len() == 0 {
        None
    } else {
        Some(
            (
                trim(ps[0]),
                trim(ps[1]),
                if ps.len() > 2 && trim(ps[2]).len() > 0 {
                    Some(trim(ps[2]))
                } else {
                    None
                },
            ),
        )
    }
}

/// The first piece of `s` before a comma, and the rest after it.
fn next_field(s: &[char]) -> (r: (Vec<char>, Option<Vec<char>>))
    ensures
        fields(s@, seq![',']).len() >= 1,
        fields(s@, seq![','])[0] == r.0@,
        match r.1 {
            Some(rest) => fields(s@, seq![',']) == seq![r.0@] + fields(rest@, seq![',']),
            None => fields(s@, seq![',']) == seq![s@],
        },
        r.1 matches Some(rest) ==> rest@.len() < s@.len(),
{
    let comma = [','];
    assert(comma@ =~= seq![',']);
    proof {
        lemma_fields_step(s@, seq![',']);
        lemma_fields_nonempty(s@, seq![',']);
        if first_match(s@, seq![','], 0) is Some {
            lemma_first_match_some(s@, seq![','], 0);
        }
    }
    match split_once(s, &comma) {
        Some((a, b)) => (a, Some(b)),
        None => (slice_chars(s, 0, s.len()), None),
    }
}

/// Reads a short ALSA selector (see `short_parts`).
fn parse_short_alsa_selector_parts(rem: &[char]) -> (r: Option<(Vec<char>, Vec<char>, Option<Vec<char>>)>)
    ensures
        match r {
            Some((c, d, s)) => short_parts(rem@) == Some((c@, d@, opt_chars(s))),
            None => short_parts(rem@) is None,
        },
{
    let ghost ps = fields(rem@, seq![',']);
    let (p0, r1) = next_field(rem);
    let r1 = match r1 {
        Some(r1) => r1,
        None => return None,
    };
    let (p1, r2) = next_field(&r1);
    proof {
        lemma_fields_nonempty(r1@, seq![',']);
        assert(ps[0] == p0@);
        assert(ps[1] == p1@);
    }
    let card = trim_chars(&p0, false);
    let dev = trim_chars(&p1, false);
    if card.len() == 0 || dev.len() == 0 {
        return None;
    }
    let sub = match r2 {
        Some(r2) => {
            let (p2, _) = next_field(&r2);
            proof {
                assert(ps[2] == p2@);
            }
            let t = trim_chars(&p2, false);
            if t.len() > 0 {
                Some(t)
            } else {
                None
            }
        },
        None => {
            proof {
                assert(ps.len() == 2);
            }
            None
        },
    };
    Some((card, dev, sub))
}

/// The parts found so far of a named ALSA selector, after one more
/// comma-separated `KEY=value` token (keys in any case, blank values ignored;
/// a later key replaces an earlier one).
pub open spec fn named_step(
    st: (Option<Seq<char>>, Option<Seq<char>>, Option<Seq<char>>),
    token: Seq<char>,
) -> (Option<Seq<char>>, Option<Seq<char>>, Option<Seq<char>>) {
    match split_once_spec(trim(token), seq!['=']) {
        None => st,
        Some((k, v)) => {
            let key = upper(trim(k));
            let val = trim(v);
            if val.len() == 0 {
                st
            } else if key == "CARD"@ {
                (Some(val), st.1, st.2)
            } else if key == "DEV"@ {
                (st.0, Some(val), st.2)
            } else if key == "SUBDEV"@ {
                (st.0, st.1, Some(val))
            } else {
                st
            }
        },
    }
}

/// The parts after reading all `tokens` in order.
pub open spec fn named_scan(
    st: (Option<Seq<char>>, Option<Seq<char>>, Option<Seq<char>>),
    tokens: Seq<Seq<char>>,
) -> (Option<Seq<char>>, Option<Seq<char>>, Option<Seq<char>>)
    decreases tokens.len(),
{
    if tokens.len() == 0 {
        st
    } else {
        named_scan(named_step(st, tokens[0]), tokens.drop_first())
    }
}

/// The card, device and optional subdevice of a named ALSA selector
/// `CARD=..,DEV=..[,SUBDEV=..]`; card and device are needed.
pub open spec fn named_parts(rem: Seq<char>) -> Option<(Seq<char>, Seq<char>, Option<Seq<char>>)> {
    match named_scan((None, None, None), fields(rem, seq![','])) {
        (Some(c), Some(d), s) => Some((c, d, s)),
        _ => None,
    }
}

/// The parts of an ALSA selector: named where it mentions `CARD=` or `DEV=`,
/// short otherwise.
pub open spec fn alsa_parts(rem: Seq<char>) -> Option<(Seq<char>, Seq<char>, Option<Seq<char>>)> {
    if contains(rem, "CARD="@) || contains(rem, "DEV="@) {
        named_parts(rem)
    } else {
        short_parts(rem)
    }
}

fn read_named_token(
    token: &[char],
    card: Option<Vec<char>>,
    dev: Option<Vec<char>>,
    sub: Option<Vec<char>>,
) -> (r: (Option<Vec<char>>, Option<Vec<char>>, Option<Vec<char>>))
    ensures
        (opt_chars(r.0), opt_chars(r.1), opt_chars(r.2)) == named_step(
            (opt_chars(card), opt_chars(dev), opt_chars(sub)),
            token@,
        ),
{
    let t = trim_chars(token, false);
    let eq = ['='];
    assert(eq@ =~= seq!['=']);
    match split_once(&t, &eq) {
        None => (card, dev, sub),
        Some((k, v)) => {
            let kt = trim_chars(&k, false);
            let key = to_upper(&kt);
            let val = trim_chars(&v, false);
            if val.len() == 0 {
                (card, dev, sub)
            } else if chars_is(&key, "CARD") {
                (Some(val), dev, sub)
            } else if chars_is(&key, "DEV") {
                (card, Some(val), sub)
            } else if chars_is(&key, "SUBDEV") {
                (card, dev, Some(val))
            } else {
                (card, dev, sub)
            }
        },
    }
}

/// Reads a named ALSA selector (see `named_parts`).
fn parse_named_alsa_selector_parts(rem: &[char]) -> (r: Option<(Vec<char>, Vec<char>, Option<Vec<char>>)>)
    ensures
        match r {
            Some((c, d, s)) => named_parts(rem@) == Some((c@, d@, opt_chars(s))),
            None => named_parts(rem@) is None,
        },
{
    let mut rest = slice_chars(rem, 0, rem.len());
    assert(rest@ =~= rem@);
    let mut card: Option<Vec<char>> = None;
    let mut dev: Option<Vec<char>> = None;
    let mut sub: Option<Vec<char>> = None;
    loop
        invariant
            named_scan((None, None, None), fields(rem@, seq![','])) == named_scan(
                (opt_chars(card), opt_chars(dev), opt_chars(sub)),
                fields(rest@, seq![',']),
            ),
        decreases rest.len(),
    {
        let ghost st = (opt_chars(card), opt_chars(dev), opt_chars(sub));
        let (a, b) = next_field(&rest);
        match b {
            Some(b) => {
                proof {
                    let all = fields(rest@, seq![',']);
                    assert(all.drop_first() =~= fields(b@, seq![',']));
                }
                let (c2, d2, s2) = read_named_token(&a, card, dev, sub);
                card = c2;
                dev = d2;
                sub = s2;
                rest = b;
            },
            None => {
                let (c2, d2, s2) = read_named_token(&rest, card, dev, sub);
                proof {
                    let all = fields(rest@, seq![',']);
                    assert(all.drop_first().len() == 0);
                    assert(named_scan(st, all) == named_scan(named_step(st, rest@), all.drop_first()));
                }
                return match (c2, d2) {
                    (Some(c), Some(d)) => Some((c, d, s2)),
                    _ => None,
                };
            },
        }
    }
}

/// Reads an ALSA selector (see `alsa_parts`).
pub fn parse_alsa_selector_parts(rem: &[char]) -> (r: Option<(Vec<char>, Vec<char>, Option<Vec<char>>)>)
    ensures
        match r {
            Some((c, d, s)) => alsa_parts(rem@) == Some((c@, d@, opt_chars(s))),
            None => alsa_parts(rem@) is None,
        },
{
    let card_key = chars_of("CARD=");
    let dev_key = chars_of("DEV=");
    if contains_chars(rem, &card_key) || contains_chars(rem, &dev_key) {
        parse_named_alsa_selector_parts(rem)
    } else {
        parse_short_alsa_selector_parts(rem)
    }
}

/// A line without the carriage return of a `\r\n` ending.
pub open spec fn strip_cr(l: Seq<char>) -> Seq<char> {
    if l.len() > 0 && l.last() == '\r' {
        l.drop_last()
    } else {
        l
    }
}

/// The lines of a text (`str::lines`): split at `\n`, each without the `\r`
/// of a `\r\n` ending; a final line ending starts no further line.
pub open spec fn text_lines(t: Seq<char>) -> Seq<Seq<char>> {
    let p = fields(t, seq!['\n']);
    let body = p.drop_last().map_values(|l: Seq<char>| strip_cr(l));
    if p.last().len() == 0 {
        body
    } else {
        body.push(p.last())
    }
}

proof fn lemma_text_lines_step(t: Seq<char>, a: Seq<char>, b: Seq<char>)
    requires
        split_once_spec(t, seq!['\n']) == Some((a, b)),
    ensures
        text_lines(t) == seq![strip_cr(a)] + text_lines(b),
{
    lemma_fields_step(t, seq!['\n']);
    lemma_fields_nonempty(b, seq!['\n']);
    let p = fields(t, seq!['\n']);
    let q = fields(b, seq!['\n']);
    assert(p == seq![a] + q);
    assert(p.last() == q.last());
    assert(p.drop_last() =~= seq![a] + q.drop_last());
    assert(p.drop_last().map_values(|l: Seq<char>| strip_cr(l)) =~= seq![strip_cr(a)]
        + q.drop_last().map_values(|l: Seq<char>| strip_cr(l)));
    if q.last().len() == 0 {
        assert(text_lines(t) =~= seq![strip_cr(a)] + text_lines(b));
    } else {
        assert(text_lines(t) =~= seq![strip_cr(a)] + text_lines(b));
    }
}

proof fn lemma_text_lines_last(t: Seq<char>)
    requires
        split_once_spec(t, seq!['\n']) is None,
    ensures
        text_lines(t) == (if t.len() == 0 {
            Seq::<Seq<char>>::empty()
        } else {
            seq![t]
        }),
{
    lemma_fields_step(t, seq!['\n']);
    let p = fields(t, seq!['\n']);
    assert(p.drop_last() =~= Seq::<Seq<char>>::empty());
    assert(p.drop_last().map_values(|l: Seq<char>| strip_cr(l)) =~= Seq::<Seq<char>>::empty());
    if t.len() > 0 {
        assert(text_lines(t) =~= seq![t]);
    } else {
        assert(text_lines(t) =~= Seq::<Seq<char>>::empty());
    }
}

/// The index of the ALSA card that a line of `/proc/asound/cards` describes,
/// where its short name (between `[` and `]`) is `card` in any letter case:
/// the number that starts the line.
pub open spec fn card_line_index(line: Seq<char>, card: Seq<char>) -> Option<nat> {
    let l = trim_start_by(false, line);
    match first_match(l, seq!['['], 0) {
        None => None,
        Some(bs) => {
            let rest = l.subrange(bs + 1, l.len() as int);
            match first_match(rest, seq![']'], 0) {
                None => None,
                Some(be) => if eq_ignore_case(trim(rest.subrange(0, be)), card) {
                    match decimal_literal(first_word(l)) {
                        Some(v) => if v <= usize::MAX {
                            Some(v)
                        } else {
                            None
                        },
                        None => None,
                    }
                } else {
                    None
                },
            }
        },
    }
}

/// The index of the first line that gives one for `card`.
pub open spec fn card_index_in(lines: Seq<Seq<char>>, card: Seq<char>) -> Option<nat>
    decreases lines.len(),
{
    if lines.len() == 0 {
        None
    } else {
        match card_line_index(lines[0], card) {
            Some(v) => Some(v),
            None => card_index_in(lines.drop_first(), card),
        }
    }
}

/// The index of ALSA card `card` in the card list `cards` (the text of
/// `/proc/asound/cards`, where it could be read).
pub open spec fn alsa_card_index(cards: Option<Seq<char>>, card: Seq<char>) -> Option<nat> {
    match cards {
        Some(t) => card_index_in(text_lines(t), card),
        None => None,
    }
}

fn line_card_index(line: &[char], card: &[char]) -> (r: Option<usize>)
    ensures
        match r {
            Some(v) => card_line_index(line@, card@) == Some(v as nat),
            None => card_line_index(line@, card@) is None,
        },
{
    let l = trim_start_ws(line);
    let open = ['['];
    assert(open@ =~= seq!['[']);
    let bs = match find(&l, &open) {
        Some(bs) => bs,
        None => {
            proof {
                lemma_first_match_none(l@, seq!['['], 0);
            }
            return None;
        },
    };
    proof {
        lemma_first_match_found(l@, seq!['['], bs as int, 0);
    }
    let rest = slice_chars(&l, bs + 1, l.len());
    let close = [']'];
    assert(close@ =~= seq![']']);
    let be = match find(&rest, &close) {
        Some(be) => be,
        None => {
            proof {
                lemma_first_match_none(rest@, seq![']'], 0);
            }
            return None;
        },
    };
    proof {
        lemma_first_match_found(rest@, seq![']'], be as int, 0);
    }
    let short = slice_chars(&rest, 0, be);
    let short = trim_chars(&short, false);
    if !chars_eq_ignore_case(&short, card) {
        return None;
    }
    let word = first_word_of(&l);
    parse_usize(&word)
}

/// Looks up the index of ALSA card `card_name` in the card list `cards` (see
/// `alsa_card_index`).
pub fn lookup_alsa_card_index(cards: Option<&str>, card_name: &[char]) -> (r: Option<usize>)
    ensures
        match r {
            Some(v) => alsa_card_index(opt_str_view(cards), card_name@) == Some(v as nat),
            None => alsa_card_index(opt_str_view(cards), card_name@) is None,
        },
{
    let text = match cards {
        Some(t) => t,
        None => return None,
    };
    let nl = ['\n'];
    assert(nl@ =~= seq!['\n']);
    let mut rest = chars_of(text);
    loop
        invariant
            nl@ == seq!['\n'],
            opt_str_view(cards) == Some(text@),
            card_index_in(text_lines(text@), card_name@) == card_index_in(text_lines(rest@), card_name@),
        decreases rest.len(),
    {
        match split_once(&rest, &nl) {
            Some((a, b)) => {
                proof {
                    lemma_text_lines_step(rest@, a@, b@);
                    lemma_first_match_some(rest@, seq!['\n'], 0);
                    assert((seq![strip_cr(a@)] + text_lines(b@)).drop_first() =~= text_lines(b@));
                }
                let line = if a.len() > 0 && a[a.len() - 1] == '\r' {
                    slice_chars(&a, 0, a.len() - 1)
                } else {
                    slice_chars(&a, 0, a.len())
                };
                proof {
                    assert(line@ =~= strip_cr(a@));
                    let ls = seq![strip_cr(a@)] + text_lines(b@);
                    assert(ls[0] == line@);
                    assert(card_index_in(ls, card_name@) == match card_line_index(ls[0], card_name@) {
                        Some(v) => Some(v),
                        None => card_index_in(ls.drop_first(), card_name@),
                    });
                }
                if let Some(v) = line_card_index(&line, card_name) {
                    return Some(v);
                }
                rest = b;
            },
            None => {
                proof {
                    lemma_text_lines_last(rest@);
                }
                if rest.len() == 0 {
                    return None;
                }
                proof {
                    let ls = seq![rest@];
                    assert(ls.drop_first().len() == 0);
                    assert(card_index_in(ls, card_name@) == match card_line_index(ls[0], card_name@) {
                        Some(v) => Some(v),
                        None => card_index_in(ls.drop_first(), card_name@),
                    });
                }
                return line_card_index(&rest, card_name);
            },
        }
    }
}

/// The candidate list with one more selector: trimmed, and only where it is
/// not blank and not listed yet.
pub open spec fn push_candidate_spec(cs: Seq<Seq<char>>, c: Seq<char>) -> Seq<Seq<char>> {
    let t = trim(c);
    if t.len() == 0 || cs.contains(t) {
        cs
    } else {
        cs.push(t)
    }
}

/// The selector `prefix:card,dev`.
pub open spec fn short_selector(prefix: Seq<char>, card: Seq<char>, dev: Seq<char>) -> Seq<char> {
    prefix + seq![':'] + card + seq![','] + dev
}

/// The selector `prefix:CARD=card,DEV=dev`.
pub open spec fn named_selector(prefix: Seq<char>, card: Seq<char>, dev: Seq<char>) -> Seq<char> {
    prefix + ":CARD="@ + card + ",DEV="@ + dev
}

/// The backend names an ALSA selector may stand for: the selector itself, and
/// for a `hw:` or `plughw:` selector its short and named spellings, with the
/// subdevice (or subdevice 0), and with the card's index in place of its name
/// where the card is named and its index is known.
pub open spec fn expand_candidates(selected: Seq<char>, cards: Option<Seq<char>>) -> Seq<Seq<char>> {
    let c0 = push_candidate_spec(seq![], selected);
    match split_once_spec(selected, seq![':']) {
        None => c0,
        Some((pr, rr)) => {
            let prefix = lower(trim(pr));
            if prefix != "hw"@ && prefix != "plughw"@ {
                c0
            } else if trim(rr).len() == 0 {
                c0
            } else {
                match alsa_parts(trim(rr)) {
                    None => c0,
                    Some((card, dev, sub)) => {
                        let c2 = push_candidate_spec(
                            push_candidate_spec(c0, short_selector(prefix, card, dev)),
                            named_selector(prefix, card, dev),
                        );
                        let c3 = match sub {
                            Some(sd) => {
                                let x = push_candidate_spec(
                                    c2,
                                    short_selector(prefix, card, dev) + seq![','] + sd,
                                );
                                if sd == seq!['0'] {
                                    push_candidate_spec(x, short_selector(prefix, card, dev))
                                } else {
                                    push_candidate_spec(
                                        x,
                                        named_selector(prefix, card, dev) + ",SUBDEV="@ + sd,
                                    )
                                }
                            },
                            None => push_candidate_spec(
                                c2,
                                short_selector(prefix, card, dev) + seq![',', '0'],
                            ),
                        };
                        match alsa_card_index(cards, card) {
                            Some(idx) => if !ascii_digits(card) {
                                let ix = decimal_chars(idx);
                                push_candidate_spec(
                                    push_candidate_spec(c3, short_selector(prefix, ix, dev)),
                                    named_selector(prefix, ix, dev),
                                )
                            } else {
                                c3
                            },
                            None => c3,
                        }
                    },
                }
            }
        },
    }
}

/// The views of a list of character vectors.
pub open spec fn candidates_view(v: Seq<Vec<char>>) -> Seq<Seq<char>> {
    v.map_values(|c: Vec<char>| c@)
}

/// Whether the candidates list `t` already.
fn listed(cands: &Vec<Vec<char>>, t: &[char]) -> (r: bool)
    ensures
        r == candidates_view(cands@).contains(t@),
{
    let ghost cv = candidates_view(cands@);
    let mut j: usize = 0;
    while j < cands.len()
        invariant
            j <= cands.len(),
            cv == candidates_view(cands@),
            forall|k: int| 0 <= k < j ==> cv[k] != t@,
        decreases cands.len() - j,
    {
        if chars_eq(&cands[j], t) {
            assert(cv[j as int] == t@);
            return true;
        }
        j = j + 1;
    }
    false
}

/// Adds a selector to the candidates (see `push_candidate_spec`).
fn push_candidate(cands: &mut Vec<Vec<char>>, c: &[char])
    ensures
        candidates_view(final(cands)@) == push_candidate_spec(candidates_view(old(cands)@), c@),
{
    let t = trim_chars(c, false);
    if t.len() == 0 || listed(cands, &t) {
        return;
    }
    let ghost cv = candidates_view(cands@);
    cands.push(t);
    proof {
        assert(candidates_view(cands@) =~= cv.push(t@));
    }
}

fn short_selector_of(prefix: &[char], card: &[char], dev: &[char]) -> (r: Vec<char>)
    ensures
        r@ == short_selector(prefix@, card@, dev@),
{
    let mut v = slice_chars(prefix, 0, prefix.len());
    assert(v@ =~= prefix@);
    push_all(&mut v, &[':']);
    push_all(&mut v, card);
    push_all(&mut v, &[',']);
    push_all(&mut v, dev);
    proof {
        assert([':']@ =~= seq![':']);
        assert([',']@ =~= seq![',']);
    }
    v
}

fn named_selector_of(prefix: &[char], card: &[char], dev: &[char]) -> (r: Vec<char>)
    ensures
        r@ == named_selector(prefix@, card@, dev@),
{
    let mut v = slice_chars(prefix, 0, prefix.len());
    assert(v@ =~= prefix@);
    push_all(&mut v, &chars_of(":CARD="));
    push_all(&mut v, card);
    push_all(&mut v, &chars_of(",DEV="));
    push_all(&mut v, dev);
    v
}

/// The backend names a selector may stand for (see `expand_candidates`), given
/// the ALSA card list where it could be read.
pub fn expand_selector_candidates(selected: &[char], cards: Option<&str>) -> (r: Vec<Vec<char>>)
    ensures
        candidates_view(r@) == expand_candidates(selected@, opt_str_view(cards)),
{
    let mut cands: Vec<Vec<char>> = Vec::new();
    assert(candidates_view(cands@) =~= Seq::<Seq<char>>::empty());
    push_candidate(&mut cands, selected);
    let colon = [':'];
    assert(colon@ =~= seq![':']);
    let (pr, rr) = match split_once(selected, &colon) {
        Some(parts) => parts,
        None => return cands,
    };
    let pt = trim_chars(&pr, false);
    let prefix = to_lower(&pt);
    if !chars_is(&prefix, "hw") && !chars_is(&prefix, "plughw") {
        return cands;
    }
    let rem = trim_chars(&rr, false);
    if rem.len() == 0 {
        return cands;
    }
    let (card, dev, sub) = match parse_alsa_selector_parts(&rem) {
        Some(parts) => parts,
        None => return cands,
    };
    let short = short_selector_of(&prefix, &card, &dev);
    let named = named_selector_of(&prefix, &card, &dev);
    push_candidate(&mut cands, &short);
    push_candidate(&mut cands, &named);
    match sub {
        Some(sd) => {
            let mut with_sub = slice_chars(&short, 0, short.len());
            assert(with_sub@ =~= short@);
            push_all(&mut with_sub, &[',']);
            push_all(&mut with_sub, &sd);
            proof {
                assert([',']@ =~= seq![',']);
            }
            push_candidate(&mut cands, &with_sub);
            if chars_is(&sd, "0") {
                proof {
                    reveal_strlit("0");
                    assert("0"@ =~= seq!['0']);
                }
                push_candidate(&mut cands, &short);
            } else {
                proof {
                    reveal_strlit("0");
                    assert("0"@ =~= seq!['0']);
                }
                let mut named_sub = slice_chars(&named, 0, named.len());
                assert(named_sub@ =~= named@);
                push_all(&mut named_sub, &chars_of(",SUBDEV="));
                push_all(&mut named_sub, &sd);
                push_candidate(&mut cands, &named_sub);
            }
        },
        None => {
            let mut zero = slice_chars(&short, 0, short.len());
            assert(zero@ =~= short@);
            push_all(&mut zero, &[',', '0']);
            proof {
                assert([',', '0']@ =~= seq![',', '0']);
            }
            push_candidate(&mut cands, &zero);
        },
    }
    match lookup_alsa_card_index(cards, &card) {
        Some(idx) => {
            if !is_ascii_digits(&card) {
                let ix = usize_to_chars(idx);
                let s2 = short_selector_of(&prefix, &ix, &dev);
                let n2 = named_selector_of(&prefix, &ix, &dev);
                push_candidate(&mut cands, &s2);
                push_candidate(&mut cands, &n2);
            }
        },
        None => {},
    }
    cands
}

/// The first position in `s` whose item satisfies `p`.
pub open spec fn first_index<T>(s: Seq<T>, p: spec_fn(T) -> bool) -> Option<int>
    decreases s.len(),
{
    if s.len() == 0 {
        None
    } else if p(s[0]) {
        Some(0)
    } else {
        match first_index(s.drop_first(), p) {
            Some(i) => Some(i + 1),
            None => None,
        }
    }
}

proof fn lemma_first_index<T>(s: Seq<T>, p: spec_fn(T) -> bool, i: int)
    requires
        0 <= i <= s.len(),
        forall|k: int| 0 <= k < i ==> !p(#[trigger] s[k]),
    ensures
        i < s.len() && p(s[i]) ==> first_index(s, p) == Some(i),
        i == s.len() ==> first_index(s, p) is None,
    decreases i,
{
    if i > 0 {
        let t = s.drop_first();
        assert forall|k: int| 0 <= k < i - 1 implies !p(#[trigger] t[k]) by {
            assert(t[k] == s[k + 1]);
        }
        if i < s.len() {
            assert(t[i - 1] == s[i]);
        }
        lemma_first_index(t, p, i - 1);
        assert(!p(s[0]));
    }
}

/// The view of an optional position.
pub open spec fn opt_pos(o: Option<usize>) -> Option<int> {
    match o {
        Some(i) => Some(i as int),
        None => None,
    }
}

/// Whether a device is offered under the name `n`.
pub open spec fn known_as(d: InputDeviceNames, n: Seq<char>) -> bool {
    d.backend_name@ == n || d.friendly_name@ == n || d.legacy_display_name@ == n
}

/// Being offered under the name `n`, as a predicate.
pub open spec fn known_as_pred(n: Seq<char>) -> spec_fn(InputDeviceNames) -> bool {
    |d: InputDeviceNames| known_as(d, n)
}

/// Having a backend name among the candidates, as a predicate.
pub open spec fn backend_in_pred(cands: Seq<Seq<char>>) -> spec_fn(InputDeviceNames) -> bool {
    |d: InputDeviceNames| cands.contains(d.backend_name@)
}

/// A position moved on by `by`.
pub open spec fn shifted(o: Option<int>, by: int) -> Option<int> {
    match o {
        Some(i) => Some(i + by),
        None => None,
    }
}

/// The position of the `k`-th device (from 1) whose friendly name is `base`.
pub open spec fn nth_friendly(devs: Seq<InputDeviceNames>, base: Seq<char>, k: nat) -> Option<int>
    decreases devs.len(),
{
    if devs.len() == 0 {
        None
    } else if devs[0].friendly_name@ == base {
        if k <= 1 {
            Some(0)
        } else {
            shifted(nth_friendly(devs.drop_first(), base, (k - 1) as nat), 1)
        }
    } else {
        shifted(nth_friendly(devs.drop_first(), base, k), 1)
    }
}

/// The device a configured backend name selects, given the ALSA card list
/// where it could be read: the trimmed name matched against each device's
/// names; then without a host prefix; then as a duplicate's numbered name;
/// then each ALSA spelling of it against the backend names.
pub open spec fn select_spec(devs: Seq<InputDeviceNames>, selected: Seq<char>, cards: Option<Seq<char>>) -> Option<int> {
    let s = trim(selected);
    let bare = without_host_prefix(s);
    if s.len() == 0 {
        None
    } else if first_index(devs, known_as_pred(s)) is Some {
        first_index(devs, known_as_pred(s))
    } else if bare != s && first_index(devs, known_as_pred(bare)) is Some {
        first_index(devs, known_as_pred(bare))
    } else {
        let by_number = match indexed_name(s) {
            Some((base, k)) => nth_friendly(devs, base, k),
            None => None,
        };
        if by_number is Some {
            by_number
        } else {
            first_index(devs, backend_in_pred(expand_candidates(s, cards)))
        }
    }
}

fn device_known_as(d: &InputDeviceNames, n: &[char]) -> (r: bool)
    ensures
        r == known_as(*d, n@),
{
    chars_eq(&chars_of(d.backend_name.as_str()), n) || chars_eq(&chars_of(d.friendly_name.as_str()), n)
        || chars_eq(&chars_of(d.legacy_display_name.as_str()), n)
}

fn first_known_as(devs: &Vec<InputDeviceNames>, n: &[char]) -> (r: Option<usize>)
    ensures
        opt_pos(r) == first_index(devs@, known_as_pred(n@)),
{
    let ghost p = known_as_pred(n@);
    let mut i: usize = 0;
    while i < devs.len()
        invariant
            i <= devs.len(),
            p == known_as_pred(n@),
            forall|k: int| 0 <= k < i ==> !p(#[trigger] devs@[k]),
        decreases devs.len() - i,
    {
        if device_known_as(&devs[i], n) {
            proof {
                lemma_first_index(devs@, p, i as int);
            }
            return Some(i);
        }
        i = i + 1;
    }
    proof {
        lemma_first_index(devs@, p, i as int);
    }
    None
}

fn first_backend_in(devs: &Vec<InputDeviceNames>, cands: &Vec<Vec<char>>) -> (r: Option<usize>)
    ensures
        opt_pos(r) == first_index(devs@, backend_in_pred(candidates_view(cands@))),
{
    let ghost p = backend_in_pred(candidates_view(cands@));
    let mut i: usize = 0;
    while i < devs.len()
        invariant
            i <= devs.len(),
            p == backend_in_pred(candidates_view(cands@)),
            forall|k: int| 0 <= k < i ==> !p(#[trigger] devs@[k]),
        decreases devs.len() - i,
    {
        let b = chars_of(devs[i].backend_name.as_str());
        if listed(cands, &b) {
            proof {
                lemma_first_index(devs@, p, i as int);
            }
            return Some(i);
        }
        i = i + 1;
    }
    proof {
        lemma_first_index(devs@, p, i as int);
    }
    None
}

fn nth_with_friendly(devs: &Vec<InputDeviceNames>, base: &[char], k: usize) -> (r: Option<usize>)
    requires
        k >= 1,
    ensures
        opt_pos(r) == nth_friendly(devs@, base@, k as nat),
{
    let mut matched: usize = 0;
    let mut i: usize = 0;
    assert(devs@.skip(0) =~= devs@);
    while i < devs.len()
        invariant
            i <= devs.len(),
            matched < k,
            nth_friendly(devs@, base@, k as nat) == shifted(
                nth_friendly(devs@.skip(i as int), base@, (k - matched) as nat),
                i as int,
            ),
        decreases devs.len() - i,
    {
        let ghost t = devs@.skip(i as int);
        proof {
            assert(t[0] == devs@[i as int]);
            assert(t.drop_first() =~= devs@.skip(i + 1));
        }
        let f = chars_of(devs[i].friendly_name.as_str());
        if chars_eq(&f, base) {
            matched = matched + 1;
            if matched == k {
                return Some(i);
            }
        }
        i = i + 1;
    }
    assert(devs@.skip(i as int).len() == 0);
    None
}

/// Finds the device a configured backend name selects (see `select_spec`).
pub fn select_input_device(devices: &Vec<InputDeviceNames>, selected_name: &str, cards: Option<&str>) -> (r: Option<usize>)
    ensures
        opt_pos(r) == select_spec(devices@, selected_name@, opt_str_view(cards)),
{
    let raw = chars_of(selected_name);
    let s = trim_chars(&raw, false);
    if s.len() == 0 {
        return None;
    }
    if let Some(i) = first_known_as(devices, &s) {
        return Some(i);
    }
    let bare = strip_host_prefix(&s);
    if !chars_eq(&bare, &s) {
        if let Some(i) = first_known_as(devices, &bare) {
            return Some(i);
        }
    }
    if let Some((base, k)) = parse_indexed_name(&s) {
        if let Some(i) = nth_with_friendly(devices, &base, k) {
            return Some(i);
        }
    }
    let cands = expand_selector_candidates(&s, cards);
    first_backend_in(devices, &cands)
}

/// Whether a device's friendly or backend name mentions `n`.
pub open spec fn mentions(d: InputDeviceNames, n: Seq<char>) -> bool {
    contains(d.friendly_name@, n) || contains(d.backend_name@, n)
}

/// Whether a device looks like a loopback or monitor device, which captures
/// what the machine plays.
pub open spec fn looks_like_loopback(d: InputDeviceNames) -> bool {
    ||| mentions(d, "BlackHole"@)
    ||| mentions(d, "BlackHole 2ch"@)
    ||| mentions(d, "BlackHole 16ch"@)
    ||| mentions(d, "Loopback Audio"@)
    ||| mentions(d, "CABLE Output"@)
    ||| mentions(d, "VB-Audio"@)
    ||| mentions(d, "Monitor"@)
    ||| mentions(d, "monitor"@)
}

/// Looking like a loopback device, as a predicate.
pub open spec fn loopback_pred() -> spec_fn(InputDeviceNames) -> bool {
    |d: InputDeviceNames| looks_like_loopback(d)
}

fn device_mentions(d: &InputDeviceNames, n: &str) -> (r: bool)
    ensures
        r == mentions(*d, n@),
{
    let p = chars_of(n);
    contains_chars(&chars_of(d.friendly_name.as_str()), &p) || contains_chars(
        &chars_of(d.backend_name.as_str()),
        &p,
    )
}

fn device_looks_like_loopback(d: &InputDeviceNames) -> (r: bool)
    ensures
        r == looks_like_loopback(*d),
{
    device_mentions(d, "BlackHole") || device_mentions(d, "BlackHole 2ch") || device_mentions(
        d,
        "BlackHole 16ch",
    ) || device_mentions(d, "Loopback Audio") || device_mentions(d, "CABLE Output")
        || device_mentions(d, "VB-Audio") || device_mentions(d, "Monitor") || device_mentions(
        d,
        "monitor",
    )
}

/// The first device that looks like a loopback device.
pub fn find_loopback_device(devices: &Vec<InputDeviceNames>) -> (r: Option<usize>)
    ensures
        opt_pos(r) == first_index(devices@, loopback_pred()),
{
    let ghost p = loopback_pred();
    let mut i: usize = 0;
    while i < devices.len()
        invariant
            i <= devices.len(),
            p == loopback_pred(),
            forall|k: int| 0 <= k < i ==> !p(#[trigger] devices@[k]),
        decreases devices.len() - i,
    {
        if device_looks_like_loopback(&devices[i]) {
            proof {
                lemma_first_index(devices@, p, i as int);
            }
            return Some(i);
        }
        i = i + 1;
    }
    proof {
        lemma_first_index(devices@, p, i as int);
    }
    None
}

/// The input device an audio stream is opened on.
#[derive(Clone, Copy, Debug, PartialEq, Eq, Structural)]
pub enum InputChoice {
    /// The device at this position of the list.
    Device(usize),
    /// The system's default input device.
    SystemDefault,
    /// No device has the requested name.
    NotFound,
}

/// The device an audio stream is opened on for the requested backend name
/// (`default` when none): for `default` the first loopback device, else the
/// system's default input; for any other name the device it selects.
pub open spec fn input_choice_spec(devs: Seq<InputDeviceNames>, device_name: Option<Seq<char>>, cards: Option<Seq<char>>) -> InputChoice {
    let requested = match device_name {
        Some(n) => n,
        None => "default"@,
    };
    if requested == "default"@ {
        match first_index(devs, loopback_pred()) {
            Some(i) => InputChoice::Device(i as usize),
            None => InputChoice::SystemDefault,
        }
    } else {
        match select_spec(devs, requested, cards) {
            Some(i) => InputChoice::Device(i as usize),
            None => InputChoice::NotFound,
        }
    }
}

/// Chooses the input device for a requested backend name (see
/// `input_choice_spec`).
pub fn choose_input_device(devices: &Vec<InputDeviceNames>, device_name: Option<&str>, cards: Option<&str>) -> (r: InputChoice)
    ensures
        r == input_choice_spec(devices@, opt_str_view(device_name), opt_str_view(cards)),
{
    let requested = match device_name {
        Some(n) => n,
        None => "default",
    };
    if chars_is(&chars_of(requested), "default") {
        match find_loopback_device(devices) {
            Some(i) => InputChoice::Device(i),
            None => InputChoice::SystemDefault,
        }
    } else {
        match select_input_device(devices, requested, cards) {
            Some(i) => InputChoice::Device(i),
            None => InputChoice::NotFound,
        }
    }
}

/// Whether a stream opened for the requested backend should prefer a stereo
/// 44.1 kHz loopback profile: not for `default`; for a name mentioning
/// `loopback` or `aloop`, or a device whose description or id mentions
/// `loopback` (all in any letter case).
pub open spec fn prefers_loopback(requested: Seq<char>, description: Option<Seq<char>>, id: Option<Seq<char>>) -> bool {
    let n = lower(requested);
    if n == "default"@ {
        false
    } else {
        ||| contains(n, "loopback"@)
        ||| contains(n, "aloop"@)
        ||| (description matches Some(d) && contains(lower(d), "loopback"@))
        ||| (id matches Some(i) && contains(lower(i), "loopback"@))
    }
}

fn lower_mentions(s: &str, n: &str) -> (r: bool)
    ensures
        r == contains(lower(s@), n@),
{
    let l = to_lower(&chars_of(s));
    contains_chars(&l, &chars_of(n))
}

/// Whether to prefer a loopback profile (see `prefers_loopback`), given the
/// device's description name and id name where they could be read.
pub fn should_prefer_loopback_profile(requested_name: &str, description: Option<&str>, id: Option<&str>) -> (r: bool)
    ensures
        r == prefers_loopback(requested_name@, opt_str_view(description), opt_str_view(id)),
{
    let n = to_lower(&chars_of(requested_name));
    if chars_is(&n, "default") {
        return false;
    }
    if contains_chars(&n, &chars_of("loopback")) || contains_chars(&n, &chars_of("aloop")) {
        return true;
    }
    if let Some(d) = description {
        if lower_mentions(d, "loopback") {
            return true;
        }
    }
    if let Some(i) = id {
        if lower_mentions(i, "loopback") {
            return true;
        }
    }
    false
}

/// The sample format of a capture profile, as far as the choice goes.
#[derive(Clone, Copy, Debug, PartialEq, Eq, Structural)]
pub enum SampleKind {
    I16,
    F32,
    Other,
}

/// A range of capture profiles a device supports.
#[derive(Clone, Copy, Debug, PartialEq, Eq, Structural)]
pub struct InputRange {
    pub channels: u16,
    pub min_sample_rate: u32,
    pub max_sample_rate: u32,
    pub kind: SampleKind,
}

/// How well a sample format suits an ALSA loopback: 16-bit integers best,
/// then 32-bit floats.
pub open spec fn profile_score(k: SampleKind) -> nat {
    match k {
        SampleKind::I16 => 0,
        SampleKind::F32 => 1,
        SampleKind::Other => 2,
    }
}

/// Whether a range offers stereo at 44.1 kHz.
pub open spec fn stereo_44100(r: InputRange) -> bool {
    r.channels == 2 && r.min_sample_rate <= 44100 && r.max_sample_rate >= 44100
}

/// The range a loopback is opened with: among those with stereo at 44.1 kHz,
/// the first with the best format.
pub open spec fn best_profile(rs: Seq<InputRange>) -> Option<int>
    decreases rs.len(),
{
    if rs.len() == 0 {
        None
    } else {
        let prev = best_profile(rs.drop_last());
        let i = rs.len() - 1;
        if !stereo_44100(rs[i]) {
            prev
        } else {
            match prev {
                None => Some(i),
                Some(j) => if profile_score(rs[i].kind) < profile_score(rs[j].kind) {
                    Some(i)
                } else {
                    prev
                },
            }
        }
    }
}

fn score_of(k: SampleKind) -> (r: u8)
    ensures
        r == profile_score(k),
{
    match k {
        SampleKind::I16 => 0,
        SampleKind::F32 => 1,
        SampleKind::Other => 2,
    }
}

/// Picks the capture range for a loopback device (see `best_profile`).
pub fn pick_loopback_44100_profile(ranges: &[InputRange]) -> (r: Option<usize>)
    ensures
        opt_pos(r) == best_profile(ranges@),
{
    let mut best: Option<(u8, usize)> = None;
    let mut i: usize = 0;
    while i < ranges.len()
        invariant
            i <= ranges.len(),
            opt_pos(
                match best {
                    Some((_, j)) => Some(j),
                    None => None,
                },
            ) == best_profile(ranges@.take(i as int)),
            best matches Some((s, j)) ==> j < i && s == profile_score(ranges@[j as int].kind),
        decreases ranges.len() - i,
    {
        let r = ranges[i];
        proof {
            let t = ranges@.take(i + 1);
            assert(t.drop_last() =~= ranges@.take(i as int));
            assert(t[i as int] == r);
            if let Some((_, j)) = best {
                assert(t[j as int] == ranges@[j as int]);
            }
        }
        if r.channels == 2 && r.min_sample_rate <= 44100 && r.max_sample_rate >= 44100 {
            let score = score_of(r.kind);
            let replace = match best {
                None => true,
                Some((b, _)) => score < b,
            };
            if replace {
                best = Some((score, i));
            }
        }
        i = i + 1;
    }
    assert(ranges@.take(ranges.len() as int) =~= ranges@);
    match best {
        Some((_, j)) => Some(j),
        None => None,
    }
}

proof fn lemma_occurrences_prefix_monotone(names: Seq<Seq<char>>, n: Seq<char>, a: int, b: int)
    requires
        0 <= a <= b <= names.len(),
    ensures
        occurrences(names.take(a), n) <= occurrences(names.take(b), n),
    decreases b - a,
{
    if a < b {
        lemma_occurrences_prefix_monotone(names, n, a, b - 1);
        assert(names.take(b).drop_last() =~= names.take(b - 1));
    }
}

proof fn lemma_decimal_chars_len(n: nat)
    ensures
        decimal_chars(n).len() >= 1,
        n >= 10 ==> decimal_chars(n).len() >= 2,
    decreases n,
{
    if n >= 10 {
        lemma_decimal_chars_len(n / 10);
    }
}

proof fn lemma_digit_char_injective(a: nat, b: nat)
    requires
        a < 10,
        b < 10,
        digit_char(a) == digit_char(b),
    ensures
        a == b,
{
    assert(digit_char(a) as u32 == 48 + a);
    assert(digit_char(b) as u32 == 48 + b);
}

/// Different numbers are written differently.
proof fn lemma_decimal_chars_injective(a: nat, b: nat)
    requires
        decimal_chars(a) == decimal_chars(b),
    ensures
        a == b,
    decreases a,
{
    lemma_decimal_chars_len(a);
    lemma_decimal_chars_len(b);
    if a < 10 && b < 10 {
        assert(decimal_chars(a)[0] == digit_char(a));
        assert(decimal_chars(b)[0] == digit_char(b));
        lemma_digit_char_injective(a, b);
    } else if a >= 10 && b >= 10 {
        let da = decimal_chars(a);
        let db = decimal_chars(b);
        assert(da.last() == digit_char(a % 10));
        assert(db.last() == digit_char(b % 10));
        lemma_digit_char_injective(a % 10, b % 10);
        assert(da.drop_last() =~= decimal_chars(a / 10));
        assert(db.drop_last() =~= decimal_chars(b / 10));
        lemma_decimal_chars_injective(a / 10, b / 10);
    }
}

/// Devices that share a friendly name are offered under different display
/// names, numbered in their order.
pub proof fn lemma_numbered_names_distinct(friendly: Seq<Seq<char>>, i: int, j: int)
    requires
        0 <= i < j < friendly.len(),
        friendly[i] == friendly[j],
    ensures
        numbered_name(friendly, i) != numbered_name(friendly, j),
{
    let f = friendly[i];
    lemma_occurrences_prefix_monotone(friendly, f, i + 1, j);
    lemma_occurrences_prefix_monotone(friendly, f, j + 1, friendly.len() as int);
    assert(friendly.take(j + 1).drop_last() =~= friendly.take(j));
    assert(friendly.take(friendly.len() as int) =~= friendly);
    lemma_occurrences_prefix_monotone(friendly, f, 0, i);
    assert(friendly.take(i + 1).drop_last() =~= friendly.take(i));
    let ki = occurrences(friendly.take(i + 1), f);
    let kj = occurrences(friendly.take(j + 1), f);
    assert(ki < kj);
    assert(occurrences(friendly, f) > 1);
    let ni = numbered_name(friendly, i);
    let nj = numbered_name(friendly, j);
    let lo = f.len() as int + 3;
    if ni == nj {
        let di = decimal_chars(ki);
        let dj = decimal_chars(kj);
        assert(ni.subrange(lo, ni.len() - 1) =~= di);
        assert(nj.subrange(lo, nj.len() - 1) =~= dj);
        lemma_decimal_chars_injective(ki, kj);
    }
}

/// Where some element satisfies `p`, the first such one is at or before it.
proof fn lemma_first_index_at_most<T>(s: Seq<T>, p: spec_fn(T) -> bool, i: int)
    requires
        0 <= i < s.len(),
        p(s[i]),
    ensures
        first_index(s, p) matches Some(k) && 0 <= k <= i && p(s[k]),
    decreases i,
{
    if !p(s[0]) {
        let t = s.drop_first();
        assert(t[i - 1] == s[i]);
        lemma_first_index_at_most(t, p, i - 1);
        let k = first_index(t, p)->0;
        assert(t[k] == s[k + 1]);
    }
}

/// With the default backend, a device whose friendly or backend name holds
/// `Loopback Audio` is taken for a loopback device: the choice is a device, the
/// first loopback device, at or before it; never the system's default input.
pub proof fn lemma_default_takes_loopback_audio(devs: Seq<InputDeviceNames>, i: int, cards: Option<Seq<char>>)
    requires
        0 <= i < devs.len(),
        contains(devs[i].friendly_name@, "Loopback Audio"@) || contains(devs[i].backend_name@, "Loopback Audio"@),
    ensures
        input_choice_spec(devs, None, cards) matches InputChoice::Device(k) && k <= i,
        input_choice_spec(devs, Some("default"@), cards) == input_choice_spec(devs, None, cards),
{
    assert(loopback_pred()(devs[i]));
    lemma_first_index_at_most(devs, loopback_pred(), i);
}

/// A configured name that a device is offered under (its backend, friendly or
/// display name, surrounding white space aside) selects a device offered under
/// exactly that name, the first such one, at or before it.
pub proof fn lemma_exact_name_selects(devs: Seq<InputDeviceNames>, selected: Seq<char>, i: int, cards: Option<Seq<char>>)
    requires
        0 <= i < devs.len(),
        trim(selected).len() > 0,
        devs[i].backend_name@ == trim(selected) || devs[i].friendly_name@ == trim(selected)
            || devs[i].legacy_display_name@ == trim(selected),
    ensures
        select_spec(devs, selected, cards) matches Some(k) && 0 <= k <= i && (devs[k].backend_name@
            == trim(selected) || devs[k].friendly_name@ == trim(selected) || devs[k].legacy_display_name@
            == trim(selected)),
{
    let s = trim(selected);
    assert(known_as_pred(s)(devs[i]));
    lemma_first_index_at_most(devs, known_as_pred(s), i);
}

} // verus!
