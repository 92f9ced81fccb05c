//! Character-level text handling shared by the parsers of this crate.
//!
//! Strings are handled as sequences of `char`: an incoming `&str` is read into a
//! `Vec<char>`, worked on, and turned back into a `String` at the end.
use vstd::prelude::*;

verus! {

/// `String::push`: the string afterwards is the old one with `c` appended.
#[verifier::external_body]
pub(crate) fn push_char(s: &mut String, c: char)
    ensures
        final(s)@ == old(s)@.push(c),
{
    s.push(c);
}

/// Reads the characters of a string slice.
pub fn chars_of(s: &str) -> (v: Vec<char>)
    ensures
        v@ == s@,
{
    let n = s.unicode_len();
    let mut v: Vec<char> = Vec::new();
    let mut i: usize = 0;
    while i < n
        invariant
            n == s@.len(),
            i <= n,
            v@ == s@.subrange(0, i as int),
        decreases n - i,
    {
        v.push(s.get_char(i));
        i = i + 1;
    }
    assert(s@.subrange(0, n as int) =~= s@);
    v
}

/// Builds a string from characters.
pub fn string_from(v: &[char]) -> (s: String)
    ensures
        s@ == v@,
{
    let mut s = String::new();
    let mut i: usize = 0;
    while i < v.len()
        invariant
            i <= v.len(),
            s@ == v@.subrange(0, i as int),
        decreases v.len() - i,
    {
        push_char(&mut s, v[i]);
        assert(v@.subrange(0, i + 1) =~= v@.subrange(0, i as int).push(v@[i as int]));
        i = i + 1;
    }
    assert(v@.subrange(0, v.len() as int) =~= v@);
    s
}

/// The Unicode `White_Space` property, the set `char::is_whitespace` tests.
pub open spec fn is_white_space(c: char) -> bool {
    ||| ('\u{9}' <= c && c <= '\u{d}')
    ||| c == ' '
    ||| c == '\u{85}'
    ||| c == '\u{a0}'
    ||| c == '\u{1680}'
    ||| ('\u{2000}' <= c && c <= '\u{200a}')
    ||| c == '\u{2028}'
    ||| c == '\u{2029}'
    ||| c == '\u{202f}'
    ||| c == '\u{205f}'
    ||| c == '\u{3000}'
}

/// Whether `c` is Unicode white space.
pub fn white_space(c: char) -> (r: bool)
    ensures
        r == is_white_space(c),
{
    ('\u{9}' <= c && c <= '\u{d}') || c == ' ' || c == '\u{85}' || c == '\u{a0}' || c == '\u{1680}'
        || ('\u{2000}' <= c && c <= '\u{200a}') || c == '\u{2028}' || c == '\u{2029}' || c
        == '\u{202f}' || c == '\u{205f}' || c == '\u{3000}'
}

/// The class of characters a trim removes: white space, or NUL characters.
pub open spec fn trimmed_class(nul: bool, c: char) -> bool {
    if nul {
        c == '\0'
    } else {
        is_white_space(c)
    }
}

/// `s` without its leading characters of the class.
pub open spec fn trim_start_by(nul: bool, s: Seq<char>) -> Seq<char>
    decreases s.len(),
{
    if s.len() > 0 && trimmed_class(nul, s[0]) {
        trim_start_by(nul, s.drop_first())
    } else {
        s
    }
}

/// `s` without its trailing characters of the class.
pub open spec fn trim_end_by(nul: bool, s: Seq<char>) -> Seq<char>
    decreases s.len(),
{
    if s.len() > 0 && trimmed_class(nul, s.last()) {
        trim_end_by(nul, s.drop_last())
    } else {
        s
    }
}

/// `s` without leading and trailing characters of the class.
pub open spec fn trim_by(nul: bool, s: Seq<char>) -> Seq<char> {
    trim_end_by(nul, trim_start_by(nul, s))
}

/// `str::trim`: without leading and trailing white space.
pub open spec fn trim(s: Seq<char>) -> Seq<char> {
    trim_by(false, s)
}

proof fn lemma_trim_start_at(nul: bool, s: Seq<char>, k: int)
    requires
        0 <= k <= s.len(),
        forall|i: int| 0 <= i < k ==> trimmed_class(nul, #[trigger] s[i]),
        k == s.len() || !trimmed_class(nul, s[k]),
    ensures
        trim_start_by(nul, s) == s.subrange(k, s.len() as int),
    decreases k,
{
    if k == 0 {
        assert(s.subrange(0, s.len() as int) =~= s);
    } else {
        assert(trimmed_class(nul, s[0]));
        let t = s.drop_first();
        assert forall|i: int| 0 <= i < k - 1 implies trimmed_class(nul, #[trigger] t[i]) by {
            assert(t[i] == s[i + 1]);
        }
        lemma_trim_start_at(nul, t, k - 1);
        assert(t.subrange(k - 1, t.len() as int) =~= s.subrange(k, s.len() as int));
    }
}

proof fn lemma_trim_end_at(nul: bool, s: Seq<char>, k: int)
    requires
        0 <= k <= s.len(),
        forall|i: int| k <= i < s.len() ==> trimmed_class(nul, #[trigger] s[i]),
        k == 0 || !trimmed_class(nul, s[k - 1]),
    ensures
        trim_end_by(nul, s) == s.subrange(0, k),
    decreases s.len() - k,
{
    if k == s.len() {
        assert(s.subrange(0, k) =~= s);
    } else {
        assert(trimmed_class(nul, s.last()));
        let t = s.drop_last();
        lemma_trim_end_at(nul, t, k);
        assert(t.subrange(0, k) =~= s.subrange(0, k));
    }
}

/// Whether `c` belongs to the class a trim removes.
pub fn in_class(nul: bool, c: char) -> (r: bool)
    ensures
        r == trimmed_class(nul, c),
{
    if nul {
        c == '\0'
    } else {
        white_space(c)
    }
}

/// Removes leading and trailing characters of the class (white space, or NUL).
pub fn trim_chars(s: &[char], nul: bool) -> (r: Vec<char>)
    ensures
        r@ == trim_by(nul, s@),
{
    let n = s.len();
    let mut lo: usize = 0;
    while lo < n && in_class(nul, s[lo])
        invariant
            n == s@.len(),
            lo <= n,
            forall|i: int| 0 <= i < lo ==> trimmed_class(nul, #[trigger] s@[i]),
        decreases n - lo,
    {
        lo = lo + 1;
    }
    proof {
        lemma_trim_start_at(nul, s@, lo as int);
    }
    let ghost t = s@.subrange(lo as int, n as int);
    let mut hi: usize = n;
    while hi > lo && in_class(nul, s[hi - 1])
        invariant
            n == s@.len(),
            lo <= hi <= n,
            t == s@.subrange(lo as int, n as int),
            forall|i: int| hi <= i < n ==> trimmed_class(nul, #[trigger] s@[i]),
        decreases hi - lo,
    {
        hi = hi - 1;
    }
    proof {
        assert forall|i: int| (hi - lo) as int <= i < t.len() implies trimmed_class(
            nul,
            #[trigger] t[i],
        ) by {
            assert(t[i] == s@[i + lo]);
        }
        if hi > lo {
            assert(t[hi - lo - 1] == s@[hi - 1]);
        }
        lemma_trim_end_at(nul, t, (hi - lo) as int);
        assert(t.subrange(0, (hi - lo) as int) =~= s@.subrange(lo as int, hi as int));
    }
    let mut r: Vec<char> = Vec::new();
    let mut i: usize = lo;
    while i < hi
        invariant
            lo <= i <= hi,
            hi <= s@.len(),
            r@ == s@.subrange(lo as int, i as int),
        decreases hi - i,
    {
        r.push(s[i]);
        assert(s@.subrange(lo as int, i + 1) =~= s@.subrange(lo as int, i as int).push(s@[i as int]));
        i = i + 1;
    }
    r
}

/// An ASCII decimal digit.
pub open spec fn is_digit(c: char) -> bool {
    '0' <= c && c <= '9'
}

/// The value of an ASCII decimal digit.
pub open spec fn digit_value(c: char) -> nat {
    (c as u32 - '0' as u32) as nat
}

/// An ASCII uppercase letter.
pub open spec fn is_upper(c: char) -> bool {
    'A' <= c && c <= 'Z'
}

/// An ASCII lowercase letter.
pub open spec fn is_lower(c: char) -> bool {
    'a' <= c && c <= 'z'
}

/// `char::to_ascii_lowercase`.
pub open spec fn lower_char(c: char) -> char {
    if is_upper(c) {
        ((c as u32) + 32) as char
    } else {
        c
    }
}

/// `char::to_ascii_uppercase`.
pub open spec fn upper_char(c: char) -> char {
    if is_lower(c) {
        ((c as u32) - 32) as char
    } else {
        c
    }
}

/// `str::to_ascii_lowercase` on a character sequence.
pub open spec fn lower(s: Seq<char>) -> Seq<char> {
    s.map_values(|c: char| lower_char(c))
}

/// `str::to_ascii_uppercase` on a character sequence.
pub open spec fn upper(s: Seq<char>) -> Seq<char> {
    s.map_values(|c: char| upper_char(c))
}

/// `str::eq_ignore_ascii_case`.
pub open spec fn eq_ignore_case(a: Seq<char>, b: Seq<char>) -> bool {
    lower(a) == lower(b)
}

/// Lowercases one ASCII letter.
pub fn ascii_lower(c: char) -> (r: char)
    ensures
        r == lower_char(c),
{
    if 'A' <= c && c <= 'Z' {
        let b = (c as u8) + 32;
        assert(b as char == ((c as u32) + 32) as char);
        b as char
    } else {
        c
    }
}

/// Uppercases one ASCII letter.
pub fn ascii_upper(c: char) -> (r: char)
    ensures
        r == upper_char(c),
{
    if 'a' <= c && c <= 'z' {
        let b = (c as u8) - 32;
        assert(b as char == ((c as u32) - 32) as char);
        b as char
    } else {
        c
    }
}

/// Lowercases the ASCII letters of `s`.
pub fn to_lower(s: &[char]) -> (r: Vec<char>)
    ensures
        r@ == lower(s@),
{
    let mut r: Vec<char> = Vec::new();
    let mut i: usize = 0;
    while i < s.len()
        invariant
            i <= s.len(),
            r@ == lower(s@.subrange(0, i as int)),
        decreases s.len() - i,
    {
        r.push(ascii_lower(s[i]));
        assert(lower(s@.subrange(0, i + 1)) =~= lower(s@.subrange(0, i as int)).push(
            lower_char(s@[i as int]),
        ));
        i = i + 1;
    }
    assert(s@.subrange(0, s.len() as int) =~= s@);
    r
}

/// Uppercases the ASCII letters of `s`.
pub fn to_upper(s: &[char]) -> (r: Vec<char>)
    ensures
        r@ == upper(s@),
{
    let mut r: Vec<char> = Vec::new();
    let mut i: usize = 0;
    while i < s.len()
        invariant
            i <= s.len(),
            r@ == upper(s@.subrange(0, i as int)),
        decreases s.len() - i,
    {
        r.push(ascii_upper(s[i]));
        assert(upper(s@.subrange(0, i + 1)) =~= upper(s@.subrange(0, i as int)).push(
            upper_char(s@[i as int]),
        ));
        i = i + 1;
    }
    assert(s@.subrange(0, s.len() as int) =~= s@);
    r
}

/// Equality of two character sequences.
pub fn chars_eq(a: &[char], b: &[char]) -> (r: bool)
    ensures
        r == (a@ == b@),
{
    if a.len() != b.len() {
        return false;
    }
    let mut i: usize = 0;
    while i < a.len()
        invariant
            a.len() == b.len(),
            i <= a.len(),
            forall|j: int| 0 <= j < i ==> a@[j] == b@[j],
        decreases a.len() - i,
    {
        if a[i] != b[i] {
            return false;
        }
        i = i + 1;
    }
    assert(a@ =~= b@);
    true
}

/// Whether `s` holds exactly the characters of `lit`.
pub fn chars_is(s: &[char], lit: &str) -> (r: bool)
    ensures
        r == (s@ == lit@),
{
    let l = chars_of(lit);
    chars_eq(s, &l)
}

/// `str::eq_ignore_ascii_case` on character sequences.
pub fn chars_eq_ignore_case(a: &[char], b: &[char]) -> (r: bool)
    ensures
        r == eq_ignore_case(a@, b@),
{
    let la = to_lower(a);
    let lb = to_lower(b);
    chars_eq(&la, &lb)
}

/// Whether `s` begins with `p`.
pub open spec fn starts_with(s: Seq<char>, p: Seq<char>) -> bool {
    p.len() <= s.len() && s.subrange(0, p.len() as int) == p
}

/// Whether `s` ends with `p`.
pub open spec fn ends_with(s: Seq<char>, p: Seq<char>) -> bool {
    p.len() <= s.len() && s.subrange(s.len() - p.len(), s.len() as int) == p
}

/// Whether `p` occurs in `s` at position `i`.
pub open spec fn occurs_at(s: Seq<char>, p: Seq<char>, i: int) -> bool {
    0 <= i && i + p.len() <= s.len() && s.subrange(i, i + p.len()) == p
}

/// Whether `p` occurs anywhere in `s` (`str::contains`).
pub open spec fn contains(s: Seq<char>, p: Seq<char>) -> bool {
    exists|i: int| occurs_at(s, p, i)
}

/// Whether `p` occurs in `s` at position `i`.
pub fn matches_at(s: &[char], p: &[char], i: usize) -> (r: bool)
    ensures
        r == occurs_at(s@, p@, i as int),
{
    if i > s.len() || p.len() > s.len() - i {
        return false;
    }
    let mut j: usize = 0;
    while j < p.len()
        invariant
            i + p.len() <= s.len(),
            j <= p.len(),
            forall|k: int| 0 <= k < j ==> s@[i + k] == p@[k],
        decreases p.len() - j,
    {
        if s[i + j] != p[j] {
            assert(s@.subrange(i as int, i + p.len())[j as int] != p@[j as int]);
            return false;
        }
        j = j + 1;
    }
    assert(s@.subrange(i as int, i + p.len()) =~= p@);
    true
}

/// Whether `s` begins with `p`.
pub fn has_prefix(s: &[char], p: &[char]) -> (r: bool)
    ensures
        r == starts_with(s@, p@),
{
    matches_at(s, p, 0)
}

/// Whether `s` ends with `p`.
pub fn has_suffix(s: &[char], p: &[char]) -> (r: bool)
    ensures
        r == ends_with(s@, p@),
{
    if p.len() > s.len() {
        return false;
    }
    matches_at(s, p, s.len() - p.len())
}

/// The first position of `p` in `s`, if any.
pub open spec fn first_occurrence(s: Seq<char>, p: Seq<char>, i: int) -> bool {
    occurs_at(s, p, i) && forall|j: int| 0 <= j < i ==> !occurs_at(s, p, j)
}

/// The last position of `p` in `s`, if any.
pub open spec fn last_occurrence(s: Seq<char>, p: Seq<char>, i: int) -> bool {
    occurs_at(s, p, i) && forall|j: int| i < j <= s.len() ==> !occurs_at(s, p, j)
}

/// `str::find` with a pattern: the first position at which `p` occurs.
pub fn find(s: &[char], p: &[char]) -> (r: Option<usize>)
    ensures
        match r {
            Some(i) => first_occurrence(s@, p@, i as int),
            None => !contains(s@, p@),
        },
{
    let mut i: usize = 0;
    while i < s.len()
        invariant
            i <= s.len(),
            forall|j: int| 0 <= j < i ==> !occurs_at(s@, p@, j),
        decreases s.len() - i,
    {
        if matches_at(s, p, i) {
            return Some(i);
        }
        i = i + 1;
    }
    if matches_at(s, p, s.len()) {
        return Some(s.len());
    }
    assert forall|j: int| !occurs_at(s@, p@, j) by {
        if 0 <= j <= s.len() {
        }
    }
    None
}

/// `str::rfind` with a pattern: the last position at which `p` occurs.
pub fn rfind(s: &[char], p: &[char]) -> (r: Option<usize>)
    ensures
        match r {
            Some(i) => last_occurrence(s@, p@, i as int),
            None => !contains(s@, p@),
        },
{
    if matches_at(s, p, s.len()) {
        return Some(s.len());
    }
    let mut i: usize = s.len();
    while i > 0
        invariant
            i <= s.len(),
            forall|j: int| i <= j <= s.len() ==> !occurs_at(s@, p@, j),
        decreases i,
    {
        if matches_at(s, p, i - 1) {
            return Some(i - 1);
        }
        i = i - 1;
    }
    assert forall|j: int| !occurs_at(s@, p@, j) by {
        if 0 <= j <= s.len() {
        }
    }
    None
}

/// The characters of `s` from `lo` up to (not including) `hi`.
pub fn slice_chars(s: &[char], lo: usize, hi: usize) -> (r: Vec<char>)
    requires
        lo <= hi <= s.len(),
    ensures
        r@ == s@.subrange(lo as int, hi as int),
{
    let mut r: Vec<char> = Vec::new();
    let mut i: usize = lo;
    while i < hi
        invariant
            lo <= i <= hi,
            hi <= s@.len(),
            r@ == s@.subrange(lo as int, i as int),
        decreases hi - i,
    {
        r.push(s[i]);
        assert(s@.subrange(lo as int, i + 1) =~= s@.subrange(lo as int, i as int).push(
            s@[i as int],
        ));
        i = i + 1;
    }
    r
}

/// The first position, at or after `i`, at which `p` occurs in `s`.
pub open spec fn first_match(s: Seq<char>, p: Seq<char>, i: int) -> Option<int>
    decreases s.len() + 1 - i,
{
    if i < 0 || i > s.len() {
        None
    } else if occurs_at(s, p, i) {
        Some(i)
    } else {
        first_match(s, p, i + 1)
    }
}

/// A first occurrence is what `first_match` finds.
pub proof fn lemma_first_match_found(s: Seq<char>, p: Seq<char>, k: int, i: int)
    requires
        first_occurrence(s, p, k),
        0 <= i <= k,
    ensures
        first_match(s, p, i) == Some(k),
    decreases k - i,
{
    if i < k {
        lemma_first_match_found(s, p, k, i + 1);
    }
}

/// Without an occurrence `first_match` finds nothing.
pub proof fn lemma_first_match_none(s: Seq<char>, p: Seq<char>, i: int)
    requires
        !contains(s, p),
        0 <= i,
    ensures
        first_match(s, p, i) is None,
    decreases s.len() + 1 - i,
{
    if i <= s.len() {
        assert(!occurs_at(s, p, i));
        lemma_first_match_none(s, p, i + 1);
    }
}

/// What `first_match` finds is an occurrence at or after `i`.
pub proof fn lemma_first_match_some(s: Seq<char>, p: Seq<char>, i: int)
    requires
        first_match(s, p, i) is Some,
    ensures
        occurs_at(s, p, first_match(s, p, i).unwrap()),
        i <= first_match(s, p, i).unwrap() <= s.len(),
    decreases s.len() + 1 - i,
{
    if !occurs_at(s, p, i) {
        lemma_first_match_some(s, p, i + 1);
    }
}

/// `str::split_once`: the text before and after the first occurrence of `p`.
pub open spec fn split_once_spec(s: Seq<char>, p: Seq<char>) -> Option<(Seq<char>, Seq<char>)> {
    match first_match(s, p, 0) {
        Some(i) => Some((s.subrange(0, i), s.subrange(i + p.len(), s.len() as int))),
        None => None,
    }
}

/// `str::split`: the pieces of `s` between the occurrences of the non-empty `p`.
pub open spec fn fields(s: Seq<char>, p: Seq<char>) -> Seq<Seq<char>>
    decreases s.len(),
{
    match first_match(s, p, 0) {
        Some(i) => if p.len() > 0 && 0 <= i && i + p.len() <= s.len() {
            seq![s.subrange(0, i)] + fields(s.subrange(i + p.len(), s.len() as int), p)
        } else {
            seq![s]
        },
        None => seq![s],
    }
}

/// `str::split_once` with a pattern.
pub fn split_once(s: &[char], p: &[char]) -> (r: Option<(Vec<char>, Vec<char>)>)
    ensures
        match r {
            Some((a, b)) => split_once_spec(s@, p@) == Some((a@, b@)),
            None => split_once_spec(s@, p@) is None,
        },
{
    let found = find(s, p);
    match found {
        Some(i) => {
            proof {
                lemma_first_match_found(s@, p@, i as int, 0);
                assert(occurs_at(s@, p@, i as int));
            }
            assert(i + p.len() <= s.len());
            let a = slice_chars(s, 0, i);
            let b = slice_chars(s, i + p.len(), s.len());
            Some((a, b))
        },
        None => {
            proof {
                lemma_first_match_none(s@, p@, 0);
            }
            None
        },
    }
}

/// The numeric value of a sequence of ASCII decimal digits.
pub open spec fn decimal_value(s: Seq<char>) -> nat
    decreases s.len(),
{
    if s.len() == 0 {
        0
    } else {
        decimal_value(s.drop_last()) * 10 + digit_value(s.last())
    }
}

/// The digits of an unsigned integer literal as `from_str` reads them: an optional
/// leading `+`, then the rest.
pub open spec fn unsigned_digits(s: Seq<char>) -> Seq<char> {
    if s.len() > 0 && s[0] == '+' {
        s.drop_first()
    } else {
        s
    }
}

/// The value that `from_str` of an unsigned integer type reads from `s`, before the
/// range check: `None` where `s` is not an optional `+` followed by one or more
/// decimal digits.
pub open spec fn decimal_literal(s: Seq<char>) -> Option<nat> {
    let d = unsigned_digits(s);
    if d.len() > 0 && forall|i: int| 0 <= i < d.len() ==> is_digit(#[trigger] d[i]) {
        Some(decimal_value(d))
    } else {
        None
    }
}

proof fn lemma_decimal_value_prefix(s: Seq<char>, i: int)
    requires
        0 <= i < s.len(),
    ensures
        decimal_value(s.subrange(0, i + 1)) == decimal_value(s.subrange(0, i)) * 10 + digit_value(
            s[i],
        ),
{
    let t = s.subrange(0, i + 1);
    assert(t.drop_last() =~= s.subrange(0, i));
}

proof fn lemma_decimal_value_monotone(s: Seq<char>, i: int)
    requires
        0 <= i <= s.len(),
    ensures
        decimal_value(s.subrange(0, i)) <= decimal_value(s),
    decreases s.len() - i,
{
    if i == s.len() {
        assert(s.subrange(0, i) =~= s);
    } else {
        lemma_decimal_value_monotone(s, i + 1);
        lemma_decimal_value_prefix(s, i);
    }
}

/// Reads the decimal digits `s[lo..]` into a `u64`; `None` if a character is not a
/// digit or the value exceeds `limit`.
fn read_decimal(s: &[char], lo: usize, limit: u64) -> (r: Option<u64>)
    requires
        lo <= s.len(),
    ensures
        ({
            let d = s@.subrange(lo as int, s@.len() as int);
            match r {
                Some(v) => (forall|i: int| 0 <= i < d.len() ==> is_digit(#[trigger] d[i]))
                    && v == decimal_value(d) && v <= limit,
                None => !(forall|i: int| 0 <= i < d.len() ==> is_digit(#[trigger] d[i]))
                    || decimal_value(d) > limit,
            }
        }),
{
    let ghost d = s@.subrange(lo as int, s@.len() as int);
    let mut acc: u64 = 0;
    let mut i: usize = lo;
    while i < s.len()
        invariant
            lo <= i <= s.len(),
            d == s@.subrange(lo as int, s@.len() as int),
            forall|k: int| 0 <= k < i - lo ==> is_digit(#[trigger] d[k]),
            acc == decimal_value(d.subrange(0, i - lo)),
            acc <= limit,
        decreases s.len() - i,
    {
        let c = s[i];
        if !('0' <= c && c <= '9') {
            assert(!is_digit(d[i - lo]));
            return None;
        }
        proof {
            lemma_decimal_value_prefix(d, i - lo);
        }
        let dv = (c as u32 - '0' as u32) as u64;
        let next = match acc.checked_mul(10) {
            Some(m) => m.checked_add(dv),
            None => None,
        };
        match next {
            Some(v) if v <= limit => {
                acc = v;
            },
            _ => {
                proof {
                    lemma_decimal_value_monotone(d, i - lo + 1);
                }
                return None;
            },
        }
        i = i + 1;
    }
    assert(d.subrange(0, d.len() as int) =~= d);
    Some(acc)
}

/// `u64::from_str` on a character sequence.
pub fn parse_u64(s: &[char]) -> (r: Option<u64>)
    ensures
        match r {
            Some(v) => decimal_literal(s@) == Some(v as nat),
            None => decimal_literal(s@) is None || decimal_literal(s@).unwrap() > u64::MAX,
        },
{
    parse_unsigned(s, u64::MAX)
}

/// `usize::from_str` on a character sequence.
pub fn parse_usize(s: &[char]) -> (r: Option<usize>)
    ensures
        match r {
            Some(v) => decimal_literal(s@) == Some(v as nat),
            None => decimal_literal(s@) is None || decimal_literal(s@).unwrap() > usize::MAX,
        },
{
    match parse_unsigned(s, usize::MAX as u64) {
        Some(v) => Some(v as usize),
        None => None,
    }
}

/// `from_str` for an unsigned integer type whose largest value is `limit`.
fn parse_unsigned(s: &[char], limit: u64) -> (r: Option<u64>)
    ensures
        match r {
            Some(v) => decimal_literal(s@) == Some(v as nat) && v <= limit,
            None => decimal_literal(s@) is None || decimal_literal(s@).unwrap() > limit,
        },
{
    let lo: usize = if s.len() > 0 && s[0] == '+' {
        1
    } else {
        0
    };
    assert(unsigned_digits(s@) =~= s@.subrange(lo as int, s@.len() as int));
    if lo == s.len() {
        return None;
    }
    read_decimal(s, lo, limit)
}

/// The value of a hexadecimal digit (`0-9`, `a-f`, `A-F`).
pub open spec fn hex_digit_value(c: char) -> Option<nat> {
    if '0' <= c && c <= '9' {
        Some((c as u32 - '0' as u32) as nat)
    } else if 'a' <= c && c <= 'f' {
        Some((c as u32 - 'a' as u32 + 10) as nat)
    } else if 'A' <= c && c <= 'F' {
        Some((c as u32 - 'A' as u32 + 10) as nat)
    } else {
        None
    }
}

/// The numeric value of a sequence of hexadecimal digits.
pub open spec fn hex_value(s: Seq<char>) -> nat
    decreases s.len(),
{
    if s.len() == 0 {
        0
    } else {
        hex_value(s.drop_last()) * 16 + hex_digit_value(s.last()).unwrap()
    }
}

/// The value that `u32::from_str_radix(s, 16)` reads, before the range check.
pub open spec fn hex_literal(s: Seq<char>) -> Option<nat> {
    let d = unsigned_digits(s);
    if d.len() > 0 && forall|i: int| 0 <= i < d.len() ==> (#[trigger] hex_digit_value(d[i])) is Some {
        Some(hex_value(d))
    } else {
        None
    }
}

proof fn lemma_hex_value_monotone(s: Seq<char>, i: int)
    requires
        0 <= i <= s.len(),
    ensures
        hex_value(s.subrange(0, i)) <= hex_value(s),
    decreases s.len() - i,
{
    if i == s.len() {
        assert(s.subrange(0, i) =~= s);
    } else {
        lemma_hex_value_monotone(s, i + 1);
        let t = s.subrange(0, i + 1);
        assert(t.drop_last() =~= s.subrange(0, i));
    }
}

/// The value of a hexadecimal digit.
pub fn hex_digit(c: char) -> (r: Option<u32>)
    ensures
        match r {
            Some(v) => hex_digit_value(c) == Some(v as nat) && v < 16,
            None => hex_digit_value(c) is None,
        },
{
    if '0' <= c && c <= '9' {
        Some(c as u32 - '0' as u32)
    } else if 'a' <= c && c <= 'f' {
        Some(c as u32 - 'a' as u32 + 10)
    } else if 'A' <= c && c <= 'F' {
        Some(c as u32 - 'A' as u32 + 10)
    } else {
        None
    }
}

/// `u32::from_str_radix(s, 16)` on a character sequence.
pub fn parse_hex_u32(s: &[char]) -> (r: Option<u32>)
    ensures
        match r {
            Some(v) => hex_literal(s@) == Some(v as nat),
            None => hex_literal(s@) is None || hex_literal(s@).unwrap() > u32::MAX,
        },
{
    let lo: usize = if s.len() > 0 && s[0] == '+' {
        1
    } else {
        0
    };
    let ghost d = s@.subrange(lo as int, s@.len() as int);
    assert(unsigned_digits(s@) =~= d);
    if lo == s.len() {
        return None;
    }
    let mut acc: u32 = 0;
    let mut i: usize = lo;
    while i < s.len()
        invariant
            lo <= i <= s.len(),
            d == s@.subrange(lo as int, s@.len() as int),
            unsigned_digits(s@) == d,
            d.len() > 0,
            forall|k: int| 0 <= k < i - lo ==> (#[trigger] hex_digit_value(d[k])) is Some,
            acc == hex_value(d.subrange(0, i - lo)),
        decreases s.len() - i,
    {
        let c = s[i];
        assert(d[i - lo] == c);
        let dv: u32 = match hex_digit(c) {
            Some(v) => v,
            None => {
                return None;
            },
        };
        proof {
            let t = d.subrange(0, i - lo + 1);
            assert(t.drop_last() =~= d.subrange(0, i - lo));
            assert(t.last() == c);
        }
        let next = match acc.checked_mul(16) {
            Some(m) => m.checked_add(dv),
            None => None,
        };
        match next {
            Some(v) => {
                acc = v;
            },
            None => {
                proof {
                    lemma_hex_value_monotone(d, i - lo + 1);
                }
                return None;
            },
        }
        i = i + 1;
    }
    assert(d.subrange(0, d.len() as int) =~= d);
    Some(acc)
}

/// Removes leading white space (`str::trim_start`).
pub fn trim_start_ws(s: &[char]) -> (r: Vec<char>)
    ensures
        r@ == trim_start_by(false, s@),
{
    let n = s.len();
    let mut lo: usize = 0;
    while lo < n && white_space(s[lo])
        invariant
            n == s@.len(),
            lo <= n,
            forall|i: int| 0 <= i < lo ==> trimmed_class(false, #[trigger] s@[i]),
        decreases n - lo,
    {
        lo = lo + 1;
    }
    proof {
        lemma_trim_start_at(false, s@, lo as int);
    }
    slice_chars(s, lo, n)
}

/// The last of the pieces `str::split` cuts `s` into at the character `d`.
pub open spec fn last_field(s: Seq<char>, d: char) -> Seq<char> {
    fields(s, seq![d]).last()
}

/// The first of the pieces `str::split` cuts `s` into at the character `d`.
pub open spec fn first_field(s: Seq<char>, d: char) -> Seq<char> {
    fields(s, seq![d])[0]
}

/// `str::split` yields at least one piece.
pub proof fn lemma_fields_nonempty(s: Seq<char>, p: Seq<char>)
    requires
        p.len() > 0,
    ensures
        fields(s, p).len() >= 1,
    decreases s.len(),
{
    if first_match(s, p, 0) is Some {
        lemma_first_match_some(s, p, 0);
        let i = first_match(s, p, 0).unwrap();
        lemma_fields_nonempty(s.subrange(i + p.len(), s.len() as int), p);
    }
}

proof fn lemma_last_field(s: Seq<char>, d: char)
    ensures
        !s.contains(d) ==> last_field(s, d) == s,
        forall|k: int|
            0 <= k < s.len() && s[k] == d && (forall|j: int| k < j < s.len() ==> s[j] != d) ==> last_field(
                s,
                d,
            ) == s.subrange(k + 1, s.len() as int),
    decreases s.len(),
{
    let p = seq![d];
    if first_match(s, p, 0) is Some {
        lemma_first_match_some(s, p, 0);
        let i = first_match(s, p, 0).unwrap();
        assert(s.subrange(i, i + 1)[0] == s[i]);
        let rest = s.subrange(i + 1, s.len() as int);
        lemma_fields_nonempty(rest, p);
        lemma_last_field(rest, d);
        assert(fields(s, p) == seq![s.subrange(0, i)] + fields(rest, p));
        assert(last_field(s, d) == last_field(rest, d));
        assert forall|k: int|
            0 <= k < s.len() && s[k] == d && (forall|j: int| k < j < s.len() ==> s[j] != d) implies last_field(
            s,
            d,
        ) == s.subrange(k + 1, s.len() as int) by {
            if k < i {
                assert(s[i] == d);
            } else if k == i {
                assert forall|j: int| 0 <= j < rest.len() implies rest[j] != d by {
                    assert(rest[j] == s[i + 1 + j]);
                }
                assert(!rest.contains(d));
            } else {
                let k2 = k - (i + 1);
                assert(rest[k2] == s[k]);
                assert forall|j: int| k2 < j < rest.len() implies rest[j] != d by {
                    assert(rest[j] == s[i + 1 + j]);
                }
                assert(rest.subrange(k2 + 1, rest.len() as int) =~= s.subrange(k + 1, s.len() as int));
            }
        }
        if !s.contains(d) {
            assert(s[i] == d);
        }
    } else {
        assert(fields(s, p) == seq![s]);
        if s.contains(d) {
            let k = choose|k: int| 0 <= k < s.len() && s[k] == d;
            assert(s.subrange(k, k + 1) =~= p);
            assert(occurs_at(s, p, k));
            lemma_first_match_upto(s, p, k, 0);
        }
        assert forall|k: int| 0 <= k < s.len() && s[k] == d implies false by {
            assert(s.subrange(k, k + 1) =~= p);
            lemma_first_match_upto(s, p, k, 0);
        }
    }
}

proof fn lemma_first_match_upto(s: Seq<char>, p: Seq<char>, k: int, i: int)
    requires
        occurs_at(s, p, k),
        0 <= i <= k,
    ensures
        first_match(s, p, i) is Some,
    decreases k - i,
{
    if i < k && !occurs_at(s, p, i) {
        lemma_first_match_upto(s, p, k, i + 1);
    }
}

/// The last piece of `s` cut at `d` (`s.split(d).next_back()`).
pub fn last_field_of(s: &[char], d: char) -> (r: Vec<char>)
    ensures
        r@ == last_field(s@, d),
{
    proof {
        lemma_last_field(s@, d);
    }
    let mut i: usize = s.len();
    while i > 0
        invariant
            i <= s@.len(),
            forall|j: int| i <= j < s@.len() ==> s@[j] != d,
        decreases i,
    {
        if s[i - 1] == d {
            proof {
                lemma_last_field(s@, d);
                let k = i - 1;
                assert(0 <= k < s@.len() && s@[k] == d && (forall|j: int|
                    k < j < s@.len() ==> s@[j] != d));
            }
            return slice_chars(s, i, s.len());
        }
        i = i - 1;
    }
    slice_chars(s, 0, s.len())
}

/// The first piece of `s` cut at `d` (`s.split(d).next()`).
pub fn first_field_of(s: &[char], d: char) -> (r: Vec<char>)
    ensures
        r@ == first_field(s@, d),
{
    let p = [d];
    assert(p@ =~= seq![d]);
    proof {
        lemma_fields_step(s@, p@);
    }
    match split_once(s, &p) {
        Some((a, _)) => a,
        None => slice_chars(s, 0, s.len()),
    }
}

/// One step of `fields`: the first field, then the fields of the rest.
pub proof fn lemma_fields_step(s: Seq<char>, p: Seq<char>)
    requires
        p.len() > 0,
    ensures
        match split_once_spec(s, p) {
            Some((a, b)) => fields(s, p) == seq![a] + fields(b, p),
            None => fields(s, p) == seq![s],
        },
{
    if first_match(s, p, 0) is Some {
        lemma_first_match_some(s, p, 0);
    }
}

/// Whether `p` occurs in `s` (`str::contains`).
pub fn contains_chars(s: &[char], p: &[char]) -> (r: bool)
    ensures
        r == contains(s@, p@),
{
    match find(s, p) {
        Some(i) => {
            assert(occurs_at(s@, p@, i as int));
            true
        },
        None => false,
    }
}

/// The last position, at or before `i`, at which `p` occurs in `s`.
pub open spec fn last_match(s: Seq<char>, p: Seq<char>, i: int) -> Option<int>
    decreases i + 1,
{
    if i < 0 {
        None
    } else if occurs_at(s, p, i) {
        Some(i)
    } else {
        last_match(s, p, i - 1)
    }
}

/// A last occurrence is what `last_match` finds from the end.
pub proof fn lemma_last_match_found(s: Seq<char>, p: Seq<char>, k: int, i: int)
    requires
        last_occurrence(s, p, k),
        k <= i <= s.len(),
    ensures
        last_match(s, p, i) == Some(k),
    decreases i - k,
{
    if i > k {
        assert(!occurs_at(s, p, i));
        lemma_last_match_found(s, p, k, i - 1);
    }
}

/// Without an occurrence `last_match` finds nothing.
pub proof fn lemma_last_match_none(s: Seq<char>, p: Seq<char>, i: int)
    requires
        !contains(s, p),
    ensures
        last_match(s, p, i) is None,
    decreases i + 1,
{
    if i >= 0 {
        assert(!occurs_at(s, p, i));
        lemma_last_match_none(s, p, i - 1);
    }
}

/// The character of a decimal digit.
pub open spec fn digit_char(d: nat) -> char {
    ((48 + d) as u8) as char
}

/// The decimal representation of `n` (`usize::to_string`).
pub open spec fn decimal_chars(n: nat) -> Seq<char>
    decreases n,
{
    if n < 10 {
        seq![digit_char(n)]
    } else {
        decimal_chars(n / 10).push(digit_char(n % 10))
    }
}

/// Writes `n` in decimal.
pub fn usize_to_chars(n: usize) -> (r: Vec<char>)
    ensures
        r@ == decimal_chars(n as nat),
    decreases n,
{
    let d = (n % 10) as u8;
    let c = (48u8 + d) as char;
    if n < 10 {
        let v = vec![c];
        assert(v@ =~= seq![digit_char(n as nat)]);
        v
    } else {
        let mut v = usize_to_chars(n / 10);
        v.push(c);
        v
    }
}

/// The first word of `s`: its characters up to the first white space.
pub open spec fn first_word(s: Seq<char>) -> Seq<char>
    decreases s.len(),
{
    if s.len() == 0 || is_white_space(s[0]) {
        seq![]
    } else {
        seq![s[0]] + first_word(s.drop_first())
    }
}

/// The characters of `s` up to its first white space.
pub fn first_word_of(s: &[char]) -> (r: Vec<char>)
    ensures
        r@ == first_word(s@),
{
    let mut i: usize = 0;
    while i < s.len() && !white_space(s[i])
        invariant
            i <= s.len(),
            forall|k: int| 0 <= k < i ==> !is_white_space(#[trigger] s@[k]),
        decreases s.len() - i,
    {
        i = i + 1;
    }
    proof {
        lemma_first_word_at(s@, i as int);
    }
    slice_chars(s, 0, i)
}

proof fn lemma_first_word_at(s: Seq<char>, k: int)
    requires
        0 <= k <= s.len(),
        forall|j: int| 0 <= j < k ==> !is_white_space(#[trigger] s[j]),
        k == s.len() || is_white_space(s[k]),
    ensures
        first_word(s) == s.subrange(0, k),
    decreases k,
{
    if k > 0 {
        let t = s.drop_first();
        assert forall|j: int| 0 <= j < k - 1 implies !is_white_space(#[trigger] t[j]) by {
            assert(t[j] == s[j + 1]);
        }
        if k < s.len() {
            assert(t[k - 1] == s[k]);
        }
        lemma_first_word_at(t, k - 1);
        assert(seq![s[0]] + t.subrange(0, k - 1) =~= s.subrange(0, k));
    } else {
        assert(s.subrange(0, 0) =~= Seq::<char>::empty());
    }
}

} // verus!
