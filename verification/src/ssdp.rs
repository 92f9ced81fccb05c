//! Reading Nanoleaf SSDP discovery responses.
use vstd::prelude::*;
use crate::text::{
    chars_of, fields, first_field, first_field_of, has_prefix, last_field, last_field_of,
    lemma_fields_step, lemma_first_match_some, slice_chars, split_once, starts_with, string_from,
    trim_start_by, trim_start_ws,
};

verus! {

/// The line separator of an HTTP-style response.
pub open spec fn crlf() -> Seq<char> {
    seq!['\r', '\n']
}

/// The host of a `Location` header: its last space-separated word, without the
/// `http://` scheme, up to the first `:`.
pub open spec fn location_ip(line: Seq<char>) -> Seq<char> {
    let url = last_field(line, ' ');
    first_field(url.subrange("http://"@.len() as int, url.len() as int), ':')
}

/// The device name of an `nl-devicename` header: what follows its last `:`,
/// without leading white space.
pub open spec fn device_name(line: Seq<char>) -> Seq<char> {
    trim_start_by(false, last_field(line, ':'))
}

/// A header line that can be read: a `Location` header must carry an
/// `http://` URL as its last word.
pub open spec fn header_readable(line: Seq<char>) -> bool {
    starts_with(line, "Location"@) ==> starts_with(last_field(line, ' '), "http://"@)
}

/// Every header line of the response can be read.
pub open spec fn lines_readable(lines: Seq<Seq<char>>) -> bool {
    forall|k: int| 0 <= k < lines.len() ==> header_readable(#[trigger] lines[k])
}

/// The name and address found so far, after one more header line; a later
/// header replaces an earlier one.
pub open spec fn header_step(
    found: (Option<Seq<char>>, Option<Seq<char>>),
    line: Seq<char>,
) -> (Option<Seq<char>>, Option<Seq<char>>) {
    if starts_with(line, "Location"@) {
        (found.0, Some(location_ip(line)))
    } else if starts_with(line, "nl-devicename"@) {
        (Some(device_name(line)), found.1)
    } else {
        found
    }
}

/// The name and address after reading `lines` in order.
pub open spec fn scan_headers(
    found: (Option<Seq<char>>, Option<Seq<char>>),
    lines: Seq<Seq<char>>,
) -> (Option<Seq<char>>, Option<Seq<char>>)
    decreases lines.len(),
{
    if lines.len() == 0 {
        found
    } else {
        scan_headers(header_step(found, lines[0]), lines.drop_first())
    }
}

/// The device name and IP address that a discovery response announces, when it
/// carries both.
pub open spec fn name_and_ip(s: Seq<char>) -> Option<(Seq<char>, Seq<char>)> {
    match scan_headers((None, None), fields(s, crlf())) {
        (Some(name), Some(ip)) => Some((name, ip)),
        _ => None,
    }
}

/// The view of an optional character vector.
pub open spec fn opt_chars(o: Option<Vec<char>>) -> Option<Seq<char>> {
    match o {
        Some(v) => Some(v@),
        None => None,
    }
}

/// Whether one header line can be read.
fn header_line_readable(line: &[char]) -> (r: bool)
    ensures
        r == header_readable(line@),
{
    let location = chars_of("Location");
    if has_prefix(line, &location) {
        let http = chars_of("http://");
        let url = last_field_of(line, ' ');
        has_prefix(&url, &http)
    } else {
        true
    }
}

/// Reads one header line into what was found so far.
fn read_header(
    line: &[char],
    name: Option<Vec<char>>,
    ip: Option<Vec<char>>,
) -> (r: (Option<Vec<char>>, Option<Vec<char>>))
    requires
        header_readable(line@),
    ensures
        (opt_chars(r.0), opt_chars(r.1)) == header_step((opt_chars(name), opt_chars(ip)), line@),
{
    let location = chars_of("Location");
    let devname = chars_of("nl-devicename");
    if has_prefix(line, &location) {
        let http = chars_of("http://");
        let url = last_field_of(line, ' ');
        let after = slice_chars(&url, http.len(), url.len());
        (name, Some(first_field_of(&after, ':')))
    } else if has_prefix(line, &devname) {
        let last = last_field_of(line, ':');
        (Some(trim_start_ws(&last)), ip)
    } else {
        (name, ip)
    }
}

/// One step through the lines: the first line, then the lines of the rest.
proof fn lemma_next_line(s: Seq<char>, a: Seq<char>, b: Seq<char>)
    requires
        crate::text::split_once_spec(s, crlf()) == Some((a, b)),
    ensures
        fields(s, crlf()) == seq![a] + fields(b, crlf()),
        fields(s, crlf())[0] == a,
        fields(s, crlf()).drop_first() == fields(b, crlf()),
        b.len() < s.len(),
{
    lemma_fields_step(s, crlf());
    lemma_first_match_some(s, crlf(), 0);
    assert((seq![a] + fields(b, crlf())).drop_first() =~= fields(b, crlf()));
}

/// Whether every header line of a discovery response can be read, which
/// `parse_name_and_ip` needs.
pub fn ssdp_response_readable(s: &str) -> (r: bool)
    ensures
        r == lines_readable(fields(s@, crlf())),
{
    let sep: Vec<char> = vec!['\r', '\n'];
    assert(sep@ =~= crlf());
    let mut rest = chars_of(s);
    loop
        invariant
            sep@ == crlf(),
            lines_readable(fields(s@, crlf())) == lines_readable(fields(rest@, crlf())),
        decreases rest.len(),
    {
        proof {
            lemma_fields_step(rest@, crlf());
        }
        match split_once(&rest, &sep) {
            Some((a, b)) => {
                proof {
                    lemma_next_line(rest@, a@, b@);
                    let all = fields(rest@, crlf());
                    let tail = fields(b@, crlf());
                    if lines_readable(tail) && header_readable(a@) {
                        assert forall|k: int| 0 <= k < all.len() implies header_readable(
                            #[trigger] all[k],
                        ) by {
                            if k > 0 {
                                assert(all[k] == tail[k - 1]);
                            }
                        }
                    }
                    if lines_readable(all) {
                        assert(header_readable(all[0]));
                        assert forall|k: int| 0 <= k < tail.len() implies header_readable(
                            #[trigger] tail[k],
                        ) by {
                            assert(tail[k] == all[k + 1]);
                        }
                    }
                }
                if !header_line_readable(&a) {
                    proof {
                        assert(header_readable(fields(rest@, crlf())[0]) == false);
                    }
                    return false;
                }
                rest = b;
            },
            None => {
                let ok = header_line_readable(&rest);
                proof {
                    let all = fields(rest@, crlf());
                    assert(all.len() == 1 && all[0] == rest@);
                    if ok {
                        assert forall|k: int| 0 <= k < all.len() implies header_readable(
                            #[trigger] all[k],
                        ) by {}
                    }
                }
                return ok;
            },
        }
    }
}

/// Reads the device name (`nl-devicename` header) and IP address (host of the
/// `Location` header) from an SSDP discovery response; `None` unless both occur.
/// Where a header occurs twice, the later one counts.
pub fn parse_name_and_ip(s: &str) -> (r: Option<(String, String)>)
    requires
        lines_readable(fields(s@, crlf())),
    ensures
        match r {
            Some((name, ip)) => name_and_ip(s@) == Some((name@, ip@)),
            None => name_and_ip(s@) is None,
        },
{
    let sep: Vec<char> = vec!['\r', '\n'];
    assert(sep@ =~= crlf());
    let mut rest = chars_of(s);
    let mut name: Option<Vec<char>> = None;
    let mut ip: Option<Vec<char>> = None;
    loop
        invariant
            sep@ == crlf(),
            scan_headers((None, None), fields(s@, crlf())) == scan_headers(
                (opt_chars(name), opt_chars(ip)),
                fields(rest@, crlf()),
            ),
            lines_readable(fields(rest@, crlf())),
        decreases rest.len(),
    {
        proof {
            lemma_fields_step(rest@, crlf());
        }
        match split_once(&rest, &sep) {
            Some((a, b)) => {
                proof {
                    lemma_next_line(rest@, a@, b@);
                    let all = fields(rest@, crlf());
                    let tail = fields(b@, crlf());
                    assert(header_readable(all[0]));
                    assert forall|k: int| 0 <= k < tail.len() implies header_readable(
                        #[trigger] tail[k],
                    ) by {
                        assert(tail[k] == all[k + 1]);
                    }
                }
                let (n2, i2) = read_header(&a, name, ip);
                name = n2;
                ip = i2;
                rest = b;
            },
            None => {
                proof {
                    let all = fields(rest@, crlf());
                    assert(all.len() == 1 && all[0] == rest@);
                    assert(header_readable(all[0]));
                    let found = (opt_chars(name), opt_chars(ip));
                    assert(all.drop_first().len() == 0);
                    assert(scan_headers(found, all) == scan_headers(
                        header_step(found, rest@),
                        all.drop_first(),
                    ));
                    assert(scan_headers(header_step(found, rest@), all.drop_first())
                        == header_step(found, rest@));
                }
                let (n2, i2) = read_header(&rest, name, ip);
                return match (n2, i2) {
                    (Some(n), Some(i)) => Some((string_from(&n), string_from(&i))),
                    _ => None,
                };
            },
        }
    }
}

/// No address occurs twice in the list.
pub open spec fn distinct_ips(ips: Seq<[u8; 4]>) -> bool {
    forall|a: int, b: int| 0 <= a < b < ips.len() ==> ips[a] != ips[b]
}

/// Adds a discovered device to the lists of names and addresses, unless its
/// address is listed already; says whether it was added.
pub fn add_discovered_device(names: &mut Vec<String>, ips: &mut Vec<[u8; 4]>, name: String, ip: [u8; 4]) -> (added: bool)
    ensures
        added == !old(ips)@.contains(ip),
        added ==> final(names)@ == old(names)@.push(name) && final(ips)@ == old(ips)@.push(ip),
        !added ==> final(names)@ == old(names)@ && final(ips)@ == old(ips)@,
{
    let mut i: usize = 0;
    while i < ips.len()
        invariant
            i <= ips@.len(),
            forall|j: int| 0 <= j < i ==> ips@[j] != ip,
        decreases ips.len() - i,
    {
        let listed = ips[i];
        if listed[0] == ip[0] && listed[1] == ip[1] && listed[2] == ip[2] && listed[3] == ip[3] {
            assert(listed =~= ip);
            assert(ips@[i as int] == ip);
            return false;
        }
        assert(listed != ip) by {
            if listed == ip {
                assert(listed[0] == ip[0]);
            }
        }
        i = i + 1;
    }
    assert(!ips@.contains(ip));
    names.push(name);
    ips.push(ip);
    true
}

/// Adding discovered devices never lists an address twice.
pub proof fn lemma_discovered_ips_distinct(ips: Seq<[u8; 4]>, ip: [u8; 4])
    requires
        distinct_ips(ips),
    ensures
        !ips.contains(ip) ==> distinct_ips(ips.push(ip)),
{
    if !ips.contains(ip) {
        assert forall|a: int, b: int| 0 <= a < b < ips.push(ip).len() implies ips.push(ip)[a] != ips.push(ip)[b] by {
            if b == ips.len() {
                assert(ips[a] == ips.push(ip)[a]);
            }
        }
    }
}

/// Reading lines none of which starts with `nl-devicename` leaves the name as
/// it was.
proof fn lemma_scan_keeps_name(found: (Option<Seq<char>>, Option<Seq<char>>), lines: Seq<Seq<char>>)
    requires
        forall|k: int| 0 <= k < lines.len() ==> !starts_with(#[trigger] lines[k], "nl-devicename"@),
    ensures
        scan_headers(found, lines).0 == found.0,
    decreases lines.len(),
{
    if lines.len() > 0 {
        let rest = lines.drop_first();
        assert forall|k: int| 0 <= k < rest.len() implies !starts_with(#[trigger] rest[k], "nl-devicename"@) by {
            assert(rest[k] == lines[k + 1]);
        }
        assert(!starts_with(lines[0], "nl-devicename"@));
        lemma_scan_keeps_name(header_step(found, lines[0]), rest);
    }
}

/// Only a header that starts with `nl-devicename` sets the device name: any
/// other line, `nl-deviceid` among them, leaves the name as it was, and a
/// response without such a header gives no device.
pub proof fn lemma_only_devicename_sets_name(
    found: (Option<Seq<char>>, Option<Seq<char>>),
    line: Seq<char>,
    s: Seq<char>,
)
    ensures
        !starts_with(line, "nl-devicename"@) ==> header_step(found, line).0 == found.0,
        (forall|k: int|
            0 <= k < fields(s, crlf()).len() ==> !starts_with(#[trigger] fields(s, crlf())[k], "nl-devicename"@))
            ==> name_and_ip(s) is None,
{
    if forall|k: int|
        0 <= k < fields(s, crlf()).len() ==> !starts_with(#[trigger] fields(s, crlf())[k], "nl-devicename"@) {
        lemma_scan_keeps_name((None, None), fields(s, crlf()));
    }
}

} // verus!
