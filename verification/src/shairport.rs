//! The reader of the Shairport Sync metadata stream: a cursor that consumes the
//! XML events of the stream and yields one metadata item per `<item>` element.
//!
//! Each item looks like
//! `<item><type>636f7265</type><code>61736172</code><length>26</length>`
//! `<data encoding="base64">RE1ORFMg...</data></item>`; large payloads span
//! many base64 lines, and `<data>` may be absent.
use vstd::prelude::*;
use vstd::utf8::{valid_utf8, decode_utf8, encode_utf8};
use crate::text::{
    chars_eq, chars_of, decimal_literal, is_white_space, lower, parse_usize, push_char, string_from,
    to_lower, trim, trim_chars, white_space,
};
use crate::metadata::{fourcc_of_chars, fourcc_spec, opt_bytes, utf8_str};

verus! {

/// What `base64`'s standard engine decodes `input` to, where it is valid.
pub uninterp spec fn base64_decoded(input: Seq<u8>) -> Option<Seq<u8>>;

/// `base64::engine::general_purpose::STANDARD.decode`: the bytes the padded
/// standard-alphabet text `input` encodes, or nothing where it is not valid base64.
#[verifier::external_body]
pub(crate) fn base64_decode(input: &[u8]) -> (r: Option<Vec<u8>>)
    ensures
        opt_bytes(r) == base64_decoded(input@),
{
    base64::Engine::decode(&base64::engine::general_purpose::STANDARD, input).ok()
}

/// An event of the XML reader, as the cursor needs it: element names as text,
/// text and CDATA contents as raw bytes.
pub enum XmlEvent {
    Start(String),
    Text(Vec<u8>),
    CData(Vec<u8>),
    End(String),
    /// Any other event (declarations, comments, empty elements, ...).
    Other,
}

/// One metadata item of the stream: its type and code (four-character codes) and
/// its decoded payload.
pub struct MetadataRecord {
    pub item_type: String,
    pub code: String,
    pub payload: Vec<u8>,
}

/// The position of the reader within the stream.
pub struct MetadataCursor {
    in_item: bool,
    current_tag: Option<Vec<char>>,
    type_hex: Vec<char>,
    code_hex: Vec<char>,
    length: usize,
    encoded: String,
    has_data: bool,
}

/// The contents of a `MetadataCursor`.
pub ghost struct CursorView {
    pub in_item: bool,
    pub current_tag: Option<Seq<char>>,
    pub type_hex: Seq<char>,
    pub code_hex: Seq<char>,
    pub length: usize,
    pub encoded: Seq<char>,
    pub has_data: bool,
}

impl View for MetadataCursor {
    type V = CursorView;

    closed spec fn view(&self) -> CursorView {
        CursorView {
            in_item: self.in_item,
            current_tag: match self.current_tag {
                Some(t) => Some(t@),
                None => None,
            },
            type_hex: self.type_hex@,
            code_hex: self.code_hex@,
            length: self.length,
            encoded: self.encoded@,
            has_data: self.has_data,
        }
    }
}

/// The cursor outside any item.
pub open spec fn idle() -> CursorView {
    CursorView {
        in_item: false,
        current_tag: None,
        type_hex: seq![],
        code_hex: seq![],
        length: 0,
        encoded: seq![],
        has_data: false,
    }
}

/// The characters of `s` that are not white space.
pub open spec fn without_white_space(s: Seq<char>) -> Seq<char>
    decreases s.len(),
{
    if s.len() == 0 {
        s
    } else if is_white_space(s.last()) {
        without_white_space(s.drop_last())
    } else {
        without_white_space(s.drop_last()).push(s.last())
    }
}

/// The text of raw event bytes: their UTF-8 decoding, or nothing where invalid.
pub open spec fn event_text(bytes: Seq<u8>) -> Seq<char> {
    if valid_utf8(bytes) {
        decode_utf8(bytes)
    } else {
        seq![]
    }
}

/// The value read from a `<length>` element: the trimmed text as `usize`, or 0.
pub open spec fn length_value(text: Seq<char>) -> usize {
    match decimal_literal(trim(text)) {
        Some(v) => if v <= usize::MAX {
            v as usize
        } else {
            0
        },
        None => 0,
    }
}

/// The item an `</item>` closes, where its type and code decode to non-empty
/// codes: the type lower-cased, the payload the base64 decoding of the data (empty
/// where there was no data or it does not decode).
pub open spec fn finished_item(c: CursorView) -> Option<(Seq<char>, Seq<char>, Seq<u8>)> {
    if c.type_hex.len() == 0 || c.code_hex.len() == 0 {
        None
    } else {
        let item_type = match fourcc_spec(c.type_hex) {
            Some(t) => lower(t),
            None => seq![],
        };
        let code = match fourcc_spec(c.code_hex) {
            Some(t) => t,
            None => seq![],
        };
        let payload = if c.has_data && c.encoded.len() > 0 {
            match base64_decoded(encode_utf8(c.encoded)) {
                Some(p) => p,
                None => seq![],
            }
        } else {
            seq![]
        };
        if item_type.len() > 0 && code.len() > 0 {
            Some((item_type, code, payload))
        } else {
            None
        }
    }
}

/// The cursor after an event, and the item that event completes.
pub open spec fn step_spec(c: CursorView, ev: XmlEvent) -> (CursorView, Option<(Seq<char>, Seq<char>, Seq<u8>)>) {
    match ev {
        XmlEvent::Start(name) => if name@ == "item"@ {
            (CursorView { in_item: true, ..idle() }, None)
        } else if c.in_item && (name@ == "type"@ || name@ == "code"@ || name@ == "length"@ || name@
            == "data"@) {
            (
                CursorView {
                    current_tag: Some(name@),
                    has_data: c.has_data || name@ == "data"@,
                    ..c
                },
                None,
            )
        } else {
            (c, None)
        },
        XmlEvent::Text(bytes) => if !c.in_item {
            (c, None)
        } else {
            let text = event_text(bytes@);
            if c.current_tag == Some("type"@) {
                (CursorView { type_hex: c.type_hex + trim(text), ..c }, None)
            } else if c.current_tag == Some("code"@) {
                (CursorView { code_hex: c.code_hex + trim(text), ..c }, None)
            } else if c.current_tag == Some("length"@) {
                (CursorView { length: length_value(text), ..c }, None)
            } else if c.current_tag == Some("data"@) {
                (CursorView { encoded: c.encoded + without_white_space(text), ..c }, None)
            } else {
                (c, None)
            }
        },
        XmlEvent::CData(bytes) => if c.current_tag == Some("data"@) {
            (
                CursorView {
                    encoded: c.encoded + without_white_space(event_text(bytes@)),
                    ..c
                },
                None,
            )
        } else {
            (c, None)
        },
        XmlEvent::End(name) => if name@ == "item"@ {
            (idle(), finished_item(c))
        } else if c.current_tag == Some(name@) {
            (CursorView { current_tag: None, ..c }, None)
        } else {
            (c, None)
        },
        XmlEvent::Other => (c, None),
    }
}

/// The view of an optional record.
pub open spec fn record_view(r: Option<MetadataRecord>) -> Option<(Seq<char>, Seq<char>, Seq<u8>)> {
    match r {
        Some(m) => Some((m.item_type@, m.code@, m.payload@)),
        None => None,
    }
}

fn append_chars(dst: &mut Vec<char>, src: &[char])
    ensures
        final(dst)@ == old(dst)@ + src@,
{
    let mut i: usize = 0;
    let ghost start = dst@;
    while i < src.len()
        invariant
            i <= src.len(),
            dst@ == start + src@.subrange(0, i as int),
        decreases src.len() - i,
    {
        dst.push(src[i]);
        assert(start + src@.subrange(0, i + 1) =~= (start + src@.subrange(0, i as int)).push(
            src@[i as int],
        ));
        i = i + 1;
    }
    assert(src@.subrange(0, src.len() as int) =~= src@);
}

fn append_visible(dst: &mut String, src: &[char])
    ensures
        final(dst)@ == old(dst)@ + without_white_space(src@),
{
    let mut i: usize = 0;
    let ghost start = dst@;
    assert(without_white_space(src@.subrange(0, 0)) =~= seq![]);
    while i < src.len()
        invariant
            i <= src.len(),
            dst@ == start + without_white_space(src@.subrange(0, i as int)),
        decreases src.len() - i,
    {
        let c = src[i];
        assert(src@.subrange(0, i + 1).drop_last() =~= src@.subrange(0, i as int));
        if !white_space(c) {
            push_char(dst, c);
            assert(start + without_white_space(src@.subrange(0, i + 1)) =~= (start
                + without_white_space(src@.subrange(0, i as int))).push(c));
        }
        i = i + 1;
    }
    assert(src@.subrange(0, src.len() as int) =~= src@);
}

fn text_chars(bytes: &[u8]) -> (r: Vec<char>)
    ensures
        r@ == event_text(bytes@),
{
    match utf8_str(bytes) {
        Some(s) => chars_of(s),
        None => Vec::new(),
    }
}

fn tag_is(tag: &Option<Vec<char>>, lit: &str) -> (r: bool)
    ensures
        r == (match tag {
            Some(t) => t@ == lit@,
            None => false,
        }),
{
    match tag {
        Some(t) => {
            let l = chars_of(lit);
            chars_eq(t, &l)
        },
        None => false,
    }
}

impl MetadataCursor {
    /// A cursor outside any item.
    pub fn new() -> (r: Self)
        ensures
            r@ == idle(),
    {
        MetadataCursor {
            in_item: false,
            current_tag: None,
            type_hex: Vec::new(),
            code_hex: Vec::new(),
            length: 0,
            encoded: String::new(),
            has_data: false,
        }
    }

    fn finish_item(&self) -> (r: Option<MetadataRecord>)
        ensures
            record_view(r) == finished_item(self@),
    {
        if self.type_hex.len() == 0 || self.code_hex.len() == 0 {
            return None;
        }
        let item_type: Vec<char> = match fourcc_of_chars(&self.type_hex) {
            Some(t) => to_lower(&t),
            None => Vec::new(),
        };
        let code: Vec<char> = match fourcc_of_chars(&self.code_hex) {
            Some(t) => t,
            None => Vec::new(),
        };
        let payload: Vec<u8> = if self.has_data && self.encoded.as_str().unicode_len() > 0 {
            match base64_decode(self.encoded.as_str().as_bytes()) {
                Some(p) => p,
                None => Vec::new(),
            }
        } else {
            Vec::new()
        };
        if item_type.len() > 0 && code.len() > 0 {
            Some(
                MetadataRecord {
                    item_type: string_from(&item_type),
                    code: string_from(&code),
                    payload,
                },
            )
        } else {
            None
        }
    }

    /// Consumes one event; returns the item it completes (see `step_spec`).
    pub fn step(&mut self, ev: XmlEvent) -> (r: Option<MetadataRecord>)
        ensures
            (final(self)@, record_view(r)) == step_spec(old(self)@, ev),
    {
        match ev {
            XmlEvent::Start(name) => {
                let n = chars_of(name.as_str());
                let is_item = chars_eq(&n, &chars_of("item"));
                if is_item {
                    *self = MetadataCursor::new();
                    self.in_item = true;
                } else if self.in_item {
                    let is_type = chars_eq(&n, &chars_of("type"));
                    let is_code = chars_eq(&n, &chars_of("code"));
                    let is_length = chars_eq(&n, &chars_of("length"));
                    let is_data = chars_eq(&n, &chars_of("data"));
                    if is_type || is_code || is_length || is_data {
                        self.current_tag = Some(n);
                        if is_data {
                            self.has_data = true;
                        }
                    }
                }
                None
            },
            XmlEvent::Text(bytes) => {
                if self.in_item {
                    let text = text_chars(&bytes);
                    if tag_is(&self.current_tag, "type") {
                        let t = trim_chars(&text, false);
                        append_chars(&mut self.type_hex, &t);
                    } else if tag_is(&self.current_tag, "code") {
                        let t = trim_chars(&text, false);
                        append_chars(&mut self.code_hex, &t);
                    } else if tag_is(&self.current_tag, "length") {
                        let t = trim_chars(&text, false);
                        self.length = match parse_usize(&t) {
                            Some(v) => v,
                            None => 0,
                        };
                    } else if tag_is(&self.current_tag, "data") {
                        append_visible(&mut self.encoded, &text);
                    }
                }
                None
            },
            XmlEvent::CData(bytes) => {
                if tag_is(&self.current_tag, "data") {
                    let text = text_chars(&bytes);
                    append_visible(&mut self.encoded, &text);
                }
                None
            },
            XmlEvent::End(name) => {
                let n = chars_of(name.as_str());
                if chars_eq(&n, &chars_of("item")) {
                    let r = self.finish_item();
                    *self = MetadataCursor::new();
                    r
                } else {
                    let same = match &self.current_tag {
                        Some(t) => chars_eq(t, &n),
                        None => false,
                    };
                    if same {
                        self.current_tag = None;
                    }
                    None
                }
            },
            XmlEvent::Other => None,
        }
    }
}

} // verus!
