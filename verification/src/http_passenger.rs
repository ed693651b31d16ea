use vstd::prelude::*;
use vstd::string::StringSliceAdditionalSpecFns;
use vstd::utf8::{decode_utf8, valid_utf8};
use bytes::BytesMut;
use crate::buffers::{bytes_mut_as_slice, bytes_mut_contents, bytes_mut_freeze, bytes_mut_split_to};
use crate::text::{chars_of, decimal_string, decimal_text, lossy_decoded, lossy_string, push_char, trim_range, trimmed};
use crate::buffers::bytes_as_slice;
use crate::buffers::bytes_contents;
use crate::ticket::{predicate_answers, predicate_total, BufferedField, FieldText, TicketField, TicketView};

verus! {

/// A line with its `\n` and then its `\r` taken off the end, where present.
pub open spec fn without_crlf(raw: Seq<u8>) -> Seq<u8> {
    let a = if raw.len() > 0 && raw.last() == 10 {
        raw.drop_last()
    } else {
        raw
    };
    if a.len() > 0 && a.last() == 13 {
        a.drop_last()
    } else {
        a
    }
}

/// The first position at or after `from` holding `x`, or the length when there is
/// none.
pub open spec fn next_index_of<T>(s: Seq<T>, x: T, from: int) -> int
    decreases s.len() - from,
{
    if from >= s.len() {
        s.len() as int
    } else if s[from] == x {
        from
    } else {
        next_index_of(s, x, from + 1)
    }
}

/// The request line read as method, path and version, split at the first two
/// spaces (a missing part is empty), and written back joined by single spaces.
pub open spec fn request_line_text(c: Seq<char>) -> Seq<char> {
    let i = next_index_of(c, ' ', 0);
    let method = c.subrange(0, i);
    let (path, version) = if i == c.len() {
        (Seq::<char>::empty(), Seq::<char>::empty())
    } else {
        let j = next_index_of(c, ' ', i + 1);
        if j == c.len() {
            (c.subrange(i + 1, c.len() as int), Seq::<char>::empty())
        } else {
            (c.subrange(i + 1, j), c.subrange(j + 1, c.len() as int))
        }
    };
    method + " "@ + path + " "@ + version
}

/// A header line: name and value around the first `:`, each with surrounding white
/// space trimmed; a line without `:` is kept whole as an attribute.
pub open spec fn header_line_field(c: Seq<char>) -> FieldText {
    let k = next_index_of(c, ':', 0);
    if k == c.len() {
        FieldText::Attribute(c)
    } else {
        FieldText::Header(trimmed(c.subrange(0, k)), trimmed(c.subrange(k + 1, c.len() as int)))
    }
}

pub proof fn lemma_next_index_of_bounds<T>(s: Seq<T>, x: T, from: int)
    requires
        0 <= from,
    ensures
        from <= next_index_of(s, x, from) <= s.len() || (from > s.len() && next_index_of(s, x, from)
            == s.len()),
        next_index_of(s, x, from) < s.len() ==> s[next_index_of(s, x, from)] == x,
        forall|i: int| from <= i < next_index_of(s, x, from) ==> s[i] != x,
    decreases s.len() - from,
{
    if from < s.len() && s[from] != x {
        lemma_next_index_of_bounds(s, x, from + 1);
    }
}

/// The first position at or after `from` holding the character `x`, or the length.
fn find_char(s: &[char], x: char, from: usize) -> (i: usize)
    requires
        from <= s@.len(),
    ensures
        i == next_index_of(s@, x, from as int),
{
    let mut i = from;
    while i < s.len()
        invariant
            from <= i <= s@.len(),
            next_index_of(s@, x, from as int) == next_index_of(s@, x, i as int),
        decreases s@.len() - i,
    {
        if s[i] == x {
            return i;
        }
        i = i + 1;
    }
    i
}

/// The first position at or after `from` holding the byte `x`, or the length.
pub fn find_byte(s: &[u8], x: u8, from: usize) -> (i: usize)
    requires
        from <= s@.len(),
    ensures
        i == next_index_of(s@, x, from as int),
{
    let mut i = from;
    while i < s.len()
        invariant
            from <= i <= s@.len(),
            next_index_of(s@, x, from as int) == next_index_of(s@, x, i as int),
        decreases s@.len() - i,
    {
        if s[i] == x {
            return i;
        }
        i = i + 1;
    }
    i
}

/// The line without its trailing `\n` and then `\r`.
pub fn strip_crlf(raw: &[u8]) -> (line: &[u8])
    ensures
        line@ == without_crlf(raw@),
{
    let mut end = raw.len();
    if end > 0 && raw[end - 1] == 10u8 {
        end = end - 1;
    }
    if end > 0 && raw[end - 1] == 13u8 {
        end = end - 1;
    }
    &raw[0..end]
}

fn push_range(out: &mut String, cs: &[char], lo: usize, hi: usize)
    requires
        lo <= hi <= cs@.len(),
    ensures
        final(out)@ == old(out)@ + cs@.subrange(lo as int, hi as int),
{
    let mut k = lo;
    while k < hi
        invariant
            lo <= k <= hi <= cs@.len(),
            out@ == old(out)@ + cs@.subrange(lo as int, k as int),
        decreases hi - k,
    {
        push_char(out, cs[k]);
        assert(cs@.subrange(lo as int, k + 1) == cs@.subrange(lo as int, k as int).push(cs@[k as int]));
        k = k + 1;
    }
}

/// The request line as one attribute: `"method path version"`.
pub fn parse_request_line(line: &[u8]) -> (f: TicketField)
    ensures
        f@ == TicketView::Buffered(FieldText::Attribute(request_line_text(lossy_decoded(line@)))),
        valid_utf8(line@) ==> lossy_decoded(line@) == decode_utf8(line@),
{
    let text = lossy_string(line);
    let cs = chars_of(text.as_str());
    let ghost c = cs@;
    let n = cs.len();
    let i = find_char(cs.as_slice(), ' ', 0);
    proof {
        lemma_next_index_of_bounds(c, ' ', 0);
    }
    let mut out = String::new();
    push_range(&mut out, cs.as_slice(), 0, i);
    out.append(" ");
    if i < n {
        let j = find_char(cs.as_slice(), ' ', i + 1);
        proof {
            lemma_next_index_of_bounds(c, ' ', i + 1);
        }
        push_range(&mut out, cs.as_slice(), i + 1, j);
        out.append(" ");
        if j < n {
            push_range(&mut out, cs.as_slice(), j + 1, n);
        }
    } else {
        out.append(" ");
    }
    TicketField::Buffered(BufferedField::Attribute(out))
}

/// A header line as `Header(name, value)`, or the whole line as an attribute when
/// it holds no `:`.
pub fn parse_header_line(line: &[u8]) -> (f: TicketField)
    ensures
        f@ == TicketView::Buffered(header_line_field(lossy_decoded(line@))),
        valid_utf8(line@) ==> lossy_decoded(line@) == decode_utf8(line@),
{
    let text = lossy_string(line);
    let cs = chars_of(text.as_str());
    let n = cs.len();
    let k = find_char(cs.as_slice(), ':', 0);
    proof {
        lemma_next_index_of_bounds(cs@, ':', 0);
    }
    if k < n {
        let key = trim_range(cs.as_slice(), 0, k);
        let value = trim_range(cs.as_slice(), k + 1, n);
        TicketField::Buffered(BufferedField::Header(key, value))
    } else {
        TicketField::Buffered(BufferedField::Attribute(text))
    }
}

/// Decodes the metadata section of an HTTP/1 request line by line: the request line,
/// then header lines, up to the empty line that ends the section.
pub struct HttpPassenger<P> {
    past_metadata: bool,
    seen_request_line: bool,
    buffer_predicate: P,
}

/// What one call of `HttpPassenger::decode` does, given the decoder's state, the
/// buffered bytes and (for a header line) what the predicate answered on the raw
/// line: the item handed out, the bytes left buffered, and the decoder's state
/// afterwards (metadata over, request line seen).
pub open spec fn http_decode_step(past: bool, seen: bool, src: Seq<u8>, admitted: bool) -> (
    Option<TicketView>,
    Seq<u8>,
    bool,
    bool,
) {
    let pos = next_index_of(src, 10u8, 0);
    if past || pos == src.len() {
        (None, src, past, seen)
    } else {
        let raw = src.subrange(0, pos + 1);
        let rest = src.subrange(pos + 1, src.len() as int);
        let line = without_crlf(raw);
        if line.len() == 0 {
            (Some(TicketView::Boundary), rest, true, seen)
        } else if !seen {
            (
                Some(
                    TicketView::Buffered(
                        FieldText::Attribute(request_line_text(lossy_decoded(line))),
                    ),
                ),
                rest,
                past,
                true,
            )
        } else if !admitted {
            (Some(TicketView::Passthrough(raw)), rest, past, seen)
        } else {
            (Some(TicketView::Buffered(header_line_field(lossy_decoded(line)))), rest, past, seen)
        }
    }
}

/// Whether a call on these bytes reaches a header line (and so asks the predicate
/// about it).
pub open spec fn http_header_ready(past: bool, seen: bool, src: Seq<u8>) -> bool {
    let pos = next_index_of(src, 10u8, 0);
    !past && pos < src.len() && seen && without_crlf(src.subrange(0, pos + 1)).len() > 0
}

/// The raw line (with its line ending) that such a call takes off the buffer.
pub open spec fn http_ready_line(src: Seq<u8>) -> Seq<u8> {
    src.subrange(0, next_index_of(src, 10u8, 0) + 1)
}

impl<P: Fn(&[u8]) -> bool> HttpPassenger<P> {
    /// A decoder that asks `buffer_predicate` of each raw header line whether to
    /// take it apart (`true`) or hand it on untouched (`false`).
    pub fn with_predicate(buffer_predicate: P) -> (d: Self)
        ensures
            !d.past_metadata(),
            !d.seen_request_line(),
            d.predicate() == buffer_predicate,
    {
        Self { past_metadata: false, seen_request_line: false, buffer_predicate }
    }

    pub closed spec fn past_metadata(&self) -> bool {
        self.past_metadata
    }

    pub closed spec fn seen_request_line(&self) -> bool {
        self.seen_request_line
    }

    pub closed spec fn predicate(&self) -> P {
        self.buffer_predicate
    }

    /// Takes the next complete line off `src`, if there is one: the request line
    /// first, then header lines (parsed or passed through as the predicate says),
    /// then the boundary at the empty line, after which nothing more is decoded.
    /// Never fails.
    pub fn decode(&mut self, src: &mut BytesMut) -> (r: Result<Option<TicketField>, std::io::Error>)
        requires
            predicate_total(old(self).predicate()),
        ensures
            final(self).predicate() == old(self).predicate(),
            r matches Ok(item) && ({
                let s = bytes_mut_contents(*old(src));
                let past = old(self).past_metadata();
                let seen = old(self).seen_request_line();
                let outcome = (
                    match item {
                        Some(f) => Some(f@),
                        None => None::<TicketView>,
                    },
                    bytes_mut_contents(*final(src)),
                    final(self).past_metadata(),
                    final(self).seen_request_line(),
                );
                if http_header_ready(past, seen, s) {
                    ||| outcome == http_decode_step(past, seen, s, true) && predicate_answers(
                        old(self).predicate(),
                        http_ready_line(s),
                        true,
                    )
                    ||| outcome == http_decode_step(past, seen, s, false) && predicate_answers(
                        old(self).predicate(),
                        http_ready_line(s),
                        false,
                    )
                } else {
                    outcome == http_decode_step(past, seen, s, true)
                }
            }),
            r matches Ok(Some(f)) ==> (f@ is Buffered ==> ({
                let line = without_crlf(http_ready_line(bytes_mut_contents(*old(src))));
                valid_utf8(line) ==> lossy_decoded(line) == decode_utf8(line)
            })),
    {
        if self.past_metadata {
            return Ok(None);
        }
        let view = bytes_mut_as_slice(src);
        let pos = find_byte(view, 10u8, 0);
        proof {
            lemma_next_index_of_bounds(view@, 10u8, 0);
        }
        if pos == view.len() {
            return Ok(None);
        }
        let line_bytes = bytes_mut_split_to(src, pos + 1);
        let raw = bytes_mut_as_slice(&line_bytes);
        let line = strip_crlf(raw);
        if line.len() == 0 {
            self.past_metadata = true;
            return Ok(Some(TicketField::Boundary));
        }
        if !self.seen_request_line {
            self.seen_request_line = true;
            return Ok(Some(parse_request_line(line)));
        }
        let admitted = (self.buffer_predicate)(raw);
        if !admitted {
            return Ok(Some(TicketField::Passthrough(bytes_mut_freeze(line_bytes))));
        }
        Ok(Some(parse_header_line(line)))
    }
}

/// The line the development server logs for a decoded field (nothing for the
/// boundary).
pub open spec fn field_log_text(f: TicketView) -> Option<Seq<char>> {
    match f {
        TicketView::Buffered(FieldText::Attribute(a)) => Some("[dev]   > "@ + a),
        TicketView::Buffered(FieldText::Header(k, v)) => Some("[dev]   "@ + k + ": "@ + v),
        TicketView::Buffered(FieldText::KeyValue(k, v)) => Some("[dev]   "@ + k + "="@ + v),
        TicketView::Buffered(FieldText::Bytes(b)) => Some(
            "[dev]   ("@ + decimal_text(b.len()) + " raw bytes)"@,
        ),
        TicketView::Passthrough(b) => Some("[dev]   passthrough ("@ + decimal_text(b.len()) + " bytes)"@),
        TicketView::Boundary => None,
    }
}

/// The log line for a decoded field.
pub fn field_log_line(field: &TicketField) -> (line: Option<String>)
    ensures
        match line {
            Some(l) => field_log_text(field@) == Some(l@),
            None => field_log_text(field@) is None,
        },
{
    match field {
        TicketField::Buffered(bf) => match bf {
            BufferedField::Attribute(a) => {
                let mut s = String::from_str("[dev]   > ");
                s.append(a.as_str());
                Some(s)
            },
            BufferedField::Header(k, v) => {
                let mut s = String::from_str("[dev]   ");
                s.append(k.as_str());
                s.append(": ");
                s.append(v.as_str());
                Some(s)
            },
            BufferedField::KeyValue(k, v) => {
                let mut s = String::from_str("[dev]   ");
                s.append(k);
                s.append("=");
                s.append(v);
                Some(s)
            },
            BufferedField::Bytes(b) => {
                let mut s = String::from_str("[dev]   (");
                let n = decimal_string(bytes_as_slice(b).len() as u64);
                s.append(n.as_str());
                s.append(" raw bytes)");
                Some(s)
            },
        },
        TicketField::Passthrough(b) => {
            let mut s = String::from_str("[dev]   passthrough (");
            let n = decimal_string(bytes_as_slice(b).len() as u64);
            s.append(n.as_str());
            s.append(" bytes)");
            Some(s)
        },
        TicketField::Boundary => None,
    }
}

/// The body the development server answers with.
pub const DEV_BODY: &'static str = "railscale dev server\n";

/// A complete `200 OK` response carrying `body`, asking the client to close.
pub open spec fn ok_response_text(body: Seq<char>, body_len: nat) -> Seq<char> {
    "HTTP/1.1 200 OK\r\nContent-Length: "@ + decimal_text(body_len) + "\r\nConnection: close\r\n\r\n"@
        + body
}

/// The development server's response to a request whose headers are complete.
pub fn ok_response(body: &str) -> (r: String)
    ensures
        r@ == ok_response_text(body@, body.spec_bytes().len()),
{
    let mut s = String::from_str("HTTP/1.1 200 OK\r\nContent-Length: ");
    let len = body.as_bytes().len();
    let n = decimal_string(len as u64);
    s.append(n.as_str());
    s.append("\r\nConnection: close\r\n\r\n");
    s.append(body);
    s
}

} // verus!
