use vstd::prelude::*;
use vstd::utf8::{decode_utf8, valid_utf8};
use bytes::BytesMut;
use crate::buffers::{bytes_mut_as_slice, bytes_mut_contents, bytes_mut_freeze, bytes_mut_split_to};
use crate::text::{decimal_string, decimal_text, string_from_utf8};
use crate::ticket::{
    fields_text, join_fields, joined_fields, predicate_answers, predicate_total, BufferedField,
    FieldText, TicketField, TicketView,
};

verus! {

/// Length of a TLS record header: type(1) + version(2) + length(2).
pub const TLS_RECORD_HEADER_LEN: usize = 5;

/// Length of a handshake message header: type(1) + length(3).
pub const HANDSHAKE_HEADER_LEN: usize = 4;

/// Record content type of a handshake record.
pub const CONTENT_TYPE_HANDSHAKE: u8 = 22;

/// Handshake message type of a ClientHello.
pub const HANDSHAKE_CLIENT_HELLO: u8 = 1;

/// Extension type of the server_name extension.
pub const EXT_SERVER_NAME: u16 = 0x0000;

/// The big-endian 16-bit number at `i`.
pub open spec fn be16(s: Seq<u8>, i: int) -> nat {
    s[i] as nat * 256 + s[i + 1] as nat
}

/// The name a TLS protocol version number is reported under.
pub open spec fn version_name(v: u16) -> Seq<char> {
    if v == 0x0300 {
        "ssl3.0"@
    } else if v == 0x0301 {
        "tls1.0"@
    } else if v == 0x0302 {
        "tls1.1"@
    } else if v == 0x0303 {
        "tls1.2"@
    } else if v == 0x0304 {
        "tls1.3"@
    } else {
        "unknown"@
    }
}

/// The host name carried by a server_name extension body:
/// list_length(2) + entry_type(1) + name_length(2) + name, where the entry must be
/// a host_name (type 0) and the name well-formed UTF-8.
pub open spec fn sni_host(data: Seq<u8>) -> Option<Seq<char>> {
    if data.len() < 5 || data[2] != 0 {
        None
    } else {
        let n = be16(data, 3) as int;
        if data.len() < 5 + n {
            None
        } else if valid_utf8(data.subrange(5, 5 + n)) {
            Some(decode_utf8(data.subrange(5, 5 + n)))
        } else {
            None
        }
    }
}

/// The SNI fields found while walking the extension list of a ClientHello from
/// `at` to `end`: each entry is type(2) + length(2) + body.
pub open spec fn sni_fields(hello: Seq<u8>, at: int, end: int) -> Seq<FieldText>
    decreases end - at,
{
    if at + 4 > end {
        Seq::empty()
    } else {
        let len = be16(hello, at + 2) as int;
        let body = at + 4;
        let here = if be16(hello, at) == 0 && len > 0 {
            match sni_host(hello.subrange(body, body + len)) {
                Some(name) => seq![FieldText::Header("sni"@, name)],
                None => Seq::empty(),
            }
        } else {
            Seq::empty()
        };
        let rest = if body + len <= end {
            sni_fields(hello, body + len, end)
        } else {
            Seq::empty()
        };
        here + rest
    }
}

/// Whether the walk over the extension list meets a server_name entry whose
/// declared body runs past the end of the message.
pub open spec fn sni_walk_overruns(hello: Seq<u8>, at: int, end: int) -> bool
    decreases end - at,
{
    if at + 4 > end {
        false
    } else {
        let len = be16(hello, at + 2) as int;
        let body = at + 4;
        (be16(hello, at) == 0 && len > 0 && body + len > hello.len()) || (body + len <= end
            && sni_walk_overruns(hello, body + len, end))
    }
}

/// Where the cipher suite list of a ClientHello body starts: after
/// version(2) + random(32) + session id length(1) + session id.
pub open spec fn cipher_suites_at(hello: Seq<u8>) -> int {
    35 + hello[34] as int
}

/// Where the compression method list starts.
pub open spec fn compression_at(hello: Seq<u8>) -> int {
    cipher_suites_at(hello) + 2 + be16(hello, cipher_suites_at(hello))
}

/// Where the two-byte extensions length stands.
pub open spec fn extensions_len_at(hello: Seq<u8>) -> int {
    compression_at(hello) + 1 + hello[compression_at(hello)] as int
}

/// The extension list, from its first entry to its end, when the ClientHello body
/// is long enough to hold it.
pub open spec fn extension_span(hello: Seq<u8>) -> Option<(int, int)> {
    if 34 >= hello.len() || cipher_suites_at(hello) + 2 > hello.len() || compression_at(hello)
        >= hello.len() || extensions_len_at(hello) + 2 > hello.len() {
        None
    } else {
        let start = extensions_len_at(hello) + 2;
        let end = start + be16(hello, extensions_len_at(hello));
        if end > hello.len() {
            None
        } else {
            Some((start, end))
        }
    }
}

/// The fields read from a ClientHello body: its version, then the number of cipher
/// suites, then any SNI host names, for as far as the body holds them.
pub open spec fn client_hello_fields(hello: Seq<u8>) -> Seq<FieldText> {
    let version = seq![FieldText::KeyValue("client_version"@, version_name(be16(hello, 0) as u16))];
    if 34 >= hello.len() || cipher_suites_at(hello) + 2 > hello.len() {
        version
    } else {
        let count = be16(hello, cipher_suites_at(hello)) / 2;
        let with_count = version.push(
            FieldText::Header("cipher_suite_count"@, decimal_text(count as nat)),
        );
        match extension_span(hello) {
            Some((start, end)) => with_count + sni_fields(hello, start, end),
            None => with_count,
        }
    }
}

/// The body of the handshake message, when it is a complete ClientHello with at
/// least a version.
pub open spec fn client_hello_body(payload: Seq<u8>) -> Option<Seq<u8>> {
    if payload.len() < 4 || payload[0] != 1 {
        None
    } else {
        let declared = payload[1] as int * 65536 + payload[2] as int * 256 + payload[3] as int;
        let hello = payload.subrange(4, payload.len() as int);
        if hello.len() < declared || hello.len() < 2 {
            None
        } else {
            Some(hello)
        }
    }
}

/// The fields read from the payload of a handshake record.
pub open spec fn handshake_fields(payload: Seq<u8>, record_version: u16) -> Seq<FieldText> {
    let first = seq![FieldText::KeyValue("record_version"@, version_name(record_version))];
    if payload.len() < 4 {
        first
    } else if payload[0] != 1 {
        first.push(FieldText::KeyValue("handshake_type"@, "other"@))
    } else {
        let typed = first.push(FieldText::KeyValue("handshake_type"@, "client_hello"@));
        match client_hello_body(payload) {
            Some(hello) => typed + client_hello_fields(hello),
            None => typed,
        }
    }
}

/// Whether reading the payload would slice a server_name body past the end of the
/// message (the reader stops with a panic there).
pub open spec fn handshake_overruns(payload: Seq<u8>) -> bool {
    match client_hello_body(payload) {
        Some(hello) => match extension_span(hello) {
            Some((start, end)) => sni_walk_overruns(hello, start, end),
            None => false,
        },
        None => false,
    }
}

/// The name of a TLS protocol version.
pub fn tls_version_str(version: u16) -> (name: &'static str)
    ensures
        name@ == version_name(version),
{
    match version {
        0x0300 => "ssl3.0",
        0x0301 => "tls1.0",
        0x0302 => "tls1.1",
        0x0303 => "tls1.2",
        0x0304 => "tls1.3",
        _ => "unknown",
    }
}

fn read_be16(s: &[u8], i: usize) -> (v: usize)
    requires
        i + 1 < s@.len(),
    ensures
        v == be16(s@, i as int),
{
    (s[i] as usize) * 256 + (s[i + 1] as usize)
}

/// The host name of a server_name extension body.
pub fn parse_sni(data: &[u8]) -> (name: Option<String>)
    ensures
        match name {
            Some(s) => sni_host(data@) == Some(s@),
            None => sni_host(data@) is None,
        },
{
    if data.len() < 5 {
        return None;
    }
    let entry_type = data[2];
    if entry_type != 0 {
        return None;
    }
    let name_len = read_be16(data, 3);
    if data.len() < 5 + name_len {
        return None;
    }
    let name = vstd::slice::slice_to_vec(&data[5..5 + name_len]);
    string_from_utf8(name)
}

/// Walks the extension list from `cursor` to `end`, pushing the SNI host names.
fn push_sni_fields(hello: &[u8], start: usize, end: usize, fields: &mut Vec<BufferedField>)
    requires
        start <= end + 65535,
        end <= hello@.len(),
        hello@.len() <= isize::MAX,
        !sni_walk_overruns(hello@, start as int, end as int),
    ensures
        fields_text(final(fields)@) == fields_text(old(fields)@) + sni_fields(
            hello@,
            start as int,
            end as int,
        ),
{
    let ghost target = fields_text(old(fields)@) + sni_fields(hello@, start as int, end as int);
    let mut cursor = start;
    assert(fields_text(fields@) + sni_fields(hello@, cursor as int, end as int) == target);
    while cursor + 4 <= end
        invariant
            cursor <= end + 65535,
            end <= hello@.len(),
            hello@.len() <= isize::MAX,
            !sni_walk_overruns(hello@, cursor as int, end as int),
            fields_text(fields@) + sni_fields(hello@, cursor as int, end as int) == target,
        decreases end + 65540 - cursor,
    {
        let ghost before = fields_text(fields@);
        let ghost at = cursor as int;
        let ext_type = read_be16(hello, cursor);
        let ext_len = read_be16(hello, cursor + 2);
        cursor = cursor + 4;
        let ghost here: Seq<FieldText> = Seq::empty();
        if ext_type == EXT_SERVER_NAME as usize && ext_len > 0 {
            if let Some(sni) = parse_sni(&hello[cursor..cursor + ext_len]) {
                let k = String::from_str("sni");
                proof {
                    here = seq![FieldText::Header("sni"@, sni@)];
                }
                fields.push(BufferedField::Header(k, sni));
                assert(fields_text(fields@) == before + here);
            } else {
                assert(fields_text(fields@) == before + here);
            }
        } else {
            assert(fields_text(fields@) == before + here);
        }
        cursor = cursor + ext_len;
        assert(sni_fields(hello@, at, end as int) == here + sni_fields(hello@, cursor as int, end as int));
        assert(before + here + sni_fields(hello@, cursor as int, end as int) == before + (here + sni_fields(hello@, cursor as int, end as int)));
    }
}

/// The fields of the handshake message in a record's payload: the record version,
/// the handshake type, and for a ClientHello its version, the number of cipher suites
/// and any SNI host names, as far as the payload holds them.
pub fn parse_handshake(payload: &[u8], record_version: u16) -> (fields: Vec<BufferedField>)
    requires
        payload@.len() <= isize::MAX,
        !handshake_overruns(payload@),
    ensures
        fields_text(fields@) == handshake_fields(payload@, record_version),
{
    let mut fields: Vec<BufferedField> = Vec::new();
    fields.push(BufferedField::KeyValue("record_version", tls_version_str(record_version)));
    let ghost first = fields_text(fields@);
    assert(first == seq![FieldText::KeyValue("record_version"@, version_name(record_version))]);

    if payload.len() < HANDSHAKE_HEADER_LEN {
        return fields;
    }

    let handshake_type = payload[0];
    if handshake_type != HANDSHAKE_CLIENT_HELLO {
        fields.push(BufferedField::KeyValue("handshake_type", "other"));
        return fields;
    }

    fields.push(BufferedField::KeyValue("handshake_type", "client_hello"));
    let ghost typed = fields_text(fields@);
    assert(typed == first.push(FieldText::KeyValue("handshake_type"@, "client_hello"@)));

    let handshake_len = ((payload[1] as usize) * 65536) + ((payload[2] as usize) * 256) + (
    payload[3] as usize);

    let hello = &payload[HANDSHAKE_HEADER_LEN..payload.len()];
    if hello.len() < handshake_len || hello.len() < 2 {
        return fields;
    }
    assert(client_hello_body(payload@) == Some(hello@));

    let client_version = read_be16(hello, 0);
    fields.push(BufferedField::KeyValue("client_version", tls_version_str(client_version as u16)));
    let ghost version = seq![FieldText::KeyValue("client_version"@, version_name(be16(hello@, 0) as u16))];
    assert(fields_text(fields@) == typed + version);

    // Skip: version(2) + random(32) = 34
    let mut cursor: usize = 34;

    // Session ID
    if cursor >= hello.len() {
        return fields;
    }
    let session_id_len = hello[cursor] as usize;
    cursor = cursor + 1 + session_id_len;

    // Cipher suites
    if cursor + 2 > hello.len() {
        return fields;
    }
    let cipher_suites_len = read_be16(hello, cursor);
    let cipher_count = cipher_suites_len / 2;
    let k = String::from_str("cipher_suite_count");
    let count_text = decimal_string(cipher_count as u64);
    fields.push(BufferedField::Header(k, count_text));
    let ghost with_count = version.push(
        FieldText::Header("cipher_suite_count"@, decimal_text(cipher_count as nat)),
    );
    assert(fields_text(fields@) == typed + with_count);
    cursor = cursor + 2 + cipher_suites_len;

    // Compression methods
    if cursor >= hello.len() {
        return fields;
    }
    let compression_len = hello[cursor] as usize;
    cursor = cursor + 1 + compression_len;

    // Extensions
    if cursor + 2 > hello.len() {
        return fields;
    }
    let extensions_len = read_be16(hello, cursor);
    cursor = cursor + 2;

    let extensions_end = cursor + extensions_len;
    if extensions_end > hello.len() {
        return fields;
    }
    assert(extension_span(hello@) == Some((cursor as int, extensions_end as int)));

    push_sni_fields(hello, cursor, extensions_end, &mut fields);
    assert(typed + with_count + sni_fields(hello@, cursor as int, extensions_end as int) == typed
        + (with_count + sni_fields(hello@, cursor as int, extensions_end as int)));
    fields
}

/// Whether reading the payload would meet a server_name entry whose body runs past
/// the end of the message: the one input on which `parse_handshake` cannot go on.
pub fn handshake_overruns_message(payload: &[u8]) -> (b: bool)
    requires
        payload@.len() <= isize::MAX,
    ensures
        b == handshake_overruns(payload@),
{
    if payload.len() < HANDSHAKE_HEADER_LEN || payload[0] != HANDSHAKE_CLIENT_HELLO {
        return false;
    }
    let handshake_len = ((payload[1] as usize) * 65536) + ((payload[2] as usize) * 256) + (
    payload[3] as usize);
    let hello = &payload[HANDSHAKE_HEADER_LEN..payload.len()];
    if hello.len() < handshake_len || hello.len() < 2 {
        return false;
    }
    assert(client_hello_body(payload@) == Some(hello@));
    if 34 >= hello.len() {
        return false;
    }
    let mut cursor: usize = 35 + hello[34] as usize;
    if cursor + 2 > hello.len() {
        return false;
    }
    cursor = cursor + 2 + read_be16(hello, cursor);
    if cursor >= hello.len() {
        return false;
    }
    cursor = cursor + 1 + hello[cursor] as usize;
    if cursor + 2 > hello.len() {
        return false;
    }
    let extensions_len = read_be16(hello, cursor);
    cursor = cursor + 2;
    let end = cursor + extensions_len;
    if end > hello.len() {
        return false;
    }
    assert(extension_span(hello@) == Some((cursor as int, end as int)));
    let ghost start = cursor as int;
    while cursor + 4 <= end
        invariant
            cursor <= end + 65535,
            end <= hello@.len(),
            hello@.len() <= isize::MAX,
            client_hello_body(payload@) == Some(hello@),
            extension_span(hello@) == Some((start, end as int)),
            sni_walk_overruns(hello@, start, end as int) == sni_walk_overruns(
                hello@,
                cursor as int,
                end as int,
            ),
        decreases end + 65540 - cursor,
    {
        let ghost at = cursor as int;
        let ext_type = read_be16(hello, cursor);
        let ext_len = read_be16(hello, cursor + 2);
        cursor = cursor + 4;
        if ext_type == 0 && ext_len > 0 && cursor + ext_len > hello.len() {
            assert(sni_walk_overruns(hello@, at, end as int));
            return true;
        }
        cursor = cursor + ext_len;
    }
    false
}

/// Decodes the metadata of a TLS stream: the first handshake records, until a
/// record of another content type shows that the metadata is over.
pub struct TlsPassenger<P> {
    past_metadata: bool,
    buffer_predicate: P,
}

/// What one call of `TlsPassenger::decode` does, given the decoder's state, the
/// buffered bytes, and (when a record is handed out) what the predicate answered on
/// it: the item handed out, the bytes left buffered, and whether the metadata is
/// over afterwards.
pub open spec fn tls_decode_step(past: bool, src: Seq<u8>, admitted: bool) -> (
    Option<TicketView>,
    Seq<u8>,
    bool,
) {
    if past || src.len() < 5 {
        (None, src, past)
    } else {
        let total = 5 + be16(src, 3);
        if src.len() < total {
            (None, src, past)
        } else if src[0] != 22 {
            (None, src, true)
        } else {
            let record = src.subrange(0, total as int);
            let rest = src.subrange(total as int, src.len() as int);
            if !admitted {
                (Some(TicketView::Passthrough(record)), rest, past)
            } else {
                let fields = handshake_fields(record.subrange(5, total as int), be16(src, 1) as u16);
                (Some(TicketView::Buffered(FieldText::Attribute(joined_fields(fields)))), rest, past)
            }
        }
    }
}

/// Whether a call on these bytes reaches a complete handshake record (and so asks
/// the predicate about it).
pub open spec fn tls_record_ready(past: bool, src: Seq<u8>) -> bool {
    !past && src.len() >= 5 && src.len() >= 5 + be16(src, 3) && src[0] == 22
}

/// The complete record such a call takes off the buffer.
pub open spec fn tls_ready_record(src: Seq<u8>) -> Seq<u8> {
    src.subrange(0, 5 + be16(src, 3) as int)
}

impl<P: Fn(&[u8]) -> bool> TlsPassenger<P> {
    /// A decoder that asks `buffer_predicate` of each handshake record whether to
    /// take it apart (`true`) or hand it on untouched (`false`).
    pub fn with_predicate(buffer_predicate: P) -> (d: Self)
        ensures
            !d.past_metadata(),
            d.predicate() == buffer_predicate,
    {
        Self { past_metadata: false, buffer_predicate }
    }

    pub closed spec fn past_metadata(&self) -> bool {
        self.past_metadata
    }

    pub closed spec fn predicate(&self) -> P {
        self.buffer_predicate
    }

    /// Whether a record of another content type has ended the metadata.
    pub fn metadata_done(&self) -> (b: bool)
        ensures
            b == self.past_metadata(),
    {
        self.past_metadata
    }

    /// Takes the next complete handshake record off `src`, if there is one.
    ///
    /// A record the predicate refuses is handed on whole; an admitted one becomes
    /// one attribute listing its fields. A record of any other content type ends
    /// the metadata: from then on nothing more is decoded. Never fails.
    pub fn decode(&mut self, src: &mut BytesMut) -> (r: Result<Option<TicketField>, std::io::Error>)
        requires
            predicate_total(old(self).predicate()),
            bytes_mut_contents(*old(src)).len() <= isize::MAX,
            tls_record_ready(old(self).past_metadata(), bytes_mut_contents(*old(src)))
                && predicate_answers(
                old(self).predicate(),
                tls_ready_record(bytes_mut_contents(*old(src))),
                true,
            ) ==> !handshake_overruns(
                tls_ready_record(bytes_mut_contents(*old(src))).subrange(
                    5,
                    tls_ready_record(bytes_mut_contents(*old(src))).len() as int,
                ),
            ),
        ensures
            final(self).predicate() == old(self).predicate(),
            r matches Ok(item) && ({
                let s = bytes_mut_contents(*old(src));
                let outcome = (
                    match item {
                        Some(f) => Some(f@),
                        None => None::<TicketView>,
                    },
                    bytes_mut_contents(*final(src)),
                    final(self).past_metadata(),
                );
                if tls_record_ready(old(self).past_metadata(), s) {
                    ||| outcome == tls_decode_step(old(self).past_metadata(), s, true)
                        && predicate_answers(old(self).predicate(), tls_ready_record(s), true)
                    ||| outcome == tls_decode_step(old(self).past_metadata(), s, false)
                        && predicate_answers(old(self).predicate(), tls_ready_record(s), false)
                } else {
                    outcome == tls_decode_step(old(self).past_metadata(), s, true)
                }
            }),
    {
        let ghost s = bytes_mut_contents(*src);
        if self.past_metadata {
            assert(tls_decode_step(self.past_metadata, s, true).1 == s);
            return Ok(None);
        }
        let view = bytes_mut_as_slice(src);
        if view.len() < TLS_RECORD_HEADER_LEN {
            assert(tls_decode_step(self.past_metadata, s, true).1 == s);
            return Ok(None);
        }
        let content_type = view[0];
        let record_version = read_be16(view, 1);
        let record_len = read_be16(view, 3);
        let total_len = TLS_RECORD_HEADER_LEN + record_len;
        if view.len() < total_len {
            return Ok(None);
        }
        if content_type != CONTENT_TYPE_HANDSHAKE {
            self.past_metadata = true;
            return Ok(None);
        }
        let record = bytes_mut_split_to(src, total_len);
        let record_bytes = bytes_mut_as_slice(&record);
        let admitted = (self.buffer_predicate)(record_bytes);
        if !admitted {
            return Ok(Some(TicketField::Passthrough(bytes_mut_freeze(record))));
        }
        let payload = &record_bytes[TLS_RECORD_HEADER_LEN..record_bytes.len()];
        let fields = parse_handshake(payload, record_version as u16);
        let text = join_fields(&fields);
        Ok(Some(TicketField::Buffered(BufferedField::Attribute(text))))
    }
}

} // verus!
