use bytes::BytesMut;
use railscale::http_passenger::{
    field_log_line, ok_response, parse_header_line, parse_request_line, strip_crlf, HttpPassenger,
    DEV_BODY,
};
use railscale::ticket::{BufferedField, TicketField};
use railscale::tls_passenger::{
    handshake_overruns_message, parse_handshake, parse_sni, tls_version_str, TlsPassenger,
};

fn client_hello_with_sni(host: &[u8]) -> Vec<u8> {
    let mut sni_body = Vec::new();
    let list_len = (1 + 2 + host.len()) as u16;
    sni_body.extend_from_slice(&list_len.to_be_bytes());
    sni_body.push(0);
    sni_body.extend_from_slice(&(host.len() as u16).to_be_bytes());
    sni_body.extend_from_slice(host);

    let mut extensions = Vec::new();
    extensions.extend_from_slice(&[0x00, 0x00]);
    extensions.extend_from_slice(&(sni_body.len() as u16).to_be_bytes());
    extensions.extend_from_slice(&sni_body);

    let mut body = Vec::new();
    body.extend_from_slice(&[0x03, 0x03]);
    body.extend_from_slice(&[7u8; 32]);
    body.push(0);
    body.extend_from_slice(&[0x00, 0x04, 0x13, 0x01, 0x13, 0x02]);
    body.extend_from_slice(&[0x01, 0x00]);
    body.extend_from_slice(&(extensions.len() as u16).to_be_bytes());
    body.extend_from_slice(&extensions);

    let mut handshake = vec![0x01, 0x00];
    handshake.extend_from_slice(&(body.len() as u16).to_be_bytes());
    handshake.extend_from_slice(&body);
    handshake
}

fn record(content_type: u8, payload: &[u8]) -> Vec<u8> {
    let mut r = vec![content_type, 0x03, 0x01];
    r.extend_from_slice(&(payload.len() as u16).to_be_bytes());
    r.extend_from_slice(payload);
    r
}

fn attribute(f: TicketField) -> String {
    match f {
        TicketField::Buffered(BufferedField::Attribute(a)) => a,
        _ => panic!("expected an attribute"),
    }
}

#[test]
fn tls_versions_have_names() {
    assert_eq!(tls_version_str(0x0300), "ssl3.0");
    assert_eq!(tls_version_str(0x0301), "tls1.0");
    assert_eq!(tls_version_str(0x0302), "tls1.1");
    assert_eq!(tls_version_str(0x0303), "tls1.2");
    assert_eq!(tls_version_str(0x0304), "tls1.3");
    assert_eq!(tls_version_str(0x0200), "unknown");
}

#[test]
fn sni_host_name_is_read() {
    assert_eq!(parse_sni(&[0, 12, 0, 0, 9, b'l', b'o', b'c', b'a', b'l', b'h', b'o', b's', b't']),
        Some("localhost".to_string()));
    assert_eq!(parse_sni(&[0, 12, 1, 0, 9]), None);
    assert_eq!(parse_sni(&[0, 12, 0, 0]), None);
    assert_eq!(parse_sni(&[0, 12, 0, 0, 9, b'a']), None);
    assert_eq!(parse_sni(&[0, 3, 0, 0, 1, 0xff]), None);
}

#[test]
fn client_hello_fields_are_listed() {
    let hs = client_hello_with_sni(b"localhost");
    let fields = parse_handshake(&hs, 0x0301);
    assert_eq!(fields.len(), 5);
    assert!(matches!(fields[0], BufferedField::KeyValue("record_version", "tls1.0")));
    assert!(matches!(fields[1], BufferedField::KeyValue("handshake_type", "client_hello")));
    assert!(matches!(fields[2], BufferedField::KeyValue("client_version", "tls1.2")));
    match &fields[3] {
        BufferedField::Header(k, v) => {
            assert_eq!(k, "cipher_suite_count");
            assert_eq!(v, "2");
        }
        _ => panic!("expected the cipher suite count"),
    }
    match &fields[4] {
        BufferedField::Header(k, v) => {
            assert_eq!(k, "sni");
            assert_eq!(v, "localhost");
        }
        _ => panic!("expected the host name"),
    }
}

#[test]
fn other_handshakes_are_named_only() {
    let fields = parse_handshake(&[0x02, 0, 0, 0], 0x0303);
    assert_eq!(fields.len(), 2);
    assert!(matches!(fields[1], BufferedField::KeyValue("handshake_type", "other")));
    let short = parse_handshake(&[0x01, 0], 0x0303);
    assert_eq!(short.len(), 1);
    let truncated = parse_handshake(&[0x01, 0, 0, 40, 3, 3], 0x0303);
    assert_eq!(truncated.len(), 2);
}

#[test]
fn overrunning_server_name_is_detected() {
    let mut hs = client_hello_with_sni(b"localhost");
    assert!(!handshake_overruns_message(&hs));
    // Declare the server_name body longer than what is left of the message.
    let ext_len_at = 4 + 2 + 32 + 1 + 6 + 2 + 2 + 2;
    hs[ext_len_at] = 0xff;
    hs[ext_len_at + 1] = 0x00;
    let n = hs.len();
    let ext_total_at = ext_len_at - 4;
    let total = (n - ext_total_at - 2) as u16;
    hs[ext_total_at..ext_total_at + 2].copy_from_slice(&total.to_be_bytes());
    assert!(handshake_overruns_message(&hs));
}

#[test]
fn tls_decoder_reports_handshake_then_stops_at_application_data() {
    let mut d = TlsPassenger::with_predicate(|_: &[u8]| true);
    let hello = record(22, &client_hello_with_sni(b"example.com"));
    let mut src = BytesMut::new();
    src.extend_from_slice(&hello[..10]);
    assert!(d.decode(&mut src).unwrap().is_none());
    assert_eq!(src.len(), 10);
    src.extend_from_slice(&hello[10..]);
    src.extend_from_slice(&record(23, b"secret"));
    let item = d.decode(&mut src).unwrap().unwrap();
    assert_eq!(
        attribute(item),
        "record_version=tls1.0; handshake_type=client_hello; client_version=tls1.2; cipher_suite_count=2; sni=example.com"
    );
    assert_eq!(src.len(), 5 + 6);
    assert!(d.decode(&mut src).unwrap().is_none());
    assert_eq!(src.len(), 5 + 6);
    src.extend_from_slice(&hello);
    assert!(d.decode(&mut src).unwrap().is_none());
    assert_eq!(src.len(), 11 + hello.len());
}

#[test]
fn tls_decoder_passes_refused_records_whole() {
    let mut d = TlsPassenger::with_predicate(|_: &[u8]| false);
    let hello = record(22, &client_hello_with_sni(b"a.b"));
    let mut src = BytesMut::new();
    src.extend_from_slice(&hello);
    match d.decode(&mut src).unwrap().unwrap() {
        TicketField::Passthrough(b) => assert_eq!(&b[..], &hello[..]),
        _ => panic!("expected the record passed through"),
    }
    assert!(src.is_empty());
}

#[test]
fn crlf_is_stripped() {
    assert_eq!(strip_crlf(b"GET / HTTP/1.1\r\n"), b"GET / HTTP/1.1");
    assert_eq!(strip_crlf(b"a\n"), b"a");
    assert_eq!(strip_crlf(b"a\r"), b"a");
    assert_eq!(strip_crlf(b"a\n\r"), b"a\n");
    assert_eq!(strip_crlf(b""), b"");
    assert_eq!(strip_crlf(b"\r\n"), b"");
}

#[test]
fn request_line_is_rebuilt() {
    assert_eq!(attribute(parse_request_line(b"GET /path HTTP/1.1")), "GET /path HTTP/1.1");
    assert_eq!(attribute(parse_request_line(b"GET /a b c")), "GET /a b c");
    assert_eq!(attribute(parse_request_line(b"GET /")), "GET / ");
    assert_eq!(attribute(parse_request_line(b"GET")), "GET  ");
    assert_eq!(attribute(parse_request_line(b"")), "  ");
    assert_eq!(attribute(parse_request_line(b"G\xffT / x")), "G\u{fffd}T / x");
}

#[test]
fn header_line_is_split_and_trimmed() {
    match parse_header_line(b"  Host :  example.com \t") {
        TicketField::Buffered(BufferedField::Header(k, v)) => {
            assert_eq!(k, "Host");
            assert_eq!(v, "example.com");
        }
        _ => panic!("expected a header"),
    }
    match parse_header_line(b"X-Time: 12:30") {
        TicketField::Buffered(BufferedField::Header(k, v)) => {
            assert_eq!(k, "X-Time");
            assert_eq!(v, "12:30");
        }
        _ => panic!("expected a header"),
    }
    assert_eq!(attribute(parse_header_line(b"no colon here")), "no colon here");
    match parse_header_line(b":") {
        TicketField::Buffered(BufferedField::Header(k, v)) => {
            assert_eq!(k, "");
            assert_eq!(v, "");
        }
        _ => panic!("expected a header"),
    }
}

#[test]
fn http_decoder_walks_the_metadata() {
    let mut d = HttpPassenger::with_predicate(|line: &[u8]| !line.starts_with(b"Cookie"));
    let mut src = BytesMut::new();
    src.extend_from_slice(b"GET / HTTP/1.1\r\nHost: x\r\nCookie: secret\r\n\r\nbody");
    assert_eq!(attribute(d.decode(&mut src).unwrap().unwrap()), "GET / HTTP/1.1");
    match d.decode(&mut src).unwrap().unwrap() {
        TicketField::Buffered(BufferedField::Header(k, v)) => {
            assert_eq!(k, "Host");
            assert_eq!(v, "x");
        }
        _ => panic!("expected a header"),
    }
    match d.decode(&mut src).unwrap().unwrap() {
        TicketField::Passthrough(b) => assert_eq!(&b[..], b"Cookie: secret\r\n"),
        _ => panic!("expected the line passed through"),
    }
    assert!(matches!(d.decode(&mut src).unwrap().unwrap(), TicketField::Boundary));
    assert_eq!(&src[..], b"body");
    assert!(d.decode(&mut src).unwrap().is_none());
    assert_eq!(&src[..], b"body");
}

#[test]
fn http_decoder_waits_for_a_whole_line() {
    let mut d = HttpPassenger::with_predicate(|_: &[u8]| true);
    let mut src = BytesMut::new();
    src.extend_from_slice(b"GET / HT");
    assert!(d.decode(&mut src).unwrap().is_none());
    assert_eq!(&src[..], b"GET / HT");
}

#[test]
fn dev_server_lines() {
    let f = TicketField::Buffered(BufferedField::Header("Host".to_string(), "x".to_string()));
    assert_eq!(field_log_line(&f).unwrap(), "[dev]   Host: x");
    let f = TicketField::Buffered(BufferedField::Attribute("GET / HTTP/1.1".to_string()));
    assert_eq!(field_log_line(&f).unwrap(), "[dev]   > GET / HTTP/1.1");
    let f = TicketField::Buffered(BufferedField::KeyValue("a", "b"));
    assert_eq!(field_log_line(&f).unwrap(), "[dev]   a=b");
    let f = TicketField::Buffered(BufferedField::Bytes(bytes::Bytes::from_static(b"abc")));
    assert_eq!(field_log_line(&f).unwrap(), "[dev]   (3 raw bytes)");
    let f = TicketField::Passthrough(bytes::Bytes::from_static(b"abcdefghijkl"));
    assert_eq!(field_log_line(&f).unwrap(), "[dev]   passthrough (12 bytes)");
    assert!(field_log_line(&TicketField::Boundary).is_none());
    assert_eq!(
        ok_response(DEV_BODY),
        "HTTP/1.1 200 OK\r\nContent-Length: 21\r\nConnection: close\r\n\r\nrailscale dev server\n"
    );
}
