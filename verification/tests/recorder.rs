use railscale::recorder::{request_line, signed_decimal_string, sys_line, RequestEntry};

#[test]
fn request_lines_are_json() {
    let e = RequestEntry {
        total_us: 1520,
        route_us: 300,
        forward_us: 0,
        relay_us: 18446744073709551615,
        req_bytes: 77,
        resp_bytes: 4096,
        error: false,
    };
    assert_eq!(
        request_line("1.2500", &e),
        "{\"type\":\"req\",\"t\":1.2500,\"total_us\":1520,\"route_us\":300,\"forward_us\":0,\"relay_us\":18446744073709551615,\"req_bytes\":77,\"resp_bytes\":4096,\"error\":false}"
    );
    let failed = RequestEntry { error: true, ..e };
    assert!(request_line("0.0000", &failed).ends_with(",\"error\":true}"));
}

#[test]
fn sys_lines_are_json() {
    assert_eq!(
        sys_line("3.0001", 104857600, "12.50", 4, -1),
        "{\"type\":\"sys\",\"t\":3.0001,\"rss\":104857600,\"cpu\":12.50,\"active\":4,\"upstreams\":-1}"
    );
}

#[test]
fn signed_numbers_read_as_std_writes_them() {
    for n in [0i64, 7, -7, 10, -10, 1234567, i64::MAX, i64::MIN] {
        assert_eq!(signed_decimal_string(n), n.to_string());
    }
}
