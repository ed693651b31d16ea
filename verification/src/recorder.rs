use vstd::prelude::*;
use crate::text::{decimal_string, decimal_text};

verus! {

/// The integer measurements of one finished connection, as the recorder logs them:
/// the phase durations in microseconds, the byte totals, and whether it failed.
pub struct RequestEntry {
    pub total_us: u64,
    pub route_us: u64,
    pub forward_us: u64,
    pub relay_us: u64,
    pub req_bytes: u64,
    pub resp_bytes: u64,
    pub error: bool,
}

/// How a boolean is written in a log line.
pub open spec fn bool_text(b: bool) -> Seq<char> {
    if b {
        "true"@
    } else {
        "false"@
    }
}

/// A signed integer in decimal, with a leading `-` when negative.
pub open spec fn signed_decimal_text(i: int) -> Seq<char> {
    if i < 0 {
        "-"@ + decimal_text((-i) as nat)
    } else {
        decimal_text(i as nat)
    }
}

/// The JSON line (without its line break) logged for a finished connection whose
/// start time, in seconds, is written as `t`.
pub open spec fn request_line_text(t: Seq<char>, e: RequestEntry) -> Seq<char> {
    "{\"type\":\"req\",\"t\":"@ + t + ",\"total_us\":"@ + decimal_text(e.total_us as nat)
        + ",\"route_us\":"@ + decimal_text(e.route_us as nat) + ",\"forward_us\":"@
        + decimal_text(e.forward_us as nat) + ",\"relay_us\":"@ + decimal_text(e.relay_us as nat)
        + ",\"req_bytes\":"@ + decimal_text(e.req_bytes as nat) + ",\"resp_bytes\":"@
        + decimal_text(e.resp_bytes as nat) + ",\"error\":"@ + bool_text(e.error) + "}"@
}

/// The JSON line (without its line break) of a once-a-second sample of the process:
/// time `t` and CPU use `cpu` as written, resident memory, open client connections
/// and open upstream connections.
pub open spec fn sys_line_text(t: Seq<char>, rss: u64, cpu: Seq<char>, active: i64, upstreams: i64) -> Seq<char> {
    "{\"type\":\"sys\",\"t\":"@ + t + ",\"rss\":"@ + decimal_text(rss as nat) + ",\"cpu\":"@ + cpu
        + ",\"active\":"@ + signed_decimal_text(active as int) + ",\"upstreams\":"@
        + signed_decimal_text(upstreams as int) + "}"@
}

/// `i.to_string()` for an `i64`.
pub fn signed_decimal_string(i: i64) -> (s: String)
    ensures
        s@ == signed_decimal_text(i as int),
{
    if i < 0 {
        let magnitude: u64 = (0i128 - i as i128) as u64;
        let mut s = String::from_str("-");
        let digits = decimal_string(magnitude);
        s.append(digits.as_str());
        s
    } else {
        decimal_string(i as u64)
    }
}

/// Appends a number in decimal.
fn append_decimal(s: &mut String, n: u64)
    ensures
        final(s)@ == old(s)@ + decimal_text(n as nat),
{
    let digits = decimal_string(n);
    s.append(digits.as_str());
}

/// The line logged for a finished connection.
pub fn request_line(t: &str, e: &RequestEntry) -> (s: String)
    ensures
        s@ == request_line_text(t@, *e),
{
    let mut s = String::from_str("{\"type\":\"req\",\"t\":");
    s.append(t);
    s.append(",\"total_us\":");
    append_decimal(&mut s, e.total_us);
    s.append(",\"route_us\":");
    append_decimal(&mut s, e.route_us);
    s.append(",\"forward_us\":");
    append_decimal(&mut s, e.forward_us);
    s.append(",\"relay_us\":");
    append_decimal(&mut s, e.relay_us);
    s.append(",\"req_bytes\":");
    append_decimal(&mut s, e.req_bytes);
    s.append(",\"resp_bytes\":");
    append_decimal(&mut s, e.resp_bytes);
    s.append(",\"error\":");
    if e.error {
        s.append("true");
    } else {
        s.append("false");
    }
    s.append("}");
    s
}

/// The line of a once-a-second sample of the process.
pub fn sys_line(t: &str, rss: u64, cpu: &str, active: i64, upstreams: i64) -> (s: String)
    ensures
        s@ == sys_line_text(t@, rss, cpu@, active, upstreams),
{
    let mut s = String::from_str("{\"type\":\"sys\",\"t\":");
    s.append(t);
    s.append(",\"rss\":");
    append_decimal(&mut s, rss);
    s.append(",\"cpu\":");
    s.append(cpu);
    s.append(",\"active\":");
    let a = signed_decimal_string(active);
    s.append(a.as_str());
    s.append(",\"upstreams\":");
    let u = signed_decimal_string(upstreams);
    s.append(u.as_str());
    s.append("}");
    s
}

} // verus!
