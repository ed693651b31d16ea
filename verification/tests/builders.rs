use std::time::Duration;
use railscale::connection::BufferLimits;
use railscale::error::RailscaleError;
use railscale::flow::{require_endpoints, ForwardTcpBuilder, ForwardTlsBuilder};
use railscale::stabling::StablingConfig;

fn routing_message(r: Result<railscale::flow::ForwardSettings, RailscaleError>) -> String {
    match r {
        Err(RailscaleError::RoutingFailed(m)) => m,
        _ => panic!("expected a routing failure"),
    }
}

#[test]
fn tcp_builder_hands_on_its_settings() {
    let s = ForwardTcpBuilder::new()
        .bind("127.0.0.1:0")
        .upstream("127.0.0.1:1")
        .buffer_limits(BufferLimits { max_pre_route_bytes: 32, max_post_route_bytes: 1024 })
        .drain_timeout(Duration::from_secs(5))
        .settings()
        .ok()
        .unwrap();
    assert_eq!(s.bind, "127.0.0.1:0");
    assert_eq!(s.upstream, "127.0.0.1:1");
    assert_eq!(s.buffer_limits.max_pre_route_bytes, 32);
    assert_eq!(s.buffer_limits.max_post_route_bytes, 1024);
    assert_eq!(s.drain_timeout, Duration::from_secs(5));
}

#[test]
fn builder_defaults() {
    let s = ForwardTlsBuilder::new().bind("a").upstream("b").settings().ok().unwrap();
    assert_eq!(s.drain_timeout, Duration::from_secs(30));
    assert_eq!(s.buffer_limits.max_pre_route_bytes, 8 * 1024 * 1024);
    assert_eq!(s.buffer_limits.max_post_route_bytes, 8 * 1024 * 1024);
}

#[test]
fn builders_need_both_addresses() {
    assert_eq!(routing_message(ForwardTcpBuilder::new().upstream("127.0.0.1:1").settings()), "bind address required");
    assert_eq!(routing_message(ForwardTcpBuilder::new().bind("127.0.0.1:0").settings()), "upstream address required");
    assert_eq!(routing_message(ForwardTlsBuilder::new().upstream("127.0.0.1:443").settings()), "bind address required");
    assert_eq!(routing_message(ForwardTlsBuilder::new().bind("127.0.0.1:0").settings()), "upstream address required");
    assert_eq!(routing_message(ForwardTlsBuilder::new().settings()), "bind address required");
}

#[test]
fn later_settings_win() {
    let s = ForwardTcpBuilder::new().bind("a").bind("c").upstream("b").settings().ok().unwrap();
    assert_eq!(s.bind, "c");
    assert!(require_endpoints(Some("x".to_string()), Some("y".to_string())).is_ok());
}

#[test]
fn stabling_defaults() {
    let c = StablingConfig::default();
    assert_eq!(c.max_idle_per_host, 8);
    assert_eq!(c.max_total_idle, 64);
    assert_eq!(c.idle_timeout, Duration::from_secs(90));
    assert!(c.enabled);
}

#[test]
fn error_messages() {
    assert_eq!(RailscaleError::Parse("bad".to_string()).message(), "parse: bad");
    assert_eq!(RailscaleError::RoutingFailed("none".to_string()).message(), "routing failed: none");
    assert_eq!(RailscaleError::ConnectionClosed.message(), "connection closed");
    assert_eq!(RailscaleError::NoRoutingFrame.message(), "no routing frame received");
    let io = RailscaleError::from(std::io::Error::new(std::io::ErrorKind::BrokenPipe, "channel closed"));
    assert!(matches!(io, RailscaleError::Io(_)));
    assert_eq!(io.message(), "io: channel closed");
}

#[test]
fn forward_tcp_builder_fails_without_upstream() {
    let result = ForwardTcpBuilder::new().bind("127.0.0.1:0").settings();
    assert!(result.is_err());
}

#[test]
fn forward_tls_builder_fails_without_bind() {
    let result = ForwardTlsBuilder::new().upstream("127.0.0.1:443").settings();
    assert!(result.is_err());
}

#[test]
fn forward_tls_builder_fails_without_upstream() {
    let result = ForwardTlsBuilder::new().bind("127.0.0.1:0").settings();
    assert!(result.is_err());
}
