use railscale::connection::{
    failure_handling, FailurePoint,
    keeps_alive, response_batch_full, BufferLimits, ConnectionResult, FailureKind, Phase,
    PostRouteAction, PreRouteAction, RequestCycle, RequestEvent, RouteDecision,
};

fn limits(pre: usize, post: usize) -> BufferLimits {
    BufferLimits { max_pre_route_bytes: pre, max_post_route_bytes: post }
}

#[test]
fn default_limits_are_eight_mib() {
    let l = BufferLimits::default();
    assert_eq!(l.max_pre_route_bytes, 8 * 1024 * 1024);
    assert_eq!(l.max_post_route_bytes, 8 * 1024 * 1024);
}

#[test]
fn pre_route_buffers_until_the_routing_frame() {
    let l = limits(100, 100);
    let mut c = RequestCycle::new(true);
    assert!(c.pre_route_step(&RequestEvent::Passthrough { len: 10 }, &l) == PreRouteAction::Buffer);
    assert!(c.pre_route_step(&RequestEvent::Frame { len: 20, routing: false }, &l) == PreRouteAction::Buffer);
    assert!(c.pre_route_step(&RequestEvent::Frame { len: 30, routing: true }, &l) == PreRouteAction::Route);
    assert_eq!(c.frame_count, 2);
    assert_eq!(c.request_bytes, 60);
    assert_eq!(c.passthrough_bytes, 10);
    assert_eq!(c.frame_bytes, 50);
    assert_eq!(c.pre_route_bytes, 60);
}

#[test]
fn pre_route_budget_is_enforced() {
    let l = limits(15, 100);
    let mut c = RequestCycle::new(true);
    assert!(c.pre_route_step(&RequestEvent::Frame { len: 15, routing: false }, &l) == PreRouteAction::Buffer);
    assert!(c.pre_route_step(&RequestEvent::Frame { len: 1, routing: true }, &l)
        == PreRouteAction::Fail(FailureKind::BufferLimitExceeded, Phase::Parse));
}

#[test]
fn parser_failures_before_routing() {
    let l = limits(100, 100);
    let mut first = RequestCycle::new(true);
    assert!(first.pre_route_step(&RequestEvent::Failed { kind: FailureKind::ConnectionClosed }, &l)
        == PreRouteAction::Fail(FailureKind::ConnectionClosed, Phase::Parse));
    let mut later = RequestCycle::new(false);
    assert!(later.pre_route_step(&RequestEvent::Failed { kind: FailureKind::ConnectionClosed }, &l)
        == PreRouteAction::ClientClosed);
    assert!(later.pre_route_step(&RequestEvent::Failed { kind: FailureKind::Parse }, &l)
        == PreRouteAction::Fail(FailureKind::Parse, Phase::Parse));
    assert!(later.pre_route_step(&RequestEvent::Failed { kind: FailureKind::Io }, &l)
        == PreRouteAction::Fail(FailureKind::Io, Phase::Parse));
}

#[test]
fn route_decisions() {
    let first = RequestCycle::new(true);
    let later = RequestCycle::new(false);
    assert!(first.route_decision(true, false) == RouteDecision::Route);
    assert!(first.route_decision(false, true) == RouteDecision::Fail(FailureKind::NoRoutingFrame, Phase::Parse));
    assert!(later.route_decision(false, true) == RouteDecision::Finish);
    assert!(later.route_decision(false, false) == RouteDecision::Fail(FailureKind::NoRoutingFrame, Phase::Parse));
}

#[test]
fn post_route_stops_over_budget() {
    let l = limits(100, 10);
    let mut c = RequestCycle::new(true);
    assert!(c.post_route_step(&RequestEvent::Passthrough { len: 10 }, &l) == PostRouteAction::Buffer);
    assert!(c.post_route_failure(&l).is_none());
    assert!(c.post_route_step(&RequestEvent::Frame { len: 1, routing: false }, &l) == PostRouteAction::Stop);
    assert!(c.post_route_failure(&l) == Some((FailureKind::BufferLimitExceeded, Phase::Forward)));
    assert!(c.post_route_step(&RequestEvent::Failed { kind: FailureKind::Io }, &l) == PostRouteAction::Stop);
    assert_eq!(c.pre_route_bytes, 0);
    assert_eq!(c.post_route_bytes, 11);
}

#[test]
fn keep_alive_needs_parsed_responses() {
    assert!(keeps_alive(false, true));
    assert!(!keeps_alive(true, true));
    assert!(!keeps_alive(false, false));
    assert!(!response_batch_full(32768));
    assert!(response_batch_full(32769));
}

#[test]
fn metric_labels() {
    assert_eq!(FailureKind::RoutingFailed.metric_label(), "routing");
    assert_eq!(FailureKind::NoRoutingFrame.metric_label(), "no_routing_frame");
    assert_eq!(FailureKind::ConnectionClosed.metric_label(), "connection_closed");
    assert_eq!(FailureKind::Parse.metric_label(), "parse");
    assert_eq!(FailureKind::Io.metric_label(), "io");
    assert_eq!(FailureKind::BufferLimitExceeded.metric_label(), "buffer_limit_exceeded");
}

#[test]
fn results_accumulate() {
    let mut total = ConnectionResult::default();
    total.accumulate(&ConnectionResult { frame_count: 2, response_bytes: 10, request_bytes: 5, routed: false });
    total.accumulate(&ConnectionResult { frame_count: 1, response_bytes: 3, request_bytes: 4, routed: true });
    assert_eq!(total.frame_count, 3);
    assert_eq!(total.response_bytes, 13);
    assert_eq!(total.request_bytes, 9);
    assert!(total.routed);
}

#[test]
fn only_the_first_routing_frame_routes() {
    assert!(railscale::connection::routes_now(false, true));
    assert!(!railscale::connection::routes_now(true, true));
    assert!(!railscale::connection::routes_now(false, false));
}

#[test]
fn failures_before_the_destination_are_answered() {
    assert!(failure_handling(FailurePoint::PreRoute) == (Phase::Parse, true));
    assert!(failure_handling(FailurePoint::NoRoutingFrame) == (Phase::Parse, true));
    assert!(failure_handling(FailurePoint::PostRouteBudget) == (Phase::Forward, true));
    assert!(failure_handling(FailurePoint::HookRefused) == (Phase::Parse, true));
    assert!(failure_handling(FailurePoint::Routing) == (Phase::Routing, true));
    assert!(failure_handling(FailurePoint::ForwardWrite) == (Phase::Forward, false));
    assert!(failure_handling(FailurePoint::Relay) == (Phase::Relay, false));
}
