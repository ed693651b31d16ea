use vstd::prelude::*;
use crate::error::RailscaleError;

verus! {

/// Where in a connection's life an error arose.
#[derive(PartialEq, Eq, Structural, Clone, Copy)]
pub enum Phase {
    Parse,
    Routing,
    Forward,
    Relay,
}

/// What went wrong on a connection, as far as the forwarding logic tells apart.
#[derive(PartialEq, Eq, Structural, Clone, Copy)]
pub enum FailureKind {
    Io,
    Parse,
    RoutingFailed,
    ConnectionClosed,
    NoRoutingFrame,
    BufferLimitExceeded,
}

impl FailureKind {
    /// The kind of failure an error stands for.
    pub fn of(err: &RailscaleError) -> (k: FailureKind)
        ensures
            k == match err {
                RailscaleError::Io(_) => FailureKind::Io,
                RailscaleError::Parse(_) => FailureKind::Parse,
                RailscaleError::RoutingFailed(_) => FailureKind::RoutingFailed,
                RailscaleError::ConnectionClosed => FailureKind::ConnectionClosed,
                RailscaleError::NoRoutingFrame => FailureKind::NoRoutingFrame,
            },
    {
        match err {
            RailscaleError::Io(_) => FailureKind::Io,
            RailscaleError::Parse(_) => FailureKind::Parse,
            RailscaleError::RoutingFailed(_) => FailureKind::RoutingFailed,
            RailscaleError::ConnectionClosed => FailureKind::ConnectionClosed,
            RailscaleError::NoRoutingFrame => FailureKind::NoRoutingFrame,
        }
    }

    /// The label a failure is counted under in the connection error metric.
    pub fn metric_label(&self) -> (s: &'static str)
        ensures
            s@ == match self {
                FailureKind::RoutingFailed => "routing"@,
                FailureKind::NoRoutingFrame => "no_routing_frame"@,
                FailureKind::ConnectionClosed => "connection_closed"@,
                FailureKind::Parse => "parse"@,
                FailureKind::Io => "io"@,
                FailureKind::BufferLimitExceeded => "buffer_limit_exceeded"@,
            },
    {
        match self {
            FailureKind::RoutingFailed => "routing",
            FailureKind::NoRoutingFrame => "no_routing_frame",
            FailureKind::ConnectionClosed => "connection_closed",
            FailureKind::Parse => "parse",
            FailureKind::Io => "io",
            FailureKind::BufferLimitExceeded => "buffer_limit_exceeded",
        }
    }
}

/// The two byte budgets of a connection: what may be buffered while the routing
/// key is still unknown, and what may be buffered while the route is set up.
pub struct BufferLimits {
    pub max_pre_route_bytes: usize,
    pub max_post_route_bytes: usize,
}

/// Eight MiB.
pub const DEFAULT_MAX_BYTES: usize = 8388608;

impl Default for BufferLimits {
    /// Both budgets at eight MiB.
    fn default() -> (l: Self)
        ensures
            l.max_pre_route_bytes == DEFAULT_MAX_BYTES,
            l.max_post_route_bytes == DEFAULT_MAX_BYTES,
    {
        BufferLimits { max_pre_route_bytes: DEFAULT_MAX_BYTES, max_post_route_bytes: DEFAULT_MAX_BYTES }
    }
}

/// One item from the request parser.
pub enum RequestEvent {
    /// Bytes the parser did not take apart.
    Passthrough { len: usize },
    /// A parsed frame of `len` bytes; `routing` when it carries a routing key.
    Frame { len: usize, routing: bool },
    /// The parser failed, with an error of this kind.
    Failed { kind: FailureKind },
}

/// What to do with a request event before the route is known.
#[derive(PartialEq, Eq, Structural, Clone, Copy)]
pub enum PreRouteAction {
    /// Buffer the bytes and read on.
    Buffer,
    /// Buffer the frame and route by its key.
    Route,
    /// The client went away between requests: end the connection quietly.
    ClientClosed,
    /// Answer the client with an error and end the connection.
    Fail(FailureKind, Phase),
}

/// What to do with a request event while the route is being set up.
#[derive(PartialEq, Eq, Structural)]
pub enum PostRouteAction {
    /// Buffer the bytes and read on.
    Buffer,
    /// Stop reading (over budget, or the parser failed).
    Stop,
}

/// What to do once the request has been read up to its routing frame (or the
/// parser ended).
#[derive(PartialEq, Eq, Structural)]
pub enum RouteDecision {
    /// Route the buffered request.
    Route,
    /// Nothing more came: end the connection without error.
    Finish,
    /// Answer with an error and end the connection.
    Fail(FailureKind, Phase),
}

/// The counters after one more event: frames and passed-through bytes are
/// counted into the request, and into the budget of the current reading stage.
pub open spec fn counted(c: RequestCycle, event: RequestEvent, post_route: bool) -> RequestCycle {
    match event {
        RequestEvent::Passthrough { len } => RequestCycle {
            passthrough_bytes: (c.passthrough_bytes + len) as u64,
            request_bytes: (c.request_bytes + len) as u64,
            pre_route_bytes: if post_route {
                c.pre_route_bytes
            } else {
                (c.pre_route_bytes + len) as usize
            },
            post_route_bytes: if post_route {
                (c.post_route_bytes + len) as usize
            } else {
                c.post_route_bytes
            },
            ..c
        },
        RequestEvent::Frame { len, .. } => RequestCycle {
            frame_count: (c.frame_count + 1) as u64,
            request_bytes: (c.request_bytes + len) as u64,
            frame_bytes: (c.frame_bytes + len) as u64,
            pre_route_bytes: if post_route {
                c.pre_route_bytes
            } else {
                (c.pre_route_bytes + len) as usize
            },
            post_route_bytes: if post_route {
                (c.post_route_bytes + len) as usize
            } else {
                c.post_route_bytes
            },
            ..c
        },
        RequestEvent::Failed { .. } => c,
    }
}

/// The counters have room for the event.
pub open spec fn event_fits(c: RequestCycle, event: RequestEvent) -> bool {
    match event {
        RequestEvent::Passthrough { len } => c.has_room(len),
        RequestEvent::Frame { len, .. } => c.has_room(len),
        RequestEvent::Failed { .. } => true,
    }
}

/// One event before the route is known: the counters after it and what to do.
/// Over the pre-route budget the connection fails with `BufferLimitExceeded` in the
/// parse phase; a frame with a routing key ends the pre-route reading; a parser
/// failure fails the connection with the parser error's kind in the parse phase, except a client that closed
/// after an earlier request, which ends the connection quietly.
pub open spec fn pre_route_outcome(c: RequestCycle, event: RequestEvent, limits: BufferLimits) -> (
    RequestCycle,
    PreRouteAction,
) {
    let next = counted(c, event, false);
    let action = match event {
        RequestEvent::Failed { kind } => if !c.first_cycle && kind == FailureKind::ConnectionClosed {
            PreRouteAction::ClientClosed
        } else {
            PreRouteAction::Fail(kind, Phase::Parse)
        },
        RequestEvent::Passthrough { .. } => if next.pre_route_bytes > limits.max_pre_route_bytes {
            PreRouteAction::Fail(FailureKind::BufferLimitExceeded, Phase::Parse)
        } else {
            PreRouteAction::Buffer
        },
        RequestEvent::Frame { routing, .. } => if next.pre_route_bytes
            > limits.max_pre_route_bytes {
            PreRouteAction::Fail(FailureKind::BufferLimitExceeded, Phase::Parse)
        } else if routing {
            PreRouteAction::Route
        } else {
            PreRouteAction::Buffer
        },
    };
    (next, action)
}

/// One event while the route is set up: the counters after it and what to do.
/// Reading stops at the first event over the post-route budget (which is not
/// buffered) or at a parser failure.
pub open spec fn post_route_outcome(c: RequestCycle, event: RequestEvent, limits: BufferLimits) -> (
    RequestCycle,
    PostRouteAction,
) {
    let next = counted(c, event, true);
    let action = match event {
        RequestEvent::Failed { .. } => PostRouteAction::Stop,
        _ => if next.post_route_bytes > limits.max_post_route_bytes {
            PostRouteAction::Stop
        } else {
            PostRouteAction::Buffer
        },
    };
    (next, action)
}

/// The counters of one request cycle on a connection.
pub struct RequestCycle {
    pub first_cycle: bool,
    pub frame_count: u64,
    pub passthrough_bytes: u64,
    pub request_bytes: u64,
    pub frame_bytes: u64,
    pub pre_route_bytes: usize,
    pub post_route_bytes: usize,
}

impl RequestCycle {
    /// A fresh cycle; `first_cycle` is whether no request was served yet on the
    /// connection.
    pub fn new(first_cycle: bool) -> (c: Self)
        ensures
            c.first_cycle == first_cycle,
            c.frame_count == 0,
            c.passthrough_bytes == 0,
            c.request_bytes == 0,
            c.frame_bytes == 0,
            c.pre_route_bytes == 0,
            c.post_route_bytes == 0,
    {
        RequestCycle {
            first_cycle,
            frame_count: 0,
            passthrough_bytes: 0,
            request_bytes: 0,
            frame_bytes: 0,
            pre_route_bytes: 0,
            post_route_bytes: 0,
        }
    }

    /// The byte counters agree: every request byte came in a frame or passed
    /// through.
    pub open spec fn consistent(&self) -> bool {
        self.request_bytes == self.passthrough_bytes + self.frame_bytes
    }

    /// The counters have room for `len` more bytes and one more frame.
    pub open spec fn has_room(&self, len: usize) -> bool {
        &&& self.request_bytes + len <= u64::MAX
        &&& self.passthrough_bytes + len <= u64::MAX
        &&& self.frame_bytes + len <= u64::MAX
        &&& self.frame_count < u64::MAX
        &&& self.pre_route_bytes + len <= usize::MAX
        &&& self.post_route_bytes + len <= usize::MAX
    }

    /// Handles one request event before the route is known: counts it, checks the
    /// pre-route budget, and says what to do with it.
    ///
    /// Bytes over budget fail the connection with `BufferLimitExceeded` in the
    /// parse phase; a frame with a routing key ends the pre-route reading; a parser
    /// failure fails the connection with the parser error's kind in the parse phase, except a client that closed
    /// after an earlier request, which ends the connection quietly.
    pub fn pre_route_step(&mut self, event: &RequestEvent, limits: &BufferLimits) -> (a:
        PreRouteAction)
        requires
            event_fits(*old(self), *event),
        ensures
            (*final(self), a) == pre_route_outcome(*old(self), *event, *limits),
    {
        match event {
            RequestEvent::Passthrough { len } => {
                self.passthrough_bytes = self.passthrough_bytes + *len as u64;
                self.request_bytes = self.request_bytes + *len as u64;
                self.pre_route_bytes = self.pre_route_bytes + *len;
                if self.pre_route_bytes > limits.max_pre_route_bytes {
                    PreRouteAction::Fail(FailureKind::BufferLimitExceeded, Phase::Parse)
                } else {
                    PreRouteAction::Buffer
                }
            },
            RequestEvent::Frame { len, routing } => {
                self.frame_count = self.frame_count + 1;
                self.request_bytes = self.request_bytes + *len as u64;
                self.frame_bytes = self.frame_bytes + *len as u64;
                self.pre_route_bytes = self.pre_route_bytes + *len;
                if self.pre_route_bytes > limits.max_pre_route_bytes {
                    PreRouteAction::Fail(FailureKind::BufferLimitExceeded, Phase::Parse)
                } else if *routing {
                    PreRouteAction::Route
                } else {
                    PreRouteAction::Buffer
                }
            },
            RequestEvent::Failed { kind } => {
                if !self.first_cycle && *kind == FailureKind::ConnectionClosed {
                    PreRouteAction::ClientClosed
                } else {
                    PreRouteAction::Fail(*kind, Phase::Parse)
                }
            },
        }
    }

    /// What to do when the pre-route reading has stopped: `key_found` when it
    /// stopped at a routing frame, `buffered_nothing` when nothing was buffered.
    ///
    /// Between requests, a connection on which nothing more came ends quietly; a
    /// request without a routing frame fails with `NoRoutingFrame`.
    pub fn route_decision(&self, key_found: bool, buffered_nothing: bool) -> (d: RouteDecision)
        ensures
            d == if !key_found && !self.first_cycle && buffered_nothing {
                RouteDecision::Finish
            } else if !key_found {
                RouteDecision::Fail(FailureKind::NoRoutingFrame, Phase::Parse)
            } else {
                RouteDecision::Route
            },
    {
        if !key_found && !self.first_cycle && buffered_nothing {
            RouteDecision::Finish
        } else if !key_found {
            RouteDecision::Fail(FailureKind::NoRoutingFrame, Phase::Parse)
        } else {
            RouteDecision::Route
        }
    }

    /// Handles one request event while the route is being set up: counts it and
    /// buffers it while the post-route budget lasts; stops at the first event over
    /// budget (without buffering it) or at a parser failure.
    pub fn post_route_step(&mut self, event: &RequestEvent, limits: &BufferLimits) -> (a:
        PostRouteAction)
        requires
            event_fits(*old(self), *event),
        ensures
            (*final(self), a) == post_route_outcome(*old(self), *event, *limits),
    {
        match event {
            RequestEvent::Passthrough { len } => {
                self.passthrough_bytes = self.passthrough_bytes + *len as u64;
                self.request_bytes = self.request_bytes + *len as u64;
                self.post_route_bytes = self.post_route_bytes + *len;
                if self.post_route_bytes > limits.max_post_route_bytes {
                    PostRouteAction::Stop
                } else {
                    PostRouteAction::Buffer
                }
            },
            RequestEvent::Frame { len, .. } => {
                self.frame_count = self.frame_count + 1;
                self.request_bytes = self.request_bytes + *len as u64;
                self.frame_bytes = self.frame_bytes + *len as u64;
                self.post_route_bytes = self.post_route_bytes + *len;
                if self.post_route_bytes > limits.max_post_route_bytes {
                    PostRouteAction::Stop
                } else {
                    PostRouteAction::Buffer
                }
            },
            RequestEvent::Failed { .. } => PostRouteAction::Stop,
        }
    }

    /// Whether the post-route reading ended over budget, which fails the
    /// connection with `BufferLimitExceeded` in the forward phase.
    pub fn post_route_failure(&self, limits: &BufferLimits) -> (f: Option<(FailureKind, Phase)>)
        ensures
            f == if self.post_route_bytes > limits.max_post_route_bytes {
                Some((FailureKind::BufferLimitExceeded, Phase::Forward))
            } else {
                None
            },
    {
        if self.post_route_bytes > limits.max_post_route_bytes {
            Some((FailureKind::BufferLimitExceeded, Phase::Forward))
        } else {
            None
        }
    }
}

/// Whether the connection goes on to another request after a response was relayed:
/// only when responses are parsed (so their end is known) and neither side asked
/// to close.
pub fn keeps_alive(close_requested: bool, parses_responses: bool) -> (b: bool)
    ensures
        b == (!close_requested && parses_responses),
{
    !(close_requested || !parses_responses)
}

/// Where in a request cycle a connection failed.
#[derive(PartialEq, Eq, Structural, Clone, Copy)]
pub enum FailurePoint {
    /// Over the pre-route budget, or the parser failed, before routing.
    PreRoute,
    /// The request ended without a routing frame.
    NoRoutingFrame,
    /// Over the post-route budget while the route was set up.
    PostRouteBudget,
    /// The connection hook refused the request.
    HookRefused,
    /// No destination could be opened for the routing key.
    Routing,
    /// Writing the request to the destination failed.
    ForwardWrite,
    /// Reading or relaying the response failed.
    Relay,
}

/// The phase a failure is reported in, and whether the client is answered with an
/// error response: every failure before the request reached the destination is
/// answered; once it was written on, the failure is not answered.
pub open spec fn failure_handling_spec(point: FailurePoint) -> (Phase, bool) {
    match point {
        FailurePoint::PreRoute => (Phase::Parse, true),
        FailurePoint::NoRoutingFrame => (Phase::Parse, true),
        FailurePoint::PostRouteBudget => (Phase::Forward, true),
        FailurePoint::HookRefused => (Phase::Parse, true),
        FailurePoint::Routing => (Phase::Routing, true),
        FailurePoint::ForwardWrite => (Phase::Forward, false),
        FailurePoint::Relay => (Phase::Relay, false),
    }
}

/// How a failure at `point` is reported: its phase, and whether the client gets an
/// error response.
pub fn failure_handling(point: FailurePoint) -> (r: (Phase, bool))
    ensures
        r == failure_handling_spec(point),
{
    match point {
        FailurePoint::PreRoute => (Phase::Parse, true),
        FailurePoint::NoRoutingFrame => (Phase::Parse, true),
        FailurePoint::PostRouteBudget => (Phase::Forward, true),
        FailurePoint::HookRefused => (Phase::Parse, true),
        FailurePoint::Routing => (Phase::Routing, true),
        FailurePoint::ForwardWrite => (Phase::Forward, false),
        FailurePoint::Relay => (Phase::Relay, false),
    }
}

/// Whether a frame is handed to the destination to route by: only the first
/// routing frame of a connection is.
pub fn routes_now(already_routed: bool, routing_frame: bool) -> (b: bool)
    ensures
        b == (routing_frame && !already_routed),
{
    routing_frame && !already_routed
}

/// How many bytes the relay lets pile up before writing them to the client.
pub const RESPONSE_FLUSH_THRESHOLD: usize = 32768;

/// Whether a response batch of this size is written out now.
pub fn response_batch_full(len: usize) -> (b: bool)
    ensures
        b == (len > RESPONSE_FLUSH_THRESHOLD),
{
    len > RESPONSE_FLUSH_THRESHOLD
}

/// The integer totals of a connection, summed over its request cycles.
pub struct ConnectionResult {
    pub frame_count: u64,
    pub response_bytes: u64,
    pub request_bytes: u64,
    pub routed: bool,
}

impl ConnectionResult {
    /// Nothing counted yet.
    pub fn default() -> (r: Self)
        ensures
            r.frame_count == 0,
            r.response_bytes == 0,
            r.request_bytes == 0,
            !r.routed,
    {
        ConnectionResult { frame_count: 0, response_bytes: 0, request_bytes: 0, routed: false }
    }

    /// Adds another cycle's totals: counts add up, and the connection counts as
    /// routed once any cycle was.
    pub fn accumulate(&mut self, other: &ConnectionResult)
        requires
            old(self).frame_count + other.frame_count <= u64::MAX,
            old(self).response_bytes + other.response_bytes <= u64::MAX,
            old(self).request_bytes + other.request_bytes <= u64::MAX,
        ensures
            final(self).frame_count == old(self).frame_count + other.frame_count,
            final(self).response_bytes == old(self).response_bytes + other.response_bytes,
            final(self).request_bytes == old(self).request_bytes + other.request_bytes,
            final(self).routed == (old(self).routed || other.routed),
    {
        self.frame_count = self.frame_count + other.frame_count;
        self.response_bytes = self.response_bytes + other.response_bytes;
        self.request_bytes = self.request_bytes + other.request_bytes;
        self.routed = self.routed || other.routed;
    }
}

} // verus!
