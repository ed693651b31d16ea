use vstd::prelude::*;
use std::time::Duration;
use crate::connection::{BufferLimits, DEFAULT_MAX_BYTES};
use crate::error::RailscaleError;

verus! {

/// The `Duration` of `secs` whole seconds.
pub uninterp spec fn seconds(secs: u64) -> Duration;

/// `Duration::from_secs`.
#[verifier::external_body]
pub(crate) fn duration_from_secs(secs: u64) -> (d: Duration)
    ensures
        d == seconds(secs),
{
    Duration::from_secs(secs)
}

/// How long a stopping forwarder waits for open connections by default.
pub const DEFAULT_DRAIN_SECS: u64 = 30;

/// The bind and upstream addresses a forwarder needs; `RoutingFailed` naming the
/// first one missing.
pub fn require_endpoints(bind_addr: Option<String>, upstream: Option<String>) -> (r: Result<
    (String, String),
    RailscaleError,
>)
    ensures
        match (bind_addr, upstream) {
            (Some(b), Some(u)) => r matches Ok((rb, ru)) && rb@ == b@ && ru@ == u@,
            (None, _) => r matches Err(RailscaleError::RoutingFailed(m)) && m@
                == "bind address required"@,
            (Some(_), None) => r matches Err(RailscaleError::RoutingFailed(m)) && m@
                == "upstream address required"@,
        },
{
    let bind = match bind_addr {
        Some(b) => b,
        None => {
            return Err(RailscaleError::RoutingFailed(String::from_str("bind address required")));
        },
    };
    let upstream = match upstream {
        Some(u) => u,
        None => {
            return Err(
                RailscaleError::RoutingFailed(String::from_str("upstream address required")),
            );
        },
    };
    Ok((bind, upstream))
}

/// What a checked builder hands on to be bound: the addresses and the settings.
pub struct ForwardSettings {
    pub bind: String,
    pub upstream: String,
    pub buffer_limits: BufferLimits,
    pub drain_timeout: Duration,
}

/// Builds a raw TCP forwarder.
pub struct ForwardTcpBuilder {
    bind_addr: Option<String>,
    upstream: Option<String>,
    buffer_limits: BufferLimits,
    drain_timeout: Duration,
}

/// Builds a TLS pass-through forwarder.
pub struct ForwardTlsBuilder {
    bind_addr: Option<String>,
    upstream: Option<String>,
    buffer_limits: BufferLimits,
    drain_timeout: Duration,
}

/// The model of a forwarder builder: what has been set so far.
pub struct BuilderModel {
    pub bind_addr: Option<Seq<char>>,
    pub upstream: Option<Seq<char>>,
    pub max_pre_route_bytes: usize,
    pub max_post_route_bytes: usize,
    pub drain_timeout: Duration,
}

pub open spec fn opt_text(s: Option<String>) -> Option<Seq<char>> {
    match s {
        Some(t) => Some(t@),
        None => None,
    }
}

/// The model of a fresh builder: no addresses, default budgets, 30 s drain time.
pub open spec fn fresh_builder() -> BuilderModel {
    BuilderModel {
        bind_addr: None,
        upstream: None,
        max_pre_route_bytes: DEFAULT_MAX_BYTES,
        max_post_route_bytes: DEFAULT_MAX_BYTES,
        drain_timeout: seconds(DEFAULT_DRAIN_SECS),
    }
}

/// What `build` checks and hands on, given the builder's model.
pub open spec fn settings_of(m: BuilderModel, r: Result<ForwardSettings, RailscaleError>) -> bool {
    match (m.bind_addr, m.upstream) {
        (Some(b), Some(u)) => r matches Ok(s) && s.bind@ == b && s.upstream@ == u
            && s.buffer_limits.max_pre_route_bytes == m.max_pre_route_bytes
            && s.buffer_limits.max_post_route_bytes == m.max_post_route_bytes && s.drain_timeout
            == m.drain_timeout,
        (None, _) => r matches Err(RailscaleError::RoutingFailed(msg)) && msg@
            == "bind address required"@,
        (Some(_), None) => r matches Err(RailscaleError::RoutingFailed(msg)) && msg@
            == "upstream address required"@,
    }
}

impl ForwardTcpBuilder {
    /// A builder with nothing set: what `ForwardTcp::builder` starts from.
    pub fn new() -> (b: Self)
        ensures
            b@ == fresh_builder(),
    {
        ForwardTcpBuilder {
            bind_addr: None,
            upstream: None,
            buffer_limits: BufferLimits::default(),
            drain_timeout: duration_from_secs(DEFAULT_DRAIN_SECS),
        }
    }

    pub closed spec fn view(&self) -> BuilderModel {
        BuilderModel {
            bind_addr: opt_text(self.bind_addr),
            upstream: opt_text(self.upstream),
            max_pre_route_bytes: self.buffer_limits.max_pre_route_bytes,
            max_post_route_bytes: self.buffer_limits.max_post_route_bytes,
            drain_timeout: self.drain_timeout,
        }
    }

    /// Sets the address to listen on.
    pub fn bind(self, addr: &str) -> (b: Self)
        ensures
            b@ == (BuilderModel { bind_addr: Some(addr@), ..self@ }),
    {
        ForwardTcpBuilder { bind_addr: Some(String::from_str(addr)), ..self }
    }

    /// Sets the address to forward to.
    pub fn upstream(self, addr: &str) -> (b: Self)
        ensures
            b@ == (BuilderModel { upstream: Some(addr@), ..self@ }),
    {
        ForwardTcpBuilder { upstream: Some(String::from_str(addr)), ..self }
    }

    /// Sets the buffering budgets.
    pub fn buffer_limits(self, limits: BufferLimits) -> (b: Self)
        ensures
            b@ == (BuilderModel {
                max_pre_route_bytes: limits.max_pre_route_bytes,
                max_post_route_bytes: limits.max_post_route_bytes,
                ..self@
            }),
    {
        ForwardTcpBuilder { buffer_limits: limits, ..self }
    }

    /// Sets how long a stopping forwarder waits for open connections.
    pub fn drain_timeout(self, timeout: Duration) -> (b: Self)
        ensures
            b@ == (BuilderModel { drain_timeout: timeout, ..self@ }),
    {
        ForwardTcpBuilder { drain_timeout: timeout, ..self }
    }

    /// Checks that both addresses were given and hands on the settings to bind
    /// with; `RoutingFailed` names the first address missing.
    pub fn settings(self) -> (r: Result<ForwardSettings, RailscaleError>)
        ensures
            settings_of(self@, r),
    {
        let ForwardTcpBuilder { bind_addr, upstream, buffer_limits, drain_timeout } = self;
        let (bind, upstream) = require_endpoints(bind_addr, upstream)?;
        Ok(ForwardSettings { bind, upstream, buffer_limits, drain_timeout })
    }
}

impl ForwardTlsBuilder {
    /// A builder with nothing set: what `ForwardTls::builder` starts from.
    pub fn new() -> (b: Self)
        ensures
            b@ == fresh_builder(),
    {
        ForwardTlsBuilder {
            bind_addr: None,
            upstream: None,
            buffer_limits: BufferLimits::default(),
            drain_timeout: duration_from_secs(DEFAULT_DRAIN_SECS),
        }
    }

    pub closed spec fn view(&self) -> BuilderModel {
        BuilderModel {
            bind_addr: opt_text(self.bind_addr),
            upstream: opt_text(self.upstream),
            max_pre_route_bytes: self.buffer_limits.max_pre_route_bytes,
            max_post_route_bytes: self.buffer_limits.max_post_route_bytes,
            drain_timeout: self.drain_timeout,
        }
    }

    /// Sets the address to listen on.
    pub fn bind(self, addr: &str) -> (b: Self)
        ensures
            b@ == (BuilderModel { bind_addr: Some(addr@), ..self@ }),
    {
        ForwardTlsBuilder { bind_addr: Some(String::from_str(addr)), ..self }
    }

    /// Sets the address to forward to.
    pub fn upstream(self, addr: &str) -> (b: Self)
        ensures
            b@ == (BuilderModel { upstream: Some(addr@), ..self@ }),
    {
        ForwardTlsBuilder { upstream: Some(String::from_str(addr)), ..self }
    }

    /// Sets the buffering budgets.
    pub fn buffer_limits(self, limits: BufferLimits) -> (b: Self)
        ensures
            b@ == (BuilderModel {
                max_pre_route_bytes: limits.max_pre_route_bytes,
                max_post_route_bytes: limits.max_post_route_bytes,
                ..self@
            }),
    {
        ForwardTlsBuilder { buffer_limits: limits, ..self }
    }

    /// Sets how long a stopping forwarder waits for open connections.
    pub fn drain_timeout(self, timeout: Duration) -> (b: Self)
        ensures
            b@ == (BuilderModel { drain_timeout: timeout, ..self@ }),
    {
        ForwardTlsBuilder { drain_timeout: timeout, ..self }
    }

    /// Checks that both addresses were given and hands on the settings to bind
    /// with; `RoutingFailed` names the first address missing.
    pub fn settings(self) -> (r: Result<ForwardSettings, RailscaleError>)
        ensures
            settings_of(self@, r),
    {
        let ForwardTlsBuilder { bind_addr, upstream, buffer_limits, drain_timeout } = self;
        let (bind, upstream) = require_endpoints(bind_addr, upstream)?;
        Ok(ForwardSettings { bind, upstream, buffer_limits, drain_timeout })
    }
}

} // verus!
