use vstd::prelude::*;

verus! {

/// `std::io::Error`, carried through the library opaquely.
#[verifier::external_type_specification]
#[verifier::external_body]
pub struct ExIoError(std::io::Error);

/// The errors of the proxy core.
pub enum RailscaleError {
    Io(std::io::Error),
    Parse(String),
    RoutingFailed(String),
    ConnectionClosed,
    NoRoutingFrame,
}

/// `<std::io::Error as Display>::to_string`. Its text comes from the operating
/// system's error tables, so nothing is stated of it.
#[verifier::external_body]
fn io_error_text(e: &std::io::Error) -> String {
    e.to_string()
}

impl RailscaleError {
    /// The error's human-readable text, as its `Display` form reads.
    pub fn message(&self) -> (s: String)
        ensures
            match self {
                RailscaleError::Io(_) => s@.len() >= 4 && s@.take(4) == "io: "@,
                RailscaleError::Parse(m) => s@ == "parse: "@ + m@,
                RailscaleError::RoutingFailed(m) => s@ == "routing failed: "@ + m@,
                RailscaleError::ConnectionClosed => s@ == "connection closed"@,
                RailscaleError::NoRoutingFrame => s@ == "no routing frame received"@,
            },
    {
        match self {
            RailscaleError::Io(e) => {
                let mut s = String::from_str("io: ");
                proof {
                    reveal_strlit("io: ");
                }
                let t = io_error_text(e);
                s.append(t.as_str());
                assert(s@.take(4) == "io: "@);
                s
            },
            RailscaleError::Parse(m) => {
                let mut s = String::from_str("parse: ");
                s.append(m.as_str());
                s
            },
            RailscaleError::RoutingFailed(m) => {
                let mut s = String::from_str("routing failed: ");
                s.append(m.as_str());
                s
            },
            RailscaleError::ConnectionClosed => String::from_str("connection closed"),
            RailscaleError::NoRoutingFrame => String::from_str("no routing frame received"),
        }
    }
}

impl From<std::io::Error> for RailscaleError {
    fn from(e: std::io::Error) -> (r: Self) {
        RailscaleError::Io(e)
    }
}

impl vstd::std_specs::convert::FromSpecImpl<std::io::Error> for RailscaleError {
    open spec fn obeys_from_spec() -> bool {
        true
    }

    open spec fn from_spec(e: std::io::Error) -> Self {
        RailscaleError::Io(e)
    }
}

} // verus!
