//! Why a poll failed.
use crate::text::{cat, cat4, decimal, decimal_text};
use vstd::prelude::*;

verus! {

/// Top-level error type.
#[derive(Debug)]
pub enum SgtopError {
    /// The server is reachable but `/metrics` returned 404: it was started without
    /// `--enable-metrics`. This is fatal: an explicit message is shown and the
    /// program exits rather than silently degrade.
    MetricsDisabled,
    Poll(PollError),
    /// An I/O failure, by its message.
    Io(String),
    /// A failure of the HTTP client, by its message.
    Http(String),
    Other(String),
}

/// Classifies why a single poll attempt failed, so the poller can decide between
/// degraded (keep last-known, grey out) and lost (banner and reconnect).
#[derive(Debug, Clone)]
pub enum PollError {
    /// Transport failure: connection refused, DNS, TLS, timeout.
    Transport(String),
    /// HTTP 4xx or 5xx, by the raw code.
    Status { status: u16, path: String },
    /// Body arrived but did not decode into the expected shape.
    Decode(String),
    /// The endpoint is known to be unavailable on this server.
    Disabled(&'static str),
}

impl PollError {
    /// What the error says.
    pub open spec fn text(self) -> Seq<char> {
        match self {
            PollError::Transport(s) => "transport: "@ + s@,
            PollError::Status { status, path } => "http "@ + decimal_text(status as nat) + " on "@
                + path@,
            PollError::Decode(s) => "decode: "@ + s@,
            PollError::Disabled(s) => "disabled: "@ + s@,
        }
    }

    /// What the error says.
    pub fn to_text(&self) -> (r: String)
        ensures
            r@ == self.text(),
    {
        match self {
            PollError::Transport(s) => cat("transport: ", s.as_str()),
            PollError::Status { status, path } => cat4(
                "http ",
                decimal(*status as u64).as_str(),
                " on ",
                path.as_str(),
            ),
            PollError::Decode(s) => cat("decode: ", s.as_str()),
            PollError::Disabled(s) => cat("disabled: ", *s),
        }
    }
}

impl SgtopError {
    /// What the error says.
    pub open spec fn text(self) -> Seq<char> {
        match self {
            SgtopError::MetricsDisabled =>
                "server started without --enable-metrics (GET /metrics -> 404)"@,
            SgtopError::Poll(e) => "poll failed: "@ + e.text(),
            SgtopError::Io(e) => "io: "@ + e@,
            SgtopError::Http(e) => "http: "@ + e@,
            SgtopError::Other(s) => s@,
        }
    }

    /// What the error says.
    pub fn to_text(&self) -> (r: String)
        ensures
            r@ == self.text(),
    {
        match self {
            SgtopError::MetricsDisabled =>
                "server started without --enable-metrics (GET /metrics -> 404)".to_owned(),
            SgtopError::Poll(e) => cat("poll failed: ", e.to_text().as_str()),
            SgtopError::Io(e) => cat("io: ", e.as_str()),
            SgtopError::Http(e) => cat("http: ", e.as_str()),
            SgtopError::Other(s) => s.clone(),
        }
    }
}

}
