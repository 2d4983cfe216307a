//! Control plane decisions: who may command the engine, and which command a route carries.

use crate::events::ControlEvent;
use vstd::prelude::*;

verus! {

/// Header checked when a secret is configured (`x-pallas-secret`).
pub const HEADER_SECRET: &'static str = "x-pallas-secret";

/// HTTP bind target and shared secret.
#[derive(Clone, Debug)]
pub struct ControlServerConfig {
    /// e.g. `127.0.0.1:9847`
    pub bind: String,
    /// Required header value for `HEADER_SECRET`.
    pub secret: String,
}

/// HTTP status of a request without the right secret.
pub const STATUS_UNAUTHORIZED: u16 = 401u16;

/// HTTP status of a command handed to the engine.
pub const STATUS_NO_CONTENT: u16 = 204u16;

/// HTTP status of a command the engine could not take (its queue is closed).
pub const STATUS_SERVICE_UNAVAILABLE: u16 = 503u16;

/// A request is authorized when it carries the secret header (as visible ASCII text) and
/// its value equals the secret. `header` is that value, `None` when absent or not text.
pub fn authorize(header: Option<&str>, secret: &str) -> (r: bool)
    ensures
        r == (header matches Some(v) && v@ == secret@),
{
    match header {
        Some(v) => v.to_owned() == secret.to_owned(),
        None => false,
    }
}

/// The command of a control route: `/pause`, `/resume`, `/cancel-all`, `/flatten`.
pub open spec fn route_command(path: Seq<char>) -> Option<ControlEvent> {
    if path == "/pause"@ {
        Some(ControlEvent::Pause)
    } else if path == "/resume"@ {
        Some(ControlEvent::Resume)
    } else if path == "/cancel-all"@ {
        Some(ControlEvent::CancelAll)
    } else if path == "/flatten"@ {
        Some(ControlEvent::Flatten)
    } else {
        None
    }
}

/// The command of a control route.
pub fn route_event(path: &str) -> (r: Option<ControlEvent>)
    ensures
        r == route_command(path@),
{
    let p = path.to_owned();
    if p == "/pause".to_owned() {
        Some(ControlEvent::Pause)
    } else if p == "/resume".to_owned() {
        Some(ControlEvent::Resume)
    } else if p == "/cancel-all".to_owned() {
        Some(ControlEvent::CancelAll)
    } else if p == "/flatten".to_owned() {
        Some(ControlEvent::Flatten)
    } else {
        None
    }
}

/// The answer to a control request: unauthorized without the secret; otherwise no content
/// once the command reached the engine, service unavailable when it could not.
pub open spec fn control_status(authorized: bool, delivered: bool) -> u16 {
    if !authorized {
        STATUS_UNAUTHORIZED
    } else if delivered {
        STATUS_NO_CONTENT
    } else {
        STATUS_SERVICE_UNAVAILABLE
    }
}

/// The answer to a control request (`delivered` is only looked at when authorized).
pub fn response_status(authorized: bool, delivered: bool) -> (r: u16)
    ensures
        r == control_status(authorized, delivered),
{
    if !authorized {
        STATUS_UNAUTHORIZED
    } else if delivered {
        STATUS_NO_CONTENT
    } else {
        STATUS_SERVICE_UNAVAILABLE
    }
}

} // verus!
