//! The control-server decision logic: what one connection's bytes dispatch
//! to the controller, which response they earn, and what daemon startup does
//! when the socket path already exists.

use crate::controller::GuiOp;
use crate::protocol::DecodeError;
use crate::protocol::Request;
use crate::protocol::Response;
use crate::protocol::decode_request;
use crate::protocol::spec_decode_request;
use vstd::prelude::*;

verus! {

/// What the server does after reading one request.
#[derive(Clone, Copy, Debug, PartialEq, Eq, Structural)]
pub enum ServerStep {
    /// Forward the command to the controller, reply `Accepted`, keep
    /// listening.
    Forward(GuiOp),
    /// Reply `Accepted`, then halt the daemon: the listener exits normally.
    Stop,
    /// The bytes decode to no request: reply `Refused` and terminate the
    /// listener with an error.
    Refuse,
}

/// The controller command a request dispatches to; `StopDaemon` halts the
/// listener instead.
pub open spec fn spec_dispatch(m: Request) -> ServerStep {
    match m {
        Request::Launch(kind) => ServerStep::Forward(GuiOp::Launch(kind)),
        Request::MoveCursor(dir) => ServerStep::Forward(GuiOp::MoveCursor(dir)),
        Request::ShowWindows => ServerStep::Forward(GuiOp::ShowWindows),
        Request::SelectCurrent => ServerStep::Forward(GuiOp::SelectCurrent),
        Request::StopDaemon => ServerStep::Stop,
    }
}

/// Decides one connection's outcome from the raw bytes read from it.
pub fn handle(raw: &[u8]) -> (r: ServerStep)
    ensures
        match spec_decode_request(raw@) {
            Some(m) => r == spec_dispatch(m),
            None => r == ServerStep::Refuse,
        },
{
    match decode_request(raw) {
        Ok(Request::Launch(kind)) => ServerStep::Forward(GuiOp::Launch(kind)),
        Ok(Request::MoveCursor(dir)) => ServerStep::Forward(GuiOp::MoveCursor(dir)),
        Ok(Request::ShowWindows) => ServerStep::Forward(GuiOp::ShowWindows),
        Ok(Request::SelectCurrent) => ServerStep::Forward(GuiOp::SelectCurrent),
        Ok(Request::StopDaemon) => ServerStep::Stop,
        Err(DecodeError::Malformed) => ServerStep::Refuse,
    }
}

/// The response written for one exchange: `Refused` exactly when the bytes
/// decoded to no request.
pub fn response_for(step: ServerStep) -> (r: Response)
    ensures
        r == (if step is Refuse {
            Response::Refused
        } else {
            Response::Accepted
        }),
{
    match step {
        ServerStep::Refuse => Response::Refused,
        _ => Response::Accepted,
    }
}

/// Whether the listener accepts further connections after this exchange:
/// only after forwarding a command.
pub fn continues(step: ServerStep) -> (r: bool)
    ensures
        r == (step is Forward),
{
    match step {
        ServerStep::Forward(_) => true,
        _ => false,
    }
}

/// What daemon startup does about the control-socket path.
#[derive(Clone, Copy, Debug, PartialEq, Eq, Structural)]
pub enum StartupDecision {
    /// The path is free: bind and serve.
    Start,
    /// The path exists and force was given: remove the stale path, then
    /// bind and serve.
    RemoveStaleAndStart,
    /// The path exists and no force was given: another daemon is assumed to
    /// be running; log and exit successfully without starting.
    AlreadyRunning,
}

/// Resolves a startup socket-path collision: not an error, but either
/// already-running semantics or, under force, removal of the stale path.
pub fn startup_decision(socket_exists: bool, force: bool) -> (r: StartupDecision)
    ensures
        !socket_exists ==> r == StartupDecision::Start,
        socket_exists && force ==> r == StartupDecision::RemoveStaleAndStart,
        socket_exists && !force ==> r == StartupDecision::AlreadyRunning,
{
    if socket_exists {
        if force {
            StartupDecision::RemoveStaleAndStart
        } else {
            StartupDecision::AlreadyRunning
        }
    } else {
        StartupDecision::Start
    }
}

} // verus!
