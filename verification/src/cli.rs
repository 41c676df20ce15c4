//! The command-line front end's decision: each subcommand maps one-to-one
//! onto running the daemon or sending one request over the control socket.

use crate::protocol::Direction;
use crate::protocol::Launch;
use crate::protocol::Request;
use vstd::prelude::*;

verus! {

/// One parsed command-line invocation.
#[derive(Clone, Copy, Debug, PartialEq, Eq, Structural)]
pub enum CliCommand {
    DaemonStart { force: bool },
    DaemonStop,
    Launch(Launch),
    MoveCursor(Direction),
    ShowWindows,
    SelectCurrent,
}

/// What the process does for one invocation.
#[derive(Clone, Copy, Debug, PartialEq, Eq, Structural)]
pub enum CliAction {
    /// Run the daemon in this process.
    RunDaemon { force: bool },
    /// Send this request over the control socket and report its outcome.
    Send(Request),
}

/// The action each subcommand maps onto.
pub open spec fn spec_cli_action(cmd: CliCommand) -> CliAction {
    match cmd {
        CliCommand::DaemonStart { force } => CliAction::RunDaemon { force },
        CliCommand::DaemonStop => CliAction::Send(Request::StopDaemon),
        CliCommand::Launch(kind) => CliAction::Send(Request::Launch(kind)),
        CliCommand::MoveCursor(dir) => CliAction::Send(Request::MoveCursor(dir)),
        CliCommand::ShowWindows => CliAction::Send(Request::ShowWindows),
        CliCommand::SelectCurrent => CliAction::Send(Request::SelectCurrent),
    }
}

/// Turns one invocation into the action to perform: the daemon subcommands
/// run or stop the daemon; every other subcommand becomes one request.
pub fn run_cli(cmd: CliCommand) -> (r: CliAction)
    ensures
        r == spec_cli_action(cmd),
{
    match cmd {
        CliCommand::DaemonStart { force } => CliAction::RunDaemon { force },
        CliCommand::DaemonStop => CliAction::Send(Request::StopDaemon),
        CliCommand::Launch(kind) => CliAction::Send(Request::Launch(kind)),
        CliCommand::MoveCursor(dir) => CliAction::Send(Request::MoveCursor(dir)),
        CliCommand::ShowWindows => CliAction::Send(Request::ShowWindows),
        CliCommand::SelectCurrent => CliAction::Send(Request::SelectCurrent),
    }
}

} // verus!
