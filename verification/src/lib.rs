//! Core engine of a window-switcher daemon: a registry of open windows
//! grouped by application, a binary control protocol with its local socket
//! address rule, the control-server decision logic, and the switcher's
//! open/closed/navigate/select state machine.

use vstd::prelude::*;

pub mod cli;
pub mod client;
pub mod controller;
pub mod events;
pub mod icon;
pub mod protocol;
pub mod registry;
pub mod server;

pub use cli::CliAction;
pub use cli::CliCommand;
pub use cli::run_cli;
pub use client::ReplyOutcome;
pub use client::interpret_reply;
pub use controller::GuiOp;
pub use controller::SelectableFrame;
pub use controller::SwitcherAction;
pub use controller::SwitcherState;
pub use controller::step;
pub use events::CompositorEvent;
pub use icon::Class;
pub use icon::lookup_icon;
pub use icon::lowered_class_name;
pub use protocol::DecodeError;
pub use protocol::Direction;
pub use protocol::Launch;
pub use protocol::Request;
pub use protocol::Response;
pub use protocol::decode_request;
pub use protocol::decode_response;
pub use protocol::encode_request;
pub use protocol::encode_response;
pub use protocol::get_socket_path;
pub use registry::AppGroup;
pub use registry::WindowEntry;
pub use registry::WindowRegistry;
pub use server::ServerStep;
pub use server::StartupDecision;
pub use server::continues;
pub use server::handle;
pub use server::response_for;
pub use server::startup_decision;

verus! {

/// A process-unique identifier for one live window instance, valid for that
/// window's lifetime; the join key between compositor events and the registry.
pub type WindowHandle = u64;

} // verus!
