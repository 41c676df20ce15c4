use sagi::Direction;
use sagi::GuiOp;
use sagi::Launch;
use sagi::Request;
use sagi::Response;
use sagi::ServerStep;
use sagi::StartupDecision;
use sagi::continues;
use sagi::encode_request;
use sagi::handle;
use sagi::response_for;
use sagi::startup_decision;

#[test]
fn stop_daemon_is_accepted_and_exits_the_loop() {
    let bytes = encode_request(Request::StopDaemon);
    let step = handle(&bytes);
    assert_eq!(step, ServerStep::Stop);
    assert_eq!(response_for(step), Response::Accepted);
    assert!(!continues(step));
}

#[test]
fn garbage_is_refused_and_terminates_the_listener() {
    let step = handle(&[0xde, 0xad, 0xbe, 0xef]);
    assert_eq!(step, ServerStep::Refuse);
    assert_eq!(response_for(step), Response::Refused);
    assert!(!continues(step));
}

#[test]
fn commands_are_forwarded_and_accepted() {
    let cases = [
        (Request::Launch(Launch::App), GuiOp::Launch(Launch::App)),
        (Request::Launch(Launch::WindowInApp), GuiOp::Launch(Launch::WindowInApp)),
        (Request::MoveCursor(Direction::Prev), GuiOp::MoveCursor(Direction::Prev)),
        (Request::MoveCursor(Direction::Next), GuiOp::MoveCursor(Direction::Next)),
        (Request::ShowWindows, GuiOp::ShowWindows),
        (Request::SelectCurrent, GuiOp::SelectCurrent),
    ];
    for (req, op) in cases {
        let step = handle(&encode_request(req));
        assert_eq!(step, ServerStep::Forward(op));
        assert_eq!(response_for(step), Response::Accepted);
        assert!(continues(step));
    }
}

#[test]
fn startup_decides_collision_handling() {
    assert_eq!(startup_decision(false, false), StartupDecision::Start);
    assert_eq!(startup_decision(false, true), StartupDecision::Start);
    assert_eq!(startup_decision(true, false), StartupDecision::AlreadyRunning);
    assert_eq!(startup_decision(true, true), StartupDecision::RemoveStaleAndStart);
}
