use sagi::CliAction;
use sagi::CliCommand;
use sagi::Direction;
use sagi::Launch;
use sagi::ReplyOutcome;
use sagi::Request;
use sagi::Response;
use sagi::encode_response;
use sagi::interpret_reply;
use sagi::run_cli;

#[test]
fn subcommands_map_one_to_one_onto_actions() {
    assert_eq!(
        run_cli(CliCommand::DaemonStart { force: true }),
        CliAction::RunDaemon { force: true },
    );
    assert_eq!(
        run_cli(CliCommand::DaemonStart { force: false }),
        CliAction::RunDaemon { force: false },
    );
    assert_eq!(run_cli(CliCommand::DaemonStop), CliAction::Send(Request::StopDaemon));
    assert_eq!(
        run_cli(CliCommand::Launch(Launch::App)),
        CliAction::Send(Request::Launch(Launch::App)),
    );
    assert_eq!(
        run_cli(CliCommand::Launch(Launch::WindowInApp)),
        CliAction::Send(Request::Launch(Launch::WindowInApp)),
    );
    assert_eq!(
        run_cli(CliCommand::MoveCursor(Direction::Prev)),
        CliAction::Send(Request::MoveCursor(Direction::Prev)),
    );
    assert_eq!(
        run_cli(CliCommand::MoveCursor(Direction::Next)),
        CliAction::Send(Request::MoveCursor(Direction::Next)),
    );
    assert_eq!(run_cli(CliCommand::ShowWindows), CliAction::Send(Request::ShowWindows));
    assert_eq!(run_cli(CliCommand::SelectCurrent), CliAction::Send(Request::SelectCurrent));
}

#[test]
fn full_exchange_accepts_a_valid_request() {
    // The client encodes a request; the server decides and encodes its
    // response; the client reads the reply as accepted.
    let wire = sagi::encode_request(Request::SelectCurrent);
    let step = sagi::handle(&wire);
    let reply = sagi::encode_response(sagi::response_for(step));
    assert_eq!(interpret_reply(&reply), ReplyOutcome::Accepted);
}

#[test]
fn full_exchange_refuses_garbage() {
    let step = sagi::handle(&[1, 2, 3]);
    let reply = sagi::encode_response(sagi::response_for(step));
    assert_eq!(interpret_reply(&reply), ReplyOutcome::Refused);
}

#[test]
fn reply_outcomes_cover_accept_refuse_malformed() {
    assert_eq!(interpret_reply(&encode_response(Response::Accepted)), ReplyOutcome::Accepted);
    assert_eq!(interpret_reply(&encode_response(Response::Refused)), ReplyOutcome::Refused);
    assert_eq!(interpret_reply(&[7, 7, 7]), ReplyOutcome::Malformed);
    assert_eq!(interpret_reply(&[]), ReplyOutcome::Malformed);
}
