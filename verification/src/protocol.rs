//! The control protocol: the Request and Response wire values, their fixed
//! tag-plus-payload binary encoding, and the control-socket address rule.

use vstd::prelude::*;

verus! {

/// What a launch request opens the switcher over.
#[derive(Clone, Copy, Debug, PartialEq, Eq, Structural)]
pub enum Launch {
    App,
    WindowInApp,
}

/// Cursor movement direction.
#[derive(Clone, Copy, Debug, PartialEq, Eq, Structural)]
pub enum Direction {
    Prev,
    Next,
}

/// A command sent over the control socket.
#[derive(Clone, Copy, Debug, PartialEq, Eq, Structural)]
pub enum Request {
    Launch(Launch),
    MoveCursor(Direction),
    ShowWindows,
    SelectCurrent,
    StopDaemon,
}

/// The server's reply to one request.
#[derive(Clone, Copy, Debug, PartialEq, Eq, Structural)]
pub enum Response {
    Accepted,
    Refused,
}

/// Decoding failed: the bytes are not the encoding of any value.
#[derive(Clone, Copy, Debug, PartialEq, Eq, Structural)]
pub enum DecodeError {
    Malformed,
}

/// A variant tag on the wire: one 32-bit little-endian word.
pub open spec fn tag_bytes(t: u8) -> Seq<u8> {
    seq![t, 0u8, 0u8, 0u8]
}

/// The encoding of a request: a tag word, then a payload tag word for the
/// variants that carry one.
pub open spec fn spec_encode_request(m: Request) -> Seq<u8> {
    match m {
        Request::Launch(Launch::App) => tag_bytes(0) + tag_bytes(0),
        Request::Launch(Launch::WindowInApp) => tag_bytes(0) + tag_bytes(1),
        Request::MoveCursor(Direction::Prev) => tag_bytes(1) + tag_bytes(0),
        Request::MoveCursor(Direction::Next) => tag_bytes(1) + tag_bytes(1),
        Request::ShowWindows => tag_bytes(2),
        Request::SelectCurrent => tag_bytes(3),
        Request::StopDaemon => tag_bytes(4),
    }
}

/// The decoding of a request: the value whose encoding the bytes are, if any.
pub open spec fn spec_decode_request(s: Seq<u8>) -> Option<Request> {
    if s == spec_encode_request(Request::Launch(Launch::App)) {
        Some(Request::Launch(Launch::App))
    } else if s == spec_encode_request(Request::Launch(Launch::WindowInApp)) {
        Some(Request::Launch(Launch::WindowInApp))
    } else if s == spec_encode_request(Request::MoveCursor(Direction::Prev)) {
        Some(Request::MoveCursor(Direction::Prev))
    } else if s == spec_encode_request(Request::MoveCursor(Direction::Next)) {
        Some(Request::MoveCursor(Direction::Next))
    } else if s == spec_encode_request(Request::ShowWindows) {
        Some(Request::ShowWindows)
    } else if s == spec_encode_request(Request::SelectCurrent) {
        Some(Request::SelectCurrent)
    } else if s == spec_encode_request(Request::StopDaemon) {
        Some(Request::StopDaemon)
    } else {
        None
    }
}

/// The encoding of a response: one tag word.
pub open spec fn spec_encode_response(m: Response) -> Seq<u8> {
    match m {
        Response::Accepted => tag_bytes(0),
        Response::Refused => tag_bytes(1),
    }
}

/// The decoding of a response: the value whose encoding the bytes are, if any.
pub open spec fn spec_decode_response(s: Seq<u8>) -> Option<Response> {
    if s == spec_encode_response(Response::Accepted) {
        Some(Response::Accepted)
    } else if s == spec_encode_response(Response::Refused) {
        Some(Response::Refused)
    } else {
        None
    }
}

/// Law: decoding an encoded request reproduces the original value, for every
/// variant.
pub proof fn lemma_request_round_trip(m: Request)
    ensures
        spec_decode_request(spec_encode_request(m)) == Some(m),
{
    let s = spec_encode_request(m);
    match m {
        Request::Launch(Launch::App) => {},
        Request::Launch(Launch::WindowInApp) => {
            assert(s[4] != spec_encode_request(Request::Launch(Launch::App))[4]);
        },
        Request::MoveCursor(Direction::Prev) => {
            assert(s[0] != spec_encode_request(Request::Launch(Launch::App))[0]);
            assert(s[0] != spec_encode_request(Request::Launch(Launch::WindowInApp))[0]);
        },
        Request::MoveCursor(Direction::Next) => {
            assert(s[0] != spec_encode_request(Request::Launch(Launch::App))[0]);
            assert(s[0] != spec_encode_request(Request::Launch(Launch::WindowInApp))[0]);
            assert(s[4] != spec_encode_request(Request::MoveCursor(Direction::Prev))[4]);
        },
        Request::ShowWindows => {
            assert(s.len() != 8);
        },
        Request::SelectCurrent => {
            assert(s.len() != 8);
            assert(s[0] != spec_encode_request(Request::ShowWindows)[0]);
        },
        Request::StopDaemon => {
            assert(s.len() != 8);
            assert(s[0] != spec_encode_request(Request::ShowWindows)[0]);
            assert(s[0] != spec_encode_request(Request::SelectCurrent)[0]);
        },
    }
}

/// Law: decoding an encoded response reproduces the original value, for both
/// variants.
pub proof fn lemma_response_round_trip(m: Response)
    ensures
        spec_decode_response(spec_encode_response(m)) == Some(m),
{
    match m {
        Response::Accepted => {},
        Response::Refused => {
            assert(spec_encode_response(Response::Refused)[0] != spec_encode_response(
                Response::Accepted,
            )[0]);
        },
    }
}

/// Appends one tag word to the buffer.
fn push_tag(v: &mut Vec<u8>, t: u8)
    ensures
        final(v)@ == old(v)@ + tag_bytes(t),
{
    v.push(t);
    v.push(0);
    v.push(0);
    v.push(0);
    proof {
        assert(v@ =~= old(v)@ + tag_bytes(t));
    }
}

/// Encodes a request for the wire.
pub fn encode_request(msg: Request) -> (r: Vec<u8>)
    ensures
        r@ == spec_encode_request(msg),
{
    let mut v: Vec<u8> = Vec::new();
    match msg {
        Request::Launch(Launch::App) => {
            push_tag(&mut v, 0);
            push_tag(&mut v, 0);
        },
        Request::Launch(Launch::WindowInApp) => {
            push_tag(&mut v, 0);
            push_tag(&mut v, 1);
        },
        Request::MoveCursor(Direction::Prev) => {
            push_tag(&mut v, 1);
            push_tag(&mut v, 0);
        },
        Request::MoveCursor(Direction::Next) => {
            push_tag(&mut v, 1);
            push_tag(&mut v, 1);
        },
        Request::ShowWindows => {
            push_tag(&mut v, 2);
        },
        Request::SelectCurrent => {
            push_tag(&mut v, 3);
        },
        Request::StopDaemon => {
            push_tag(&mut v, 4);
        },
    }
    proof {
        assert(v@ =~= spec_encode_request(msg));
    }
    v
}

/// Encodes a response for the wire.
pub fn encode_response(msg: Response) -> (r: Vec<u8>)
    ensures
        r@ == spec_encode_response(msg),
{
    let mut v: Vec<u8> = Vec::new();
    match msg {
        Response::Accepted => {
            push_tag(&mut v, 0);
        },
        Response::Refused => {
            push_tag(&mut v, 1);
        },
    }
    proof {
        assert(v@ =~= spec_encode_response(msg));
    }
    v
}

/// True if the bytes at positions `i + 1 .. i + 4` are zero: the tag word at
/// `i` then encodes its first byte alone.
fn word_padding_ok(raw: &[u8], i: usize) -> (r: bool)
    requires
        i + 4 <= raw@.len(),
    ensures
        r == (raw@[i + 1] == 0 && raw@[i + 2] == 0 && raw@[i + 3] == 0),
{
    let n = raw.len();
    proof {
        // Knowing the slice length as a usize rules out overflow of i + 3.
        assert(i + 4 <= n);
    }
    raw[i + 1] == 0 && raw[i + 2] == 0 && raw[i + 3] == 0
}

/// Decodes a request; malformed bytes are a distinguishable error.
pub fn decode_request(raw: &[u8]) -> (r: Result<Request, DecodeError>)
    ensures
        match r {
            Ok(m) => spec_decode_request(raw@) == Some(m),
            Err(DecodeError::Malformed) => spec_decode_request(raw@) is None,
        },
{
    let res: Result<Request, DecodeError> = if raw.len() == 4 && word_padding_ok(raw, 0) {
        match raw[0] {
            2 => Ok(Request::ShowWindows),
            3 => Ok(Request::SelectCurrent),
            4 => Ok(Request::StopDaemon),
            _ => Err(DecodeError::Malformed),
        }
    } else if raw.len() == 8 && word_padding_ok(raw, 0) && word_padding_ok(raw, 4) {
        match (raw[0], raw[4]) {
            (0, 0) => Ok(Request::Launch(Launch::App)),
            (0, 1) => Ok(Request::Launch(Launch::WindowInApp)),
            (1, 0) => Ok(Request::MoveCursor(Direction::Prev)),
            (1, 1) => Ok(Request::MoveCursor(Direction::Next)),
            _ => Err(DecodeError::Malformed),
        }
    } else {
        Err(DecodeError::Malformed)
    };
    proof {
        match res {
            Ok(m) => {
                assert(raw@ =~= spec_encode_request(m));
                lemma_request_round_trip(m);
            },
            Err(_) => {
                if spec_decode_request(raw@) is Some {
                    let m = spec_decode_request(raw@)->Some_0;
                    assert(raw@ == spec_encode_request(m));
                }
            },
        }
    }
    res
}

/// Decodes a response; malformed bytes are a distinguishable error.
pub fn decode_response(raw: &[u8]) -> (r: Result<Response, DecodeError>)
    ensures
        match r {
            Ok(m) => spec_decode_response(raw@) == Some(m),
            Err(DecodeError::Malformed) => spec_decode_response(raw@) is None,
        },
{
    let res: Result<Response, DecodeError> = if raw.len() == 4 && word_padding_ok(raw, 0) {
        match raw[0] {
            0 => Ok(Response::Accepted),
            1 => Ok(Response::Refused),
            _ => Err(DecodeError::Malformed),
        }
    } else {
        Err(DecodeError::Malformed)
    };
    proof {
        match res {
            Ok(m) => {
                assert(raw@ =~= spec_encode_response(m));
                lemma_response_round_trip(m);
            },
            Err(_) => {
                if spec_decode_response(raw@) is Some {
                    let m = spec_decode_response(raw@)->Some_0;
                    assert(raw@ == spec_encode_response(m));
                }
            },
        }
    }
    res
}

/// The control-socket path: `<base>/sagi.socket`, where `<base>` is the
/// runtime directory if set, else `/run/user/<uid>` if the uid is known,
/// else `/tmp`.
pub open spec fn spec_socket_path(runtime_dir: Option<Seq<char>>, uid: Option<Seq<char>>) -> Seq<
    char,
> {
    match runtime_dir {
        Some(d) => d + "/sagi.socket"@,
        None => match uid {
            Some(u) => "/run/user/"@ + u + "/sagi.socket"@,
            None => "/tmp/sagi.socket"@,
        },
    }
}

/// Resolves the control-socket address from the runtime-directory value and
/// the user id, in that priority order, falling back to `/tmp`.
pub fn get_socket_path(runtime_dir: Option<String>, uid: Option<String>) -> (r: String)
    ensures
        r@ == spec_socket_path(runtime_dir.deep_view(), uid.deep_view()),
{
    match runtime_dir {
        Some(d) => d.concat("/sagi.socket"),
        None => match uid {
            Some(u) => {
                let r = String::from_str("/run/user/").concat(u.as_str()).concat("/sagi.socket");
                proof {
                    assert(r@ =~= "/run/user/"@ + u@ + "/sagi.socket"@);
                }
                r
            },
            None => String::from_str("/tmp/sagi.socket"),
        },
    }
}

} // verus!
