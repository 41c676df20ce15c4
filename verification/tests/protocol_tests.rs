use sagi::DecodeError;
use sagi::Direction;
use sagi::Launch;
use sagi::Request;
use sagi::Response;
use sagi::decode_request;
use sagi::decode_response;
use sagi::encode_request;
use sagi::encode_response;
use sagi::get_socket_path;

const ALL_REQUESTS: [Request; 7] = [
    Request::Launch(Launch::App),
    Request::Launch(Launch::WindowInApp),
    Request::MoveCursor(Direction::Prev),
    Request::MoveCursor(Direction::Next),
    Request::ShowWindows,
    Request::SelectCurrent,
    Request::StopDaemon,
];

#[test]
fn request_round_trip_every_variant() {
    for m in ALL_REQUESTS {
        let bytes = encode_request(m);
        assert_eq!(decode_request(&bytes), Ok(m));
    }
}

#[test]
fn response_round_trip_both_variants() {
    for m in [Response::Accepted, Response::Refused] {
        let bytes = encode_response(m);
        assert_eq!(decode_response(&bytes), Ok(m));
    }
}

#[test]
fn request_encodings_are_fixed_tag_words() {
    assert_eq!(encode_request(Request::Launch(Launch::App)), vec![0, 0, 0, 0, 0, 0, 0, 0]);
    assert_eq!(encode_request(Request::Launch(Launch::WindowInApp)), vec![0, 0, 0, 0, 1, 0, 0, 0]);
    assert_eq!(encode_request(Request::MoveCursor(Direction::Prev)), vec![1, 0, 0, 0, 0, 0, 0, 0]);
    assert_eq!(encode_request(Request::MoveCursor(Direction::Next)), vec![1, 0, 0, 0, 1, 0, 0, 0]);
    assert_eq!(encode_request(Request::ShowWindows), vec![2, 0, 0, 0]);
    assert_eq!(encode_request(Request::SelectCurrent), vec![3, 0, 0, 0]);
    assert_eq!(encode_request(Request::StopDaemon), vec![4, 0, 0, 0]);
    assert_eq!(encode_response(Response::Accepted), vec![0, 0, 0, 0]);
    assert_eq!(encode_response(Response::Refused), vec![1, 0, 0, 0]);
}

#[test]
fn decode_rejects_garbage() {
    let cases: Vec<Vec<u8>> = vec![
        vec![],
        vec![0],
        vec![9, 9, 9, 9],
        vec![5, 0, 0, 0],
        vec![2, 1, 0, 0],
        vec![0, 0, 0, 0, 2, 0, 0, 0],
        vec![2, 0, 0, 0, 0, 0, 0, 0],
        vec![4, 0, 0, 0, 0],
        vec![0, 0, 0, 0, 0, 0, 0, 0, 0],
    ];
    for raw in cases {
        assert_eq!(decode_request(&raw), Err(DecodeError::Malformed), "bytes {raw:?}");
        assert_eq!(decode_response(&raw), Err(DecodeError::Malformed), "bytes {raw:?}");
    }
    // A lone response tag is not a request of any kind beyond the tag range.
    assert_eq!(decode_response(&[2, 0, 0, 0]), Err(DecodeError::Malformed));
}

#[test]
fn socket_path_prefers_runtime_dir() {
    let p = get_socket_path(Some(String::from("/run/user/1000")), Some(String::from("1000")));
    assert_eq!(p, "/run/user/1000/sagi.socket");
}

#[test]
fn socket_path_falls_back_to_uid_then_tmp() {
    let p = get_socket_path(None, Some(String::from("1000")));
    assert_eq!(p, "/run/user/1000/sagi.socket");
    let p = get_socket_path(None, None);
    assert_eq!(p, "/tmp/sagi.socket");
}
