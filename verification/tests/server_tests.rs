use http_server::handlers::{
    connection_action, handle_read_file, handle_request, handle_write_file, HandlerOutcome,
};
use http_server::request::{parse_directory_arg, parse_request, parse_request_bytes, Request};
use http_server::response::{
    encode_response, response_created, response_not_found, response_ok, usize_to_dec, Status,
};

fn respond(raw: &[u8], dir: &[u8]) -> Vec<u8> {
    match connection_action(&raw.to_vec(), &dir.to_vec()) {
        HandlerOutcome::Done(desc) => encode_response(&desc),
        HandlerOutcome::ReadFile(_) => panic!("expected a finished response, got a file read"),
        HandlerOutcome::WriteFile(_, _) => {
            panic!("expected a finished response, got a file write")
        }
    }
}

#[test]
fn root_request_returns_bodyless_ok() {
    let out = respond(b"GET / HTTP/1.1\r\nHost: h\r\n\r\n", b"");
    assert_eq!(out, b"HTTP/1.1 200 OK\r\n\r\n".to_vec());
}

#[test]
fn echo_returns_path_remainder_as_body() {
    let out = respond(b"GET /echo/abc HTTP/1.1\r\nHost: h\r\n\r\n", b"");
    assert_eq!(
        out,
        b"HTTP/1.1 200 OK\r\nContent-Type: text/plain\r\nContent-Length: 3\r\n\r\nabc".to_vec()
    );
}

#[test]
fn echo_keeps_further_slashes_in_body() {
    let out = respond(b"GET /echo/a/b HTTP/1.1\r\n\r\n", b"");
    assert_eq!(
        out,
        b"HTTP/1.1 200 OK\r\nContent-Type: text/plain\r\nContent-Length: 3\r\n\r\na/b".to_vec()
    );
}

#[test]
fn echo_content_length_counts_bytes_in_decimal() {
    let out = respond(b"GET /echo/abcdefghijkl HTTP/1.1\r\n\r\n", b"");
    assert_eq!(
        out,
        b"HTTP/1.1 200 OK\r\nContent-Type: text/plain\r\nContent-Length: 12\r\n\r\nabcdefghijkl"
            .to_vec()
    );
}

#[test]
fn echo_prefix_without_slash_is_matched_then_rejected() {
    let out = respond(b"GET /echoXYZ HTTP/1.1\r\n\r\n", b"");
    assert_eq!(out, b"HTTP/1.1 404 Not Found\r\n\r\n".to_vec());
}

#[test]
fn echo_with_invalid_utf8_gets_replacement_character() {
    let out = respond(b"GET /echo/\xff HTTP/1.1\r\n\r\n", b"");
    assert_eq!(
        out,
        b"HTTP/1.1 200 OK\r\nContent-Type: text/plain\r\nContent-Length: 3\r\n\r\n\xef\xbf\xbd"
            .to_vec()
    );
}

#[test]
fn short_request_line_yields_not_found() {
    let out = respond(b"GET\r\nHost: h\r\n\r\n", b"");
    assert_eq!(out, b"HTTP/1.1 404 Not Found\r\n\r\n".to_vec());
}

#[test]
fn empty_buffer_yields_not_found() {
    let out = respond(b"", b"");
    assert_eq!(out, b"HTTP/1.1 404 Not Found\r\n\r\n".to_vec());
}

#[test]
fn user_agent_returns_last_token_of_fixed_line() {
    let out = respond(
        b"GET /user-agent HTTP/1.1\r\nHost: h\r\nUser-Agent: foo/1.0 bar\r\n\r\n",
        b"",
    );
    assert_eq!(
        out,
        b"HTTP/1.1 200 OK\r\nContent-Type: text/plain\r\nContent-Length: 3\r\n\r\nbar".to_vec()
    );
}

#[test]
fn user_agent_without_third_line_yields_not_found() {
    let out = respond(b"GET /user-agent HTTP/1.1", b"");
    assert_eq!(out, b"HTTP/1.1 404 Not Found\r\n\r\n".to_vec());
}

#[test]
fn user_agent_line_of_whitespace_yields_bodyless_ok() {
    let out = respond(b"GET /user-agent HTTP/1.1\r\nA\r\n \r\nbody", b"");
    assert_eq!(out, b"HTTP/1.1 200 OK\r\n\r\n".to_vec());
}

#[test]
fn unknown_method_yields_not_found() {
    let out = respond(b"DELETE / HTTP/1.1\r\n\r\n", b"");
    assert_eq!(out, b"HTTP/1.1 404 Not Found\r\n\r\n".to_vec());
}

#[test]
fn unknown_path_yields_not_found() {
    let out = respond(b"GET /nothing HTTP/1.1\r\n\r\n", b"");
    assert_eq!(out, b"HTTP/1.1 404 Not Found\r\n\r\n".to_vec());
}

#[test]
fn file_read_is_routed_to_concatenated_path() {
    let action = connection_action(
        &b"GET /files/foo.txt HTTP/1.1\r\n\r\n".to_vec(),
        &b"/data/".to_vec(),
    );
    match action {
        HandlerOutcome::ReadFile(path) => assert_eq!(path, b"/data/foo.txt".to_vec()),
        _ => panic!("expected a file read"),
    }
}

#[test]
fn file_write_carries_body_and_same_path_as_read() {
    let write = connection_action(
        &b"POST /files/foo HTTP/1.1\r\nHost: h\r\nContent-Length: 5\r\n\r\nhello".to_vec(),
        &b"/data/".to_vec(),
    );
    let (wpath, body) = match write {
        HandlerOutcome::WriteFile(p, b) => (p, b),
        _ => panic!("expected a file write"),
    };
    assert_eq!(wpath, b"/data/foo".to_vec());
    assert_eq!(body, b"hello".to_vec());
    let read = connection_action(&b"GET /files/foo HTTP/1.1\r\n\r\n".to_vec(), &b"/data/".to_vec());
    match read {
        HandlerOutcome::ReadFile(rpath) => assert_eq!(rpath, wpath),
        _ => panic!("expected a file read"),
    }
}

#[test]
fn read_back_written_body_round_trips() {
    let desc = handle_read_file(Some(b"hello".to_vec()));
    assert_eq!(
        encode_response(&desc),
        b"HTTP/1.1 200 OK\r\nContent-Type: application/octet-stream\r\nContent-Length: 5\r\n\r\nhello"
            .to_vec()
    );
}

#[test]
fn missing_file_yields_exact_not_found() {
    let desc = handle_read_file(None);
    assert_eq!(encode_response(&desc), b"HTTP/1.1 404 Not Found\r\n\r\n".to_vec());
}

#[test]
fn successful_write_yields_created() {
    let desc = handle_write_file(true);
    assert_eq!(encode_response(&desc), b"HTTP/1.1 201 CREATED\r\n\r\n".to_vec());
}

#[test]
fn failed_write_yields_not_found() {
    let desc = handle_write_file(false);
    assert_eq!(encode_response(&desc), b"HTTP/1.1 404 Not Found\r\n\r\n".to_vec());
}

#[test]
fn response_ok_with_type_and_content_has_headers() {
    let out = response_ok(&b"text/plain".to_vec(), &b"hi".to_vec());
    assert_eq!(
        out,
        b"HTTP/1.1 200 OK\r\nContent-Type: text/plain\r\nContent-Length: 2\r\n\r\nhi".to_vec()
    );
}

#[test]
fn response_ok_with_empty_content_is_bodyless() {
    let out = response_ok(&b"text/plain".to_vec(), &b"".to_vec());
    assert_eq!(out, b"HTTP/1.1 200 OK\r\n\r\n".to_vec());
}

#[test]
fn response_ok_with_empty_type_is_bodyless() {
    let out = response_ok(&b"".to_vec(), &b"content".to_vec());
    assert_eq!(out, b"HTTP/1.1 200 OK\r\n\r\n".to_vec());
}

#[test]
fn response_created_is_exact() {
    assert_eq!(response_created(), b"HTTP/1.1 201 CREATED\r\n\r\n".to_vec());
}

#[test]
fn response_not_found_is_exact() {
    assert_eq!(response_not_found(), b"HTTP/1.1 404 Not Found\r\n\r\n".to_vec());
}

#[test]
fn usize_to_dec_renders_decimal_digits() {
    assert_eq!(usize_to_dec(0), b"0".to_vec());
    assert_eq!(usize_to_dec(7), b"7".to_vec());
    assert_eq!(usize_to_dec(10), b"10".to_vec());
    assert_eq!(usize_to_dec(1024), b"1024".to_vec());
}

#[test]
fn parse_request_splits_request_line() {
    let lines: Vec<Vec<u8>> = vec![b"GET /echo/x HTTP/1.1".to_vec()];
    let req: Request = parse_request(&lines).expect("two tokens parse");
    assert_eq!(req.method, b"GET".to_vec());
    assert_eq!(req.path, b"/echo/x".to_vec());
    assert!(req.user_agent.is_none());
    assert_eq!(req.body, b"GET /echo/x HTTP/1.1".to_vec());
}

#[test]
fn parse_request_rejects_single_token() {
    let lines: Vec<Vec<u8>> = vec![b"GET".to_vec()];
    assert!(parse_request(&lines).is_err());
}

#[test]
fn parse_request_bytes_takes_last_line_as_body() {
    let raw = b"POST /files/f HTTP/1.1\r\nHost: h\r\nContent-Length: 4\r\n\r\nwxyz".to_vec();
    let req = parse_request_bytes(&raw).expect("well-formed request parses");
    assert_eq!(req.method, b"POST".to_vec());
    assert_eq!(req.path, b"/files/f".to_vec());
    assert_eq!(req.user_agent, Some(b"Content-Length: 4".to_vec()));
    assert_eq!(req.body, b"wxyz".to_vec());
}

#[test]
fn directory_flag_takes_following_argument() {
    let args: Vec<Vec<u8>> = vec![b"prog".to_vec(), b"--directory".to_vec(), b"/tmp/".to_vec()];
    assert_eq!(parse_directory_arg(&args), b"/tmp/".to_vec());
}

#[test]
fn directory_flag_absent_gives_empty() {
    let args: Vec<Vec<u8>> = vec![b"prog".to_vec()];
    assert_eq!(parse_directory_arg(&args), b"".to_vec());
}

#[test]
fn directory_flag_last_gives_empty() {
    let args: Vec<Vec<u8>> = vec![b"prog".to_vec(), b"--directory".to_vec()];
    assert_eq!(parse_directory_arg(&args), b"".to_vec());
}

#[test]
fn directory_flag_first_match_wins() {
    let args: Vec<Vec<u8>> = vec![
        b"--directory".to_vec(),
        b"x".to_vec(),
        b"--directory".to_vec(),
        b"y".to_vec(),
    ];
    assert_eq!(parse_directory_arg(&args), b"x".to_vec());
}

#[test]
fn handle_request_routes_by_priority() {
    let req = Request {
        method: b"GET".to_vec(),
        path: b"/".to_vec(),
        user_agent: Some(b"User-Agent: x".to_vec()),
        body: b"".to_vec(),
    };
    match handle_request(&req, &b"/data/".to_vec()) {
        HandlerOutcome::Done(desc) => {
            assert!(matches!(desc.status, Status::Okay));
            assert!(desc.content_type.is_none());
            assert!(desc.body.is_none());
        }
        _ => panic!("root is handled without file access"),
    }
}

#[test]
fn leading_and_trailing_whitespace_is_trimmed() {
    let out = respond(b"\r\n  GET / HTTP/1.1\r\nHost: h\r\n\r\n  ", b"");
    assert_eq!(out, b"HTTP/1.1 200 OK\r\n\r\n".to_vec());
}
