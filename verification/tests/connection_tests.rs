use http_server::connection::{
    carry_out, dispatch, handle_read, step, Action, CloseReason, Event, Reply, State,
};
use http_server::message::{Request, Response, Status};
use http_server::parser::{parse_request, ParseError};
use std::io::Read;

fn gunzip(bytes: &[u8]) -> Vec<u8> {
    let mut out = Vec::new();
    flate2::read::GzDecoder::new(bytes).read_to_end(&mut out).unwrap();
    out
}

fn received(text: &[u8]) -> (State, Action) {
    step(State::Reading, Event::Received(text.to_vec()))
}

fn sent(text: &[u8]) -> Vec<u8> {
    match received(text) {
        (State::Sending, Action::Send(bytes)) => bytes,
        other => panic!("no response: {:?}", other),
    }
}

fn split(wire: &[u8]) -> (String, Vec<u8>) {
    let at = wire.windows(4).position(|w| w == b"\r\n\r\n").unwrap();
    (String::from_utf8(wire[..at + 2].to_vec()).unwrap(), wire[at + 4..].to_vec())
}

#[test]
fn get_root_is_an_empty_200() {
    assert_eq!(sent(b"GET / HTTP/1.1\r\nHost: x\r\n\r\n"), b"HTTP/1.1 200 OK\r\n\r\n".to_vec());
}

#[test]
fn get_echo_abc() {
    assert_eq!(
        sent(b"GET /echo/abc HTTP/1.1\r\nHost: x\r\n\r\n"),
        b"HTTP/1.1 200 OK\r\nContent-Type: text/plain\r\nContent-Length: 3\r\n\r\nabc".to_vec()
    );
    assert_eq!(
        sent(b"GET /echo/abc HTTP/1.1\r\nAccept-Encoding: br, deflate\r\n\r\n"),
        b"HTTP/1.1 200 OK\r\nContent-Type: text/plain\r\nContent-Length: 3\r\n\r\nabc".to_vec()
    );
}

#[test]
fn get_echo_abc_with_gzip() {
    let wire = sent(b"GET /echo/abc HTTP/1.1\r\nAccept-Encoding: gzip\r\n\r\n");
    let (head, body) = split(&wire);
    assert_eq!(
        head,
        format!(
            "HTTP/1.1 200 OK\r\nContent-Encoding: gzip\r\nContent-Type: text/plain\r\nContent-Length: {}\r\n",
            body.len()
        )
    );
    assert_eq!(gunzip(&body), b"abc".to_vec());
}

#[test]
fn get_echo_abc_with_gzip_among_other_tokens() {
    let wire = sent(b"GET /echo/abc HTTP/1.1\r\nAccept-Encoding: br, gzip, deflate\r\n\r\n");
    let (head, body) = split(&wire);
    assert!(head.contains("Content-Encoding: gzip\r\n"));
    assert!(head.ends_with(&format!("Content-Length: {}\r\n", body.len())));
    assert_eq!(gunzip(&body), b"abc".to_vec());
}

#[test]
fn get_nonexistent_is_a_404_without_body() {
    assert_eq!(sent(b"GET /nonexistent HTTP/1.1\r\n\r\n"), b"HTTP/1.1 404 Not Found\r\n\r\n".to_vec());
}

#[test]
fn other_method_is_a_404() {
    assert_eq!(sent(b"DELETE / HTTP/1.1\r\n\r\n"), b"HTTP/1.1 404 Not Found\r\n\r\n".to_vec());
}

#[test]
fn post_to_an_unknown_path_is_a_plain_404() {
    assert_eq!(
        sent(b"POST /nonexistent HTTP/1.1\r\n\r\n"),
        b"HTTP/1.1 404 Not Found\r\nContent-Type: text/plain\r\nContent-Length: 0\r\n\r\n".to_vec()
    );
}

#[test]
fn get_echo_of_nothing() {
    assert_eq!(
        sent(b"GET /echo/ HTTP/1.1\r\n\r\n"),
        b"HTTP/1.1 200 OK\r\nContent-Type: text/plain\r\nContent-Length: 0\r\n\r\n".to_vec()
    );
}

#[test]
fn get_user_agent() {
    assert_eq!(
        sent(b"GET /user-agent HTTP/1.1\r\nHost: x\r\nUser-Agent: foobar/1.2.3\r\n\r\n"),
        b"HTTP/1.1 200 OK\r\nContent-Type: text/plain\r\nContent-Length: 12\r\n\r\nfoobar/1.2.3".to_vec()
    );
}

#[test]
fn get_user_agent_without_the_header_is_dropped() {
    assert_eq!(received(b"GET /user-agent HTTP/1.1\r\nHost: x\r\n\r\n"), (State::Reading, Action::Read));
}

#[test]
fn post_file_then_get_it() {
    let mut stored: Option<(Vec<u8>, Vec<u8>)> = None;
    let post = b"POST /files/test.txt HTTP/1.1\r\nContent-Length: 5\r\n\r\nhello";
    let (state, action) = received(post);
    assert_eq!(state, State::AwaitingStore);
    assert_eq!(action, Action::WriteFile(b"test.txt".to_vec(), b"hello".to_vec()));
    if let Action::WriteFile(name, body) = action {
        stored = Some((name, body));
    }
    let (state, action) = step(state, Event::FileStored(true));
    assert_eq!(state, State::Sending);
    assert_eq!(
        action,
        Action::Send(
            b"HTTP/1.1 201 Created\r\nContent-Type: application/octet-stream\r\nContent-Length: 0\r\n\r\n"
                .to_vec()
        )
    );
    let (state, action) = step(state, Event::Sent);
    assert_eq!((state, action), (State::Reading, Action::Read));

    let (state, action) = step(state, Event::Received(b"GET /files/test.txt HTTP/1.1\r\n\r\n".to_vec()));
    assert_eq!(state, State::AwaitingFile);
    assert_eq!(action, Action::ReadFile(b"test.txt".to_vec()));
    let (name, body) = stored.unwrap();
    assert_eq!(action, Action::ReadFile(name));
    let (state, action) = step(state, Event::FileContents(Some(body)));
    assert_eq!(state, State::Sending);
    assert_eq!(
        action,
        Action::Send(
            b"HTTP/1.1 200 OK\r\nContent-Type: application/octet-stream\r\nContent-Length: 5\r\n\r\nhello"
                .to_vec()
        )
    );
}

#[test]
fn get_missing_file_is_a_404() {
    let (state, action) = received(b"GET /files/missing.txt HTTP/1.1\r\n\r\n");
    assert_eq!((state, action), (State::AwaitingFile, Action::ReadFile(b"missing.txt".to_vec())));
    assert_eq!(
        step(state, Event::FileContents(None)),
        (
            State::Sending,
            Action::Send(
                b"HTTP/1.1 404 Not Found\r\nContent-Type: application/octet-stream\r\nContent-Length: 0\r\n\r\n"
                    .to_vec()
            )
        )
    );
}

#[test]
fn post_file_without_a_length_is_a_400() {
    assert_eq!(
        sent(b"POST /files/test.txt HTTP/1.1\r\nHost: x\r\n\r\nhello"),
        b"HTTP/1.1 400 Bad Request\r\nContent-Type: application/octet-stream\r\nContent-Length: 0\r\n\r\n"
            .to_vec()
    );
}

#[test]
fn post_file_with_a_truncated_body_is_a_400() {
    assert_eq!(
        sent(b"POST /files/test.txt HTTP/1.1\r\nContent-Length: 6\r\n\r\nhello"),
        b"HTTP/1.1 400 Bad Request\r\nContent-Type: application/octet-stream\r\nContent-Length: 0\r\n\r\n"
            .to_vec()
    );
}

#[test]
fn post_file_that_storage_refuses_is_dropped() {
    assert_eq!(step(State::AwaitingStore, Event::FileStored(false)), (State::Reading, Action::Read));
}

#[test]
fn repeated_echo_gives_the_same_bytes() {
    let request = b"GET /echo/x HTTP/1.1\r\nAccept-Encoding: gzip\r\n\r\n";
    let first = sent(request);
    let mut state = State::Reading;
    for _ in 0..10 {
        let (next, action) = step(state, Event::Received(request.to_vec()));
        assert_eq!(action, Action::Send(first.clone()));
        let (next, action) = step(next, Event::Sent);
        assert_eq!(action, Action::Read);
        state = next;
    }
    assert_eq!(state, State::Reading);
    let plain = sent(b"GET /echo/x HTTP/1.1\r\n\r\n");
    for _ in 0..10 {
        assert_eq!(sent(b"GET /echo/x HTTP/1.1\r\n\r\n"), plain);
    }
}

#[test]
fn every_response_declares_the_length_of_its_body() {
    let requests: [&[u8]; 6] = [
        b"GET /echo/abc HTTP/1.1\r\n\r\n",
        b"GET /echo/abcdefghijklmnopqrstuvwxyz HTTP/1.1\r\nAccept-Encoding: gzip\r\n\r\n",
        b"GET /echo/ HTTP/1.1\r\nAccept-Encoding: gzip\r\n\r\n",
        b"GET /user-agent HTTP/1.1\r\nUser-Agent: a b c\r\n\r\n",
        b"POST /x HTTP/1.1\r\n\r\n",
        b"POST /files/x HTTP/1.1\r\n\r\n",
    ];
    for request in requests {
        let wire = sent(request);
        let (head, body) = split(&wire);
        assert!(head.ends_with(&format!("Content-Length: {}\r\n", body.len())));
    }
    let (head, body) = split(&sent(b"GET / HTTP/1.1\r\n\r\n"));
    assert!(!head.contains("Content-Length"));
    assert!(body.is_empty());
}

#[test]
fn an_empty_read_closes_the_connection() {
    assert_eq!(received(b""), (State::Closed, Action::Close(CloseReason::PeerClosed)));
}

#[test]
fn a_failed_read_closes_the_connection() {
    assert_eq!(
        step(State::Reading, Event::ReadFailed),
        (State::Closed, Action::Close(CloseReason::Transport))
    );
}

#[test]
fn a_failed_write_closes_the_connection() {
    assert_eq!(
        step(State::Sending, Event::SendFailed),
        (State::Closed, Action::Close(CloseReason::Transport))
    );
}

#[test]
fn bytes_that_hold_no_request_close_the_connection() {
    assert_eq!(
        received(b"GET / HTTP/1.1\r\nHost"),
        (State::Closed, Action::Close(CloseReason::Parse(ParseError::Incomplete)))
    );
    assert_eq!(
        received(b"\x00\x01\x02"),
        (State::Closed, Action::Close(CloseReason::Parse(ParseError::Token)))
    );
    assert_eq!(
        received(b"GET / HTTP/1.1\r\nA: 1\r\nB: 2\r\nC: 3\r\nD: 4\r\nE: 5\r\n\r\n"),
        (State::Closed, Action::Close(CloseReason::Parse(ParseError::TooManyHeaders)))
    );
    assert_eq!(
        received(b"GET /echo/abc HTTP/1.1\r\nAccept-Encoding: \xFFgzip\r\n\r\n"),
        (State::Closed, Action::Close(CloseReason::Parse(ParseError::InvalidEncoding)))
    );
}

#[test]
fn a_closed_connection_stays_closed() {
    let events = [
        Event::Received(b"GET / HTTP/1.1\r\n\r\n".to_vec()),
        Event::ReadFailed,
        Event::FileContents(None),
        Event::FileStored(true),
        Event::Sent,
        Event::SendFailed,
    ];
    for event in events {
        assert_eq!(
            step(State::Closed, event),
            (State::Closed, Action::Close(CloseReason::OutOfTurn))
        );
    }
}

#[test]
fn an_event_out_of_turn_closes_the_connection() {
    let out_of_turn = (State::Closed, Action::Close(CloseReason::OutOfTurn));
    assert_eq!(step(State::Reading, Event::Sent), out_of_turn);
    assert_eq!(step(State::Reading, Event::FileStored(true)), out_of_turn);
    assert_eq!(step(State::Sending, Event::Received(b"GET / HTTP/1.1\r\n\r\n".to_vec())), out_of_turn);
    assert_eq!(step(State::AwaitingFile, Event::FileStored(true)), out_of_turn);
    assert_eq!(step(State::AwaitingStore, Event::FileContents(None)), out_of_turn);
    assert_eq!(step(State::AwaitingFile, Event::ReadFailed), out_of_turn);
}

#[test]
fn handle_read_is_the_step_from_reading() {
    let text = b"GET /echo/abc HTTP/1.1\r\n\r\n";
    assert_eq!(handle_read(text), received(text));
    assert_eq!(handle_read(b""), received(b""));
}

#[test]
fn dispatch_runs_the_route() {
    let text = b"POST /files/a.bin HTTP/1.1\r\nContent-Length: 3\r\n\r\n\x00\x01\x02tail";
    let request: Request = parse_request(text, text.len()).unwrap();
    assert_eq!(
        dispatch(&request, text, text.len()),
        Reply::Store(b"a.bin".to_vec(), vec![0, 1, 2])
    );
    let text = b"GET /files/a.bin HTTP/1.1\r\n\r\n";
    let request = parse_request(text, text.len()).unwrap();
    assert_eq!(dispatch(&request, text, text.len()), Reply::Fetch(b"a.bin".to_vec()));
    let text = b"GET /user-agent HTTP/1.1\r\n\r\n";
    let request = parse_request(text, text.len()).unwrap();
    assert_eq!(dispatch(&request, text, text.len()), Reply::Silent);
    let text = b"GET / HTTP/1.1\r\n\r\n";
    let request = parse_request(text, text.len()).unwrap();
    assert_eq!(dispatch(&request, text, text.len()), Reply::Send(Response::bare(Status::Success)));
}

#[test]
fn carry_out_turns_a_reply_into_an_action() {
    assert_eq!(
        carry_out(Reply::Send(Response::bare(Status::NotFound))),
        (State::Sending, Action::Send(b"HTTP/1.1 404 Not Found\r\n\r\n".to_vec()))
    );
    assert_eq!(carry_out(Reply::Fetch(b"a".to_vec())), (State::AwaitingFile, Action::ReadFile(b"a".to_vec())));
    assert_eq!(
        carry_out(Reply::Store(b"a".to_vec(), b"b".to_vec())),
        (State::AwaitingStore, Action::WriteFile(b"a".to_vec(), b"b".to_vec()))
    );
    assert_eq!(carry_out(Reply::Silent), (State::Reading, Action::Read));
    assert_eq!(
        carry_out(Reply::Fail(ParseError::InvalidEncoding)),
        (State::Closed, Action::Close(CloseReason::Parse(ParseError::InvalidEncoding)))
    );
}
