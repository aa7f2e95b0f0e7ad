use http_server::framer::frame;
use http_server::message::{find_header, Header, Request, Response, Status};

fn header(name: &str, value: &[u8]) -> Header {
    Header { name: name.as_bytes().to_vec(), value: value.to_vec() }
}

#[test]
fn find_header_ignores_the_case_of_the_name() {
    let headers = vec![header("Host", b"x"), header("USER-agent", b"curl")];
    assert_eq!(find_header(&headers, b"user-agent"), Some(&b"curl".to_vec()));
    assert_eq!(find_header(&headers, b"User-Agent"), Some(&b"curl".to_vec()));
    assert_eq!(find_header(&headers, b"host"), Some(&b"x".to_vec()));
    assert_eq!(find_header(&headers, b"accept"), None);
    assert_eq!(find_header(&Vec::new(), b"host"), None);
}

#[test]
fn find_header_takes_the_first_of_two() {
    let headers = vec![header("Accept", b"a"), header("accept", b"b"), header("ACCEPT", b"c")];
    assert_eq!(find_header(&headers, b"ACCEPT"), Some(&b"a".to_vec()));
}

#[test]
fn find_header_keeps_values_that_are_not_text() {
    let headers = vec![header("X", &[0xFF, 0x00, 0x80])];
    assert_eq!(find_header(&headers, b"x"), Some(&vec![0xFF, 0x00, 0x80]));
}

#[test]
fn request_header_looks_among_its_headers() {
    let request = Request {
        method: b"GET".to_vec(),
        path: b"/".to_vec(),
        headers: vec![header("Content-Length", b"5")],
        body_offset: 0,
    };
    assert_eq!(request.header(b"content-length"), Some(&b"5".to_vec()));
    assert_eq!(request.header(b"content-type"), None);
}

#[test]
fn header_new_takes_a_literal_name() {
    assert_eq!(Header::new("Content-Type", b"text/plain".to_vec()), header("Content-Type", b"text/plain"));
}

#[test]
fn status_texts_and_numbers() {
    assert_eq!(Status::Success.code_text(), b"200".to_vec());
    assert_eq!(Status::Created.code_text(), b"201".to_vec());
    assert_eq!(Status::BadRequest.code_text(), b"400".to_vec());
    assert_eq!(Status::NotFound.code_text(), b"404".to_vec());
    assert_eq!(Status::Success.reason_text(), b"OK".to_vec());
    assert_eq!(Status::Created.reason_text(), b"Created".to_vec());
    assert_eq!(Status::BadRequest.reason_text(), b"Bad Request".to_vec());
    assert_eq!(Status::NotFound.reason_text(), b"Not Found".to_vec());
}

#[test]
fn frame_of_a_bare_response() {
    assert_eq!(frame(&Response::bare(Status::Success)), b"HTTP/1.1 200 OK\r\n\r\n".to_vec());
    assert_eq!(frame(&Response::bare(Status::NotFound)), b"HTTP/1.1 404 Not Found\r\n\r\n".to_vec());
}

#[test]
fn frame_writes_headers_in_order_and_the_body_as_it_is() {
    let response = Response {
        status: Status::Success,
        headers: vec![header("Content-Type", b"text/plain"), header("Content-Length", b"3")],
        body: b"abc".to_vec(),
    };
    assert_eq!(
        frame(&response),
        b"HTTP/1.1 200 OK\r\nContent-Type: text/plain\r\nContent-Length: 3\r\n\r\nabc".to_vec()
    );
    let swapped = Response {
        status: Status::Created,
        headers: vec![header("Content-Length", b"3"), header("Content-Type", b"text/plain")],
        body: b"abc".to_vec(),
    };
    assert_eq!(
        frame(&swapped),
        b"HTTP/1.1 201 Created\r\nContent-Length: 3\r\nContent-Type: text/plain\r\n\r\nabc".to_vec()
    );
}

#[test]
fn frame_does_not_touch_binary_bodies() {
    let body: Vec<u8> = vec![0x1F, 0x8B, 0x08, 0x00, 0xFF, 0xFE, 0x0D, 0x0A];
    let response = Response {
        status: Status::Success,
        headers: vec![header("Content-Length", b"8")],
        body: body.clone(),
    };
    let wire = frame(&response);
    assert!(wire.ends_with(&body));
    assert_eq!(wire.len(), b"HTTP/1.1 200 OK\r\nContent-Length: 8\r\n\r\n".len() + body.len());
}
