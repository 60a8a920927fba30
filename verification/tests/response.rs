use mini_http::response::{
    classify, handle_request, respond, Response, Status, NOT_FOUND_PAGE, OK_PAGE, ROOT_REQUEST,
};

const OK_BYTES: &[u8] = b"HTTP/1.1 200 OK\r\nContent-Length: 82\r\n\r\n<html><head><title>200 Ok</title></head><body><h1>Hello, World!</h1></body></html>";

const NOT_FOUND_BYTES: &[u8] = b"HTTP/1.1 404 Not Found\r\nContent-Length: 89\r\n\r\n<html><head><title>404 Not Found</title></head><body><h1>404 Not Found</h1></body></html>";

fn split_head_and_body(bytes: &[u8]) -> (String, Vec<u8>) {
    let at = bytes.windows(4).position(|w| w == b"\r\n\r\n").unwrap();
    (String::from_utf8(bytes[..at].to_vec()).unwrap(), bytes[at + 4..].to_vec())
}

fn announced_length(head: &str) -> usize {
    let mut lines = head.split("\r\n");
    lines.next().unwrap();
    let header = lines.next().unwrap();
    assert!(lines.next().is_none());
    header.strip_prefix("Content-Length: ").unwrap().parse().unwrap()
}

#[test]
fn fixed_texts() {
    assert_eq!(ROOT_REQUEST, "GET / HTTP/1.1");
    assert_eq!(
        OK_PAGE,
        "<html><head><title>200 Ok</title></head><body><h1>Hello, World!</h1></body></html>"
    );
    assert_eq!(
        NOT_FOUND_PAGE,
        "<html><head><title>404 Not Found</title></head><body><h1>404 Not Found</h1></body></html>"
    );
    assert_eq!(OK_PAGE.len(), 82);
    assert_eq!(NOT_FOUND_PAGE.len(), 89);
}

#[test]
fn status_texts_and_pages() {
    assert_eq!(Status::Found.as_str(), "200 OK");
    assert_eq!(Status::NotFound.as_str(), "404 Not Found");
    assert_eq!(Status::Found.page(), OK_PAGE);
    assert_eq!(Status::NotFound.page(), NOT_FOUND_PAGE);
}

#[test]
fn root_request_is_found() {
    assert_eq!(classify("GET / HTTP/1.1\r\n"), Status::Found);
    assert_eq!(classify("GET / HTTP/1.1\n"), Status::Found);
    assert_eq!(classify("GET / HTTP/1.1"), Status::Found);
}

#[test]
fn root_request_is_found_under_any_surrounding_whitespace() {
    assert_eq!(classify("  GET / HTTP/1.1  \r\n"), Status::Found);
    assert_eq!(classify("\t\r\nGET / HTTP/1.1\r\n\r\n"), Status::Found);
    assert_eq!(classify("\u{A0}GET / HTTP/1.1\u{3000}\u{2028}\n"), Status::Found);
}

#[test]
fn other_lines_are_not_found() {
    assert_eq!(classify("GET /foo HTTP/1.1\r\n"), Status::NotFound);
    assert_eq!(classify("GET /foo HTTP/1.1"), Status::NotFound);
    assert_eq!(classify("POST / HTTP/1.1\r\n"), Status::NotFound);
    assert_eq!(classify("POST / HTTP/1.1"), Status::NotFound);
    assert_eq!(classify(""), Status::NotFound);
}

#[test]
fn near_misses_are_not_found() {
    for line in [
        "\r\n",
        "   \r\n",
        "GET / HTTP/1.0\r\n",
        "GET / HTTP/2\r\n",
        "GET / HTTP/1.1x\r\n",
        "get / http/1.1\r\n",
        "GET  / HTTP/1.1\r\n",
        "GET /\tHTTP/1.1\r\n",
        "GET / HTTP/1.1\r\nHost: localhost\r\n",
        "GET / HTTP/1.1 GET / HTTP/1.1\r\n",
        "GET/HTTP/1.1\r\n",
        "GET / HTTP/1.",
        "ET / HTTP/1.1",
        "HEAD / HTTP/1.1\r\n",
        "GET /index.html HTTP/1.1\r\n",
        "\u{200B}GET / HTTP/1.1\r\n",
        "GET / HTTP/1.1\0\r\n",
        "not a request at all",
    ] {
        assert_eq!(classify(line), Status::NotFound, "{:?}", line);
    }
}

#[test]
fn respond_pairs_status_and_page() {
    let found = respond("GET / HTTP/1.1\r\n");
    assert_eq!(found.status, Status::Found);
    assert_eq!(found.body, OK_PAGE);
    let missing = respond("GET /missing HTTP/1.1\r\n");
    assert_eq!(missing.status, Status::NotFound);
    assert_eq!(missing.body, NOT_FOUND_PAGE);
    assert_eq!(respond(""), Response { status: Status::NotFound, body: NOT_FOUND_PAGE });
}

#[test]
fn root_request_gets_the_whole_ok_response() {
    assert_eq!(handle_request("GET / HTTP/1.1\r\n"), OK_BYTES);
    assert_eq!(handle_request("GET / HTTP/1.1\n"), OK_BYTES);
    assert_eq!(handle_request(" GET / HTTP/1.1 \r\n"), OK_BYTES);
}

#[test]
fn other_lines_get_the_whole_not_found_response() {
    assert_eq!(handle_request("GET /foo HTTP/1.1\r\n"), NOT_FOUND_BYTES);
    assert_eq!(handle_request("POST / HTTP/1.1\r\n"), NOT_FOUND_BYTES);
    assert_eq!(handle_request(""), NOT_FOUND_BYTES);
    assert_eq!(handle_request("\r\n"), NOT_FOUND_BYTES);
}

#[test]
fn response_is_not_the_request() {
    let line = "GET / HTTP/1.1\r\n";
    assert_ne!(handle_request(line), line.as_bytes());
    assert_ne!(handle_request(line), handle_request("GET /foo HTTP/1.1\r\n"));
}

#[test]
fn same_line_same_response() {
    for line in ["GET / HTTP/1.1\r\n", "GET /foo HTTP/1.1\r\n", ""] {
        assert_eq!(handle_request(line), handle_request(line));
    }
}

#[test]
fn content_length_is_the_length_of_the_body_in_both_branches() {
    for (line, page) in [("GET / HTTP/1.1\r\n", OK_PAGE), ("DELETE / HTTP/1.1\r\n", NOT_FOUND_PAGE)]
    {
        let (head, body) = split_head_and_body(&handle_request(line));
        assert_eq!(body, page.as_bytes());
        assert_eq!(announced_length(&head), body.len());
    }
}

#[test]
fn render_writes_head_blank_line_and_body() {
    let response = Response { status: Status::Found, body: "hi" };
    assert_eq!(response.render(), "HTTP/1.1 200 OK\r\nContent-Length: 2\r\n\r\nhi");
    let response = Response { status: Status::NotFound, body: "" };
    assert_eq!(response.render(), "HTTP/1.1 404 Not Found\r\nContent-Length: 0\r\n\r\n");
}

#[test]
fn content_length_counts_bytes_not_characters() {
    let response = Response { status: Status::Found, body: "h\u{E9}llo \u{1F600}" };
    assert_eq!(
        response.render(),
        "HTTP/1.1 200 OK\r\nContent-Length: 11\r\n\r\nh\u{E9}llo \u{1F600}"
    );
    let (head, body) = split_head_and_body(&response.to_bytes());
    assert_eq!(announced_length(&head), 11);
    assert_eq!(body.len(), 11);
}

#[test]
fn content_length_of_a_long_body() {
    let body = "x".repeat(12345);
    let response = Response { status: Status::NotFound, body: &body };
    let bytes = response.to_bytes();
    let (head, sent) = split_head_and_body(&bytes);
    assert_eq!(head, "HTTP/1.1 404 Not Found\r\nContent-Length: 12345");
    assert_eq!(sent, body.as_bytes());
}

#[test]
fn bytes_are_the_rendered_text() {
    let response = respond("GET / HTTP/1.1\r\n");
    assert_eq!(response.to_bytes(), response.render().into_bytes());
    assert_eq!(response.to_bytes(), OK_BYTES);
}
