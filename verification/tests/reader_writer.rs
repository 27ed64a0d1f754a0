use beatrice_http::fixed_buffer::BUFFER_LEN;
use beatrice_http::reader_writer::{BodyRead, Expect100, ReadProgress};
use beatrice_http::response::{
    append_extra_headers, compose_head, push_header, reject_header, reject_headers, start_head,
};
use beatrice_http::{
    escape_ascii, Header, HeaderReceiver, HttpCallerError, HttpError, HttpMethod,
    HttpReaderWriter, HttpStatus,
};

/// Hands `input` to the connection as if it had been read from a socket.
fn feed(rw: &mut HttpReaderWriter, input: &[u8]) {
    let window = rw.input_window().unwrap();
    window[..input.len()].copy_from_slice(input);
    rw.read_request_input(input.len()).unwrap();
}

/// Reads a request from `chunks`, one chunk for each time that more input is
/// asked for, and the end of the input after the last.
fn read_request_from(
    rw: &mut HttpReaderWriter,
    chunks: &[&[u8]],
    extra: &mut [HeaderReceiver],
) -> Result<(), HttpError> {
    let mut next = 0;
    loop {
        match rw.read_request(extra)? {
            ReadProgress::Complete => return Ok(()),
            ReadProgress::NeedInput => {
                let window = rw.input_window().unwrap();
                let n = if next < chunks.len() {
                    window[..chunks[next].len()].copy_from_slice(chunks[next]);
                    next += 1;
                    chunks[next - 1].len()
                } else {
                    0
                };
                rw.read_request_input(n)?;
            }
        }
    }
}

fn server_error<T>(r: Result<T, HttpError>) -> String {
    match r {
        Err(HttpError::ProcessingError(HttpStatus::InternalServerError500(text))) => text,
        Err(other) => panic!("expected a server error, got {:?}", other),
        Ok(_) => panic!("expected a server error"),
    }
}

#[test]
fn new_connection() {
    let rw = HttpReaderWriter::new();
    assert_eq!(false, rw.has_body());
    assert_eq!(0, rw.content_length());
    assert_eq!(0, rw.content_length_usize().unwrap());
    assert_eq!(0, rw.unread_content_length());
    assert_eq!(Some(0), rw.unsent_content_length());
    assert_eq!(0, rw.bytes_written());
    assert_eq!(false, rw.chunked());
    assert_eq!(Expect100::NotNeeded, rw.expect_100());
    assert!(rw.status().is_none());
    assert_eq!("", rw.path.as_str());
    assert_eq!(b"", rw.continue_bytes());
}

#[test]
fn end_to_end() {
    let mut rw = HttpReaderWriter::new();
    read_request_from(
        &mut rw,
        &[b"PUT /x HTTP/1.1\r\ncontent-length: 4\r\n\r\nabcd"],
        &mut [],
    )
    .unwrap();
    assert_eq!(HttpMethod::PUT, rw.method());
    assert_eq!("/x", rw.path.as_str());
    assert_eq!("/x", rw.decode_path().unwrap());
    assert_eq!(4, rw.content_length());
    assert_eq!(4, rw.content_length_usize().unwrap());
    assert_eq!(false, rw.chunked());
    assert_eq!(Expect100::NotNeeded, rw.expect_100());
    assert_eq!(true, rw.has_body());
    assert_eq!(4, rw.unread_content_length());

    let mut body = [b'.'; 10];
    assert_eq!(BodyRead::Buffered(4), rw.read_body(&mut body));
    assert_eq!(b"abcd......", &body);
    assert_eq!(0, rw.unread_content_length());
    assert_eq!(BodyRead::Eof, rw.read_body(&mut body));
    assert_eq!(b"abcd......", &body);
}

#[test]
fn head_in_pieces() {
    let mut rw = HttpReaderWriter::new();
    let chunks: [&[u8]; 5] = [
        b"GET /a%2Fb%20c HT",
        b"TP/1.1\r\nHost: example.com\r",
        b"\nX-Trace: 17\r\n",
        b"\r",
        b"\n",
    ];
    let mut extra = [HeaderReceiver::new("x-trace")];
    read_request_from(&mut rw, &chunks, &mut extra).unwrap();
    assert_eq!(HttpMethod::GET, rw.method());
    assert_eq!("/a/b c", rw.path.as_str());
    assert_eq!("/a/b c", rw.decode_path().unwrap());
    assert_eq!("17", extra[0].value.as_str());
    assert_eq!(false, rw.has_body());
    let mut body = [0u8; 4];
    assert_eq!(BodyRead::Eof, rw.read_body(&mut body));
}

#[test]
fn path_that_is_no_text() {
    let mut rw = HttpReaderWriter::new();
    match read_request_from(&mut rw, &[b"GET /%ff HTTP/1.1\r\n\r\nGET /%c3%a9 HTTP/1.1\r\n\r\n"], &mut []) {
        Err(HttpError::ParseError(HttpCallerError::PathInvalid)) => {}
        other => panic!("{:?}", other),
    }
    assert_eq!("", rw.path.as_str());
    assert_eq!(false, rw.has_method());
    assert_eq!(ReadProgress::Complete, rw.read_request(&mut []).unwrap());
    assert_eq!("/\u{e9}", rw.path.as_str());
    assert_eq!("/\u{e9}", rw.decode_path().unwrap());
}

#[test]
fn body_partly_buffered() {
    let mut rw = HttpReaderWriter::new();
    read_request_from(
        &mut rw,
        &[b"POST /p HTTP/1.1\r\nContent-Length: 10\r\n\r\nabc"],
        &mut [],
    )
    .unwrap();
    let mut small = [0u8; 2];
    assert_eq!(BodyRead::Buffered(2), rw.read_body(&mut small));
    assert_eq!(b"ab", &small);
    assert_eq!(8, rw.unread_content_length());
    let mut dest = [0u8; 100];
    assert_eq!(BodyRead::Buffered(1), rw.read_body(&mut dest));
    assert_eq!(b'c', dest[0]);
    // The buffer is used up: the rest comes from the input, and no more of it
    // than the request announced.
    assert_eq!(BodyRead::FromInput(7), rw.read_body(&mut dest));
    rw.body_read_input(5);
    assert_eq!(2, rw.unread_content_length());
    assert_eq!(BodyRead::FromInput(2), rw.read_body(&mut dest));
    assert_eq!(BodyRead::FromInput(1), rw.read_body(&mut dest[..1]));
    assert_eq!(BodyRead::Eof, rw.read_body(&mut dest[..0]));
    rw.body_read_input(2);
    assert_eq!(BodyRead::Eof, rw.read_body(&mut dest));
}

#[test]
fn body_ends_before_next_request() {
    let mut rw = HttpReaderWriter::new();
    read_request_from(
        &mut rw,
        &[b"PUT /1 HTTP/1.1\r\ncontent-length: 2\r\n\r\nhiGET /2 HTTP/1.1\r\n\r\n"],
        &mut [],
    )
    .unwrap();
    let mut dest = [0u8; 100];
    assert_eq!(BodyRead::Buffered(2), rw.read_body(&mut dest));
    assert_eq!(b"hi", &dest[..2]);
    assert_eq!(BodyRead::Eof, rw.read_body(&mut dest));
    let head = rw.send_simple(&HttpStatus::Ok200);
    assert_eq!(38, head.readable().len());
    rw.sent(38);
    rw.response_sent(HttpStatus::Ok200);
    assert_eq!(ReadProgress::Complete, rw.read_request(&mut []).unwrap());
    assert_eq!(HttpMethod::GET, rw.method());
    assert_eq!("/2", rw.path.as_str());
    assert!(rw.status().is_none());
    assert_eq!(0, rw.bytes_written());
}

#[test]
fn unread_body_blocks_next_request() {
    let mut rw = HttpReaderWriter::new();
    read_request_from(
        &mut rw,
        &[b"PUT /1 HTTP/1.1\r\ncontent-length: 2\r\n\r\nhi"],
        &mut [],
    )
    .unwrap();
    assert_eq!(
        "previous request body not completely read",
        server_error(rw.read_request(&mut []))
    );
    // The state is untouched.
    assert_eq!(HttpMethod::PUT, rw.method());
    assert_eq!(2, rw.unread_content_length());
    rw.reset();
    assert_eq!(ReadProgress::NeedInput, rw.read_request(&mut []).unwrap());
}

#[test]
fn content_length_enforcement() {
    let mut rw = HttpReaderWriter::new();
    read_request_from(&mut rw, &[b"GET / HTTP/1.1\r\n\r\n"], &mut []).unwrap();
    let mut head = rw
        .send_with_content_length(&HttpStatus::Ok200, &[], 5)
        .unwrap();
    assert_eq!(
        "HTTP/1.1 200 OK\\r\\ncontent-length: 5\\r\\n\\r\\n",
        escape_ascii(head.read_all())
    );
    rw.sent(38);
    rw.response_sent(HttpStatus::Ok200);
    assert_eq!(Some(5), rw.unsent_content_length());
    assert_eq!(
        "previous response body not completely sent",
        server_error(rw.read_request(&mut []))
    );
    assert_eq!(
        std::io::ErrorKind::InvalidInput,
        rw.write_body(6).unwrap_err().kind()
    );
    assert!(rw.write_body(5).is_ok());
    rw.body_written(3);
    assert_eq!(Some(2), rw.unsent_content_length());
    assert_eq!(41, rw.bytes_written());
    assert_eq!(
        "previous response body not completely sent",
        server_error(rw.read_request(&mut []))
    );
    assert_eq!(
        std::io::ErrorKind::InvalidInput,
        rw.write_body(3).unwrap_err().kind()
    );
    assert!(rw.write_body(2).is_ok());
    rw.body_written(2);
    assert_eq!(Some(0), rw.unsent_content_length());
    assert_eq!(
        std::io::ErrorKind::InvalidInput,
        rw.write_body(1).unwrap_err().kind()
    );
    assert!(rw.write_body(0).is_ok());
    assert_eq!(ReadProgress::NeedInput, rw.read_request(&mut []).unwrap());
}

#[test]
fn writes_before_a_response_are_not_limited() {
    let mut rw = HttpReaderWriter::new();
    read_request_from(&mut rw, &[b"GET / HTTP/1.1\r\n\r\n"], &mut []).unwrap();
    assert_eq!(None, rw.unsent_content_length());
    assert!(rw.write_body(1_000_000).is_ok());
    rw.body_written(1_000_000);
    assert_eq!(None, rw.unsent_content_length());
    assert_eq!(1_000_000, rw.bytes_written());
}

#[test]
fn expect_100_continue() {
    let mut rw = HttpReaderWriter::new();
    read_request_from(
        &mut rw,
        &[b"PUT /big HTTP/1.1\r\nExpect: 100-Continue\r\ncontent-length: 3\r\n\r\n"],
        &mut [],
    )
    .unwrap();
    assert_eq!(Expect100::Pending(23), rw.expect_100());
    assert_eq!(b"HTTP/1.1 100 Continue\r\n", rw.continue_bytes());
    let mut dest = [0u8; 8];
    // Nothing of the body is handed out before the interim response is out.
    assert_eq!(BodyRead::SendContinue, rw.read_body(&mut dest));
    rw.continue_written(9);
    assert_eq!(Expect100::Pending(14), rw.expect_100());
    assert_eq!(b"100 Continue\r\n", rw.continue_bytes());
    assert_eq!(BodyRead::SendContinue, rw.read_body(&mut dest));
    rw.continue_flushed();
    assert_eq!(Expect100::Pending(14), rw.expect_100());
    rw.continue_written(14);
    assert_eq!(Expect100::Pending(0), rw.expect_100());
    assert_eq!(b"", rw.continue_bytes());
    assert_eq!(BodyRead::FlushContinue, rw.read_body(&mut dest));
    rw.continue_flushed();
    assert_eq!(Expect100::Sent, rw.expect_100());
    assert_eq!(BodyRead::FromInput(3), rw.read_body(&mut dest));
    rw.continue_flushed();
    assert_eq!(Expect100::Sent, rw.expect_100());
}

#[test]
fn head_too_large() {
    let mut rw = HttpReaderWriter::new();
    let full = "h".repeat(BUFFER_LEN);
    match read_request_from(&mut rw, &[full.as_bytes()], &mut []) {
        Err(HttpError::IoError(e)) => assert_eq!(std::io::ErrorKind::InvalidData, e.kind()),
        other => panic!("{:?}", other),
    }
    assert!(rw.input_window().is_none());
}

#[test]
fn input_ends_before_head() {
    let mut rw = HttpReaderWriter::new();
    match read_request_from(&mut rw, &[], &mut []) {
        Err(HttpError::IoError(e)) => assert_eq!(std::io::ErrorKind::NotFound, e.kind()),
        other => panic!("{:?}", other),
    }
    // Once bytes of a head were read, the end of the input is unexpected.
    let mut rw = HttpReaderWriter::new();
    match read_request_from(&mut rw, &[b"GET / HTTP/1.1\r\n"], &mut []) {
        Err(HttpError::IoError(e)) => assert_eq!(std::io::ErrorKind::UnexpectedEof, e.kind()),
        other => panic!("{:?}", other),
    }
    // A client that goes away between two requests ends the input cleanly.
    let mut rw = HttpReaderWriter::new();
    read_request_from(&mut rw, &[b"GET / HTTP/1.1\r\n\r\n"], &mut []).unwrap();
    let _ = rw.send_simple(&HttpStatus::Ok200);
    match read_request_from(&mut rw, &[], &mut []) {
        Err(HttpError::IoError(e)) => assert_eq!(std::io::ErrorKind::NotFound, e.kind()),
        other => panic!("{:?}", other),
    }
}

#[test]
fn parse_error_leaves_connection_usable() {
    let mut rw = HttpReaderWriter::new();
    let mut extra = [HeaderReceiver::new("a")];
    match read_request_from(
        &mut rw,
        &[b"GET / HTTP/1.1\r\na: 1\r\nbroken\r\n\r\nGET /next HTTP/1.1\r\n\r\n"],
        &mut extra,
    ) {
        Err(HttpError::ParseError(HttpCallerError::HeaderLineInvalid)) => {}
        other => panic!("{:?}", other),
    }
    assert_eq!("1", extra[0].value.as_str());
    assert_eq!("", rw.path.as_str());
    assert_eq!(0, rw.unread_content_length());
    assert_eq!(ReadProgress::Complete, rw.read_request(&mut extra).unwrap());
    assert_eq!("/next", rw.path.as_str());
}

#[test]
fn send_simple() {
    let mut rw = HttpReaderWriter::new();
    read_request_from(&mut rw, &[b"GET / HTTP/1.1\r\n\r\n"], &mut []).unwrap();
    let mut head = rw.send_simple(&HttpStatus::NotFound404);
    assert_eq!(
        "HTTP/1.1 404 Not Found\\r\\ncontent-length: 0\\r\\n\\r\\n",
        escape_ascii(head.read_all())
    );
    assert_eq!(Some(0), rw.unsent_content_length());
    assert!(rw.status().is_none());
    rw.sent(43);
    rw.response_sent(HttpStatus::NotFound404);
    assert_eq!(43, rw.bytes_written());
    assert_eq!("HTTP/1.1 404 Not Found\r\n", rw.status().unwrap().as_line());
}

#[test]
fn send_without_body() {
    let mut rw = HttpReaderWriter::new();
    let mut head = rw
        .send_without_body(
            &HttpStatus::Created201,
            &[Header::new("Location", "/new"), Header::new("x", "")],
        )
        .unwrap();
    assert_eq!(
        "HTTP/1.1 201 Created\\r\\ncontent-length: 0\\r\\nLocation: /new\\r\\nx: \\r\\n\\r\\n",
        escape_ascii(head.read_all())
    );
    assert_eq!(Some(0), rw.unsent_content_length());
}

#[test]
fn send_text() {
    let mut rw = HttpReaderWriter::new();
    read_request_from(&mut rw, &[b"GET / HTTP/1.1\r\n\r\n"], &mut []).unwrap();
    let mut head = rw
        .send_text(&HttpStatus::Ok200, &[Header::new("a", "b")], "hello, w\u{f6}rld")
        .unwrap();
    assert_eq!(
        "HTTP/1.1 200 OK\\r\\ncontent-type: text/plain; charset=UTF-8\\r\\ncontent-length: 13\\r\\na: b\\r\\n\\r\\n",
        escape_ascii(head.read_all())
    );
    assert_eq!(None, rw.unsent_content_length());
    rw.sent(86);
    rw.sent(13);
    rw.text_sent(HttpStatus::Ok200);
    assert_eq!(Some(0), rw.unsent_content_length());
    assert_eq!(99, rw.bytes_written());
    assert_eq!("HTTP/1.1 200 OK\r\n", rw.status().unwrap().as_line());
}

#[test]
fn send_empty_text() {
    let mut rw = HttpReaderWriter::new();
    read_request_from(&mut rw, &[b"GET / HTTP/1.1\r\n\r\n"], &mut []).unwrap();
    let mut head = rw.send_text(&HttpStatus::Ok200, &[], "").unwrap();
    assert_eq!(
        "HTTP/1.1 200 OK\\r\\ncontent-length: 0\\r\\n\\r\\n",
        escape_ascii(head.read_all())
    );
    assert_eq!(Some(0), rw.unsent_content_length());
}

#[test]
fn send_with_content_length() {
    let mut rw = HttpReaderWriter::new();
    let mut head = rw
        .send_with_content_length(
            &HttpStatus::Ok200,
            &[Header::new("Last-Modified", "yesterday")],
            18446744073709551615,
        )
        .unwrap();
    assert_eq!(
        "HTTP/1.1 200 OK\\r\\ncontent-length: 18446744073709551615\\r\\nLast-Modified: yesterday\\r\\n\\r\\n",
        escape_ascii(head.read_all())
    );
    assert_eq!(Some(u64::MAX), rw.unsent_content_length());
    // The type of the body is the protocol's to say, here too.
    assert_eq!(
        "invalid extra header Header{content-type:text/html}",
        server_error(rw.send_with_content_length(
            &HttpStatus::Ok200,
            &[Header::new("Content-Type", "text/html")],
            5
        ))
    );
    assert_eq!(Some(5), rw.unsent_content_length());
}

#[test]
fn protocol_headers_are_rejected() {
    let mut rw = HttpReaderWriter::new();
    assert_eq!(
        "invalid extra header Header{content-type:a}",
        server_error(rw.send_without_body(
            &HttpStatus::Ok200,
            &[Header::new("x", "y"), Header::new("Content-Type", "a")]
        ))
    );
    // The response counts as started all the same.
    assert_eq!(Some(0), rw.unsent_content_length());
    assert_eq!(
        "invalid extra header Header{content-encoding:gzip}",
        server_error(rw.send_text(
            &HttpStatus::Ok200,
            &[Header::new("CONTENT-ENCODING", "gzip")],
            "body"
        ))
    );
    // The names are looked for one after the other: `transfer-encoding`
    // first.
    assert_eq!(
        "invalid extra header Header{transfer-encoding:chunked}",
        server_error(rw.send_text(
            &HttpStatus::Ok200,
            &[
                Header::new("content-length", "1"),
                Header::new("Transfer-Encoding", "chunked")
            ],
            ""
        ))
    );
    assert_eq!(
        "invalid extra header Header{content-length:1}",
        server_error(rw.send_with_content_length(
            &HttpStatus::Ok200,
            &[
                Header::new("content-type", "text/css"),
                Header::new("content-length", "1")
            ],
            1
        ))
    );
    assert_eq!(Some(1), rw.unsent_content_length());
    assert_eq!(
        "invalid extra header Header{content-type:text/css}",
        server_error(rw.send_with_content_length(
            &HttpStatus::Ok200,
            &[
                Header::new("content-encoding", "gzip"),
                Header::new("cONTENT-tYPE", "text/css")
            ],
            1
        ))
    );
    assert_eq!(
        "invalid extra header Header{content-encoding:gzip}",
        server_error(rw.send_with_content_length(
            &HttpStatus::Ok200,
            &[Header::new("Content-Encoding", "gzip")],
            1
        ))
    );
}

#[test]
fn head_that_does_not_fit() {
    let mut rw = HttpReaderWriter::new();
    let long = "v".repeat(BUFFER_LEN);
    assert_eq!(
        "buffer full while pushing extra headers [a:<1 bytes>}, b:<4096 bytes>}]",
        server_error(rw.send_without_body(
            &HttpStatus::Ok200,
            &[Header::new("a", "1"), Header::new("b", &long)]
        ))
    );
    // "HTTP/1.1 200 OK\r\ncontent-length: 0\r\n" has 36 bytes, "a: " has 3,
    // and each line end has 2.
    let fits = "v".repeat(BUFFER_LEN - 36 - 3 - 2 - 2);
    let mut head = rw
        .send_without_body(&HttpStatus::Ok200, &[Header::new("a", &fits)])
        .unwrap();
    assert_eq!(BUFFER_LEN, head.read_all().len());
    let too_long = "v".repeat(BUFFER_LEN - 36 - 3 - 2 - 1);
    assert_eq!(
        "buffer full while pushing extra headers [a:<4054 bytes>}]",
        server_error(rw.send_without_body(&HttpStatus::Ok200, &[Header::new("a", &too_long)]))
    );
}

#[test]
fn response_parts() {
    let headers = [
        Header::new("a", "1"),
        Header::new("B", "2"),
        Header::new("b", "3"),
    ];
    assert_eq!(Some(1), reject_header("b", &headers));
    assert_eq!(Some(0), reject_header("A", &headers));
    assert_eq!(None, reject_header("c", &headers));
    assert_eq!(None, reject_headers(&headers));
    let headers = [
        Header::new("content-encoding", "1"),
        Header::new("content-type", "2"),
    ];
    assert_eq!(Some(1), reject_headers(&headers));
    assert_eq!(Some(0), reject_headers(&headers[..1]));

    let mut buf = start_head(&HttpStatus::BadRequest400, true, 12);
    assert_eq!(
        "HTTP/1.1 400 Bad Request\\r\\ncontent-type: text/plain; charset=UTF-8\\r\\ncontent-length: 12\\r\\n",
        escape_ascii(buf.readable())
    );
    assert_eq!(Some(()), push_header(&mut buf, &Header::new("k", "v")));
    assert_eq!(
        Some(()),
        append_extra_headers(&mut buf, &[Header::new("l", "w"), Header::new("m", "x")])
    );
    assert_eq!(
        "k: v\\r\\nl: w\\r\\nm: x\\r\\n",
        escape_ascii(&buf.readable()[87..])
    );
    let long = "v".repeat(BUFFER_LEN);
    assert_eq!(
        None,
        append_extra_headers(&mut buf, &[Header::new("n", "y"), Header::new("o", &long)])
    );
    let mut head = compose_head(&HttpStatus::Ok200, false, 7, &[]).unwrap();
    assert_eq!(
        "HTTP/1.1 200 OK\\r\\ncontent-length: 7\\r\\n\\r\\n",
        escape_ascii(head.read_all())
    );
}

#[test]
fn too_many_extra_headers() {
    let mut rw = HttpReaderWriter::new();
    feed(&mut rw, b"GET / HTTP/1.1\r\n\r\n");
    let mut eleven: Vec<HeaderReceiver> = (0..11).map(|_| HeaderReceiver::new("x")).collect();
    match rw.read_request(&mut eleven) {
        Err(HttpError::ParseError(e)) => {
            assert_eq!(HttpCallerError::TooManyExtraHeaders, e);
            assert_eq!(
                "HTTP/1.1 431 Request Header Fields Too Large\r\n",
                e.status().as_line()
            );
        }
        other => panic!("{:?}", other),
    }
}
