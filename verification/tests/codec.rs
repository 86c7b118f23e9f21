use tape_proxy::codec::{
    decode, encode, parse_decimal, parse_header_line, parse_status_line, push_bytes, push_decimal,
    Header, MalformedRecording, Decoded, Version,
};

fn header(name: &str, value: &str) -> Header {
    Header { name: name.as_bytes().to_vec(), value: value.as_bytes().to_vec() }
}

#[test]
fn encode_writes_status_line_headers_blank_line_and_body() {
    let headers = vec![header("content-type", "application/json"), header("x-id", "7")];
    let bytes = encode(Version::Http11, 200, b"OK", &headers, b"{\"id\":42}");
    assert_eq!(
        bytes,
        b"HTTP/1.1 200 OK\r\ncontent-type:application/json\r\nx-id:7\r\n\r\n{\"id\":42}".to_vec()
    );
}

#[test]
fn encode_without_headers_and_body() {
    let bytes = encode(Version::Http10, 204, b"No Content", &[], b"");
    assert_eq!(bytes, b"HTTP/1.0 204 No Content\r\n\r\n".to_vec());
}

#[test]
fn encode_writes_each_version_token() {
    assert_eq!(encode(Version::Http09, 200, b"", &[], b""), b"HTTP/0.9 200 \r\n\r\n".to_vec());
    assert_eq!(encode(Version::Http10, 200, b"", &[], b""), b"HTTP/1.0 200 \r\n\r\n".to_vec());
    assert_eq!(encode(Version::Http11, 200, b"", &[], b""), b"HTTP/1.1 200 \r\n\r\n".to_vec());
    assert_eq!(encode(Version::H2, 200, b"", &[], b""), b"HTTP/2.0 200 \r\n\r\n".to_vec());
    assert_eq!(encode(Version::H3, 200, b"", &[], b""), b"HTTP/3.0 200 \r\n\r\n".to_vec());
}

#[test]
fn encode_keeps_header_order_case_and_duplicates() {
    let headers = vec![header("B", "2"), header("a", "1"), header("B", "3")];
    let bytes = encode(Version::Http11, 200, b"OK", &headers, b"");
    assert_eq!(bytes, b"HTTP/1.1 200 OK\r\nB:2\r\na:1\r\nB:3\r\n\r\n".to_vec());
}

#[test]
fn push_decimal_writes_digits_without_leading_zeros() {
    let mut out = b"x".to_vec();
    push_decimal(&mut out, 0);
    out.push(b' ');
    push_decimal(&mut out, 7);
    out.push(b' ');
    push_decimal(&mut out, 501);
    out.push(b' ');
    push_decimal(&mut out, 65535);
    assert_eq!(out, b"x0 7 501 65535".to_vec());
}

#[test]
fn push_bytes_appends() {
    let mut out = b"ab".to_vec();
    push_bytes(&mut out, b"cd");
    push_bytes(&mut out, b"");
    assert_eq!(out, b"abcd".to_vec());
}

#[test]
fn decode_reads_code_headers_and_body() {
    let recording =
        decode(b"HTTP/1.1 200 OK\r\ncontent-type:application/json\r\n\r\n{\"id\":42}").unwrap();
    assert_eq!(
        recording,
        Decoded {
            code: 200,
            headers: vec![header("content-type", "application/json")],
            body: b"{\"id\":42}".to_vec(),
        }
    );
}

#[test]
fn decode_takes_the_value_as_it_stands() {
    let recording = decode(b"HTTP/1.1 200 OK\r\nname: padded \r\nurl:http://x:80/\r\n\r\n").unwrap();
    assert_eq!(
        recording.headers,
        vec![header("name", " padded "), header("url", "http://x:80/")]
    );
}

#[test]
fn decode_keeps_empty_values() {
    let recording = decode(b"HTTP/1.1 200 OK\r\nx-empty:\r\ny:1\r\n\r\n").unwrap();
    assert_eq!(recording.headers, vec![header("x-empty", ""), header("y", "1")]);
}

#[test]
fn decode_needs_no_reason() {
    assert_eq!(decode(b"HTTP/1.1 404\r\n\r\n").unwrap().code, 404);
    assert_eq!(decode(b"HTTP/1.1 404 \r\n\r\n").unwrap().code, 404);
    assert_eq!(decode(b"HTTP/1.1 404 Gone Fishing\r\n\r\n").unwrap().code, 404);
}

#[test]
fn decode_body_may_hold_the_boundary() {
    let recording = decode(b"HTTP/1.1 200 OK\r\na:b\r\n\r\none\r\n\r\ntwo\r\n\r\n").unwrap();
    assert_eq!(recording.headers, vec![header("a", "b")]);
    assert_eq!(recording.body, b"one\r\n\r\ntwo\r\n\r\n".to_vec());
}

#[test]
fn decode_body_may_be_empty() {
    let recording = decode(b"HTTP/1.1 200 OK\r\n\r\n").unwrap();
    assert_eq!(recording.headers, Vec::<Header>::new());
    assert_eq!(recording.body, Vec::<u8>::new());
}

#[test]
fn decode_without_boundary_fails() {
    assert_eq!(decode(b""), Err(MalformedRecording::NoBoundary));
    assert_eq!(decode(b"HTTP/1.1 200 OK\r\na:b\r\n"), Err(MalformedRecording::NoBoundary));
    assert_eq!(decode(b"HTTP/1.1 200 OK\n\n"), Err(MalformedRecording::NoBoundary));
}

#[test]
fn decode_without_code_fails() {
    assert_eq!(decode(b"\r\n\r\n"), Err(MalformedRecording::StatusLine));
    assert_eq!(decode(b"HTTP/1.1\r\n\r\n"), Err(MalformedRecording::StatusLine));
    assert_eq!(decode(b"HTTP/1.1 OK\r\n\r\n"), Err(MalformedRecording::StatusLine));
    assert_eq!(decode(b"HTTP/1.1  200 OK\r\n\r\n"), Err(MalformedRecording::StatusLine));
    assert_eq!(decode(b"HTTP/1.1 20x OK\r\n\r\n"), Err(MalformedRecording::StatusLine));
    assert_eq!(decode(b"HTTP/1.1 65536 OK\r\n\r\n"), Err(MalformedRecording::StatusLine));
}

#[test]
fn decode_header_line_without_colon_fails() {
    assert_eq!(
        decode(b"HTTP/1.1 200 OK\r\na:b\r\nno colon here\r\n\r\n"),
        Err(MalformedRecording::HeaderLine)
    );
}

#[test]
fn decode_reports_the_status_line_before_a_header_line() {
    assert_eq!(decode(b"nothing\r\nno colon\r\n\r\n"), Err(MalformedRecording::StatusLine));
}

#[test]
fn parse_decimal_reads_digits_only() {
    assert_eq!(parse_decimal(b"200"), Some(200));
    assert_eq!(parse_decimal(b"0"), Some(0));
    assert_eq!(parse_decimal(b"007"), Some(7));
    assert_eq!(parse_decimal(b"65535"), Some(65535));
    assert_eq!(parse_decimal(b"65536"), None);
    assert_eq!(parse_decimal(b"99999999999999999999999"), None);
    assert_eq!(parse_decimal(b""), None);
    assert_eq!(parse_decimal(b"+1"), None);
    assert_eq!(parse_decimal(b"1 "), None);
}

#[test]
fn parse_status_line_reads_what_follows_the_first_space() {
    assert_eq!(parse_status_line(b"HTTP/1.1 200 OK"), Some(200));
    assert_eq!(parse_status_line(b"anything 301"), Some(301));
    assert_eq!(parse_status_line(b" 301"), Some(301));
    assert_eq!(parse_status_line(b"301"), None);
    assert_eq!(parse_status_line(b""), None);
}

#[test]
fn parse_header_line_cuts_at_the_first_colon() {
    assert_eq!(parse_header_line(b"a:b:c"), Some(header("a", "b:c")));
    assert_eq!(parse_header_line(b":v"), Some(header("", "v")));
    assert_eq!(parse_header_line(b"n:"), Some(header("n", "")));
    assert_eq!(parse_header_line(b"none"), None);
}

#[test]
fn round_trip_gives_back_code_headers_and_body() {
    let headers = vec![
        header("content-type", "text/plain"),
        header("x-empty", ""),
        header("set-cookie", "a=1; path=/"),
        header("set-cookie", "b=2"),
        header("x-odd", "ends in cr\r"),
    ];
    let body: Vec<u8> = vec![0, 255, 13, 10, 13, 10, 128, 10, 13, 0];
    let bytes = encode(Version::H2, 418, b"I'm a teapot", &headers, &body);
    assert_eq!(decode(&bytes), Ok(Decoded { code: 418, headers, body }));
}

#[test]
fn round_trip_of_every_code_width() {
    for code in [0u16, 9, 10, 99, 100, 999, 1000, 9999, 10000, 65535] {
        let bytes = encode(Version::Http11, code, b"", &[], b"");
        assert_eq!(decode(&bytes).unwrap().code, code);
    }
}

#[test]
fn round_trip_with_empty_body_and_no_headers() {
    let bytes = encode(Version::Http11, 204, b"No Content", &[], b"");
    assert_eq!(decode(&bytes), Ok(Decoded { code: 204, headers: vec![], body: vec![] }));
}

#[test]
fn a_reason_with_a_line_break_is_not_read_back() {
    let bytes = encode(Version::Http11, 200, b"O\r\nK", &[header("a", "b")], b"");
    assert_eq!(decode(&bytes), Err(MalformedRecording::HeaderLine));
}

#[test]
fn recordings_are_read_by_an_http_parser() {
    let headers = vec![header("content-type", "application/json"), header("x-empty", "")];
    let bytes = encode(Version::Http11, 200, b"OK", &headers, b"{\"id\":42}");
    let mut slots = [httparse::EMPTY_HEADER; 8];
    let mut parsed = httparse::Response::new(&mut slots);
    let status = parsed.parse(&bytes).unwrap();
    let ours = decode(&bytes).unwrap();
    assert_eq!(status, httparse::Status::Complete(bytes.len() - ours.body.len()));
    assert_eq!(parsed.code, Some(ours.code));
    assert_eq!(parsed.headers.len(), ours.headers.len());
    for (theirs, mine) in parsed.headers.iter().zip(ours.headers.iter()) {
        assert_eq!(theirs.name.as_bytes(), mine.name.as_slice());
        assert_eq!(theirs.value, mine.value.as_slice());
    }
}

#[test]
fn a_hand_written_tape_is_read_as_an_http_parser_reads_it() {
    let tape: &[u8] = b"HTTP/1.0 404 Nowhere To Be Found\r\nServer:edited by hand\r\nX-Empty:\r\nVia:1.1 a, 1.1 b\r\n\r\nnothing here\r\n\r\n";
    let mut slots = [httparse::EMPTY_HEADER; 8];
    let mut parsed = httparse::Response::new(&mut slots);
    assert!(parsed.parse(tape).unwrap().is_complete());
    let ours = decode(tape).unwrap();
    assert_eq!(parsed.code, Some(ours.code));
    assert_eq!(ours.code, 404);
    assert_eq!(parsed.headers.len(), 3);
    assert_eq!(ours.headers.len(), 3);
    for (theirs, mine) in parsed.headers.iter().zip(ours.headers.iter()) {
        assert_eq!(theirs.name.as_bytes(), mine.name.as_slice());
        assert_eq!(theirs.value, mine.value.as_slice());
    }
    assert_eq!(ours.body, b"nothing here\r\n\r\n".to_vec());
}
