use gen_mcp::error::TransportError;
use gen_mcp::transport::{
    check_content_length, content_length_from_first_line, frame_message, is_header_end,
    message_from_body,
    parse_content_length_header, parse_usize, read_step, LineStep, StdioFraming,
    MAX_CONTENT_LENGTH,
};
use gen_mcp::text::trim_crlf;

#[test]
fn test_parse_content_length_header() {
    assert_eq!(parse_content_length_header("Content-Length: 10\r\n"), Some(10));
    assert_eq!(parse_content_length_header("content-length: 0\n"), Some(0));
    assert_eq!(parse_content_length_header("Content-Length:   42"), Some(42));
    assert_eq!(parse_content_length_header("Content-Type: application/json"), None);
    assert_eq!(parse_content_length_header("nope"), None);
}

#[test]
fn test_check_content_length_accepts_within_limit() {
    assert!(check_content_length(0).is_ok());
    assert!(check_content_length(1024).is_ok());
    assert!(check_content_length(MAX_CONTENT_LENGTH).is_ok());
}

#[test]
fn test_check_content_length_rejects_oversize() {
    let result = check_content_length(MAX_CONTENT_LENGTH + 1);
    assert!(result.is_err());
    // A wildly oversized frame (e.g. 4 GiB) must be rejected without
    // attempting to allocate it.
    assert!(check_content_length(4 * 1024 * 1024 * 1024).is_err());
}

#[test]
fn oversize_message_names_both_lengths() {
    match check_content_length(67108865) {
        Err(TransportError::InvalidMessage(m)) => assert_eq!(
            m,
            "Content-Length 67108865 exceeds maximum of 67108864 bytes"
        ),
        other => panic!("unexpected {other:?}"),
    }
}

#[test]
fn header_parsing_edge_cases() {
    assert_eq!(parse_content_length_header("  CONTENT-LENGTH :  +7 \r\n"), Some(7));
    assert_eq!(parse_content_length_header("Content-Length: -1"), None);
    assert_eq!(parse_content_length_header("Content-Length: 1 2"), None);
    assert_eq!(parse_content_length_header("Content-Length:"), None);
    assert_eq!(parse_content_length_header("Content-Length: 99999999999999999999999"), None);
    assert_eq!(parse_content_length_header("X: Content-Length: 3"), None);
}

#[test]
fn usize_parsing_follows_std() {
    for s in ["0", "+12", "007", "18446744073709551615", "", "+", "-3", " 1", "1a"] {
        assert_eq!(parse_usize(s), s.parse::<usize>().ok(), "input {s:?}");
    }
}

#[test]
fn trim_crlf_strips_every_trailing_line_ending() {
    assert_eq!(trim_crlf("abc\r\n"), "abc");
    assert_eq!(trim_crlf("abc\n\r\n\n"), "abc");
    assert_eq!(trim_crlf("a\rb\n"), "a\rb");
    assert_eq!(trim_crlf("\r\n"), "");
}

#[test]
fn framed_header_reads_back_as_its_length() {
    let msg = "{\"jsonrpc\":\"2.0\",\"id\":1,\"x\":\"é\"}";
    let framed = frame_message(StdioFraming::ContentLength, msg);
    let first_line_end = framed.find('\n').unwrap() + 1;
    let first = &framed[..first_line_end];
    assert_eq!(parse_content_length_header(first), Some(msg.len()));
    assert!(framed.ends_with(msg));
    assert_eq!(framed, format!("Content-Length: {}\r\n\r\n{}", msg.len(), msg));
    assert_eq!(frame_message(StdioFraming::Newline, "{}"), "{}\n");
    assert_eq!(frame_message(StdioFraming::Auto, "{}"), "{}\n");
}

#[test]
fn auto_framing_detects_the_first_message() {
    let (f, step) = read_step(StdioFraming::Auto, "  \r\n");
    assert_eq!(f, StdioFraming::Auto);
    assert!(matches!(step, Ok(LineStep::Skip)));

    let (f, step) = read_step(StdioFraming::Auto, "{\"a\":1}\r\n");
    assert_eq!(f, StdioFraming::Newline);
    match step {
        Ok(LineStep::Message(m)) => assert_eq!(m, "{\"a\":1}"),
        other => panic!("unexpected {other:?}"),
    }

    let (f, step) = read_step(StdioFraming::Auto, "Content-Length: 12\r\n");
    assert_eq!(f, StdioFraming::ContentLength);
    assert!(matches!(step, Ok(LineStep::Body(12))));

    let (f, step) = read_step(StdioFraming::ContentLength, "garbage\n");
    assert_eq!(f, StdioFraming::ContentLength);
    match step {
        Err(TransportError::InvalidMessage(m)) => {
            assert_eq!(m, "Expected Content-Length header, got: garbage")
        }
        other => panic!("unexpected {other:?}"),
    }
    assert!(matches!(
        content_length_from_first_line("Content-Length: 67108865"),
        Err(TransportError::InvalidMessage(_))
    ));
    assert!(is_header_end("\r\n"));
    assert!(!is_header_end("Content-Type: x\r\n"));
}

#[test]
fn bodies_must_be_utf8() {
    assert_eq!(message_from_body("{\"é\":1}".as_bytes().to_vec()).unwrap(), "{\"é\":1}");
    match message_from_body(vec![b'{', 0xff, b'}']) {
        Err(TransportError::InvalidMessage(m)) => {
            assert!(m.starts_with("Invalid UTF-8 in JSON-RPC message: "))
        }
        other => panic!("unexpected {other:?}"),
    }
}
