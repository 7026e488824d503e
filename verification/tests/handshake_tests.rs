use http_tunnel::handshake::HandshakeState::{Done, FirstCr, FirstLf, HeaderOk, SecondCr};
use http_tunnel::handshake::{
    read_status, step, HandshakeError, HandshakeState, Reading, STATUS_PREFIX_LEN,
};

fn read(input: &[u8]) -> Reading {
    HandshakeState::initial(true).read_from(input)
}

#[test]
fn status_prefix_is_twelve_bytes() {
    assert_eq!(STATUS_PREFIX_LEN, 12);
    assert_eq!(HandshakeState::Started.pending(), 12);
    assert_eq!(HandshakeState::HeaderOk.pending(), 1);
    assert_eq!(HandshakeState::FirstCr.pending(), 1);
    assert_eq!(HandshakeState::FirstLf.pending(), 1);
    assert_eq!(HandshakeState::SecondCr.pending(), 1);
    assert_eq!(HandshakeState::Done.pending(), 0);
}

#[test]
fn direct_connection_has_nothing_to_read() {
    let state = HandshakeState::initial(false);
    assert_eq!(state, HandshakeState::Done);
    assert!(state.is_done());
    let reading = state.read_from(b"payload");
    assert_eq!(reading.outcome, Ok(HandshakeState::Done));
    assert_eq!(reading.consumed, 0);
    assert_eq!(state.feed(b""), Ok(HandshakeState::Done));
}

#[test]
fn proxied_connection_starts_at_the_status() {
    let state = HandshakeState::initial(true);
    assert_eq!(state, HandshakeState::Started);
    assert!(!state.is_done());
}

#[test]
fn read_status_accepts_success() {
    assert_eq!(read_status(b"HTTP/1.1 200"), Ok(200));
    assert_eq!(read_status(b"HTTP/1.0 204"), Ok(204));
    assert_eq!(read_status(b"HTTP/1.1 299"), Ok(299));
}

#[test]
fn read_status_rejects_other_codes() {
    assert_eq!(read_status(b"HTTP/1.1 199"), Err(HandshakeError::UpstreamRejected(199)));
    assert_eq!(read_status(b"HTTP/1.1 300"), Err(HandshakeError::UpstreamRejected(300)));
    assert_eq!(read_status(b"HTTP/1.1 407"), Err(HandshakeError::UpstreamRejected(407)));
    assert_eq!(read_status(b"HTTP/1.1 503"), Err(HandshakeError::UpstreamRejected(503)));
    assert_eq!(read_status(b"HTTP/1.1 000"), Err(HandshakeError::UpstreamRejected(0)));
}

#[test]
fn read_status_wants_a_number_at_offset_nine() {
    assert_eq!(read_status(b"HTTP/1.1 OK "), Err(HandshakeError::InvalidStatusFormat));
    assert_eq!(read_status(b"HTTP/1.1  20"), Err(HandshakeError::InvalidStatusFormat));
    assert_eq!(read_status(b"HTTP/2 200 O"), Err(HandshakeError::InvalidStatusFormat));
    assert_eq!(read_status(b"HTTP/1.1 2x0"), Err(HandshakeError::InvalidStatusFormat));
    assert_eq!(read_status(b"HTTP/1.1 20\r"), Err(HandshakeError::InvalidStatusFormat));
}

#[test]
fn read_status_non_ascii_code_is_no_number() {
    // valid UTF-8 whose two-byte character ends at offset 9
    let prefix = "HTTP/1.1\u{00e9}00".as_bytes();
    assert_eq!(prefix.len(), 12);
    assert_eq!(read_status(prefix), Err(HandshakeError::InvalidStatusFormat));
    let prefix = "HTTP/1.1 \u{00e9}0".as_bytes();
    assert_eq!(prefix.len(), 12);
    assert_eq!(read_status(prefix), Err(HandshakeError::InvalidStatusFormat));
}

#[test]
fn read_status_signed_code() {
    assert_eq!(read_status(b"HTTP/1.1 +20"), Err(HandshakeError::UpstreamRejected(20)));
    assert_eq!(read_status(b"HTTP/1.1 -20"), Err(HandshakeError::InvalidStatusFormat));
}

#[test]
fn read_status_invalid_utf8() {
    let mut prefix = b"HTTP/1.1 200".to_vec();
    prefix[3] = 0xff;
    assert_eq!(read_status(&prefix), Err(HandshakeError::InvalidHeaderEncoding));
    let mut prefix = b"HTTP/1.1 200".to_vec();
    prefix[11] = 0xc3;
    assert_eq!(read_status(&prefix), Err(HandshakeError::InvalidHeaderEncoding));
    let mut prefix = b"HTTP/1.1 200".to_vec();
    prefix[0] = 0x80;
    assert_eq!(read_status(&prefix), Err(HandshakeError::InvalidHeaderEncoding));
}

#[test]
fn invalid_encoding_is_found_before_the_code() {
    let mut prefix = b"HTTP/1.1 404".to_vec();
    prefix[2] = 0xfe;
    assert_eq!(read_status(&prefix), Err(HandshakeError::InvalidHeaderEncoding));
    let mut prefix = b"HTTP/1.1 abc".to_vec();
    prefix[2] = 0xfe;
    assert_eq!(read_status(&prefix), Err(HandshakeError::InvalidHeaderEncoding));
}

#[test]
fn step_follows_the_terminator() {
    assert_eq!(step(HeaderOk, b'a'), Ok(HeaderOk));
    assert_eq!(step(HeaderOk, b'\r'), Ok(FirstCr));
    assert_eq!(step(FirstCr, b'\n'), Ok(FirstLf));
    assert_eq!(step(FirstLf, b'X'), Ok(HeaderOk));
    assert_eq!(step(FirstLf, b'\r'), Ok(SecondCr));
    assert_eq!(step(SecondCr, b'\n'), Ok(Done));
}

#[test]
fn step_rejects_terminators_out_of_order() {
    let bad = Err(HandshakeError::MalformedLineTerminator);
    assert_eq!(step(HeaderOk, b'\n'), bad);
    assert_eq!(step(FirstCr, b'\r'), bad);
    assert_eq!(step(FirstCr, b'a'), bad);
    assert_eq!(step(FirstLf, b'\n'), bad);
    assert_eq!(step(SecondCr, b'\r'), bad);
    assert_eq!(step(SecondCr, b'a'), bad);
}

#[test]
fn feed_takes_the_prefix_then_single_bytes() {
    let state = HandshakeState::Started;
    let state = state.feed(b"HTTP/1.1 200").unwrap();
    assert_eq!(state, HandshakeState::HeaderOk);
    let state = state.feed(b" ").unwrap();
    assert_eq!(state, HandshakeState::HeaderOk);
    let state = state.feed(b"\r").unwrap();
    let state = state.feed(b"\n").unwrap();
    let state = state.feed(b"\r").unwrap();
    let state = state.feed(b"\n").unwrap();
    assert_eq!(state, HandshakeState::Done);
    assert_eq!(HandshakeState::Started.feed(b"HTTP/1.1 500"), Err(HandshakeError::UpstreamRejected(500)));
}

#[test]
fn empty_header_block_ends_after_sixteen_bytes() {
    let reading = read(b"HTTP/1.1 200\r\n\r\npayload");
    assert_eq!(reading.outcome, Ok(HandshakeState::Done));
    assert_eq!(reading.consumed, 16);
    let reading = read(b"HTTP/1.1 250\r\n\r\n");
    assert_eq!(reading.outcome, Ok(HandshakeState::Done));
    assert_eq!(reading.consumed, 16);
}

#[test]
fn reply_with_reason_and_headers() {
    let reply = b"HTTP/1.1 200 Connection established\r\nVia: 1.1 proxy\r\n\r\n\x00\x01tail\r\n\r\n";
    let reading = read(reply);
    assert_eq!(reading.outcome, Ok(HandshakeState::Done));
    assert_eq!(reading.consumed, reply.len() - 10);
    assert_eq!(&reply[reading.consumed..], b"\x00\x01tail\r\n\r\n");
}

#[test]
fn rejected_status_takes_only_the_prefix() {
    let reading = read(b"HTTP/1.1 407 Proxy Authentication Required\r\n\r\n");
    assert_eq!(reading.outcome, Err(HandshakeError::UpstreamRejected(407)));
    assert_eq!(reading.consumed, 12);
    let reading = read(b"HTTP/1.1 199");
    assert_eq!(reading.outcome, Err(HandshakeError::UpstreamRejected(199)));
    assert_eq!(reading.consumed, 12);
}

#[test]
fn invalid_text_fails_before_scanning() {
    let mut reply = b"HTTP/1.1 200\n\n\n".to_vec();
    reply[5] = 0xff;
    let reading = read(&reply);
    assert_eq!(reading.outcome, Err(HandshakeError::InvalidHeaderEncoding));
    assert_eq!(reading.consumed, 12);
}

#[test]
fn lone_line_feed_is_malformed() {
    let reading = read(b"HTTP/1.1 200 OK\n\n");
    assert_eq!(reading.outcome, Err(HandshakeError::MalformedLineTerminator));
    assert_eq!(reading.consumed, 16);
    let reading = read(b"HTTP/1.1 200\n");
    assert_eq!(reading.outcome, Err(HandshakeError::MalformedLineTerminator));
    assert_eq!(reading.consumed, 13);
}

#[test]
fn broken_terminators_are_malformed() {
    let bad = Err(HandshakeError::MalformedLineTerminator);
    let reading = read(b"HTTP/1.1 200 OK\r\r\n\r\n");
    assert_eq!(reading.outcome, bad);
    assert_eq!(reading.consumed, 17);
    let reading = read(b"HTTP/1.1 200 OK\r\n\n");
    assert_eq!(reading.outcome, bad);
    assert_eq!(reading.consumed, 18);
    let reading = read(b"HTTP/1.1 200 OK\r\n\rX");
    assert_eq!(reading.outcome, bad);
    assert_eq!(reading.consumed, 19);
    let reading = read(b"HTTP/1.1 200 OK\rX");
    assert_eq!(reading.outcome, bad);
    assert_eq!(reading.consumed, 17);
}

#[test]
fn short_input_waits() {
    let reading = read(b"HTTP/1.1 20");
    assert_eq!(reading.outcome, Ok(HandshakeState::Started));
    assert_eq!(reading.consumed, 0);
    let reading = read(b"");
    assert_eq!(reading.outcome, Ok(HandshakeState::Started));
    assert_eq!(reading.consumed, 0);
    let reading = read(b"HTTP/1.1 200 OK\r\n\r");
    assert_eq!(reading.outcome, Ok(HandshakeState::SecondCr));
    assert_eq!(reading.consumed, 18);
    let reading = read(b"HTTP/1.1 200 OK\r\nHost");
    assert_eq!(reading.outcome, Ok(HandshakeState::HeaderOk));
    assert_eq!(reading.consumed, 21);
}

#[test]
fn reading_can_go_on_from_any_state() {
    let first = read(b"HTTP/1.1 200 OK\r");
    assert_eq!(first.outcome, Ok(HandshakeState::FirstCr));
    let rest = first.outcome.unwrap().read_from(b"\n\r\nabc");
    assert_eq!(rest.outcome, Ok(HandshakeState::Done));
    assert_eq!(rest.consumed, 3);
}

#[test]
fn handshake_error_messages() {
    assert_eq!(HandshakeError::InvalidHeaderEncoding.message(), "Invalid header - not UTF8");
    assert_eq!(HandshakeError::InvalidStatusFormat.message(), "Invalid status - not number");
    assert_eq!(HandshakeError::UpstreamRejected(407).message(), "Invalid status - 407");
    assert_eq!(HandshakeError::UpstreamRejected(0).message(), "Invalid status - 0");
    assert_eq!(HandshakeError::MalformedLineTerminator.message(), "Invalid end of line");
}
