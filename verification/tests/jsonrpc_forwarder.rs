use ethersync::decimal;
use ethersync::jsonrpc_forwarder::windows::WindowsJsonRPCForwarder;
use ethersync::jsonrpc_forwarder::{ContentLengthCodec, DecodeError};
use tokio_util::bytes::BytesMut;

fn decode(bytes: &[u8]) -> (Result<Option<String>, DecodeError>, Vec<u8>) {
    let mut buffer = BytesMut::from(bytes);
    assert!(ContentLengthCodec.can_decode(&buffer));
    let result = ContentLengthCodec.decode(&mut buffer);
    (result, buffer.to_vec())
}

fn encode(message: &str) -> Vec<u8> {
    let mut buffer = BytesMut::new();
    ContentLengthCodec.encode(message.to_string(), &mut buffer);
    buffer.to_vec()
}

#[test]
fn messages_are_wrapped() {
    assert_eq!(encode("{}"), b"Content-Length: 2\r\n\r\n{}");
    assert_eq!(encode(""), b"Content-Length: 0\r\n\r\n");
    assert_eq!(encode("\u{1f955}"), "Content-Length: 4\r\n\r\n\u{1f955}".as_bytes());
    let mut buffer = BytesMut::from(&b"before"[..]);
    ContentLengthCodec.encode("12345678901".to_string(), &mut buffer);
    assert_eq!(&buffer[..], b"beforeContent-Length: 11\r\n\r\n12345678901");
}

#[test]
fn messages_are_unwrapped() {
    let (result, rest) = decode(b"Content-Length: 2\r\n\r\n{}rest");
    assert_eq!(result, Ok(Some("{}".to_string())));
    assert_eq!(rest, b"rest");
    let (result, rest) = decode("Content-Length: 4\n\n\u{1f955}".as_bytes());
    assert_eq!(result, Ok(Some("\u{1f955}".to_string())));
    assert_eq!(rest, b"");
    let (result, rest) = decode(b"junk Content-Length: +3\r\n\r\nabcd");
    assert_eq!(result, Ok(Some("abc".to_string())));
    assert_eq!(rest, b"d");
}

#[test]
fn the_long_end_of_headers_goes_first() {
    let (result, rest) = decode(b"Content-Length: 1\n\nx\r\n\r\n");
    assert_eq!(result, Err(DecodeError::LengthNotANumber));
    assert_eq!(rest, b"Content-Length: 1\n\nx\r\n\r\n");
}

#[test]
fn incomplete_frames_wait() {
    let frame = encode("{\"a\": 1}");
    for received in 0..frame.len() {
        let (result, rest) = decode(&frame[..received]);
        assert_eq!(result, Ok(None));
        assert_eq!(rest, &frame[..received]);
    }
}

#[test]
fn bad_frames_fail() {
    let (result, rest) = decode(b"Content-Length: two\r\n\r\n{}");
    assert_eq!(result, Err(DecodeError::LengthNotANumber));
    assert_eq!(rest, b"Content-Length: two\r\n\r\n{}");
    let (result, _) = decode(b"Content-Length: \r\n\r\n{}");
    assert_eq!(result, Err(DecodeError::LengthNotANumber));
    let (result, _) = decode(b"Content-Length: 99999999999999999999999\r\n\r\n{}");
    assert_eq!(result, Err(DecodeError::LengthNotANumber));
    let (result, _) = decode(b"Content-Length: \xff\r\n\r\n{}");
    assert_eq!(result, Err(DecodeError::LengthNotUtf8));
    let (result, rest) = decode(b"Content-Length: 2\r\n\r\n\xc3\x28rest");
    assert_eq!(result, Err(DecodeError::ContentNotUtf8));
    assert_eq!(rest, b"rest");
}

#[test]
fn a_frame_beyond_all_counting_is_not_decoded() {
    let bytes = format!("Content-Length: {}\r\n\r\n", usize::MAX);
    assert!(!ContentLengthCodec.can_decode(&BytesMut::from(bytes.as_bytes())));
    let bytes = format!("Content-Length: {}\r\n\r\n", usize::MAX - bytes.len());
    assert!(ContentLengthCodec.can_decode(&BytesMut::from(bytes.as_bytes())));
}

#[test]
fn a_stream_of_messages_is_read_in_order() {
    let messages = ["first", "", "Content-Length: 3\r\n\r\n", "l\u{fc}st"];
    let mut buffer = BytesMut::new();
    for message in messages {
        ContentLengthCodec.encode(message.to_string(), &mut buffer);
    }
    buffer.extend_from_slice(&encode("unfinished")[..20]);
    for message in messages {
        assert_eq!(ContentLengthCodec.decode(&mut buffer), Ok(Some(message.to_string())));
    }
    assert_eq!(ContentLengthCodec.decode(&mut buffer), Ok(None));
    assert_eq!(buffer.len(), 20);
}

#[test]
fn numbers_are_written_and_read() {
    for n in [0, 7, 10, 99, 100, 65535, usize::MAX] {
        assert_eq!(decimal::write(n), n.to_string().into_bytes());
        assert_eq!(decimal::parse(n.to_string().as_bytes()), Some(n));
    }
    assert_eq!(decimal::parse(b"007"), Some(7));
    assert_eq!(decimal::parse(b"+"), None);
    assert_eq!(decimal::parse(b"-1"), None);
    assert_eq!(decimal::parse(b" 1"), None);
    let too_large = format!("{}", usize::MAX as u128 + 1);
    assert_eq!(decimal::parse(too_large.as_bytes()), None);
}

#[test]
fn pipes_are_opened_by_their_full_name() {
    let forwarder = WindowsJsonRPCForwarder { pipe_name: "C:\\temp\\ethersync_pipe".into() };
    assert_eq!(forwarder.full_pipe_name(), "\\\\.\\pipe\\ethersync_pipe");
}
