use amusing::error::MusingError;
use amusing::json::Json;
use amusing::wire::{decode_frame, encode_frame, frame_len, read_msg, write_msg};

#[test]
fn encode_frame_puts_the_length_first() {
    assert_eq!(encode_frame(b"abc"), Ok(vec![0, 0, 0, 3, b'a', b'b', b'c']));
    assert_eq!(encode_frame(b""), Ok(vec![0, 0, 0, 0]));
}

#[test]
fn encode_frame_length_is_big_endian() {
    let payload = vec![7u8; 0x01_02_03];
    let bytes = encode_frame(&payload).unwrap();
    assert_eq!(&bytes[..4], &[0, 1, 2, 3]);
    assert_eq!(bytes.len(), 4 + payload.len());
    assert_eq!(&bytes[4..], &payload[..]);
}

#[test]
fn frame_len_reads_big_endian() {
    assert_eq!(frame_len(&[0, 0, 0, 3]), 3);
    assert_eq!(frame_len(&[0, 0, 1, 0]), 256);
    assert_eq!(frame_len(&[1, 2, 3, 4]), 0x01020304);
    assert_eq!(frame_len(&[255, 255, 255, 255]), u32::MAX);
}

#[test]
fn decode_frame_gives_the_payload() {
    assert_eq!(decode_frame(&[0, 0, 0, 2, 9, 8]), Some(vec![9, 8]));
    assert_eq!(decode_frame(&[0, 0, 0, 2, 9, 8, 7]), Some(vec![9, 8]));
    assert_eq!(decode_frame(&[0, 0, 0, 0]), Some(vec![]));
}

#[test]
fn decode_frame_waits_for_a_whole_frame() {
    assert_eq!(decode_frame(&[]), None);
    assert_eq!(decode_frame(&[0, 0, 0]), None);
    assert_eq!(decode_frame(&[0, 0, 0, 2, 9]), None);
}

#[test]
fn frame_round_trip() {
    for payload in [vec![], vec![0u8], vec![1, 2, 3, 4, 5], vec![255; 300]] {
        let bytes = encode_frame(&payload).unwrap();
        assert_eq!(frame_len(&[bytes[0], bytes[1], bytes[2], bytes[3]]) as usize, bytes.len() - 4);
        assert_eq!(decode_frame(&bytes), Some(payload));
    }
}

#[test]
fn write_msg_frames_compact_json() {
    let doc = Json::Object(vec![("kind".to_string(), Json::text("state"))]);
    let mut expected = vec![0, 0, 0, 16];
    expected.extend_from_slice(b"{\"kind\":\"state\"}");
    assert_eq!(write_msg(&doc), Ok(expected));
}

#[test]
fn write_msg_counts_bytes_not_characters() {
    let doc = Json::text("\u{e9}");
    let bytes = write_msg(&doc).unwrap();
    assert_eq!(bytes, vec![0, 0, 0, 4, b'"', 0xc3, 0xa9, b'"']);
}

#[test]
fn message_round_trip() {
    let doc = Json::Object(vec![
        ("kind".to_string(), Json::text("seek")),
        ("seconds".to_string(), Json::Negative(-5)),
    ]);
    let bytes = write_msg(&doc).unwrap();
    let payload = decode_frame(&bytes).unwrap();
    assert_eq!(read_msg(payload), Ok(doc));
}

#[test]
fn read_msg_reads_a_document() {
    assert_eq!(
        read_msg(b"{\"status\":\"ok\"}".to_vec()),
        Ok(Json::Object(vec![("status".to_string(), Json::text("ok"))]))
    );
}

#[test]
fn read_msg_tells_a_server_error() {
    let r = read_msg(b"{\"status\":\"err\",\"reason\":\"no such song\"}".to_vec());
    assert_eq!(r, Err(MusingError::Server("\"no such song\"".to_string())));
    assert_eq!(r.unwrap_err().message(), "musing error: \"no such song\"");
}

#[test]
fn read_msg_tells_a_server_error_without_reason() {
    let r = read_msg(b"{\"status\":\"err\"}".to_vec());
    assert_eq!(r, Err(MusingError::Server(String::new())));
    assert_eq!(r.unwrap_err().message(), "musing error: ");
    let r = read_msg(b"{\"status\":\"err\",\"volume\":3}".to_vec());
    assert_eq!(r, Err(MusingError::Server(String::new())));
}

#[test]
fn read_msg_takes_a_reason_of_any_kind() {
    assert_eq!(
        read_msg(b"{\"status\":\"err\",\"reason\":{\"code\":7}}".to_vec()),
        Err(MusingError::Server("{\"code\":7}".to_string()))
    );
    assert_eq!(
        read_msg(b"{\"status\":\"err\",\"reason\":null}".to_vec()),
        Err(MusingError::Server("null".to_string()))
    );
}

#[test]
fn read_msg_takes_other_status_values_as_documents() {
    assert!(read_msg(b"{\"status\":\"error\",\"reason\":\"x\"}".to_vec()).is_ok());
    assert!(read_msg(b"{\"status\":[\"err\"]}".to_vec()).is_ok());
    assert!(read_msg(b"[\"status\",\"err\"]".to_vec()).is_ok());
    assert!(read_msg(b"\"err\"".to_vec()).is_ok());
}

#[test]
fn read_msg_refuses_bad_text_and_bad_json() {
    assert_eq!(read_msg(vec![0xff, 0xfe]), Err(MusingError::InvalidText));
    assert_eq!(read_msg(b"{\"status\"".to_vec()), Err(MusingError::InvalidJson));
}

#[test]
fn errors_say_whether_they_are_fatal() {
    assert!(MusingError::InvalidText.is_fatal());
    assert!(MusingError::InvalidJson.is_fatal());
    assert!(MusingError::TooLong.is_fatal());
    assert!(!MusingError::Server("x".to_string()).is_fatal());
    assert!(!MusingError::NoMetadata.is_fatal());
}

#[test]
fn errors_have_messages() {
    assert_eq!(MusingError::ExpectedObject.message(), "expected a JSON object");
    assert_eq!(MusingError::ExpectedId.message(), "expected key `id`");
    assert_eq!(MusingError::ExpectedPath.message(), "expected key `path`");
    assert_eq!(MusingError::NoMetadata.message(), "could not fetch metadata");
    assert_eq!(MusingError::NoSongs.message(), "could not select songs");
    assert_eq!(MusingError::UpdateFailed.message(), "could not update the database");
    assert_eq!(MusingError::UnknownPlaybackState.message(), "unknown playback state");
    assert_eq!(MusingError::UnknownPlaybackMode.message(), "unknown playback mode");
    assert_eq!(MusingError::TooLong.message(), "message too long");
    assert_eq!(MusingError::InvalidText.message(), "message is not valid UTF-8");
    assert_eq!(MusingError::InvalidJson.message(), "message is not valid JSON");
}
