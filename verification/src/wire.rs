use vstd::prelude::*;
use vstd::string::*;
use vstd::utf8::*;
use crate::error::{MusingError, MusingErrorView};
use crate::json::{json_parse, json_text, Json, JsonView};
use crate::text::{same_text, text_of_bytes};

verus! {

/// The four bytes of a length, most significant first.
pub open spec fn be_bytes(n: u32) -> Seq<u8> {
    seq![
        (n / 0x100_0000) as u8,
        ((n / 0x1_0000) % 0x100) as u8,
        ((n / 0x100) % 0x100) as u8,
        (n % 0x100) as u8,
    ]
}

/// The length that four bytes say, most significant first.
pub open spec fn be_value(bytes: Seq<u8>) -> int {
    bytes[0] * 0x100_0000 + bytes[1] * 0x1_0000 + bytes[2] * 0x100 + bytes[3]
}

/// A frame: the length of the payload in four bytes, then the payload.
pub open spec fn frame(payload: Seq<u8>) -> Seq<u8> {
    be_bytes(payload.len() as u32) + payload
}

/// The payload of the frame at the start of `bytes`, where a whole frame is
/// there.
pub open spec fn unframe(bytes: Seq<u8>) -> Option<Seq<u8>> {
    if bytes.len() >= 4 && bytes.len() >= 4 + be_value(bytes.take(4)) {
        Some(bytes.subrange(4, 4 + be_value(bytes.take(4))))
    } else {
        None
    }
}

/// The four bytes of a length say that length.
pub proof fn lemma_be_round_trip(n: u32)
    ensures
        be_bytes(n).len() == 4,
        be_value(be_bytes(n)) == n,
{
}

/// A frame starts with the length of what follows, and taking the frame
/// apart gives the payload back, whatever comes after the frame.
pub proof fn lemma_frame_round_trip(payload: Seq<u8>, rest: Seq<u8>)
    requires
        payload.len() <= u32::MAX,
    ensures
        frame(payload).len() == 4 + payload.len(),
        be_value(frame(payload).take(4)) == payload.len(),
        frame(payload).skip(4) == payload,
        unframe(frame(payload) + rest) == Some(payload),
{
    let n = payload.len() as u32;
    lemma_be_round_trip(n);
    assert(frame(payload).take(4) =~= be_bytes(n));
    assert(frame(payload).skip(4) =~= payload);
    let all = frame(payload) + rest;
    assert(all.take(4) =~= be_bytes(n));
    assert(all.subrange(4, 4 + payload.len() as int) =~= payload);
}

/// The length that the four bytes of a frame's header say.
pub fn frame_len(header: &[u8; 4]) -> (n: u32)
    ensures
        n == be_value(header@),
{
    let b0: u32 = header[0] as u32;
    let b1: u32 = header[1] as u32;
    let b2: u32 = header[2] as u32;
    let b3: u32 = header[3] as u32;
    b0 * 0x100_0000 + b1 * 0x1_0000 + b2 * 0x100 + b3
}

/// Puts a payload into a frame. A payload of more than `u32::MAX` bytes has
/// no frame.
pub fn encode_frame(payload: &[u8]) -> (r: Result<Vec<u8>, MusingError>)
    ensures
        match r {
            Ok(bytes) => payload@.len() <= u32::MAX && bytes@ == frame(payload@),
            Err(e) => payload@.len() > u32::MAX && e == MusingError::TooLong,
        },
{
    if payload.len() > 0xffff_ffff {
        return Err(MusingError::TooLong);
    }
    let n: u32 = payload.len() as u32;
    let mut bytes: Vec<u8> = Vec::new();
    bytes.push((n / 0x100_0000) as u8);
    bytes.push(((n / 0x1_0000) % 0x100) as u8);
    bytes.push(((n / 0x100) % 0x100) as u8);
    bytes.push((n % 0x100) as u8);
    assert(bytes@ =~= be_bytes(n));
    let mut i: usize = 0;
    while i < payload.len()
        invariant
            i <= payload@.len(),
            bytes@ == be_bytes(n) + payload@.take(i as int),
        decreases payload@.len() - i,
    {
        bytes.push(payload[i]);
        assert(payload@.take(i as int).push(payload@[i as int]) =~= payload@.take(i as int + 1));
        assert(bytes@ =~= be_bytes(n) + payload@.take(i as int + 1));
        i += 1;
    }
    assert(payload@.take(i as int) =~= payload@);
    Ok(bytes)
}

/// Takes the frame at the start of `bytes` apart: its payload, or `None`
/// where the bytes do not hold a whole frame yet.
pub fn decode_frame(bytes: &[u8]) -> (r: Option<Vec<u8>>)
    ensures
        match r {
            Some(payload) => unframe(bytes@) == Some(payload@),
            None => unframe(bytes@).is_none(),
        },
{
    if bytes.len() < 4 {
        return None;
    }
    let header: [u8; 4] = [bytes[0], bytes[1], bytes[2], bytes[3]];
    assert(header@ =~= bytes@.take(4));
    let n: u32 = frame_len(&header);
    if bytes.len() - 4 < n as usize {
        return None;
    }
    let mut payload: Vec<u8> = Vec::new();
    let mut i: usize = 0;
    while i < n as usize
        invariant
            i <= n,
            4 + n <= bytes@.len(),
            bytes@.len() <= usize::MAX,
            payload@ == bytes@.subrange(4, 4 + i),
        decreases n - i,
    {
        payload.push(bytes[4 + i]);
        assert(bytes@.subrange(4, 4 + i).push(bytes@[4 + i]) =~= bytes@.subrange(4, 4 + i + 1));
        i += 1;
    }
    Some(payload)
}

/// Whether a document is an error reply: an object whose `status` is the
/// string `err`, whatever else it holds.
pub open spec fn is_error_reply(value: JsonView) -> bool {
    value.field("status"@) == Some(JsonView::Text("err"@))
}

/// The reason that an error reply gives: its member `reason` as JSON text,
/// or the empty text where it has none.
pub open spec fn error_reason(value: JsonView) -> Seq<char> {
    match value.field("reason"@) {
        Some(reason) => json_text(reason),
        None => Seq::empty(),
    }
}

/// What a document that was read means: the server's error where it is an
/// error reply, and otherwise itself. An error reply is never handed on as a
/// document.
pub open spec fn reply_of(value: JsonView) -> Result<JsonView, MusingErrorView> {
    if is_error_reply(value) {
        Err(MusingErrorView::Server(error_reason(value)))
    } else {
        Ok(value)
    }
}

/// An error reply is an error, with or without a reason, and any other
/// document is handed on as it is.
pub proof fn law_error_reply_is_error(value: JsonView)
    ensures
        is_error_reply(value) ==> reply_of(value) is Err,
        is_error_reply(value) && value.field("reason"@) is None ==> reply_of(value) == Err::<
            JsonView,
            MusingErrorView,
        >(MusingErrorView::Server(Seq::empty())),
        !is_error_reply(value) ==> reply_of(value) == Ok::<JsonView, MusingErrorView>(value),
{
}

/// The payload of a message: its compact JSON text in UTF-8.
pub open spec fn payload_of(value: JsonView) -> Seq<u8> {
    encode_utf8(json_text(value))
}

/// What a payload means: the document in it, the server's error, or the
/// reason why no document can be read from it.
pub open spec fn message_of(payload: Seq<u8>) -> Result<JsonView, MusingErrorView> {
    if !valid_utf8(payload) {
        Err(MusingErrorView::InvalidText)
    } else {
        match json_parse(decode_utf8(payload)) {
            Some(value) => reply_of(value),
            None => Err(MusingErrorView::InvalidJson),
        }
    }
}

/// A message that is written and read again is the document that the JSON
/// reader finds in the text of the JSON writer: framing and UTF-8 lose
/// nothing, and the frame starts with the length of what follows. So a
/// document that the JSON reader reads back as the JSON writer printed it,
/// and that is no error reply, comes back as it was sent.
pub proof fn law_message_round_trip(value: JsonView)
    ensures
        payload_of(value).len() <= u32::MAX ==> {
            &&& be_value(frame(payload_of(value)).take(4)) == frame(payload_of(value)).len() - 4
            &&& unframe(frame(payload_of(value))) == Some(payload_of(value))
        },
        message_of(payload_of(value)) == match json_parse(json_text(value)) {
            Some(read) => reply_of(read),
            None => Err(MusingErrorView::InvalidJson),
        },
        json_parse(json_text(value)) == Some(value) && !is_error_reply(value) ==> message_of(
            payload_of(value),
        ) == Ok::<JsonView, MusingErrorView>(value),
{
    if payload_of(value).len() <= u32::MAX {
        lemma_frame_round_trip(payload_of(value), Seq::empty());
        assert(frame(payload_of(value)) + Seq::<u8>::empty() =~= frame(payload_of(value)));
    }
    encode_utf8_valid_utf8(json_text(value));
    encode_utf8_decode_utf8(json_text(value));
}

/// Whether a document is the string `expected`.
fn is_text(value: &Json, expected: &str) -> (r: bool)
    ensures
        r == (value@ == JsonView::Text(expected@)),
{
    match value.as_str() {
        Some(s) => same_text(s, expected),
        None => false,
    }
}

/// Reads the document of a payload.
pub fn read_msg(payload: Vec<u8>) -> (r: Result<Json, MusingError>)
    ensures
        match r {
            Ok(value) => message_of(payload@) == Ok::<JsonView, MusingErrorView>(value@),
            Err(e) => message_of(payload@) == Err::<JsonView, MusingErrorView>(e@),
        },
{
    let text = match text_of_bytes(payload) {
        Some(text) => text,
        None => {
            return Err(MusingError::InvalidText);
        },
    };
    let value = match Json::parse(text.as_str()) {
        Some(value) => value,
        None => {
            return Err(MusingError::InvalidJson);
        },
    };
    let failed = match value.get("status") {
        Some(status) => is_text(status, "err"),
        None => false,
    };
    if failed {
        let reason = match value.get("reason") {
            Some(reason) => reason.to_text(),
            None => String::new(),
        };
        return Err(MusingError::Server(reason));
    }
    Ok(value)
}

/// Writes a document as a frame.
pub fn write_msg(msg: &Json) -> (r: Result<Vec<u8>, MusingError>)
    ensures
        match r {
            Ok(bytes) => payload_of(msg@).len() <= u32::MAX && bytes@ == frame(payload_of(msg@)),
            Err(e) => payload_of(msg@).len() > u32::MAX && e == MusingError::TooLong,
        },
{
    let text = msg.to_text();
    encode_frame(text.as_str().as_bytes())
}

} // verus!
