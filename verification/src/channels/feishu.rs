//! The Feishu robot channel: what is sent, how it is signed, how delivery is retried,
//! and how the webhook address is shown.
use vstd::prelude::*;
use vstd::string::*;
use vstd::utf8::{decode_utf8, encode_utf8, is_char_boundary};
use crate::codec::{base64_standard, base64_standard_of, hmac_sha256, hmac_sha256_of};
use crate::domain::NoticeEvent;
use crate::json::{get, get_in, lemma_field_index_first, JsonValue};
use crate::rules::redaction::{redact, redact_text};
use crate::text::{chars_of, find_first, find_first_exec, opt_view, push_char, slice_chars, string_of};

verus! {

/// How a webhook address is shown: everything before the first `/hook/` followed by
/// `/hook/<redacted>`; short addresses (at most 12 bytes) as `<configured>`; other
/// addresses as their first 8 bytes and `...<redacted>`.
pub open spec fn masked_webhook(value: Seq<char>) -> Seq<char> {
    match find_first(value, "/hook/"@) {
        Some(i) => value.subrange(0, i) + "/hook/<redacted>"@,
        None => if encode_utf8(value).len() <= 12 {
            "<configured>"@
        } else {
            decode_utf8(encode_utf8(value).subrange(0, 8)) + "...<redacted>"@
        },
    }
}

/// Masks a webhook address for display (see `masked_webhook`). An address without
/// `/hook/` and longer than 12 bytes must have a character boundary after its eighth byte.
pub fn mask_webhook(value: &str) -> (r: String)
    requires
        find_first(value@, "/hook/"@) is None && encode_utf8(value@).len() > 12
            ==> is_char_boundary(encode_utf8(value@), 8),
    ensures
        r@ == masked_webhook(value@),
{
    let v = chars_of(value);
    let marker = chars_of("/hook/");
    match find_first_exec(&v, &marker) {
        Some(i) => {
            proof {
                crate::text::lemma_find_first_matches(value@, "/hook/"@);
            }
            let prefix = slice_chars(&v, 0, i);
            let mut out = string_of(&prefix);
            out.append("/hook/<redacted>");
            assert(out@ == masked_webhook(value@));
            out
        },
        None => {
            if value.as_bytes().len() <= 12 {
                assert(encode_utf8(value@).len() <= 12);
                String::from_str("<configured>")
            } else {
                let (head, _) = value.split_at(8);
                proof {
                    vstd::utf8::encode_utf8_decode_utf8(head@);
                    assert(head.spec_bytes() =~= encode_utf8(value@).subrange(0, 8));
                    assert(head@ == decode_utf8(encode_utf8(value@).subrange(0, 8)));
                }
                let mut out = String::from_str(head);
                out.append("...<redacted>");
                out
            }
        },
    }
}

/// The text of a notification before redaction: the title, a blank line, the project
/// (or `unknown`), a blank line, the content.
pub open spec fn message_text(title: Seq<char>, project: Option<Seq<char>>, content: Seq<char>) -> Seq<char> {
    title + "\n\n项目："@ + (match project {
        Some(p) => p,
        None => "unknown"@,
    }) + "\n\n"@ + content
}

/// The redacted text sent for an event.
pub fn feishu_message(event: &NoticeEvent) -> (r: String)
    ensures
        r@ == redact_text(message_text(event.title@, opt_view(event.project), event.content@)),
{
    let mut text = event.title.clone();
    text.append("\n\n项目：");
    match &event.project {
        Some(p) => text.append(p.as_str()),
        None => text.append("unknown"),
    }
    text.append("\n\n");
    text.append(event.content.as_str());
    assert(text@ =~= message_text(event.title@, opt_view(event.project), event.content@));
    redact(text.as_str())
}

/// The text signed: the timestamp, a line break, the secret.
pub open spec fn string_to_sign(timestamp: Seq<char>, secret: Seq<char>) -> Seq<char> {
    timestamp + seq!['\n'] + secret
}

/// The signature Feishu checks: the HMAC-SHA256 tag of empty data, keyed with the UTF-8
/// bytes of `string_to_sign`, in standard Base64.
pub open spec fn feishu_signature(timestamp: Seq<char>, secret: Seq<char>) -> Seq<char> {
    base64_standard_of(hmac_sha256_of(encode_utf8(string_to_sign(timestamp, secret)), seq![]))
}

/// Signs a request (see `feishu_signature`).
pub fn feishu_sign(timestamp: &str, secret: &str) -> (r: String)
    ensures
        r@ == feishu_signature(timestamp@, secret@),
{
    let mut s = String::from_str(timestamp);
    push_char(&mut s, '\n');
    s.append(secret);
    assert(s@ =~= string_to_sign(timestamp@, secret@));
    let key = s.as_str().as_bytes();
    let empty: Vec<u8> = Vec::new();
    let tag = hmac_sha256(key, empty.as_slice());
    let bytes = tag.unwrap();
    base64_standard(bytes.as_slice())
}


pub open spec fn json_text(v: Option<JsonValue>, text: Seq<char>) -> bool {
    v matches Some(JsonValue::Str(s)) && s@ == text
}

pub open spec fn object_size(v: JsonValue) -> int {
    match v {
        JsonValue::Object(f) => f@.len() as int,
        _ => -1,
    }
}

/// The body posted to the robot: `msg_type` `text`, `content.text` the message, and, for a
/// signed request, `timestamp` and `sign`; no other members.
pub open spec fn payload_holds(v: JsonValue, text: Seq<char>, signed: Option<(Seq<char>, Seq<char>)>) -> bool {
    &&& json_text(get(v, "msg_type"@), "text"@)
    &&& json_text(get_in(v, "content"@, "text"@), text)
    &&& (get(v, "content"@) matches Some(c) && object_size(c) == 1)
    &&& match signed {
        Some((ts, sign)) => json_text(get(v, "timestamp"@), ts) && json_text(get(v, "sign"@), sign) && object_size(v) == 4,
        None => object_size(v) == 2,
    }
}

/// Requests are signed only with a stored, non-empty signing secret.
pub fn signing_secret(stored: Option<String>) -> (r: Option<String>)
    ensures
        match stored {
            Some(s) => if s@.len() > 0 {
                r matches Some(t) && t@ == s@
            } else {
                r is None
            },
            None => r is None,
        },
{
    match stored {
        Some(s) => if s.as_str().is_empty() {
            None
        } else {
            Some(s)
        },
        None => None,
    }
}

/// The timestamp and signature of a signed request, as text.
pub open spec fn signed_view(signed: Option<(String, String)>) -> Option<(Seq<char>, Seq<char>)> {
    match signed {
        Some((ts, sign)) => Some((ts@, sign@)),
        None => None,
    }
}

/// Builds the body posted to the robot (see `payload_holds`).
pub fn feishu_payload(text: String, signed: Option<(String, String)>) -> (r: JsonValue)
    ensures
        payload_holds(r, text@, signed_view(signed)),
{
    let mut content: Vec<(String, JsonValue)> = Vec::new();
    content.push((String::from_str("text"), JsonValue::Str(text)));
    let content_value = JsonValue::Object(content);
    let mut fields: Vec<(String, JsonValue)> = Vec::new();
    fields.push((String::from_str("msg_type"), JsonValue::Str(String::from_str("text"))));
    fields.push((String::from_str("content"), content_value));
    proof {
        reveal_strlit("msg_type");
        reveal_strlit("content");
        reveal_strlit("text");
        reveal_strlit("timestamp");
        reveal_strlit("sign");
    }
    proof {
        let c = fields@[1].1;
        assert(c == JsonValue::Object(content));
        lemma_field_index_first(content@, "text"@, 0);
        assert(fields@[0].0@.len() == 8 && "content"@.len() == 7);
        lemma_field_index_first(fields@, "msg_type"@, 0);
        lemma_field_index_first(fields@, "content"@, 1);
    }
    match signed {
        Some((ts, sign)) => {
            fields.push((String::from_str("timestamp"), JsonValue::Str(ts)));
            fields.push((String::from_str("sign"), JsonValue::Str(sign)));
            proof {
                assert(fields@[0].0@.len() == 8 && fields@[1].0@.len() == 7);
                assert("timestamp"@.len() == 9 && "sign"@.len() == 4);
                assert(fields@[2].0@.len() == 9);
                lemma_field_index_first(fields@, "msg_type"@, 0);
                lemma_field_index_first(fields@, "content"@, 1);
                lemma_field_index_first(fields@, "timestamp"@, 2);
                lemma_field_index_first(fields@, "sign"@, 3);
            }
        },
        None => {},
    }
    JsonValue::Object(fields)
}

/// Where a delivery stands: the attempt about to be made (1 to 3) and the error of the
/// last failed attempt.
#[derive(Debug)]
pub struct DeliveryState {
    pub attempt: i64,
    pub last_error: Option<String>,
}

/// How an attempt ended.
#[derive(Debug)]
pub enum DeliveryOutcome {
    /// The robot answered with a success status.
    Delivered,
    /// The robot answered with another status, or the request failed; the message says how.
    Failed(String),
}

/// What the sender does next.
#[derive(Debug, PartialEq, Eq)]
pub enum DeliveryStep {
    /// Record the delivery as sent after this many attempts, and report `sent`.
    RecordSent(i64),
    /// Wait this many milliseconds, then try again.
    Retry(u64),
    /// Wait this many milliseconds, then record the delivery as failed after three
    /// attempts with the last error, and fail with it.
    GiveUp(u64),
}

/// How many attempts a delivery gets.
pub const MAX_ATTEMPTS: i64 = 3;

/// A delivery about to make its first attempt.
pub fn new_delivery() -> (r: DeliveryState)
    ensures
        r.attempt == 1,
        r.last_error is None,
{
    DeliveryState { attempt: 1, last_error: None }
}

/// One attempt's outcome: a success is recorded with its attempt number; a failure is
/// remembered, and followed by a pause of 200 ms times the attempt number and either the
/// next attempt or, after the third, giving up.
pub fn delivery_step(state: &mut DeliveryState, outcome: DeliveryOutcome) -> (r: DeliveryStep)
    requires
        1 <= old(state).attempt <= MAX_ATTEMPTS,
    ensures
        match outcome {
            DeliveryOutcome::Delivered => r == DeliveryStep::RecordSent(old(state).attempt)
                && final(state).attempt == old(state).attempt && final(state).last_error == old(state).last_error,
            DeliveryOutcome::Failed(e) => final(state).last_error == Some(e) && if old(state).attempt < MAX_ATTEMPTS {
                r == DeliveryStep::Retry((200 * old(state).attempt) as u64) && final(state).attempt == old(state).attempt + 1
            } else {
                r == DeliveryStep::GiveUp((200 * old(state).attempt) as u64) && final(state).attempt == old(state).attempt
            },
        },
        1 <= final(state).attempt <= MAX_ATTEMPTS,
{
    match outcome {
        DeliveryOutcome::Delivered => DeliveryStep::RecordSent(state.attempt),
        DeliveryOutcome::Failed(e) => {
            state.last_error = Some(e);
            let delay = (200 * state.attempt) as u64;
            if state.attempt < MAX_ATTEMPTS {
                state.attempt = state.attempt + 1;
                DeliveryStep::Retry(delay)
            } else {
                DeliveryStep::GiveUp(delay)
            }
        },
    }
}

/// The error a failed delivery reports: the last attempt's error, or a generic message.
pub fn delivery_error(state: &DeliveryState) -> (r: String)
    ensures
        match state.last_error {
            Some(e) => r@ == e@,
            None => r@ == "Feishu delivery failed"@,
        },
{
    match &state.last_error {
        Some(e) => e.clone(),
        None => String::from_str("Feishu delivery failed"),
    }
}

/// An event with a dedupe key already delivered in the last five minutes is not sent again.
pub fn is_duplicate(dedupe_key: Option<&str>, recently_sent: bool) -> (r: bool)
    ensures
        r == (dedupe_key is Some && recently_sent),
{
    dedupe_key.is_some() && recently_sent
}

/// How long a sent delivery keeps its dedupe key from being sent again, in nanoseconds.
pub const DEDUPE_WINDOW_NANOS: i64 = 300_000_000_000;

/// The earliest delivery time that still counts as recent at `now`.
pub fn recent_delivery_since(now: i64) -> (r: i64)
    requires
        now >= i64::MIN + DEDUPE_WINDOW_NANOS,
    ensures
        r == now - DEDUPE_WINDOW_NANOS,
{
    now - DEDUPE_WINDOW_NANOS
}

} // verus!
