use notice::json::{json_get, JsonValue};
use notice::mochi_voice::{asr_start_message, asr_stop_message, collect_step};
use notice::mochi_voice::{
    listening_status, new_voice_session, normalized_or_default, same_session_config, saved_status, stopped_status,
    transcript_from_json, voice_config, voice_step, Feed, MochiPacket, PacketDecoder, VoiceAction, VoiceEvent,
    DEFAULT_ASR_URL, DEFAULT_SERIAL_PORT,
};

fn obj(fields: Vec<(&str, JsonValue)>) -> JsonValue {
    JsonValue::Object(fields.into_iter().map(|(k, v)| (k.to_string(), v)).collect())
}

#[test]
fn reads_direct_asr_transcript() {
    let value = obj(vec![("text", JsonValue::Str("你好 Mochi".to_string())), ("is_final", JsonValue::Bool(true))]);
    let result = transcript_from_json(&value);
    assert_eq!(result, Some(("你好 Mochi".to_string(), true)));
}

#[test]
fn reads_nested_asr_transcript() {
    let value = obj(vec![(
        "result",
        obj(vec![("text", JsonValue::Str("hello".to_string())), ("is_final", JsonValue::Bool(false))]),
    )]);
    let result = transcript_from_json(&value);
    assert_eq!(result, Some(("hello".to_string(), false)));
}

#[test]
fn transcript_needs_text() {
    assert_eq!(transcript_from_json(&obj(vec![("isFinal", JsonValue::Bool(true))])), None);
    assert_eq!(
        transcript_from_json(&obj(vec![("text", JsonValue::Str("x".to_string())), ("isFinal", JsonValue::Bool(true))])),
        Some(("x".to_string(), true))
    );
    assert_eq!(transcript_from_json(&obj(vec![("text", JsonValue::Int(3))])), None);
}

#[test]
fn normalizes_blank_config_values() {
    assert_eq!(normalized_or_default(Some("  "), "fallback"), "fallback");
    assert_eq!(
        normalized_or_default(Some(" ws://example "), "fallback"),
        "ws://example"
    );
    assert_eq!(normalized_or_default(None, "fallback"), "fallback");
}

#[test]
fn voice_settings_from_storage() {
    let c = voice_config(Some("true"), Some("  ".to_string()), Some("ws://asr".to_string()), None);
    assert!(c.enabled);
    assert_eq!(c.serial_port, DEFAULT_SERIAL_PORT);
    assert_eq!(c.asr_url, "ws://asr");
    let d = voice_config(None, None, None, Some("s".to_string()));
    assert!(!d.enabled);
    assert_eq!(d.asr_url, DEFAULT_ASR_URL);
    assert!(!same_session_config(&c, &d));
    assert!(same_session_config(&c, &voice_config(Some("true"), None, Some("ws://asr".to_string()), None)));
    assert_eq!(saved_status(false), "Mochi voice input disabled");
    assert_eq!(listening_status("/dev/x"), "Listening for Mochi voice input on /dev/x @ 921600");
    assert_eq!(stopped_status("busy"), "Mochi voice input stopped: busy");
}

fn feed_all(d: &mut PacketDecoder, bytes: &[u8]) -> Vec<Feed> {
    bytes.iter().map(|b| d.feed(*b)).filter(|f| *f != Feed::Pending).collect()
}

#[test]
fn decodes_packets_after_noise() {
    let mut d = PacketDecoder::new();
    let mut bytes = b"xxMAS".to_vec();
    bytes.extend_from_slice(b"MASRS\x00\x00");
    bytes.extend_from_slice(b"MASRA\x03\x00abc");
    bytes.extend_from_slice(b"MASRE\x00\x00");
    assert_eq!(
        feed_all(&mut d, &bytes),
        vec![
            Feed::Packet(MochiPacket::Start),
            Feed::Packet(MochiPacket::Audio(b"abc".to_vec())),
            Feed::Packet(MochiPacket::End)
        ]
    );
}

#[test]
fn rejects_unknown_and_oversized_packets() {
    let mut d = PacketDecoder::new();
    assert_eq!(feed_all(&mut d, b"MASRX\x00\x00"), vec![Feed::Failed("Unknown Mochi voice packet type: 88".to_string())]);
    assert_eq!(feed_all(&mut d, b"MASRA\x01\x41"), vec![Feed::Failed("Mochi voice packet too large: 16641 bytes".to_string())]);
    assert_eq!(feed_all(&mut d, b"MASRS\x00\x00"), vec![Feed::Packet(MochiPacket::Start)]);
}

#[test]
fn timeout_restarts_magic_search_only() {
    let mut d = PacketDecoder::new();
    assert!(feed_all(&mut d, b"MA").is_empty());
    d.timeout();
    assert!(feed_all(&mut d, b"SR").is_empty());
    assert!(feed_all(&mut d, b"S\x00\x00").is_empty());
    let mut d = PacketDecoder::new();
    assert!(feed_all(&mut d, b"MASRA\x02\x00a").is_empty());
    d.timeout();
    assert_eq!(feed_all(&mut d, b"b"), vec![Feed::Packet(MochiPacket::Audio(b"ab".to_vec()))]);
}

#[test]
fn voice_session_records_sends_and_pastes() {
    let mut s = new_voice_session();
    let a = voice_step(&mut s, VoiceEvent::Start, 0);
    assert_eq!(a, vec![VoiceAction::SetStatus("Mochi recording started".to_string()), VoiceAction::Connect]);
    assert!(voice_step(&mut s, VoiceEvent::Connected, 10).is_empty());
    assert_eq!(voice_step(&mut s, VoiceEvent::Audio(vec![1, 2]), 11), vec![VoiceAction::SendAudio(vec![1, 2])]);
    assert!(voice_step(&mut s, VoiceEvent::AudioSent, 12).is_empty());
    assert_eq!(
        voice_step(&mut s, VoiceEvent::End, 13),
        vec![VoiceAction::SetStatus("Mochi recording ended; transcribing".to_string()), VoiceAction::Finish]
    );
    assert_eq!(voice_step(&mut s, VoiceEvent::Audio(vec![3]), 14), vec![]);
    assert_eq!(
        voice_step(&mut s, VoiceEvent::Transcribed("  hi  ".to_string()), 15),
        vec![VoiceAction::Paste("hi".to_string()), VoiceAction::SetStatus("Inserted transcript: hi".to_string())]
    );
    assert_eq!(
        voice_step(&mut s, VoiceEvent::Transcribed(" ".to_string()), 16),
        vec![VoiceAction::SetStatus("ASR returned no transcript".to_string())]
    );
}

#[test]
fn long_recording_is_transcribed() {
    let mut s = new_voice_session();
    voice_step(&mut s, VoiceEvent::Connected, 0);
    assert!(voice_step(&mut s, VoiceEvent::AudioSent, 11_999_999_999).is_empty());
    assert_eq!(
        voice_step(&mut s, VoiceEvent::AudioSent, 12_000_000_000),
        vec![VoiceAction::SetStatus("Mochi recording timed out; transcribing".to_string()), VoiceAction::Finish]
    );
    assert!(!s.recording);
}

#[test]
fn failures_and_setting_changes_are_reported() {
    let mut s = new_voice_session();
    assert_eq!(
        voice_step(&mut s, VoiceEvent::ConnectFailed("refused".to_string()), 0),
        vec![VoiceAction::SetStatus("ASR connection failed: refused".to_string())]
    );
    assert!(voice_step(&mut s, VoiceEvent::Tick(true), 1).is_empty());
    assert_eq!(
        voice_step(&mut s, VoiceEvent::Tick(false), 2),
        vec![VoiceAction::Stop, VoiceAction::SetStatus("Restarting Mochi voice input with updated settings".to_string())]
    );
}

#[test]
fn collecting_keeps_latest_non_blank_transcript() {
    assert_eq!(collect_step("old".to_string(), Some(("new".to_string(), false))), ("new".to_string(), false));
    assert_eq!(collect_step("old".to_string(), Some((" ".to_string(), true))), ("old".to_string(), true));
    assert_eq!(collect_step("old".to_string(), None), ("old".to_string(), false));
}

#[test]
fn speech_service_messages() {
    let start = asr_start_message();
    assert!(matches!(json_get(&start, "mode"), Some(JsonValue::Str(s)) if s == "online"));
    match json_get(&start, "chunk_size") {
        Some(JsonValue::Array(a)) => assert!(matches!(a.as_slice(), [JsonValue::Int(5), JsonValue::Int(10), JsonValue::Int(5)])),
        _ => panic!("no chunk sizes"),
    }
    assert!(matches!(json_get(&start, "chunk_interval"), Some(JsonValue::Int(10))));
    assert!(matches!(json_get(&start, "wav_name"), Some(JsonValue::Str(s)) if s == "mochi"));
    assert!(matches!(json_get(&start, "is_speaking"), Some(JsonValue::Bool(true))));
    assert!(matches!(json_get(&asr_stop_message(), "is_speaking"), Some(JsonValue::Bool(false))));
}
