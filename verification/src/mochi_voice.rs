//! The Mochi voice input: its settings, the framing of its serial packets, the transcripts
//! the speech service returns, and the decisions of a recording session.
use vstd::prelude::*;
use vstd::string::*;
use crate::domain::MochiVoiceConfig;
use crate::json::{as_flag, as_text, get, get_in, json_get, lemma_field_index_first, JsonValue};
use crate::number::{decimal, push_decimal};
use crate::text::{chars_of, string_of, trim, trim_chars};

verus! {

pub const DEFAULT_SERIAL_PORT: &'static str = "/dev/cu.usbmodem1301";

pub const DEFAULT_ASR_URL: &'static str = "ws://110.42.235.130:10095";

/// Baud rate of the serial link.
pub const SERIAL_BAUD: u32 = 921_600;

/// Largest payload a packet may announce.
pub const MAX_PAYLOAD_LEN: usize = 16384;

/// Longest recording before it is transcribed without an end packet, in nanoseconds.
pub const MAX_RECORDING_NANOS: i64 = 12_000_000_000;

pub open spec fn opt_str(value: Option<&str>) -> Option<Seq<char>> {
    match value {
        Some(v) => Some(v@),
        None => None,
    }
}

/// A setting value trimmed, or the default when absent or blank.
pub open spec fn normalized_or_default_text(value: Option<Seq<char>>, default_value: Seq<char>) -> Seq<char> {
    match value {
        Some(v) if trim(v).len() > 0 => trim(v),
        _ => default_value,
    }
}

pub fn normalized_or_default(value: Option<&str>, default_value: &str) -> (r: String)
    ensures
        r@ == normalized_or_default_text(opt_str(value), default_value@),
{
    match value {
        Some(v) => {
            let c = chars_of(v);
            let t = trim_chars(&c);
            if t.len() > 0 {
                string_of(&t)
            } else {
                String::from_str(default_value)
            }
        },
        None => String::from_str(default_value),
    }
}

/// A stored setting when it holds more than white space (kept as stored), else the default.
pub open spec fn setting_or_default(value: Option<Seq<char>>, default_value: Seq<char>) -> Seq<char> {
    match value {
        Some(v) if trim(v).len() > 0 => v,
        _ => default_value,
    }
}

fn setting_or_default_exec(value: Option<String>, default_value: &str) -> (r: String)
    ensures
        r@ == setting_or_default(crate::text::opt_view(value), default_value@),
{
    match value {
        Some(v) => {
            let c = chars_of(v.as_str());
            let t = trim_chars(&c);
            if t.len() > 0 {
                v
            } else {
                String::from_str(default_value)
            }
        },
        None => String::from_str(default_value),
    }
}

/// The voice settings read from their stored values: enabled only when stored as `"true"`,
/// blank ports and addresses replaced by the defaults.
pub fn voice_config(
    enabled: Option<&str>,
    serial_port: Option<String>,
    asr_url: Option<String>,
    last_status: Option<String>,
) -> (r: MochiVoiceConfig)
    ensures
        r.enabled == crate::storage::bool_setting_value(opt_str(enabled), false),
        r.serial_port@ == setting_or_default(crate::text::opt_view(serial_port), DEFAULT_SERIAL_PORT@),
        r.asr_url@ == setting_or_default(crate::text::opt_view(asr_url), DEFAULT_ASR_URL@),
        r.last_status == last_status,
{
    MochiVoiceConfig {
        enabled: crate::storage::bool_setting(enabled, false),
        serial_port: setting_or_default_exec(serial_port, DEFAULT_SERIAL_PORT),
        asr_url: setting_or_default_exec(asr_url, DEFAULT_ASR_URL),
        last_status,
    }
}

/// Two configurations need the same serial session when they agree on being enabled, the
/// port and the speech service address.
pub fn same_session_config(left: &MochiVoiceConfig, right: &MochiVoiceConfig) -> (r: bool)
    ensures
        r == (left.enabled == right.enabled && left.serial_port@ == right.serial_port@ && left.asr_url@ == right.asr_url@),
{
    left.enabled == right.enabled && left.serial_port == right.serial_port && left.asr_url == right.asr_url
}

/// The status stored when the settings are saved.
pub fn saved_status(enabled: bool) -> (r: &'static str)
    ensures
        enabled ==> r@ == "Mochi voice input enabled; close Arduino Serial Monitor if the serial port is busy"@,
        !enabled ==> r@ == "Mochi voice input disabled"@,
{
    if enabled {
        "Mochi voice input enabled; close Arduino Serial Monitor if the serial port is busy"
    } else {
        "Mochi voice input disabled"
    }
}

/// The transcript of a message of the speech service: `text`, else `result.text`, the
/// first present one, as text; final when `is_final`, else `isFinal`, else
/// `result.is_final`, the first present one, is `true`.
pub open spec fn transcript_of(v: JsonValue) -> Option<(Seq<char>, bool)> {
    let text = match get(v, "text"@) {
        Some(t) => Some(t),
        None => get_in(v, "result"@, "text"@),
    };
    let fin = match get(v, "is_final"@) {
        Some(f) => Some(f),
        None => match get(v, "isFinal"@) {
            Some(f) => Some(f),
            None => get_in(v, "result"@, "is_final"@),
        },
    };
    match as_text(text) {
        Some(t) => Some((t, match as_flag(fin) {
            Some(b) => b,
            None => false,
        })),
        None => None,
    }
}

pub open spec fn opt_ref(v: Option<&JsonValue>) -> Option<JsonValue> {
    match v {
        Some(x) => Some(*x),
        None => None,
    }
}

fn get_in_ref<'a>(v: &'a JsonValue, outer: &str, inner: &str) -> (r: Option<&'a JsonValue>)
    ensures
        opt_ref(r) == get_in(*v, outer@, inner@),
{
    match json_get(v, outer) {
        Some(o) => json_get(o, inner),
        None => None,
    }
}

/// Reads a transcript from a message of the speech service (see `transcript_of`).
pub fn transcript_from_json(value: &JsonValue) -> (r: Option<(String, bool)>)
    ensures
        match r {
            Some((t, f)) => transcript_of(*value) == Some((t@, f)),
            None => transcript_of(*value) is None,
        },
{
    let text = match json_get(value, "text") {
        Some(t) => Some(t),
        None => get_in_ref(value, "result", "text"),
    };
    let fin = match json_get(value, "is_final") {
        Some(f) => Some(f),
        None => match json_get(value, "isFinal") {
            Some(f) => Some(f),
            None => get_in_ref(value, "result", "is_final"),
        },
    };
    let is_final = match fin {
        Some(JsonValue::Bool(b)) => *b,
        _ => false,
    };
    match text {
        Some(JsonValue::Str(s)) => Some((s.clone(), is_final)),
        _ => None,
    }
}


/// While collecting replies of the speech service: a non-blank transcript replaces the
/// latest one, and a final one ends the collection.
pub fn collect_step(latest: String, reading: Option<(String, bool)>) -> (r: (String, bool))
    ensures
        match reading {
            Some((t, f)) => r.0@ == (if trim(t@).len() > 0 { t@ } else { latest@ }) && r.1 == f,
            None => r.0@ == latest@ && !r.1,
        },
{
    match reading {
        Some((t, f)) => {
            let c = chars_of(t.as_str());
            let tc = trim_chars(&c);
            if tc.len() > 0 {
                (t, f)
            } else {
                (latest, f)
            }
        },
        None => (latest, false),
    }
}

pub open spec fn json_is_text(v: Option<JsonValue>, text: Seq<char>) -> bool {
    v matches Some(JsonValue::Str(s)) && s@ == text
}

pub open spec fn object_len(v: JsonValue) -> int {
    match v {
        JsonValue::Object(f) => f@.len() as int,
        _ => -1,
    }
}

/// The first message to the speech service: online mode, chunks of 5, 10 and 5, an
/// interval of 10, the recording name `mochi`, speaking.
pub open spec fn asr_start_holds(v: JsonValue) -> bool {
    &&& json_is_text(get(v, "mode"@), "online"@)
    &&& (get(v, "chunk_size"@) matches Some(JsonValue::Array(a)) && a@.len() == 3
        && a@[0] == JsonValue::Int(5) && a@[1] == JsonValue::Int(10) && a@[2] == JsonValue::Int(5))
    &&& get(v, "chunk_interval"@) == Some(JsonValue::Int(10))
    &&& json_is_text(get(v, "wav_name"@), "mochi"@)
    &&& get(v, "is_speaking"@) == Some(JsonValue::Bool(true))
    &&& object_len(v) == 5
}

/// Builds the first message to the speech service (see `asr_start_holds`).
pub fn asr_start_message() -> (r: JsonValue)
    ensures
        asr_start_holds(r),
{
    proof {
        reveal_strlit("mode");
        reveal_strlit("chunk_size");
        reveal_strlit("chunk_interval");
        reveal_strlit("wav_name");
        reveal_strlit("is_speaking");
    }
    let mut sizes: Vec<JsonValue> = Vec::new();
    sizes.push(JsonValue::Int(5));
    sizes.push(JsonValue::Int(10));
    sizes.push(JsonValue::Int(5));
    let mut f: Vec<(String, JsonValue)> = Vec::new();
    f.push((String::from_str("mode"), JsonValue::Str(String::from_str("online"))));
    f.push((String::from_str("chunk_size"), JsonValue::Array(sizes)));
    f.push((String::from_str("chunk_interval"), JsonValue::Int(10)));
    f.push((String::from_str("wav_name"), JsonValue::Str(String::from_str("mochi"))));
    f.push((String::from_str("is_speaking"), JsonValue::Bool(true)));
    proof {
        assert(f@[0].0@.len() == 4 && f@[1].0@.len() == 10 && f@[2].0@.len() == 14);
        assert(f@[3].0@.len() == 8 && f@[4].0@.len() == 11);
        lemma_field_index_first(f@, "mode"@, 0);
        lemma_field_index_first(f@, "chunk_size"@, 1);
        lemma_field_index_first(f@, "chunk_interval"@, 2);
        lemma_field_index_first(f@, "wav_name"@, 3);
        lemma_field_index_first(f@, "is_speaking"@, 4);
    }
    JsonValue::Object(f)
}

/// Builds the message that ends speaking: only `is_speaking`, false.
pub fn asr_stop_message() -> (r: JsonValue)
    ensures
        get(r, "is_speaking"@) == Some(JsonValue::Bool(false)),
        object_len(r) == 1,
{
    let mut f: Vec<(String, JsonValue)> = Vec::new();
    f.push((String::from_str("is_speaking"), JsonValue::Bool(false)));
    proof {
        lemma_field_index_first(f@, "is_speaking"@, 0);
    }
    JsonValue::Object(f)
}

/// A packet of the voice device.
#[derive(Debug, PartialEq, Eq)]
pub enum MochiPacket {
    Start,
    Audio(Vec<u8>),
    End,
}

/// Where the decoder is in the byte stream: looking for the magic `MASR` (the bytes seen
/// so far, at most four), reading the three header bytes, or reading a payload of known
/// type and length.
pub enum PacketDecoder {
    Magic(Vec<u8>),
    Header(Vec<u8>),
    Payload(u8, usize, Vec<u8>),
}

/// What one byte of input produced.
#[derive(Debug, PartialEq, Eq)]
pub enum Feed {
    Pending,
    Packet(MochiPacket),
    Failed(String),
}

pub open spec fn magic_bytes() -> Seq<u8> {
    seq![77u8, 65u8, 83u8, 82u8]
}

/// The last (at most) four bytes after `b` arrives.
pub open spec fn next_window(w: Seq<u8>, b: u8) -> Seq<u8> {
    if w.len() < 4 {
        w.push(b)
    } else {
        w.drop_first().push(b)
    }
}

/// The payload length a header announces (little-endian).
pub open spec fn header_len(h: Seq<u8>) -> int {
    h[1] as int + 256 * (h[2] as int)
}

/// The result of a complete packet of type `kind`: `S` starts, `A` carries audio, `E`
/// ends; other types are an error naming the type's number.
pub open spec fn packet_ok(f: Feed, kind: u8, payload: Seq<u8>) -> bool {
    if kind == 83u8 {
        f == Feed::Packet(MochiPacket::Start)
    } else if kind == 65u8 {
        f matches Feed::Packet(MochiPacket::Audio(p)) && p@ == payload
    } else if kind == 69u8 {
        f == Feed::Packet(MochiPacket::End)
    } else {
        f matches Feed::Failed(m) && m@ == "Unknown Mochi voice packet type: "@ + decimal(kind as nat)
    }
}

pub open spec fn is_fresh(d: PacketDecoder) -> bool {
    d matches PacketDecoder::Magic(w) && w@.len() == 0
}

/// The decoder's invariant: the magic window holds at most four bytes, a partial header at
/// most two, a partial payload fewer bytes than announced, and announced lengths are
/// between 1 and `MAX_PAYLOAD_LEN`.
pub open spec fn decoder_wf(d: PacketDecoder) -> bool {
    match d {
        PacketDecoder::Magic(w) => w@.len() <= 4,
        PacketDecoder::Header(h) => h@.len() < 3,
        PacketDecoder::Payload(_, n, p) => 0 < n <= MAX_PAYLOAD_LEN && p@.len() < n,
    }
}

/// The decoder's state as plain values.
pub enum DecoderView {
    Magic(Seq<u8>),
    Header(Seq<u8>),
    Payload(u8, nat, Seq<u8>),
}

pub open spec fn view_of(d: PacketDecoder) -> DecoderView {
    match d {
        PacketDecoder::Magic(w) => DecoderView::Magic(w@),
        PacketDecoder::Header(h) => DecoderView::Header(h@),
        PacketDecoder::Payload(k, n, p) => DecoderView::Payload(k, n as nat, p@),
    }
}

/// What one byte produces: nothing yet, a complete packet of a type with its payload, or
/// an announced payload above the limit.
pub enum StepOutcome {
    Pending,
    Complete(u8, Seq<u8>),
    TooLarge(nat),
}

/// One byte of input: the state after it and what it produced (see `PacketDecoder::feed`).
pub open spec fn decode_step(d: DecoderView, b: u8) -> (DecoderView, StepOutcome) {
    match d {
        DecoderView::Magic(w) => {
            let w2 = next_window(w, b);
            if w2 == magic_bytes() {
                (DecoderView::Header(seq![]), StepOutcome::Pending)
            } else {
                (DecoderView::Magic(w2), StepOutcome::Pending)
            }
        },
        DecoderView::Header(h) => {
            let h2 = h.push(b);
            if h2.len() < 3 {
                (DecoderView::Header(h2), StepOutcome::Pending)
            } else if header_len(h2) > MAX_PAYLOAD_LEN {
                (DecoderView::Magic(seq![]), StepOutcome::TooLarge(header_len(h2) as nat))
            } else if header_len(h2) == 0 {
                (DecoderView::Magic(seq![]), StepOutcome::Complete(h2[0], seq![]))
            } else {
                (DecoderView::Payload(h2[0], header_len(h2) as nat, seq![]), StepOutcome::Pending)
            }
        },
        DecoderView::Payload(k, n, p) => {
            let p2 = p.push(b);
            if p2.len() == n {
                (DecoderView::Magic(seq![]), StepOutcome::Complete(k, p2))
            } else {
                (DecoderView::Payload(k, n, p2), StepOutcome::Pending)
            }
        },
    }
}

/// The feed result that an outcome stands for.
pub open spec fn feed_is(f: Feed, o: StepOutcome) -> bool {
    match o {
        StepOutcome::Pending => f == Feed::Pending,
        StepOutcome::Complete(k, p) => packet_ok(f, k, p),
        StepOutcome::TooLarge(n) => f matches Feed::Failed(m) && m@ == "Mochi voice packet too large: "@ + decimal(n) + " bytes"@,
    }
}

/// Bytes fed one after another: the final state and the outcome of each byte.
pub open spec fn decode_run(d: DecoderView, bytes: Seq<u8>) -> (DecoderView, Seq<StepOutcome>)
    decreases bytes.len(),
{
    if bytes.len() == 0 {
        (d, seq![])
    } else {
        let (d1, o) = decode_step(d, bytes[0]);
        let (d2, os) = decode_run(d1, bytes.drop_first());
        (d2, seq![o] + os)
    }
}

/// The bytes the device sends for a packet: the magic, the type, the payload length in two
/// little-endian bytes, the payload.
pub open spec fn frame(kind: u8, payload: Seq<u8>) -> Seq<u8> {
    magic_bytes() + seq![kind, (payload.len() % 256) as u8, (payload.len() / 256) as u8] + payload
}

proof fn lemma_run_concat(d: DecoderView, a: Seq<u8>, b: Seq<u8>)
    ensures
        decode_run(d, a + b) == (
            decode_run(decode_run(d, a).0, b).0,
            decode_run(d, a).1 + decode_run(decode_run(d, a).0, b).1,
        ),
    decreases a.len(),
{
    if a.len() == 0 {
        assert(a + b =~= b);
        assert(decode_run(d, a).1 + decode_run(d, b).1 =~= decode_run(d, b).1);
    } else {
        let (d1, o) = decode_step(d, a[0]);
        assert((a + b)[0] == a[0]);
        assert((a + b).drop_first() =~= a.drop_first() + b);
        lemma_run_concat(d1, a.drop_first(), b);
        let r1 = decode_run(d1, a.drop_first());
        assert(seq![o] + (r1.1 + decode_run(r1.0, b).1) =~= (seq![o] + r1.1) + decode_run(r1.0, b).1);
    }
}

proof fn lemma_run_payload(kind: u8, payload: Seq<u8>, done: int)
    requires
        0 <= done < payload.len(),
    ensures
        decode_run(DecoderView::Payload(kind, payload.len(), payload.subrange(0, done)), payload.subrange(done, payload.len() as int)).0
            == DecoderView::Magic(seq![]),
        decode_run(DecoderView::Payload(kind, payload.len(), payload.subrange(0, done)), payload.subrange(done, payload.len() as int)).1
            == Seq::new((payload.len() - done - 1) as nat, |i: int| StepOutcome::Pending).push(StepOutcome::Complete(kind, payload)),
    decreases payload.len() - done,
{
    let d = DecoderView::Payload(kind, payload.len(), payload.subrange(0, done));
    let rest = payload.subrange(done, payload.len() as int);
    let p2 = payload.subrange(0, done).push(payload[done]);
    assert(p2 =~= payload.subrange(0, done + 1));
    assert(rest[0] == payload[done]);
    if done + 1 == payload.len() {
        assert(p2 =~= payload);
        assert(rest.drop_first() =~= Seq::<u8>::empty());
        assert(decode_run(DecoderView::Magic(seq![]), Seq::<u8>::empty()).1 == Seq::<StepOutcome>::empty());
        assert(Seq::new(0, |i: int| StepOutcome::Pending).push(StepOutcome::Complete(kind, payload))
            =~= seq![StepOutcome::Complete(kind, payload)] + Seq::<StepOutcome>::empty());
    } else {
        assert(rest.drop_first() =~= payload.subrange(done + 1, payload.len() as int));
        lemma_run_payload(kind, payload, done + 1);
        let tail = Seq::new((payload.len() - done - 2) as nat, |i: int| StepOutcome::Pending).push(StepOutcome::Complete(kind, payload));
        assert(seq![StepOutcome::Pending] + tail
            =~= Seq::new((payload.len() - done - 1) as nat, |i: int| StepOutcome::Pending).push(StepOutcome::Complete(kind, payload)));
    }
}

/// A fresh decoder fed the frame of a packet produces nothing until the last byte, then
/// exactly that packet, and is fresh again: what the device frames is what is read.
pub proof fn law_frame_decodes(kind: u8, payload: Seq<u8>)
    requires
        payload.len() <= MAX_PAYLOAD_LEN,
    ensures
        decode_run(DecoderView::Magic(seq![]), frame(kind, payload)).0 == DecoderView::Magic(seq![]),
        decode_run(DecoderView::Magic(seq![]), frame(kind, payload)).1
            == Seq::new((frame(kind, payload).len() - 1) as nat, |i: int| StepOutcome::Pending).push(
            StepOutcome::Complete(kind, payload),
        ),
{
    let n = payload.len();
    let lo = (n % 256) as u8;
    let hi = (n / 256) as u8;
    let m = magic_bytes();
    let header = seq![kind, lo, hi];
    let fresh = DecoderView::Magic(seq![]);
    let p = StepOutcome::Pending;
    assert(frame(kind, payload) =~= m + (header + payload));
    lemma_run_concat(fresh, m, header + payload);
    lemma_run_concat(DecoderView::Header(seq![]), header, payload);
    assert(decode_run(fresh, m) == (DecoderView::Header(seq![]), seq![p, p, p, p])) by {
        reveal_with_fuel(decode_run, 5);
        assert(next_window(seq![], 77u8) =~= seq![77u8]);
        assert(next_window(seq![77u8], 65u8) =~= seq![77u8, 65u8]);
        assert(next_window(seq![77u8, 65u8], 83u8) =~= seq![77u8, 65u8, 83u8]);
        assert(next_window(seq![77u8, 65u8, 83u8], 82u8) =~= m);
        assert(seq![77u8] != m);
        assert(seq![77u8, 65u8] != m);
        assert(seq![77u8, 65u8, 83u8] != m);
        assert(m.drop_first() =~= seq![65u8, 83u8, 82u8]);
        assert(m.drop_first().drop_first() =~= seq![83u8, 82u8]);
        assert(m.drop_first().drop_first().drop_first() =~= seq![82u8]);
        assert(m.drop_first().drop_first().drop_first().drop_first() =~= Seq::<u8>::empty());
    }
    let h3 = seq![kind, lo, hi];
    assert(header_len(h3) == n) by {
        assert(lo as int == n % 256);
        assert(hi as int == n / 256);
    }
    assert(seq![kind].push(lo).push(hi) =~= h3);
    assert(header.drop_first() =~= seq![lo, hi]);
    assert(header.drop_first().drop_first() =~= seq![hi]);
    assert(header.drop_first().drop_first().drop_first() =~= Seq::<u8>::empty());
    assert(Seq::<u8>::empty().push(kind) =~= seq![kind]);
    assert(seq![kind].push(lo) =~= seq![kind, lo]);
    if n == 0 {
        assert(decode_run(DecoderView::Header(seq![]), header) == (fresh, seq![p, p, StepOutcome::Complete(kind, seq![])])) by {
            reveal_with_fuel(decode_run, 4);
        }
        assert(payload =~= Seq::<u8>::empty());
        assert(decode_run(fresh, payload) == (fresh, Seq::<StepOutcome>::empty()));
        assert(seq![p, p, p, p] + (seq![p, p, StepOutcome::Complete(kind, seq![])] + Seq::<StepOutcome>::empty())
            =~= Seq::new(6, |i: int| StepOutcome::Pending).push(StepOutcome::Complete(kind, payload)));
    } else {
        let pd = DecoderView::Payload(kind, n, seq![]);
        assert(decode_run(DecoderView::Header(seq![]), header) == (pd, seq![p, p, p])) by {
            reveal_with_fuel(decode_run, 4);
        }
        lemma_run_payload(kind, payload, 0);
        assert(payload.subrange(0, 0) =~= Seq::<u8>::empty());
        assert(payload.subrange(0, n as int) =~= payload);
        assert(seq![p, p, p, p] + (seq![p, p, p] + Seq::new((n - 1) as nat, |i: int| StepOutcome::Pending).push(StepOutcome::Complete(kind, payload)))
            =~= Seq::new((n + 6) as nat, |i: int| StepOutcome::Pending).push(StepOutcome::Complete(kind, payload)));
    }
}

fn emit(kind: u8, payload: Vec<u8>) -> (r: Feed)
    ensures
        packet_ok(r, kind, payload@),
{
    if kind == 83u8 {
        Feed::Packet(MochiPacket::Start)
    } else if kind == 65u8 {
        Feed::Packet(MochiPacket::Audio(payload))
    } else if kind == 69u8 {
        Feed::Packet(MochiPacket::End)
    } else {
        let mut m = String::from_str("Unknown Mochi voice packet type: ");
        push_decimal(&mut m, kind as u64);
        Feed::Failed(m)
    }
}

impl PacketDecoder {
    /// A decoder looking for the first magic.
    pub fn new() -> (r: PacketDecoder)
        ensures
            is_fresh(r),
            decoder_wf(r),
    {
        PacketDecoder::Magic(Vec::new())
    }

    /// A read timed out: a magic search starts over; a started packet keeps waiting.
    pub fn timeout(&mut self)
        requires
            decoder_wf(*old(self)),
        ensures
            decoder_wf(*final(self)),
            match *old(self) {
                PacketDecoder::Magic(_) => is_fresh(*final(self)),
                _ => *final(self) == *old(self),
            },
    {
        if let PacketDecoder::Magic(_) = self {
            *self = PacketDecoder::Magic(Vec::new());
        }
    }

    /// Takes one byte from the serial link.
    ///
    /// Looking for the magic, the byte joins the window of the last four bytes; when they
    /// read `MASR` the header follows. With the third header byte the payload length is
    /// known: above `MAX_PAYLOAD_LEN` it is an error, zero completes the packet at once.
    /// The last payload byte completes the packet. A completed packet (or an error) leaves
    /// the decoder looking for the next magic.
    pub fn feed(&mut self, b: u8) -> (r: Feed)
        requires
            decoder_wf(*old(self)),
        ensures
            decoder_wf(*final(self)),
            view_of(*final(self)) == decode_step(view_of(*old(self)), b).0,
            feed_is(r, decode_step(view_of(*old(self)), b).1),
            match *old(self) {
                PacketDecoder::Magic(w) => if next_window(w@, b) == magic_bytes() {
                    r == Feed::Pending && (*final(self) matches PacketDecoder::Header(h) && h@.len() == 0)
                } else {
                    r == Feed::Pending && (*final(self) matches PacketDecoder::Magic(w2) && w2@ == next_window(w@, b))
                },
                PacketDecoder::Header(h) => {
                    let h2 = h@.push(b);
                    if h2.len() < 3 {
                        r == Feed::Pending && (*final(self) matches PacketDecoder::Header(x) && x@ == h2)
                    } else if header_len(h2) > MAX_PAYLOAD_LEN {
                        (r matches Feed::Failed(m) && m@ == "Mochi voice packet too large: "@ + decimal(header_len(h2) as nat) + " bytes"@)
                            && is_fresh(*final(self))
                    } else if header_len(h2) == 0 {
                        packet_ok(r, h2[0], seq![]) && is_fresh(*final(self))
                    } else {
                        r == Feed::Pending && (*final(self) matches PacketDecoder::Payload(k, n, p) && k == h2[0]
                            && n == header_len(h2) && p@.len() == 0)
                    }
                },
                PacketDecoder::Payload(k, n, p) => {
                    let p2 = p@.push(b);
                    if p2.len() == n {
                        packet_ok(r, k, p2) && is_fresh(*final(self))
                    } else {
                        r == Feed::Pending && (*final(self) matches PacketDecoder::Payload(k2, n2, x) && k2 == k && n2 == n && x@ == p2)
                    }
                },
            },
    {
        let mut state = PacketDecoder::Magic(Vec::new());
        std::mem::swap(&mut state, self);
        match state {
            PacketDecoder::Magic(w) => {
                let mut nw: Vec<u8> = Vec::new();
                let start: usize = if w.len() < 4 { 0 } else { 1 };
                let mut i: usize = start;
                while i < w.len()
                    invariant
                        start <= i <= w.len(),
                        w.len() <= 4,
                        nw@ == w@.subrange(start as int, i as int),
                    decreases w.len() - i,
                {
                    nw.push(w[i]);
                    i = i + 1;
                }
                nw.push(b);
                assert(nw@ == next_window(w@, b)) by {
                    if w@.len() < 4 {
                        assert(w@.subrange(0, w@.len() as int) =~= w@);
                    } else {
                        assert(w@.subrange(1, w@.len() as int) =~= w@.drop_first());
                    }
                }
                if nw.len() == 4 && nw[0] == 77u8 && nw[1] == 65u8 && nw[2] == 83u8 && nw[3] == 82u8 {
                    assert(nw@ =~= magic_bytes());
                    *self = PacketDecoder::Header(Vec::new());
                } else {
                    proof {
                        if nw@ == magic_bytes() {
                            assert(nw@[0] == 77u8);
                        }
                    }
                    *self = PacketDecoder::Magic(nw);
                }
                Feed::Pending
            },
            PacketDecoder::Header(h) => {
                let mut h2 = h;
                h2.push(b);
                if h2.len() < 3 {
                    *self = PacketDecoder::Header(h2);
                    Feed::Pending
                } else {
                    let len: usize = (h2[1] as usize) + 256 * (h2[2] as usize);
                    if len > MAX_PAYLOAD_LEN {
                        let mut m = String::from_str("Mochi voice packet too large: ");
                        push_decimal(&mut m, len as u64);
                        m.append(" bytes");
                        Feed::Failed(m)
                    } else if len == 0 {
                        emit(h2[0], Vec::new())
                    } else {
                        *self = PacketDecoder::Payload(h2[0], len, Vec::new());
                        Feed::Pending
                    }
                }
            },
            PacketDecoder::Payload(k, n, p) => {
                let mut p2 = p;
                p2.push(b);
                if p2.len() == n {
                    emit(k, p2)
                } else {
                    *self = PacketDecoder::Payload(k, n, p2);
                    Feed::Pending
                }
            },
        }
    }
}


/// The recording state of a serial session: whether a speech-service connection is open,
/// and when the recording began (nanoseconds on a monotonic clock).
#[derive(Debug, Clone, Copy, PartialEq, Eq)]
pub struct VoiceSession {
    pub recording: bool,
    pub started_at: Option<i64>,
}

/// What happened in a serial session.
#[derive(Debug)]
pub enum VoiceEvent {
    /// A start packet arrived.
    Start,
    /// The speech service accepted the connection.
    Connected,
    /// The connection failed with this message.
    ConnectFailed(String),
    /// An audio packet arrived.
    Audio(Vec<u8>),
    /// Audio was sent to the speech service.
    AudioSent,
    /// Sending audio failed with this message.
    AudioFailed(String),
    /// An end packet arrived.
    End,
    /// The speech service returned this transcript.
    Transcribed(String),
    /// Transcription failed with this message.
    TranscribeFailed(String),
    /// A second passed; `true` when the stored settings still match the session's.
    Tick(bool),
}

/// What the session does next.
#[derive(Debug, PartialEq, Eq)]
pub enum VoiceAction {
    SetStatus(String),
    Connect,
    SendAudio(Vec<u8>),
    Finish,
    Paste(String),
    Stop,
}

pub open spec fn status_is(a: VoiceAction, text: Seq<char>) -> bool {
    a matches VoiceAction::SetStatus(s) && s@ == text
}

pub open spec fn idle(s: VoiceSession) -> bool {
    !s.recording && s.started_at is None
}

/// A session before any packet.
pub fn new_voice_session() -> (r: VoiceSession)
    ensures
        idle(r),
{
    VoiceSession { recording: false, started_at: None }
}

fn status(text: &str) -> (r: VoiceAction)
    ensures
        status_is(r, text@),
{
    VoiceAction::SetStatus(String::from_str(text))
}

fn status_with(prefix: &str, detail: &str) -> (r: VoiceAction)
    ensures
        status_is(r, prefix@ + detail@),
{
    let mut m = String::from_str(prefix);
    m.append(detail);
    VoiceAction::SetStatus(m)
}

/// The recording started at `started` has run for at least the longest recording.
pub open spec fn recording_expired(started: Option<i64>, now: i64) -> bool {
    started matches Some(t) && now - t >= MAX_RECORDING_NANOS
}

/// One step of a serial session. A start packet reports and connects; a connection starts
/// the recording clock, a failed one is reported; audio is sent only while recording; after
/// a send, a recording older than the limit is transcribed; a failed send is reported and
/// ends the recording; an end packet reports and transcribes what was recorded; a non-blank
/// transcript is pasted (trimmed) and reported, a blank or failed one is reported; changed
/// settings stop the session.
pub fn voice_step(session: &mut VoiceSession, event: VoiceEvent, now: i64) -> (r: Vec<VoiceAction>)
    ensures
        match event {
            VoiceEvent::Start => *final(session) == *old(session) && r@.len() == 2
                && status_is(r@[0], "Mochi recording started"@) && r@[1] == VoiceAction::Connect,
            VoiceEvent::Connected => final(session).recording && final(session).started_at == Some(now) && r@.len() == 0,
            VoiceEvent::ConnectFailed(e) => idle(*final(session)) && r@.len() == 1
                && status_is(r@[0], "ASR connection failed: "@ + e@),
            VoiceEvent::Audio(bytes) => *final(session) == *old(session) && if old(session).recording {
                r@.len() == 1 && (r@[0] matches VoiceAction::SendAudio(b) && b@ == bytes@)
            } else {
                r@.len() == 0
            },
            VoiceEvent::AudioSent => if recording_expired(old(session).started_at, now) {
                idle(*final(session)) && r@.len() == 2
                    && status_is(r@[0], "Mochi recording timed out; transcribing"@) && r@[1] == VoiceAction::Finish
            } else {
                *final(session) == *old(session) && r@.len() == 0
            },
            VoiceEvent::AudioFailed(e) => idle(*final(session)) && r@.len() == 1
                && status_is(r@[0], "ASR audio send failed: "@ + e@),
            VoiceEvent::End => idle(*final(session)) && status_is(r@[0], "Mochi recording ended; transcribing"@)
                && if old(session).recording {
                    r@.len() == 2 && r@[1] == VoiceAction::Finish
                } else {
                    r@.len() == 1
                },
            VoiceEvent::Transcribed(text) => *final(session) == *old(session) && if trim(text@).len() > 0 {
                r@.len() == 2 && (r@[0] matches VoiceAction::Paste(p) && p@ == trim(text@))
                    && status_is(r@[1], "Inserted transcript: "@ + trim(text@))
            } else {
                r@.len() == 1 && status_is(r@[0], "ASR returned no transcript"@)
            },
            VoiceEvent::TranscribeFailed(e) => *final(session) == *old(session) && r@.len() == 1
                && status_is(r@[0], "ASR transcription failed: "@ + e@),
            VoiceEvent::Tick(unchanged) => *final(session) == *old(session) && if unchanged {
                r@.len() == 0
            } else {
                r@.len() == 2 && r@[0] == VoiceAction::Stop
                    && status_is(r@[1], "Restarting Mochi voice input with updated settings"@)
            },
        },
{
    let mut actions: Vec<VoiceAction> = Vec::new();
    match event {
        VoiceEvent::Start => {
            actions.push(status("Mochi recording started"));
            actions.push(VoiceAction::Connect);
        },
        VoiceEvent::Connected => {
            session.recording = true;
            session.started_at = Some(now);
        },
        VoiceEvent::ConnectFailed(e) => {
            actions.push(status_with("ASR connection failed: ", e.as_str()));
            session.recording = false;
            session.started_at = None;
        },
        VoiceEvent::Audio(bytes) => {
            if session.recording {
                actions.push(VoiceAction::SendAudio(bytes));
            }
        },
        VoiceEvent::AudioSent => {
            let expired = match session.started_at {
                Some(t) => (now as i128) - (t as i128) >= MAX_RECORDING_NANOS as i128,
                None => false,
            };
            if expired {
                actions.push(status("Mochi recording timed out; transcribing"));
                actions.push(VoiceAction::Finish);
                session.recording = false;
                session.started_at = None;
            }
        },
        VoiceEvent::AudioFailed(e) => {
            actions.push(status_with("ASR audio send failed: ", e.as_str()));
            session.recording = false;
            session.started_at = None;
        },
        VoiceEvent::End => {
            actions.push(status("Mochi recording ended; transcribing"));
            if session.recording {
                actions.push(VoiceAction::Finish);
            }
            session.recording = false;
            session.started_at = None;
        },
        VoiceEvent::Transcribed(text) => {
            let c = chars_of(text.as_str());
            let t = trim_chars(&c);
            if t.len() > 0 {
                let trimmed = string_of(&t);
                actions.push(VoiceAction::Paste(trimmed.clone()));
                actions.push(status_with("Inserted transcript: ", trimmed.as_str()));
            } else {
                actions.push(status("ASR returned no transcript"));
            }
        },
        VoiceEvent::TranscribeFailed(e) => {
            actions.push(status_with("ASR transcription failed: ", e.as_str()));
        },
        VoiceEvent::Tick(unchanged) => {
            if !unchanged {
                actions.push(VoiceAction::Stop);
                actions.push(status("Restarting Mochi voice input with updated settings"));
            }
        },
    }
    actions
}

/// The status while a serial session listens.
pub fn listening_status(serial_port: &str) -> (r: String)
    ensures
        r@ == "Listening for Mochi voice input on "@ + serial_port@ + " @ "@ + decimal(SERIAL_BAUD as nat),
{
    let mut m = String::from_str("Listening for Mochi voice input on ");
    m.append(serial_port);
    m.append(" @ ");
    push_decimal(&mut m, SERIAL_BAUD as u64);
    m
}

/// The status after a serial session stopped with an error.
pub fn stopped_status(error: &str) -> (r: String)
    ensures
        r@ == "Mochi voice input stopped: "@ + error@,
{
    let mut m = String::from_str("Mochi voice input stopped: ");
    m.append(error);
    m
}

} // verus!
