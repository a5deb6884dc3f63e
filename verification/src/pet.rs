//! The desk pet that mirrors the traffic light: its state, its address, and when a new
//! state is sent to it.
use vstd::prelude::*;
use vstd::string::*;
use crate::domain::{PetConfig, TrafficWidgetStatus};
use crate::text::{chars_of, is_ws, push_char, starts_with, starts_with_str, str_eq, string_of, trim, trim_chars, trim_end, trim_end_char, trim_end_char_chars, trim_start};

verus! {

/// The pet state for a widget status: failed for red, waiting for yellow or pending
/// approvals, running, complete for green after a finish, ready otherwise.
pub open spec fn pet_state(color: Seq<char>, pending_approvals: i64, has_latest_title: bool) -> Seq<char> {
    if color == "red"@ {
        "failed"@
    } else if color == "yellow"@ || pending_approvals > 0 {
        "waiting"@
    } else if color == "running"@ {
        "running"@
    } else if color == "green"@ && has_latest_title {
        "complete"@
    } else {
        "ready"@
    }
}

pub fn pet_state_from_traffic(status: &TrafficWidgetStatus) -> (r: &'static str)
    ensures
        r@ == pet_state(status.color@, status.pending_approvals, status.latest_event_title is Some),
{
    let color = chars_of(status.color.as_str());
    if str_eq(&color, "red") {
        "failed"
    } else if str_eq(&color, "yellow") || status.pending_approvals > 0 {
        "waiting"
    } else if str_eq(&color, "running") {
        "running"
    } else if str_eq(&color, "green") && status.latest_event_title.is_some() {
        "complete"
    } else {
        "ready"
    }
}

/// The pet's address: trimmed, trailing `/` removed, `http://` added unless it already
/// starts with `http://` or `https://`; no address when nothing is left.
pub open spec fn normalized_base_url(value: Option<Seq<char>>) -> Option<Seq<char>> {
    match value {
        None => None,
        Some(v) => {
            let t = trim_end_char(trim(v), '/');
            if t.len() == 0 {
                None
            } else if starts_with(t, "http://"@) || starts_with(t, "https://"@) {
                Some(t)
            } else {
                Some("http://"@ + t)
            }
        },
    }
}

pub open spec fn opt_str_view(value: Option<&str>) -> Option<Seq<char>> {
    match value {
        Some(v) => Some(v@),
        None => None,
    }
}

/// Normalizes the configured address (see `normalized_base_url`).
pub fn normalize_base_url(value: Option<&str>) -> (r: Option<String>)
    ensures
        match r {
            Some(s) => normalized_base_url(opt_str_view(value)) == Some(s@),
            None => normalized_base_url(opt_str_view(value)) is None,
        },
{
    match value {
        None => None,
        Some(v) => {
            let c = chars_of(v);
            let t0 = trim_chars(&c);
            let t = trim_end_char_chars(&t0, '/');
            if t.len() == 0 {
                None
            } else if starts_with_str(&t, "http://") || starts_with_str(&t, "https://") {
                Some(string_of(&t))
            } else {
                let mut out = String::from_str("http://");
                let rest = string_of(&t);
                out.append(rest.as_str());
                Some(out)
            }
        },
    }
}

/// The value stored for the pet address: the normalized address, or empty text.
pub fn stored_base_url(value: Option<&str>) -> (r: String)
    ensures
        match normalized_base_url(opt_str_view(value)) {
            Some(u) => r@ == u,
            None => r@ == Seq::<char>::empty(),
        },
{
    match normalize_base_url(value) {
        Some(u) => u,
        None => String::new(),
    }
}

/// The pet settings read from their stored values: enabled only when stored as `"true"`.
pub fn pet_config(enabled: Option<&str>, base_url: Option<String>, last_status: Option<String>) -> (r: PetConfig)
    ensures
        r.enabled == crate::storage::bool_setting_value(opt_str_view(enabled), false),
        r.base_url == base_url,
        r.last_status == last_status,
{
    PetConfig {
        enabled: crate::storage::bool_setting(enabled, false),
        base_url,
        last_status,
    }
}

/// The key under which the last sent state is remembered.
pub open spec fn payload_key(state: Seq<char>, primary: Seq<char>, secondary: Seq<char>) -> Seq<char> {
    state + seq!['|'] + primary + seq!['|'] + secondary
}

pub fn pet_payload_key(state: &str, primary: &str, secondary: &str) -> (r: String)
    ensures
        r@ == payload_key(state@, primary@, secondary@),
{
    let mut out = String::from_str(state);
    push_char(&mut out, '|');
    out.append(primary);
    push_char(&mut out, '|');
    out.append(secondary);
    assert(out@ =~= payload_key(state@, primary@, secondary@));
    out
}

/// What syncing the pet comes to.
#[derive(Debug, Clone, PartialEq, Eq)]
pub enum PetSync {
    /// Syncing is off: nothing is sent or stored.
    Disabled,
    /// No address: the message is stored as the last status and returned.
    Unconfigured(String),
    /// The same state was sent last: nothing is sent.
    Unchanged,
    /// Send `state` with the usage labels to `base_url`, then remember `payload`.
    Send { base_url: String, payload: String },
}

/// Decides a sync: disabled pets get nothing; an enabled pet without an address is
/// reported; the state is sent only when its key differs from the last one sent.
pub fn plan_pet_sync(
    enabled: bool,
    base_url: Option<&str>,
    state: &str,
    primary: &str,
    secondary: &str,
    last_payload: Option<&str>,
) -> (r: PetSync)
    ensures
        !enabled ==> r == PetSync::Disabled,
        enabled && normalized_base_url(opt_str_view(base_url)) is None ==> (r matches PetSync::Unconfigured(m) && m@ == "Pet sync is enabled but no Mochi URL is configured"@),
        enabled && normalized_base_url(opt_str_view(base_url)) is Some ==> match last_payload {
            Some(last) if last@ == payload_key(state@, primary@, secondary@) => r == PetSync::Unchanged,
            _ => r matches PetSync::Send { base_url: u, payload: p } && Some(u@) == normalized_base_url(opt_str_view(base_url)) && p@ == payload_key(state@, primary@, secondary@),
        },
{
    if !enabled {
        return PetSync::Disabled;
    }
    match normalize_base_url(base_url) {
        None => PetSync::Unconfigured(String::from_str("Pet sync is enabled but no Mochi URL is configured")),
        Some(u) => {
            let payload = pet_payload_key(state, primary, secondary);
            match last_payload {
                Some(last) => {
                    let l = chars_of(last);
                    let p = chars_of(payload.as_str());
                    if crate::text::seq_eq(&l, &p) {
                        PetSync::Unchanged
                    } else {
                        PetSync::Send { base_url: u, payload }
                    }
                },
                None => PetSync::Send { base_url: u, payload },
            }
        },
    }
}

/// The status stored after a state was sent.
pub fn sent_message(state: &str, base_url: &str) -> (r: String)
    ensures
        r@ == "Sent "@ + state@ + " to "@ + base_url@,
{
    let mut out = String::from_str("Sent ");
    out.append(state);
    out.append(" to ");
    out.append(base_url);
    out
}

/// The status stored after a test state was sent.
pub fn test_sent_message(base_url: &str) -> (r: String)
    ensures
        r@ == "Test sent ready to "@ + base_url@,
{
    let mut out = String::from_str("Test sent ready to ");
    out.append(base_url);
    out
}

proof fn lemma_trim_start_first(s: Seq<char>)
    ensures
        trim_start(s).len() > 0 ==> !is_ws(trim_start(s)[0]),
    decreases s.len(),
{
    if s.len() > 0 && is_ws(s[0]) {
        lemma_trim_start_first(s.drop_first());
    }
}

proof fn lemma_trim_keeps_ends(s: Seq<char>)
    requires
        s.len() > 0,
        !is_ws(s[0]),
        !is_ws(s.last()),
    ensures
        trim(s) == s,
{
    assert(trim_start(s) == s);
    assert(trim_end(s) == s);
}

proof fn lemma_trim_end_char(s: Seq<char>, c: char)
    ensures
        trim_end_char(s, c).len() <= s.len(),
        forall|k: int| 0 <= k < trim_end_char(s, c).len() ==> #[trigger] trim_end_char(s, c)[k] == s[k],
        trim_end_char(s, c).len() > 0 ==> trim_end_char(s, c).last() != c,
    decreases s.len(),
{
    if s.len() > 0 && s.last() == c {
        lemma_trim_end_char(s.drop_last(), c);
    }
}

/// Normalising a pet address gives one that starts with `http://` or `https://`, does not
/// end with `/`, and normalises to itself; there is none exactly when nothing but white
/// space and `/` is given. This holds unless the address, once trimmed and stripped of its
/// trailing `/`, ends with white space (as `a /` does), which a second trim would remove.
pub proof fn law_pet_address_is_stable(value: Seq<char>)
    requires
        trim_end_char(trim(value), '/').len() > 0 ==> !is_ws(trim_end_char(trim(value), '/').last()),
    ensures
        normalized_base_url(Some(value)) is None <==> trim_end_char(trim(value), '/').len() == 0,
        normalized_base_url(Some(value)) matches Some(u) ==> {
            &&& starts_with(u, "http://"@) || starts_with(u, "https://"@)
            &&& u.last() != '/'
            &&& normalized_base_url(Some(u)) == Some(u)
        },
{
    let v = trim(value);
    lemma_trim_end_char(v, '/');
    let t = trim_end_char(v, '/');
    if t.len() > 0 {
        lemma_trim_start_first(value);
        crate::text::lemma_trim_end_prefix(trim_start(value));
        assert(t[0] == v[0]);
        assert(v[0] == trim_start(value)[0]);
        let p = "http://"@;
        reveal_strlit("http://");
        let u = if starts_with(t, "http://"@) || starts_with(t, "https://"@) { t } else { p + t };
        assert(u.len() > 0 && u.last() == t.last());
        if u != t {
            assert(u.subrange(0, p.len() as int) =~= p);
            assert(u[0] == 'h');
        }
        lemma_trim_keeps_ends(u);
        assert(trim_end_char(u, '/') == u);
    }
}
} // verus!
