//! The command-line hook client: where its token comes from, how long it waits, and what
//! it prints for each answer of the local server.
use vstd::prelude::*;
use vstd::string::*;
use crate::json::{get, lemma_field_index_first, JsonValue};
use crate::server::{command_of, extract_command};
use crate::rules::risk::{risk_level_of, RiskLevel};
use crate::text::{
    chars_of, contains, contains_str, is_ws, lemma_collapse_keeps, lower, match_at, spaced_words, str_eq, string_of,
    to_lower, trim, trim_chars,
};

verus! {

/// The fragments that make a command critical.
pub open spec fn critical_command(c: Seq<char>) -> bool {
    ||| contains(c, "rm -rf /"@)
    ||| contains(c, "sudo rm"@)
    ||| contains(c, "diskutil erase"@)
    ||| contains(c, "drop table"@)
    ||| contains(c, "truncate table"@)
}

/// A payload is critical when its command (see `command_of`; none reads as empty), in
/// ASCII lower case, holds one of the critical fragments.
pub open spec fn critical_payload(payload: JsonValue) -> bool {
    critical_command(
        lower(
            match command_of(payload) {
                Some(c) => c,
                None => Seq::empty(),
            },
        ),
    )
}

/// The client holds a payload critical exactly when the payload has a command that, in
/// ASCII lower case, holds `rm -rf /`, `sudo rm`, `diskutil erase`, `drop table` or
/// `truncate table`; a payload without a command is not critical.
pub proof fn law_client_critical_fragments(payload: JsonValue)
    ensures
        critical_payload(payload) == (command_of(payload) matches Some(c) && {
            let l = lower(c);
            ||| contains(l, "rm -rf /"@)
            ||| contains(l, "sudo rm"@)
            ||| contains(l, "diskutil erase"@)
            ||| contains(l, "drop table"@)
            ||| contains(l, "truncate table"@)
        }),
{
    reveal_strlit("rm -rf /");
    reveal_strlit("sudo rm");
    reveal_strlit("diskutil erase");
    reveal_strlit("drop table");
    reveal_strlit("truncate table");
    if command_of(payload) is None {
        let e = lower(Seq::<char>::empty());
        assert(e.len() == 0);
        assert(!contains(e, "rm -rf /"@));
        assert(!contains(e, "sudo rm"@));
        assert(!contains(e, "diskutil erase"@));
        assert(!contains(e, "drop table"@));
        assert(!contains(e, "truncate table"@));
    }
}

proof fn lemma_fragment_kept(l: Seq<char>, f: Seq<char>)
    requires
        spaced_words(f),
        contains(l, f),
    ensures
        contains(crate::text::collapse_ws(l), f),
{
    let k = choose|k: int| match_at(l, f, k);
    lemma_collapse_keeps(l, f, 0, k);
}

/// The client fails closed only where the server would hold the command: whenever the
/// client holds a payload critical, the payload has a command that the risk rules rate
/// critical.
pub proof fn law_client_critical_is_rule_critical(payload: JsonValue)
    requires
        critical_payload(payload),
    ensures
        command_of(payload) matches Some(c) && risk_level_of(c) == RiskLevel::Critical,
{
    law_client_critical_fragments(payload);
    let c = command_of(payload)->Some_0;
    let l = lower(c);
    reveal_strlit("rm -rf /");
    reveal_strlit("sudo rm");
    reveal_strlit("diskutil erase");
    reveal_strlit("drop table");
    reveal_strlit("truncate table");
    if contains(l, "rm -rf /"@) {
        let f = "rm -rf /"@;
        assert(spaced_words(f)) by {
            assert forall|t: int| 0 < t < f.len() - 1 && is_ws(#[trigger] f[t]) implies f[t] == ' ' && !is_ws(f[t - 1])
                && !is_ws(f[t + 1]) by {
                assert(t == 2 || t == 6);
            }
        }
        lemma_fragment_kept(l, f);
    } else if contains(l, "sudo rm"@) {
        let f = "sudo rm"@;
        assert(spaced_words(f)) by {
            assert forall|t: int| 0 < t < f.len() - 1 && is_ws(#[trigger] f[t]) implies f[t] == ' ' && !is_ws(f[t - 1])
                && !is_ws(f[t + 1]) by {
                assert(t == 4);
            }
        }
        lemma_fragment_kept(l, f);
    } else if contains(l, "diskutil erase"@) {
        let f = "diskutil erase"@;
        assert(spaced_words(f)) by {
            assert forall|t: int| 0 < t < f.len() - 1 && is_ws(#[trigger] f[t]) implies f[t] == ' ' && !is_ws(f[t - 1])
                && !is_ws(f[t + 1]) by {
                assert(t == 8);
            }
        }
        lemma_fragment_kept(l, f);
    } else if contains(l, "drop table"@) {
        let f = "drop table"@;
        assert(spaced_words(f)) by {
            assert forall|t: int| 0 < t < f.len() - 1 && is_ws(#[trigger] f[t]) implies f[t] == ' ' && !is_ws(f[t - 1])
                && !is_ws(f[t + 1]) by {
                assert(t == 4);
            }
        }
        lemma_fragment_kept(l, f);
    } else {
        let f = "truncate table"@;
        assert(spaced_words(f)) by {
            assert forall|t: int| 0 < t < f.len() - 1 && is_ws(#[trigger] f[t]) implies f[t] == ' ' && !is_ws(f[t - 1])
                && !is_ws(f[t + 1]) by {
                assert(t == 8);
            }
        }
        lemma_fragment_kept(l, f);
    }
}

/// Whether the client treats a payload as critical: its command, in ASCII lower case,
/// holds a destructive fragment.
pub fn is_critical_payload(payload: &JsonValue) -> (r: bool)
    ensures
        r == critical_payload(*payload),
        r == (command_of(*payload) matches Some(c) && {
            let l = lower(c);
            ||| contains(l, "rm -rf /"@)
            ||| contains(l, "sudo rm"@)
            ||| contains(l, "diskutil erase"@)
            ||| contains(l, "drop table"@)
            ||| contains(l, "truncate table"@)
        }),
        r ==> (command_of(*payload) matches Some(c) && risk_level_of(c) == RiskLevel::Critical),
{
    proof {
        law_client_critical_fragments(*payload);
        if critical_payload(*payload) {
            law_client_critical_is_rule_critical(*payload);
        }
    }
    let command = match extract_command(payload) {
        Some(c) => chars_of(c.as_str()),
        None => Vec::new(),
    };
    let c = to_lower(&command);
    contains_str(&c, "rm -rf /") || contains_str(&c, "sudo rm") || contains_str(&c, "diskutil erase")
        || contains_str(&c, "drop table") || contains_str(&c, "truncate table")
}

/// Seconds the client waits for the server: 30 for a critical payload, else 2.
pub fn request_timeout_secs(critical: bool) -> (r: u64)
    ensures
        r == (if critical { 30u64 } else { 2u64 }),
{
    if critical {
        30
    } else {
        2
    }
}

/// The index of the argument after the first `--token-file`, when there is one.
pub fn token_file_arg(args: &Vec<String>) -> (r: Option<usize>)
    ensures
        match r {
            Some(k) => k < args.len() && k >= 1 && args@[k - 1]@ == "--token-file"@
                && forall|j: int| 0 <= j < k - 1 ==> #[trigger] args@[j]@ != "--token-file"@,
            None => forall|i: int| 0 <= i < args.len() && #[trigger] args@[i]@ == "--token-file"@ ==> (
                i + 1 == args.len() && forall|j: int| 0 <= j < i ==> #[trigger] args@[j]@ != "--token-file"@),
        },
{
    let mut i: usize = 0;
    while i < args.len()
        invariant
            i <= args.len(),
            forall|j: int| 0 <= j < i ==> #[trigger] args@[j]@ != "--token-file"@,
        decreases args.len() - i,
    {
        let a = chars_of(args[i].as_str());
        if str_eq(&a, "--token-file") {
            if i + 1 < args.len() {
                return Some(i + 1);
            } else {
                return None;
            }
        }
        i = i + 1;
    }
    None
}

/// The token read from the token file: its text without surrounding white space.
pub fn token_from_file(content: &str) -> (r: String)
    ensures
        r@ == trim(content@),
{
    let c = chars_of(content);
    let t = trim_chars(&c);
    string_of(&t)
}

/// How the request to the local server ended.
#[derive(Debug)]
pub enum ServerAnswer {
    /// The HTTP client could not be built.
    ClientFailed,
    /// The server answered; whether with a success status, and the body.
    Answered { success: bool, body: String },
    /// The request failed.
    Unreachable,
}

/// What the client prints.
#[derive(Debug)]
pub enum ClientReply {
    /// The server's body, as it came.
    Forward(String),
    /// A reply of the client's own (see `continue_reply`).
    Continue { should_continue: bool, reason: Option<String> },
}

pub open spec fn continue_is(r: ClientReply, should_continue: bool, reason: Option<Seq<char>>) -> bool {
    r matches ClientReply::Continue { should_continue: c, reason: rs } && c == should_continue && match (rs, reason) {
        (Some(a), Some(b)) => a@ == b,
        (None, None) => true,
        _ => false,
    }
}

/// The reply for each answer: a non-blank success body is forwarded; otherwise a critical
/// payload is stopped with a reason and any other goes on (with a reason when the server
/// could not be reached or the client not built).
pub fn client_reply(critical: bool, answer: ServerAnswer) -> (r: ClientReply)
    ensures
        match answer {
            ServerAnswer::ClientFailed => continue_is(r, !critical, Some("Notice hook client failed"@)),
            ServerAnswer::Answered { success, body } => if success && trim(body@).len() > 0 {
                r matches ClientReply::Forward(b) && b@ == body@
            } else if critical {
                continue_is(r, false, Some("Notice rejected or failed to process critical command"@))
            } else {
                continue_is(r, true, None)
            },
            ServerAnswer::Unreachable => continue_is(r, !critical, Some("Notice unavailable for critical command"@)),
        },
{
    match answer {
        ServerAnswer::ClientFailed => ClientReply::Continue {
            should_continue: !critical,
            reason: Some(String::from_str("Notice hook client failed")),
        },
        ServerAnswer::Answered { success, body } => {
            let c = chars_of(body.as_str());
            let t = trim_chars(&c);
            if success && t.len() > 0 {
                ClientReply::Forward(body)
            } else if critical {
                ClientReply::Continue {
                    should_continue: false,
                    reason: Some(String::from_str("Notice rejected or failed to process critical command")),
                }
            } else {
                ClientReply::Continue { should_continue: true, reason: None }
            }
        },
        ServerAnswer::Unreachable => ClientReply::Continue {
            should_continue: !critical,
            reason: Some(String::from_str("Notice unavailable for critical command")),
        },
    }
}

pub open spec fn json_flag(v: Option<JsonValue>, b: bool) -> bool {
    v matches Some(JsonValue::Bool(x)) && x == b
}

pub open spec fn json_size(v: JsonValue) -> int {
    match v {
        JsonValue::Object(f) => f@.len() as int,
        _ => -1,
    }
}

/// The client's own reply: `continue`, and `suppressOutput` true; with a reason, also
/// `stopReason` and `suppressOutput` false.
pub open spec fn continue_reply_holds(v: JsonValue, should_continue: bool, reason: Option<Seq<char>>) -> bool {
    &&& json_flag(get(v, "continue"@), should_continue)
    &&& match reason {
        Some(text) => json_flag(get(v, "suppressOutput"@), false) && (get(v, "stopReason"@) matches Some(
            JsonValue::Str(s),
        ) && s@ == text) && json_size(v) == 3,
        None => json_flag(get(v, "suppressOutput"@), true) && json_size(v) == 2,
    }
}

/// Builds the client's own reply (see `continue_reply_holds`); members in key order.
pub fn continue_reply(should_continue: bool, reason: Option<String>) -> (r: JsonValue)
    ensures
        continue_reply_holds(r, should_continue, match reason {
            Some(s) => Some(s@),
            None => None,
        }),
{
    proof {
        reveal_strlit("continue");
        reveal_strlit("suppressOutput");
        reveal_strlit("stopReason");
    }
    let mut fields: Vec<(String, JsonValue)> = Vec::new();
    fields.push((String::from_str("continue"), JsonValue::Bool(should_continue)));
    match reason {
        Some(text) => {
            fields.push((String::from_str("stopReason"), JsonValue::Str(text)));
            fields.push((String::from_str("suppressOutput"), JsonValue::Bool(false)));
            proof {
                assert(fields@[0].0@.len() == 8 && fields@[1].0@.len() == 10 && fields@[2].0@.len() == 14);
                lemma_field_index_first(fields@, "continue"@, 0);
                lemma_field_index_first(fields@, "stopReason"@, 1);
                lemma_field_index_first(fields@, "suppressOutput"@, 2);
            }
        },
        None => {
            fields.push((String::from_str("suppressOutput"), JsonValue::Bool(true)));
            proof {
                assert(fields@[0].0@.len() == 8 && fields@[1].0@.len() == 14);
                lemma_field_index_first(fields@, "continue"@, 0);
                lemma_field_index_first(fields@, "suppressOutput"@, 1);
            }
        },
    }
    JsonValue::Object(fields)
}

} // verus!
