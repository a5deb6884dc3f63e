//! Removal of secrets from text before it is stored, shown or sent.
use vstd::prelude::*;
use vstd::string::*;
use crate::json::JsonValue;
use crate::text::{chars_of, extend_chars, find_first, find_first_exec, join_lines, lines, lines_exec, lower, string_of, to_lower, trim_start, trim_start_chars, views};

verus! {

/// One line with the value after the first occurrence of `key` replaced: when the line,
/// ASCII lower-cased, contains `key`, and what follows it starts (after white space)
/// with `=` or `:`, the line is cut after the key and `=<redacted>` is appended.
pub open spec fn redact_line(line: Seq<char>, key: Seq<char>) -> Seq<char> {
    match find_first(lower(line), key) {
        Some(i) => {
            let after = trim_start(line.subrange(i + key.len(), line.len() as int));
            if after.len() > 0 && (after[0] == '=' || after[0] == ':') {
                line.subrange(0, i + key.len()) + "=<redacted>"@
            } else {
                line
            }
        },
        None => line,
    }
}

/// `redact_line` applied to every line of `input`; the final line break is kept only
/// where `input` ends with one.
pub open spec fn redact_key_value_text(input: Seq<char>, key: Seq<char>) -> Seq<char> {
    let body = join_lines(lines(input).map_values(|l: Seq<char>| redact_line(l, key)));
    if (input.len() > 0 && input.last() == '\n') || body.len() == 0 {
        body
    } else {
        body.drop_last()
    }
}

/// The keys whose values are redacted, in the order they are applied.
pub open spec fn redact_text(input: Seq<char>) -> Seq<char> {
    let a = redact_key_value_text(input, "token"@);
    let b = redact_key_value_text(a, "apikey"@);
    let c = redact_key_value_text(b, "secret"@);
    let d = redact_key_value_text(c, "password"@);
    redact_key_value_text(d, "authorization"@)
}

fn redact_line_exec(line: &[char], key: &[char]) -> (r: Vec<char>)
    ensures
        r@ == redact_line(line@, key@),
{
    let lo = to_lower(line);
    assert(lo@.len() == line@.len());
    match find_first_exec(&lo, key) {
        Some(i) => {
            proof {
                assert(crate::text::match_at(lower(line@), key@, i as int)) by {
                    crate::text::lemma_find_first_matches(lower(line@), key@);
                }
                assert(lower(line@).len() == line@.len());
                assert(i + key@.len() <= line@.len());
            }
            assert(i + key.len() <= line.len());
            let rest = crate::text::slice_chars(line, i + key.len(), line.len());
            let after = trim_start_chars(&rest);
            if after.len() > 0 && (after[0] == '=' || after[0] == ':') {
                let mut out = crate::text::slice_chars(line, 0, i + key.len());
                let tail = chars_of("=<redacted>");
                extend_chars(&mut out, &tail);
                out
            } else {
                crate::text::slice_chars(line, 0, line.len())
            }
        },
        None => crate::text::slice_chars(line, 0, line.len()),
    }
}

/// Redacts the value after `key` on every line of `input` (see `redact_key_value_text`).
pub fn redact_key_value(input: &str, key: &str) -> (r: String)
    ensures
        r@ == redact_key_value_text(input@, key@),
{
    let s = chars_of(input);
    let k = chars_of(key);
    let ls = lines_exec(&s);
    let ghost mapped = lines(s@).map_values(|l: Seq<char>| redact_line(l, k@));
    let mut out: Vec<char> = Vec::new();
    let mut j: usize = 0;
    while j < ls.len()
        invariant
            j <= ls.len(),
            views(ls@) == lines(s@),
            mapped == lines(s@).map_values(|l: Seq<char>| redact_line(l, k@)),
            out@ == join_lines(mapped.subrange(0, j as int)),
        decreases ls.len() - j,
    {
        let red = redact_line_exec(&ls[j], &k);
        assert(red@ == mapped[j as int]);
        extend_chars(&mut out, &red);
        out.push('\n');
        assert(mapped.subrange(0, j + 1).drop_last() =~= mapped.subrange(0, j as int));
        j = j + 1;
    }
    assert(mapped.subrange(0, ls.len() as int) =~= mapped);
    let ends_nl = s.len() > 0 && s[s.len() - 1] == '\n';
    if !ends_nl && out.len() > 0 {
        out.pop();
    }
    string_of(&out)
}

/// Redacts the values of `token`, `apikey`, `secret`, `password` and `authorization`,
/// in that order (see `redact_text`).
pub fn redact(input: &str) -> (r: String)
    ensures
        r@ == redact_text(input@),
{
    let a = redact_key_value(input, "token");
    let b = redact_key_value(a.as_str(), "apikey");
    let c = redact_key_value(b.as_str(), "secret");
    let d = redact_key_value(c.as_str(), "password");
    redact_key_value(d.as_str(), "authorization")
}

/// `r` is `v` with every string value and every member name redacted (see `redact_text`):
/// the same shape, the same numbers and flags, in the same order.
pub open spec fn redacted_json(v: JsonValue, r: JsonValue) -> bool
    decreases v,
{
    match v {
        JsonValue::Null => r == JsonValue::Null,
        JsonValue::Bool(b) => r == JsonValue::Bool(b),
        JsonValue::Int(n) => r == JsonValue::Int(n),
        JsonValue::OtherNumber(t) => r matches JsonValue::OtherNumber(u) && u@ == t@,
        JsonValue::Str(s) => r matches JsonValue::Str(u) && u@ == redact_text(s@),
        JsonValue::Array(items) => r matches JsonValue::Array(out) && out@.len() == items@.len()
            && forall|i: int| 0 <= i < items@.len() ==> redacted_json(#[trigger] items@[i], out@[i]),
        JsonValue::Object(fields) => r matches JsonValue::Object(out) && out@.len() == fields@.len()
            && forall|i: int| 0 <= i < fields@.len() ==> out@[i].0@ == redact_text((#[trigger] fields@[i]).0@)
                && redacted_json(fields@[i].1, out@[i].1),
    }
}

/// A JSON value with every string value and member name redacted (see `redacted_json`).
pub fn redact_json(v: &JsonValue) -> (r: JsonValue)
    ensures
        redacted_json(*v, r),
    decreases *v,
{
    match v {
        JsonValue::Null => JsonValue::Null,
        JsonValue::Bool(b) => JsonValue::Bool(*b),
        JsonValue::Int(n) => JsonValue::Int(*n),
        JsonValue::OtherNumber(t) => JsonValue::OtherNumber(t.clone()),
        JsonValue::Str(s) => JsonValue::Str(redact(s.as_str())),
        JsonValue::Array(items) => {
            let mut out: Vec<JsonValue> = Vec::new();
            let mut i: usize = 0;
            while i < items.len()
                invariant
                    *v == JsonValue::Array(*items),
                    i <= items.len(),
                    out@.len() == i,
                    forall|j: int| 0 <= j < i ==> redacted_json(#[trigger] items@[j], out@[j]),
                decreases items.len() - i,
            {
                assert(decreases_to!(*v => (*v)->Array_0));
                assert(decreases_to!(*items => items@));
                assert(decreases_to!(items@ => items@[i as int]));
                assert(decreases_to!(*v => items@[i as int]));
                let x = redact_json(&items[i]);
                out.push(x);
                i = i + 1;
            }
            JsonValue::Array(out)
        },
        JsonValue::Object(fields) => {
            let mut out: Vec<(String, JsonValue)> = Vec::new();
            let mut i: usize = 0;
            while i < fields.len()
                invariant
                    *v == JsonValue::Object(*fields),
                    i <= fields.len(),
                    out@.len() == i,
                    forall|j: int| 0 <= j < i ==> out@[j].0@ == redact_text((#[trigger] fields@[j]).0@)
                        && redacted_json(fields@[j].1, out@[j].1),
                decreases fields.len() - i,
            {
                assert(decreases_to!(*v => (*v)->Object_0));
                assert(decreases_to!(*fields => fields@));
                assert(decreases_to!(fields@ => fields@[i as int]));
                assert(decreases_to!(fields@[i as int] => fields@[i as int].1));
                assert(decreases_to!(*v => fields@[i as int].1));
                let x = redact_json(&fields[i].1);
                let name = redact(fields[i].0.as_str());
                out.push((name, x));
                i = i + 1;
            }
            JsonValue::Object(out)
        },
    }
}

} // verus!
