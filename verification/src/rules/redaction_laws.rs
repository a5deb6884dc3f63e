//! What redaction promises of every input.
use vstd::prelude::*;
use vstd::string::*;
use crate::text::{find_first, find_from, is_ws, join_lines, lemma_find_from_none, lemma_find_from_some, lemma_lines_cons, lemma_lines_no_cr, lemma_lines_no_nl, lemma_next_nl, lemma_next_nl_bounds, lines, lines_from, lower, lower_char, match_at, next_nl, strip_cr, trim_start};
use crate::rules::redaction::{redact_line, redact_key_value_text, redact_text};

verus! {

/// The keys whose values are redacted.
pub open spec fn is_secret_key(k: Seq<char>) -> bool {
    ||| k == "token"@
    ||| k == "apikey"@
    ||| k == "secret"@
    ||| k == "password"@
    ||| k == "authorization"@
}

/// `s` holds no line break.
pub open spec fn single_line(s: Seq<char>) -> bool {
    forall|j: int| 0 <= j < s.len() ==> s[j] != '\n'
}

/// A key's letters: none of them a capital, `=` or a line break.
proof fn lemma_key_letters(k: Seq<char>)
    requires
        is_secret_key(k),
    ensures
        lower(k) == k,
        5 <= k.len(),
        forall|j: int| 0 <= j < k.len() ==> k[j] != '=' && k[j] != '\n',
{
    reveal_strlit("token");
    reveal_strlit("apikey");
    reveal_strlit("secret");
    reveal_strlit("password");
    reveal_strlit("authorization");
    if k == "token"@ {
        assert(k =~= seq!['t', 'o', 'k', 'e', 'n']);
    } else if k == "apikey"@ {
        assert(k =~= seq!['a', 'p', 'i', 'k', 'e', 'y']);
    } else if k == "secret"@ {
        assert(k =~= seq!['s', 'e', 'c', 'r', 'e', 't']);
    } else if k == "password"@ {
        assert(k =~= seq!['p', 'a', 's', 's', 'w', 'o', 'r', 'd']);
    } else {
        assert(k =~= seq!['a', 'u', 't', 'h', 'o', 'r', 'i', 'z', 'a', 't', 'i', 'o', 'n']);
    }
    assert(lower(k) =~= k);
}

/// No key occurs inside another.
proof fn lemma_keys_apart(k: Seq<char>, k2: Seq<char>)
    requires
        is_secret_key(k),
        is_secret_key(k2),
        k != k2,
    ensures
        forall|i: int| !match_at(k, k2, i),
{
    reveal_strlit("token");
    reveal_strlit("apikey");
    reveal_strlit("secret");
    reveal_strlit("password");
    reveal_strlit("authorization");
    let t = seq!['t', 'o', 'k', 'e', 'n'];
    let a = seq!['a', 'p', 'i', 'k', 'e', 'y'];
    let s = seq!['s', 'e', 'c', 'r', 'e', 't'];
    let p = seq!['p', 'a', 's', 's', 'w', 'o', 'r', 'd'];
    let z = seq!['a', 'u', 't', 'h', 'o', 'r', 'i', 'z', 'a', 't', 'i', 'o', 'n'];
    assert("token"@ =~= t);
    assert("apikey"@ =~= a);
    assert("secret"@ =~= s);
    assert("password"@ =~= p);
    assert("authorization"@ =~= z);
    assert forall|i: int| !match_at(k, k2, i) by {
        if match_at(k, k2, i) {
            assert(k.subrange(i, i + k2.len())[0] == k[i]);
            assert(k.subrange(i, i + k2.len())[1] == k[i + 1]);
        }
    }
}

/// No key occurs in the text that replaces a value.
proof fn lemma_marker_holds_no_key(k2: Seq<char>)
    requires
        is_secret_key(k2),
    ensures
        lower("<redacted>"@) == "<redacted>"@,
        single_line("<redacted>"@),
        forall|q: int| !match_at(lower("<redacted>"@), k2, q),
{
    reveal_strlit("<redacted>");
    reveal_strlit("token");
    reveal_strlit("apikey");
    reveal_strlit("secret");
    reveal_strlit("password");
    reveal_strlit("authorization");
    let m = seq!['<', 'r', 'e', 'd', 'a', 'c', 't', 'e', 'd', '>'];
    assert("<redacted>"@ =~= m);
    assert(lower(m) =~= m);
    assert("token"@ =~= seq!['t', 'o', 'k', 'e', 'n']);
    assert("apikey"@ =~= seq!['a', 'p', 'i', 'k', 'e', 'y']);
    assert("secret"@ =~= seq!['s', 'e', 'c', 'r', 'e', 't']);
    assert("password"@ =~= seq!['p', 'a', 's', 's', 'w', 'o', 'r', 'd']);
    assert("authorization"@ =~= seq!['a', 'u', 't', 'h', 'o', 'r', 'i', 'z', 'a', 't', 'i', 'o', 'n']);
    assert forall|q: int| !match_at(m, k2, q) by {
        if match_at(m, k2, q) {
            assert(m.subrange(q, q + k2.len())[0] == m[q]);
            assert(m.subrange(q, q + k2.len())[1] == m[q + 1]);
        }
    }
}

/// Where nothing matches from `i` to `j`, the search from `i` ends as the search from `j`.
proof fn lemma_find_from_skip(h: Seq<char>, n: Seq<char>, i: int, j: int)
    requires
        0 <= i <= j,
        forall|q: int| i <= q < j ==> !match_at(h, n, q),
    ensures
        find_from(h, n, i) == find_from(h, n, j),
    decreases j - i,
{
    if i < j {
        lemma_find_from_skip(h, n, i + 1, j);
    }
}

/// A search from `i` finds a match at `i` or later.
proof fn lemma_find_from_found(h: Seq<char>, n: Seq<char>, i: int)
    ensures
        find_from(h, n, i) matches Some(p) ==> i <= p && match_at(h, n, p),
    decreases h.len() + 1 - i,
{
    if !(i < 0 || i + n.len() > h.len()) && !match_at(h, n, i) {
        lemma_find_from_found(h, n, i + 1);
    }
}

/// On a line without a break, redacting the text is redacting that line.
proof fn lemma_single_line(s: Seq<char>, key: Seq<char>)
    requires
        s.len() > 0,
        single_line(s),
    ensures
        redact_key_value_text(s, key) == redact_line(s, key),
{
    lemma_next_nl(s, 0, s.len() as int);
    assert(s.subrange(0, s.len() as int) =~= s);
    assert(lines(s) =~= seq![s]);
    let mapped = lines(s).map_values(|l: Seq<char>| redact_line(l, key));
    let r = redact_line(s, key);
    assert(mapped =~= seq![r]);
    assert(mapped.drop_last() =~= Seq::<Seq<char>>::empty());
    assert(join_lines(mapped.drop_last()) =~= Seq::<char>::empty());
    assert(mapped.last() == r);
    assert(join_lines(mapped) =~= r + seq!['\n']);
    assert((r + seq!['\n']).drop_last() =~= r);
}

/// The line of a key, `=` and a value: the key's own redaction replaces the value.
proof fn lemma_own_key(k: Seq<char>, w: Seq<char>)
    requires
        is_secret_key(k),
    ensures
        redact_line(k + "="@ + w, k) == k + "=<redacted>"@,
{
    reveal_strlit("=");
    lemma_key_letters(k);
    let line = k + "="@ + w;
    let lo = lower(line);
    assert forall|j: int| 0 <= j < k.len() implies lo[j] == k[j] by {
        assert(lower(k)[j] == lower_char(k[j]));
    }
    assert(lo.subrange(0, k.len() as int) =~= k);
    assert(match_at(lo, k, 0));
    lemma_find_from_some(lo, k, 0, 0);
    let rest = line.subrange(k.len() as int, line.len() as int);
    assert(rest[0] == '=');
    assert(!is_ws('='));
    assert(trim_start(rest) == rest);
    assert(line.subrange(0, k.len() as int) =~= k);
}

/// The line of a key, `=` and a value keeps that form under another key's redaction; the
/// value stays where that key does not occur in it.
proof fn lemma_other_key(k: Seq<char>, w: Seq<char>, k2: Seq<char>) -> (w2: Seq<char>)
    requires
        is_secret_key(k),
        is_secret_key(k2),
        k != k2,
        single_line(w),
    ensures
        redact_line(k + "="@ + w, k2) == k + "="@ + w2,
        single_line(w2),
        (forall|q: int| !match_at(lower(w), k2, q)) ==> w2 == w,
{
    reveal_strlit("=");
    reveal_strlit("=<redacted>");
    let marker = seq!['=', '<', 'r', 'e', 'd', 'a', 'c', 't', 'e', 'd', '>'];
    assert("=<redacted>"@ =~= marker);
    lemma_key_letters(k);
    lemma_key_letters(k2);
    lemma_keys_apart(k, k2);
    let line = k + "="@ + w;
    let lo = lower(line);
    let kl = k.len() as int;
    assert forall|j: int| 0 <= j < kl implies lo[j] == k[j] by {
        assert(lower(k)[j] == lower_char(k[j]));
    }
    assert(lo[kl] == '=');
    assert forall|j: int| 0 <= j < w.len() implies lo[kl + 1 + j] == lower(w)[j] by {}
    assert forall|q: int| 0 <= q <= kl implies !match_at(lo, k2, q) by {
        if match_at(lo, k2, q) {
            if q + k2.len() <= kl {
                assert(k.subrange(q, q + k2.len()) =~= lo.subrange(q, q + k2.len()));
                assert(match_at(k, k2, q));
            } else {
                assert(lo.subrange(q, q + k2.len())[kl - q] == lo[kl]);
            }
        }
    }
    lemma_find_from_skip(lo, k2, 0, kl + 1);
    lemma_find_from_found(lo, k2, kl + 1);
    match find_first(lo, k2) {
        Some(p) => {
            let cut = p + k2.len();
            let after = trim_start(line.subrange(cut, line.len() as int));
            assert(lo.subrange(p, cut) =~= lower(w).subrange(p - kl - 1, cut - kl - 1));
            assert(match_at(lower(w), k2, p - kl - 1));
            if after.len() > 0 && (after[0] == '=' || after[0] == ':') {
                let w2 = w.subrange(0, cut - kl - 1) + "=<redacted>"@;
                assert(line.subrange(0, cut) + "=<redacted>"@ =~= k + "="@ + w2);
                w2
            } else {
                w
            }
        },
        None => w,
    }
}

/// One key's pass over the line of a key, `=` and a value.
proof fn lemma_step(k: Seq<char>, w: Seq<char>, k2: Seq<char>) -> (w2: Seq<char>)
    requires
        is_secret_key(k),
        is_secret_key(k2),
        single_line(w),
    ensures
        redact_key_value_text(k + "="@ + w, k2) == k + "="@ + w2,
        single_line(w2),
        k2 == k ==> w2 == "<redacted>"@,
        w == "<redacted>"@ ==> w2 == w,
{
    reveal_strlit("=");
    reveal_strlit("<redacted>");
    reveal_strlit("=<redacted>");
    let line = k + "="@ + w;
    lemma_key_letters(k);
    lemma_marker_holds_no_key(k2);
    assert(single_line(line)) by {
        assert forall|j: int| 0 <= j < line.len() implies line[j] != '\n' by {
            if j > k.len() {
                assert(line[j] == w[j - k.len() - 1]);
            }
        }
    }
    lemma_single_line(line, k2);
    if k2 == k {
        lemma_own_key(k, w);
        assert("=<redacted>"@ =~= "="@ + "<redacted>"@);
        assert(k + "=<redacted>"@ =~= k + "="@ + "<redacted>"@);
        "<redacted>"@
    } else {
        lemma_other_key(k, w, k2)
    }
}


/// The text put in place of a value: no capital, no line break or carriage return, and
/// no key occurs in it.
proof fn lemma_marker(k2: Seq<char>)
    requires
        is_secret_key(k2),
    ensures
        "=<redacted>"@.len() == 11,
        "=<redacted>"@[0] == '=',
        lower("=<redacted>"@) == "=<redacted>"@,
        forall|j: int| 0 <= j < 11 ==> "=<redacted>"@[j] != '\n' && "=<redacted>"@[j] != '\r',
        forall|q: int| !match_at("=<redacted>"@, k2, q),
{
    reveal_strlit("=<redacted>");
    reveal_strlit("token");
    reveal_strlit("apikey");
    reveal_strlit("secret");
    reveal_strlit("password");
    reveal_strlit("authorization");
    let m = seq!['=', '<', 'r', 'e', 'd', 'a', 'c', 't', 'e', 'd', '>'];
    assert("=<redacted>"@ =~= m);
    assert(lower(m) =~= m);
    assert("token"@ =~= seq!['t', 'o', 'k', 'e', 'n']);
    assert("apikey"@ =~= seq!['a', 'p', 'i', 'k', 'e', 'y']);
    assert("secret"@ =~= seq!['s', 'e', 'c', 'r', 'e', 't']);
    assert("password"@ =~= seq!['p', 'a', 's', 's', 'w', 'o', 'r', 'd']);
    assert("authorization"@ =~= seq!['a', 'u', 't', 'h', 'o', 'r', 'i', 'z', 'a', 't', 'i', 'o', 'n']);
    assert forall|q: int| !match_at(m, k2, q) by {
        if match_at(m, k2, q) {
            assert(m.subrange(q, q + k2.len())[0] == m[q]);
            assert(m.subrange(q, q + k2.len())[1] == m[q + 1]);
        }
    }
}

/// A key's letters are not white space, and no key ends another.
proof fn lemma_key_shape(a: Seq<char>, b: Seq<char>)
    requires
        is_secret_key(a),
        is_secret_key(b),
    ensures
        forall|j: int| 0 <= j < a.len() ==> !is_ws(a[j]) && a[j] != ':',
        a != b && b.len() <= a.len() ==> !match_at(a, b, a.len() - b.len()),
{
    reveal_strlit("token");
    reveal_strlit("apikey");
    reveal_strlit("secret");
    reveal_strlit("password");
    reveal_strlit("authorization");
    assert("token"@ =~= seq!['t', 'o', 'k', 'e', 'n']);
    assert("apikey"@ =~= seq!['a', 'p', 'i', 'k', 'e', 'y']);
    assert("secret"@ =~= seq!['s', 'e', 'c', 'r', 'e', 't']);
    assert("password"@ =~= seq!['p', 'a', 's', 's', 'w', 'o', 'r', 'd']);
    assert("authorization"@ =~= seq!['a', 'u', 't', 'h', 'o', 'r', 'i', 'z', 'a', 't', 'i', 'o', 'n']);
    if a != b && b.len() <= a.len() {
        lemma_keys_apart(a, b);
    }
}

/// The search finds no match before the first one.
proof fn lemma_find_from_first(h: Seq<char>, n: Seq<char>, i: int)
    requires
        0 <= i,
    ensures
        find_from(h, n, i) matches Some(p) ==> forall|q: int| i <= q < p ==> !match_at(h, n, q),
        find_from(h, n, i) is None ==> forall|q: int| i <= q ==> !match_at(h, n, q),
    decreases h.len() + 1 - i,
{
    if !(i + n.len() > h.len()) && !match_at(h, n, i) {
        lemma_find_from_first(h, n, i + 1);
    }
}

/// Lower-casing works letter by letter.
proof fn lemma_lower_concat(a: Seq<char>, b: Seq<char>)
    ensures
        lower(a + b) == lower(a) + lower(b),
{
    assert(lower(a + b) =~= lower(a) + lower(b));
}

/// Lower-casing keeps white space, `=` and `:`, and makes none of them.
proof fn lemma_lower_char(c: char)
    ensures
        is_ws(lower_char(c)) == is_ws(c),
        (lower_char(c) == '=') == (c == '='),
        (lower_char(c) == ':') == (c == ':'),
{
    if 'A' <= c && c <= 'Z' {
        assert(lower_char(c) as u32 == c as u32 + 32);
    }
}

/// Two texts that share a beginning holding a non-blank character lose the same blanks
/// at the front and then begin with the same character.
proof fn lemma_trim_start_shared(r: Seq<char>, t1: Seq<char>, t2: Seq<char>, m: int)
    requires
        0 <= m < r.len(),
        !is_ws(r[m]),
    ensures
        trim_start(r + t1).len() > 0,
        trim_start(r + t2).len() > 0,
        trim_start(r + t1)[0] == trim_start(r + t2)[0],
    decreases r.len(),
{
    if is_ws(r[0]) {
        assert((r + t1).drop_first() =~= r.drop_first() + t1);
        assert((r + t2).drop_first() =~= r.drop_first() + t2);
        lemma_trim_start_shared(r.drop_first(), t1, t2, m - 1);
    }
}

/// Redacting a line twice for one key is redacting it once.
pub proof fn law_redact_line_idempotent(x: Seq<char>, k: Seq<char>)
    requires
        is_secret_key(k),
    ensures
        redact_line(redact_line(x, k), k) == redact_line(x, k),
{
    lemma_marker(k);
    let y = redact_line(x, k);
    let lx = lower(x);
    let mk = "=<redacted>"@;
    if y != x {
        let p = find_first(lx, k)->0;
        let c = p + k.len();
        crate::text::lemma_find_first_matches(lx, k);
        lemma_find_from_first(lx, k, 0);
        assert(y == x.subrange(0, c) + mk);
        let ly = lower(y);
        lemma_lower_concat(x.subrange(0, c), mk);
        assert(lower(x.subrange(0, c)) =~= lx.subrange(0, c));
        assert(ly == lx.subrange(0, c) + mk);
        assert(ly.subrange(p, c) =~= lx.subrange(p, c));
        assert(match_at(ly, k, p));
        assert forall|q: int| 0 <= q < p implies !match_at(ly, k, q) by {
            if match_at(ly, k, q) {
                assert(ly.subrange(q, q + k.len()) =~= lx.subrange(q, q + k.len()));
                assert(match_at(lx, k, q));
            }
        }
        lemma_find_from_some(ly, k, 0, p);
        assert(y.subrange(c, y.len() as int) =~= mk);
        assert(!is_ws('='));
        assert(trim_start(mk) == mk);
        assert(y.subrange(0, c) =~= x.subrange(0, c));
    }
}


/// A line that one key leaves as it is stays so after another key's redaction.
proof fn lemma_cross_fixed(x: Seq<char>, a: Seq<char>, b: Seq<char>)
    requires
        is_secret_key(a),
        is_secret_key(b),
        a != b,
        redact_line(x, a) == x,
    ensures
        redact_line(redact_line(x, b), a) == redact_line(x, b),
{
    let y = redact_line(x, b);
    let mk = "=<redacted>"@;
    lemma_marker(a);
    lemma_marker(b);
    lemma_key_letters(a);
    lemma_key_letters(b);
    lemma_key_shape(a, b);
    lemma_key_shape(b, a);
    let lx = lower(x);
    if y != x {
        let p = find_first(lx, b)->0;
        let c = p + b.len();
        crate::text::lemma_find_first_matches(lx, b);
        assert(y == x.subrange(0, c) + mk);
        let ly = lower(y);
        lemma_lower_concat(x.subrange(0, c), mk);
        assert(lower(x.subrange(0, c)) =~= lx.subrange(0, c));
        assert(ly == lx.subrange(0, c) + mk);
        assert forall|q: int| match_at(ly, a, q) implies q + a.len() <= c && match_at(lx, a, q) by {
            if q + a.len() <= c {
                assert(ly.subrange(q, q + a.len()) =~= lx.subrange(q, q + a.len()));
            } else if q < c {
                assert(ly.subrange(q, q + a.len())[c - q] == ly[c]);
            } else {
                assert(ly.subrange(q, q + a.len()) =~= mk.subrange(q - c, q - c + a.len()));
                assert(match_at(mk, a, q - c));
            }
        }
        lemma_find_from_first(lx, a, 0);
        crate::text::lemma_find_first_matches(lx, a);
        match find_first(lx, a) {
            None => {
                assert forall|q: int| 0 <= q implies !match_at(ly, a, q) by {}
                lemma_find_from_none(ly, a, 0);
            },
            Some(i0) => {
                let e = i0 + a.len();
                if e > c {
                    assert forall|q: int| 0 <= q implies !match_at(ly, a, q) by {}
                    lemma_find_from_none(ly, a, 0);
                } else {
                    assert(ly.subrange(i0, e) =~= lx.subrange(i0, e));
                    assert(match_at(ly, a, i0));
                    lemma_find_from_some(ly, a, 0, i0);
                    if c == e {
                        if b.len() <= a.len() {
                            assert(a.subrange(a.len() - b.len(), a.len() as int) =~= lx.subrange(p, c));
                            assert(match_at(a, b, a.len() - b.len()));
                        } else {
                            assert(b.subrange(b.len() - a.len(), b.len() as int) =~= lx.subrange(i0, e));
                            assert(match_at(b, a, b.len() - a.len()));
                        }
                    }
                    let tail = x.subrange(c, x.len() as int);
                    let r = x.subrange(e, c);
                    assert(x.subrange(e, x.len() as int) =~= r + tail);
                    assert(y.subrange(e, y.len() as int) =~= r + mk);
                    let after_x = trim_start(x.subrange(e, x.len() as int));
                    if after_x.len() > 0 && (after_x[0] == '=' || after_x[0] == ':') {
                        assert(x == x.subrange(0, e) + mk);
                        lemma_lower_concat(x.subrange(0, e), mk);
                        assert(lx[e] == '=');
                        if p <= e {
                            assert(lx.subrange(p, c)[e - p] == lx[e]);
                        } else {
                            assert(lx.subrange(p, c) =~= mk.subrange(p - e, c - e));
                            assert(match_at(mk, b, p - e));
                        }
                    } else {
                        lemma_lower_char(x[c - 1]);
                        assert(lx.subrange(p, c)[b.len() - 1] == lx[c - 1]);
                        assert(!is_ws(r[c - 1 - e]));
                        lemma_trim_start_shared(r, tail, mk, c - 1 - e);
                    }
                }
            },
        }
    }
}


/// Every key's redaction of one line, in the order `redact_text` applies them.
pub open spec fn redact_line_all(l: Seq<char>) -> Seq<char> {
    let a = redact_line(l, "token"@);
    let b = redact_line(a, "apikey"@);
    let c = redact_line(b, "secret"@);
    let d = redact_line(c, "password"@);
    redact_line(d, "authorization"@)
}

/// After every key's redaction, no key changes the line any more.
proof fn lemma_line_all_fixed(l: Seq<char>)
    ensures
        redact_line_all(redact_line_all(l)) == redact_line_all(l),
{
    let t = "token"@;
    let ap = "apikey"@;
    let se = "secret"@;
    let pw = "password"@;
    let au = "authorization"@;
    reveal_strlit("token");
    reveal_strlit("apikey");
    reveal_strlit("secret");
    reveal_strlit("password");
    reveal_strlit("authorization");
    assert(ap[0] != se[0]);
    let y1 = redact_line(l, t);
    law_redact_line_idempotent(l, t);
    let y2 = redact_line(y1, ap);
    law_redact_line_idempotent(y1, ap);
    lemma_cross_fixed(y1, t, ap);
    let y3 = redact_line(y2, se);
    law_redact_line_idempotent(y2, se);
    lemma_cross_fixed(y2, t, se);
    lemma_cross_fixed(y2, ap, se);
    let y4 = redact_line(y3, pw);
    law_redact_line_idempotent(y3, pw);
    lemma_cross_fixed(y3, t, pw);
    lemma_cross_fixed(y3, ap, pw);
    lemma_cross_fixed(y3, se, pw);
    let y5 = redact_line(y4, au);
    law_redact_line_idempotent(y4, au);
    lemma_cross_fixed(y4, t, au);
    lemma_cross_fixed(y4, ap, au);
    lemma_cross_fixed(y4, se, au);
    lemma_cross_fixed(y4, pw, au);
}

/// `s` ends with a line break.
pub open spec fn ends_nl(s: Seq<char>) -> bool {
    s.len() > 0 && s.last() == '\n'
}

/// Lines joined by line breaks, the last break kept only where `e` asks for it.
pub open spec fn text_of(ls: Seq<Seq<char>>, e: bool) -> Seq<char> {
    let body = join_lines(ls);
    if e || body.len() == 0 {
        body
    } else {
        body.drop_last()
    }
}

/// Lines that `lines` gives back unchanged from `text_of(ls, e)`: none holds a line
/// break or a carriage return, a final break is asked for only where there is a line,
/// and without it the last line is not empty.
pub open spec fn plain_lines(ls: Seq<Seq<char>>, e: bool) -> bool {
    &&& forall|i: int, j: int| 0 <= i < ls.len() && 0 <= j < ls[i].len()
        ==> #[trigger] ls[i][j] != '\n' && ls[i][j] != '\r'
    &&& e ==> ls.len() > 0
    &&& (!e && ls.len() > 0) ==> ls.last().len() > 0
}

/// Each line redacted for one key.
pub open spec fn map_key(ls: Seq<Seq<char>>, k: Seq<char>) -> Seq<Seq<char>> {
    ls.map_values(|l: Seq<char>| redact_line(l, k))
}

/// `join_lines` seen from the front.
proof fn lemma_join_front(ls: Seq<Seq<char>>)
    requires
        ls.len() > 0,
    ensures
        join_lines(ls) == ls[0] + seq!['\n'] + join_lines(ls.drop_first()),
    decreases ls.len(),
{
    if ls.len() == 1 {
        assert(ls.drop_last() =~= Seq::<Seq<char>>::empty());
        assert(ls.drop_first() =~= Seq::<Seq<char>>::empty());
        assert(join_lines(ls) =~= ls[0] + seq!['\n'] + join_lines(ls.drop_first()));
    } else {
        lemma_join_front(ls.drop_last());
        assert(ls.drop_last().drop_first() =~= ls.drop_first().drop_last());
        assert(ls.drop_first().last() == ls.last());
        assert(ls.drop_last()[0] == ls[0]);
        assert(join_lines(ls) =~= ls[0] + seq!['\n'] + join_lines(ls.drop_first()));
    }
}

/// `join_lines` of lines is at least as long as its last line and ends with a break.
proof fn lemma_join_last(ls: Seq<Seq<char>>)
    requires
        ls.len() > 0,
    ensures
        join_lines(ls).len() > ls.last().len(),
        join_lines(ls).last() == '\n',
        ls.last().len() > 0 ==> join_lines(ls)[join_lines(ls).len() - 2] == ls.last().last(),
{
}

/// A line without a break is its own only line.
proof fn lemma_one_line(s: Seq<char>)
    requires
        s.len() > 0,
        single_line(s),
    ensures
        lines(s) == seq![s],
{
    lemma_next_nl(s, 0, s.len() as int);
    assert(s.subrange(0, s.len() as int) =~= s);
    assert(lines(s) =~= seq![s]);
}

/// `lines` gives back the lines that `text_of` joined, and whether the text ends with a
/// break.
proof fn lemma_round_trip(ls: Seq<Seq<char>>, e: bool)
    requires
        plain_lines(ls, e),
    ensures
        lines(text_of(ls, e)) == ls,
        ends_nl(text_of(ls, e)) == e,
        ls.len() > 0 ==> text_of(ls, e).len() > 0,
    decreases ls.len(),
{
    if ls.len() == 0 {
        assert(lines(Seq::<char>::empty()) =~= Seq::<Seq<char>>::empty());
    } else {
        let rest = ls.drop_first();
        let l0 = ls[0];
        assert(single_line(l0)) by {
            assert forall|j: int| 0 <= j < l0.len() implies l0[j] != '\n' by {
                assert(ls[0][j] != '\n');
            }
        }
        assert(strip_cr(l0) == l0) by {
            if l0.len() > 0 {
                assert(ls[0][l0.len() - 1] != '\r');
            }
        }
        lemma_join_front(ls);
        lemma_join_last(ls);
        assert(plain_lines(rest, rest.len() > 0)) by {
            assert forall|i: int, j: int| 0 <= i < rest.len() && 0 <= j < rest[i].len()
                implies #[trigger] rest[i][j] != '\n' && rest[i][j] != '\r' by {
                assert(rest[i] == ls[i + 1]);
                assert(ls[i + 1][j] != '\n' && ls[i + 1][j] != '\r');
            }
        }
        if e {
            // the text is every line followed by a break
            if rest.len() > 0 {
                lemma_round_trip(rest, true);
            } else {
                assert(join_lines(rest) =~= Seq::<char>::empty());
                assert(lines(Seq::<char>::empty()) =~= Seq::<Seq<char>>::empty());
            }
            lemma_lines_cons(l0, join_lines(rest));
            assert(lines(text_of(ls, e)) =~= seq![l0] + rest);
            assert(ls =~= seq![l0] + rest);
        } else if rest.len() == 0 {
            assert(ls.last() == l0);
            assert(join_lines(ls) =~= l0 + seq!['\n']);
            assert(text_of(ls, e) =~= l0);
            lemma_one_line(l0);
            assert(ls =~= seq![l0]);
        } else {
            assert(plain_lines(rest, false)) by {
                assert(rest.last() == ls.last());
            }
            lemma_round_trip(rest, false);
            lemma_join_last(rest);
            let tr = join_lines(rest).drop_last();
            assert(text_of(rest, false) == tr);
            assert(text_of(ls, e) =~= l0 + seq!['\n'] + tr);
            lemma_lines_cons(l0, tr);
            assert(ls =~= seq![l0] + rest);
        }
    }
}


/// The break that `next_nl` stops at.
proof fn lemma_next_nl_is_nl(s: Seq<char>, i: int)
    requires
        0 <= i <= s.len(),
        next_nl(s, i) < s.len(),
    ensures
        s[next_nl(s, i)] == '\n',
    decreases s.len() - i,
{
    if i < s.len() && s[i] != '\n' {
        lemma_next_nl_is_nl(s, i + 1);
    }
}

/// A text that does not end with a break has a last line, and it is not empty.
proof fn lemma_lines_last(s: Seq<char>, i: int)
    requires
        0 <= i < s.len(),
        s.last() != '\n',
    ensures
        lines_from(s, i).len() > 0,
        lines_from(s, i).last().len() > 0,
    decreases s.len() - i,
{
    let e = next_nl(s, i);
    lemma_next_nl_bounds(s, i);
    if e < s.len() {
        lemma_next_nl_is_nl(s, i);
        lemma_lines_last(s, e + 1);
    }
}

/// The lines of a text without carriage returns are plain.
proof fn lemma_lines_plain(s: Seq<char>)
    requires
        forall|j: int| 0 <= j < s.len() ==> s[j] != '\r',
    ensures
        plain_lines(lines(s), ends_nl(s)),
{
    lemma_lines_no_nl(s, 0);
    lemma_lines_no_cr(s, 0);
    if s.len() > 0 && s.last() != '\n' {
        lemma_lines_last(s, 0);
    }
}

/// Redaction of a line adds no break or carriage return, and leaves no line empty.
proof fn lemma_redact_line_chars(l: Seq<char>, k: Seq<char>)
    requires
        is_secret_key(k),
        forall|j: int| 0 <= j < l.len() ==> l[j] != '\n' && l[j] != '\r',
    ensures
        forall|j: int| 0 <= j < redact_line(l, k).len()
            ==> redact_line(l, k)[j] != '\n' && redact_line(l, k)[j] != '\r',
        l.len() > 0 ==> redact_line(l, k).len() > 0,
{
    lemma_marker(k);
    let r = redact_line(l, k);
    if r != l {
        let lx = lower(l);
        let p = find_first(lx, k)->0;
        let c = p + k.len();
        crate::text::lemma_find_first_matches(lx, k);
        let mk = "=<redacted>"@;
        assert(r == l.subrange(0, c) + mk);
        assert forall|j: int| 0 <= j < r.len() implies r[j] != '\n' && r[j] != '\r' by {
            if j < c {
                assert(r[j] == l[j]);
            } else {
                assert(r[j] == mk[j - c]);
            }
        }
    }
}

/// Plain lines stay plain under one key's redaction.
proof fn lemma_map_key_plain(ls: Seq<Seq<char>>, e: bool, k: Seq<char>)
    requires
        plain_lines(ls, e),
        is_secret_key(k),
    ensures
        plain_lines(map_key(ls, k), e),
{
    let m = map_key(ls, k);
    assert forall|i: int, j: int| 0 <= i < m.len() && 0 <= j < m[i].len()
        implies #[trigger] m[i][j] != '\n' && m[i][j] != '\r' by {
        assert forall|q: int| 0 <= q < ls[i].len() implies ls[i][q] != '\n' && ls[i][q] != '\r' by {
            assert(ls[i][q] != '\n' && ls[i][q] != '\r');
        }
        lemma_redact_line_chars(ls[i], k);
    }
    if !e && ls.len() > 0 {
        lemma_redact_line_chars(ls.last(), k);
        assert(m.last() == redact_line(ls.last(), k));
    }
}

/// One key's pass over a text made of plain lines redacts each line.
proof fn lemma_key_pass(ls: Seq<Seq<char>>, e: bool, k: Seq<char>)
    requires
        plain_lines(ls, e),
        is_secret_key(k),
    ensures
        redact_key_value_text(text_of(ls, e), k) == text_of(map_key(ls, k), e),
        plain_lines(map_key(ls, k), e),
{
    lemma_round_trip(ls, e);
    let t = text_of(ls, e);
    assert(lines(t).map_values(|l: Seq<char>| redact_line(l, k)) =~= map_key(ls, k));
    lemma_map_key_plain(ls, e, k);
}

/// Redacting a text that holds no carriage return a second time changes nothing.
pub proof fn law_redact_idempotent(s: Seq<char>)
    requires
        forall|j: int| 0 <= j < s.len() ==> s[j] != '\r',
    ensures
        redact_text(redact_text(s)) == redact_text(s),
{
    let t = "token"@;
    let ap = "apikey"@;
    let se = "secret"@;
    let pw = "password"@;
    let au = "authorization"@;
    let e = ends_nl(s);
    let l0 = lines(s);
    lemma_lines_plain(s);
    let l1 = map_key(l0, t);
    assert(lines(s).map_values(|l: Seq<char>| redact_line(l, t)) =~= l1);
    assert(redact_key_value_text(s, t) == text_of(l1, e));
    lemma_map_key_plain(l0, e, t);
    lemma_key_pass(l1, e, ap);
    let l2 = map_key(l1, ap);
    lemma_key_pass(l2, e, se);
    let l3 = map_key(l2, se);
    lemma_key_pass(l3, e, pw);
    let l4 = map_key(l3, pw);
    lemma_key_pass(l4, e, au);
    let l5 = map_key(l4, au);
    assert(redact_text(s) == text_of(l5, e));
    lemma_key_pass(l5, e, t);
    let m1 = map_key(l5, t);
    lemma_key_pass(m1, e, ap);
    let m2 = map_key(m1, ap);
    lemma_key_pass(m2, e, se);
    let m3 = map_key(m2, se);
    lemma_key_pass(m3, e, pw);
    let m4 = map_key(m3, pw);
    lemma_key_pass(m4, e, au);
    let m5 = map_key(m4, au);
    assert(redact_text(text_of(l5, e)) == text_of(m5, e));
    assert forall|i: int| 0 <= i < l5.len() implies m5[i] == l5[i] by {
        lemma_line_all_fixed(l0[i]);
        assert(l5[i] == redact_line_all(l0[i]));
        assert(m5[i] == redact_line_all(l5[i]));
    }
    assert(m5 =~= l5);
}

/// Whatever follows a secret key and `=` on a line, the line comes out as the key and
/// `=<redacted>`: the value never reaches the output.
pub proof fn law_secret_value_never_kept(key: Seq<char>, value: Seq<char>)
    requires
        is_secret_key(key),
        single_line(value),
    ensures
        redact_text(key + "="@ + value) == key + "=<redacted>"@,
{
    reveal_strlit("=");
    reveal_strlit("<redacted>");
    reveal_strlit("=<redacted>");
    let w1 = lemma_step(key, value, "token"@);
    let w2 = lemma_step(key, w1, "apikey"@);
    let w3 = lemma_step(key, w2, "secret"@);
    let w4 = lemma_step(key, w3, "password"@);
    let w5 = lemma_step(key, w4, "authorization"@);
    assert(w5 == "<redacted>"@);
    assert("=<redacted>"@ =~= "="@ + "<redacted>"@);
    assert(key + "=<redacted>"@ =~= key + "="@ + "<redacted>"@);
}

} // verus!
