//! Character-sequence helpers: the string operations the rules are written in.
//!
//! Every helper works on `Vec<char>` or `&str` and is specified over `Seq<char>`.
use vstd::prelude::*;
use vstd::string::*;

verus! {

/// `String::push`: claims that the string afterwards is the old one with the character
/// appended.
#[verifier::external_body]
pub(crate) fn push_char(s: &mut String, c: char)
    ensures
        final(s)@ == old(s)@.push(c),
{
    s.push(c);
}

/// The characters of `s`, in order.
pub fn chars_of(s: &str) -> (v: Vec<char>)
    ensures
        v@ == s@,
{
    let n = s.unicode_len();
    let mut v: Vec<char> = Vec::new();
    let mut i: usize = 0;
    while i < n
        invariant
            n == s@.len(),
            i <= n,
            v@ == s@.subrange(0, i as int),
        decreases n - i,
    {
        let c = s.get_char(i);
        v.push(c);
        i = i + 1;
    }
    v
}

/// A string holding exactly the characters of `v`.
pub fn string_of(v: &[char]) -> (s: String)
    ensures
        s@ == v@,
{
    let mut s = String::new();
    let mut i: usize = 0;
    while i < v.len()
        invariant
            i <= v.len(),
            s@ == v@.subrange(0, i as int),
        decreases v.len() - i,
    {
        push_char(&mut s, v[i]);
        i = i + 1;
    }
    s
}

/// Appends the characters of `w` to `out`.
pub fn extend_chars(out: &mut Vec<char>, w: &[char])
    ensures
        final(out)@ == old(out)@ + w@,
{
    let ghost start = out@;
    let mut i: usize = 0;
    while i < w.len()
        invariant
            i <= w.len(),
            out@ == start + w@.subrange(0, i as int),
        decreases w.len() - i,
    {
        out.push(w[i]);
        i = i + 1;
    }
}

/// ASCII lower-casing of one character (`char::to_ascii_lowercase`).
pub open spec fn lower_char(c: char) -> char {
    if 'A' <= c && c <= 'Z' {
        ((c as u32) + 32) as char
    } else {
        c
    }
}

/// ASCII lower-casing of a sequence (`str::to_ascii_lowercase`).
pub open spec fn lower(s: Seq<char>) -> Seq<char> {
    s.map_values(|c: char| lower_char(c))
}

pub fn to_lower_char(c: char) -> (r: char)
    ensures
        r == lower_char(c),
{
    if 'A' <= c && c <= 'Z' {
        let b: u8 = c as u8;
        (b + 32) as char
    } else {
        c
    }
}

pub fn to_lower(s: &[char]) -> (r: Vec<char>)
    ensures
        r@ == lower(s@),
{
    let mut r: Vec<char> = Vec::new();
    let mut i: usize = 0;
    while i < s.len()
        invariant
            i <= s.len(),
            r@ == lower(s@.subrange(0, i as int)),
        decreases s.len() - i,
    {
        let c = to_lower_char(s[i]);
        r.push(c);
        i = i + 1;
        assert(lower(s@.subrange(0, i as int)) =~= lower(s@.subrange(0, (i - 1) as int)).push(c));
    }
    assert(s@.subrange(0, s@.len() as int) =~= s@);
    r
}

/// Unicode white space, as `char::is_whitespace` decides it.
pub open spec fn is_ws(c: char) -> bool {
    ||| c == '\t' || c == '\n' || c == '\u{0B}' || c == '\u{0C}' || c == '\r' || c == ' '
    ||| c == '\u{85}' || c == '\u{A0}' || c == '\u{1680}'
    ||| ('\u{2000}' <= c && c <= '\u{200A}')
    ||| c == '\u{2028}' || c == '\u{2029}' || c == '\u{202F}' || c == '\u{205F}' || c == '\u{3000}'
}

pub fn is_whitespace(c: char) -> (r: bool)
    ensures
        r == is_ws(c),
{
    c == '\t' || c == '\n' || c == '\u{0B}' || c == '\u{0C}' || c == '\r' || c == ' '
        || c == '\u{85}' || c == '\u{A0}' || c == '\u{1680}' || ('\u{2000}' <= c && c <= '\u{200A}')
        || c == '\u{2028}' || c == '\u{2029}' || c == '\u{202F}' || c == '\u{205F}'
        || c == '\u{3000}'
}

/// `s` with leading white space removed (`str::trim_start`).
pub open spec fn trim_start(s: Seq<char>) -> Seq<char>
    decreases s.len(),
{
    if s.len() > 0 && is_ws(s[0]) {
        trim_start(s.drop_first())
    } else {
        s
    }
}

/// `s` with trailing white space removed (`str::trim_end`).
pub open spec fn trim_end(s: Seq<char>) -> Seq<char>
    decreases s.len(),
{
    if s.len() > 0 && is_ws(s.last()) {
        trim_end(s.drop_last())
    } else {
        s
    }
}

/// `s` with white space removed at both ends (`str::trim`).
pub open spec fn trim(s: Seq<char>) -> Seq<char> {
    trim_end(trim_start(s))
}

/// White space at the end of `b` is trimmed from `a + b` as from `b`; when `b` is all white
/// space, `a + b` trims as `a`.
pub proof fn lemma_trim_end_concat(a: Seq<char>, b: Seq<char>)
    ensures
        trim_end(a + b) == if trim_end(b).len() > 0 { a + trim_end(b) } else { trim_end(a) },
    decreases b.len(),
{
    if b.len() == 0 {
        assert(a + b =~= a);
    } else if is_ws(b.last()) {
        assert((a + b).drop_last() =~= a + b.drop_last());
        lemma_trim_end_concat(a, b.drop_last());
    }
}

/// Trimming the end twice is trimming it once.
pub proof fn lemma_trim_end_idem(s: Seq<char>)
    ensures
        trim_end(trim_end(s)) == trim_end(s),
    decreases s.len(),
{
    if s.len() > 0 && is_ws(s.last()) {
        lemma_trim_end_idem(s.drop_last());
    }
}

/// The trimmed end is a prefix, and it keeps a first character that is not white space.
pub proof fn lemma_trim_end_prefix(s: Seq<char>)
    ensures
        trim_end(s).len() <= s.len(),
        forall|k: int| 0 <= k < trim_end(s).len() ==> #[trigger] trim_end(s)[k] == s[k],
        s.len() > 0 && !is_ws(s[0]) ==> trim_end(s).len() > 0,
        trim_end(s).len() > 0 ==> !is_ws(trim_end(s).last()),
    decreases s.len(),
{
    if s.len() > 0 && is_ws(s.last()) {
        lemma_trim_end_prefix(s.drop_last());
    }
}

proof fn lemma_trim_start_push(a: Seq<char>, c: char)
    ensures
        trim_start(a.push(c)) == if trim_start(a).len() == 0 && is_ws(c) { Seq::<char>::empty() } else { trim_start(a).push(c) },
    decreases a.len(),
{
    if a.len() == 0 {
        assert(a.push(c).drop_first() =~= Seq::<char>::empty());
        assert(trim_start(Seq::<char>::empty()) == Seq::<char>::empty());
        assert(a =~= Seq::<char>::empty());
    } else if is_ws(a[0]) {
        assert(a.push(c).drop_first() =~= a.drop_first().push(c));
        lemma_trim_start_push(a.drop_first(), c);
    }
}

proof fn lemma_trim_start_keeps_last(s: Seq<char>)
    requires
        s.len() > 0,
        !is_ws(s.last()),
    ensures
        trim_start(s).len() > 0,
        trim_start(s).last() == s.last(),
    decreases s.len(),
{
    if is_ws(s[0]) {
        lemma_trim_start_keeps_last(s.drop_first());
    }
}

/// Trimming the start and trimming the end commute.
pub proof fn lemma_trim_commute(s: Seq<char>)
    ensures
        trim_start(trim_end(s)) == trim_end(trim_start(s)),
    decreases s.len(),
{
    if s.len() > 0 {
        let d = s.drop_last();
        if is_ws(s.last()) {
            lemma_trim_commute(d);
            assert(s =~= d.push(s.last()));
            lemma_trim_start_push(d, s.last());
            if trim_start(d).len() > 0 {
                assert(trim_start(d).push(s.last()).drop_last() =~= trim_start(d));
            }
        } else {
            lemma_trim_start_keeps_last(s);
        }
    }
}

/// Trimming both ends after trimming the end is trimming both ends.
pub proof fn lemma_trim_of_trim_end(s: Seq<char>)
    ensures
        trim(trim_end(s)) == trim(s),
{
    lemma_trim_commute(s);
    lemma_trim_end_idem(trim_start(s));
}

/// A text that starts with a character other than white space keeps it first when trimmed.
pub proof fn lemma_trim_first(s: Seq<char>)
    requires
        s.len() > 0,
        !is_ws(s[0]),
    ensures
        trim(s).len() > 0,
        trim(s)[0] == s[0],
{
    lemma_trim_end_prefix(s);
}

pub fn trim_start_chars(s: &[char]) -> (r: Vec<char>)
    ensures
        r@ == trim_start(s@),
{
    let mut i: usize = 0;
    assert(s@.subrange(0, s@.len() as int) =~= s@);
    while i < s.len() && is_whitespace(s[i])
        invariant
            i <= s.len(),
            trim_start(s@) == trim_start(s@.subrange(i as int, s@.len() as int)),
        decreases s.len() - i,
    {
        assert(s@.subrange(i as int, s@.len() as int).drop_first() =~= s@.subrange(
            i + 1,
            s@.len() as int,
        ));
        i = i + 1;
    }
    let mut r: Vec<char> = Vec::new();
    let mut j: usize = i;
    while j < s.len()
        invariant
            i <= j <= s.len(),
            r@ == s@.subrange(i as int, j as int),
        decreases s.len() - j,
    {
        r.push(s[j]);
        j = j + 1;
    }
    r
}

pub fn trim_end_chars(s: &[char]) -> (r: Vec<char>)
    ensures
        r@ == trim_end(s@),
{
    let mut n: usize = s.len();
    assert(s@.subrange(0, s@.len() as int) =~= s@);
    while n > 0 && is_whitespace(s[n - 1])
        invariant
            n <= s.len(),
            trim_end(s@) == trim_end(s@.subrange(0, n as int)),
        decreases n,
    {
        assert(s@.subrange(0, n as int).drop_last() =~= s@.subrange(0, n - 1));
        n = n - 1;
    }
    let mut r: Vec<char> = Vec::new();
    let mut j: usize = 0;
    while j < n
        invariant
            j <= n <= s.len(),
            r@ == s@.subrange(0, j as int),
        decreases n - j,
    {
        r.push(s[j]);
        j = j + 1;
    }
    r
}

pub fn trim_chars(s: &[char]) -> (r: Vec<char>)
    ensures
        r@ == trim(s@),
{
    let t = trim_start_chars(s);
    trim_end_chars(&t)
}

/// `s` with every trailing `c` removed (`str::trim_end_matches` with a character).
pub open spec fn trim_end_char(s: Seq<char>, c: char) -> Seq<char>
    decreases s.len(),
{
    if s.len() > 0 && s.last() == c {
        trim_end_char(s.drop_last(), c)
    } else {
        s
    }
}

pub fn trim_end_char_chars(s: &[char], c: char) -> (r: Vec<char>)
    ensures
        r@ == trim_end_char(s@, c),
{
    let mut n: usize = s.len();
    assert(s@.subrange(0, s@.len() as int) =~= s@);
    while n > 0 && s[n - 1] == c
        invariant
            n <= s.len(),
            trim_end_char(s@, c) == trim_end_char(s@.subrange(0, n as int), c),
        decreases n,
    {
        assert(s@.subrange(0, n as int).drop_last() =~= s@.subrange(0, n - 1));
        n = n - 1;
    }
    let mut r: Vec<char> = Vec::new();
    let mut j: usize = 0;
    while j < n
        invariant
            j <= n <= s.len(),
            r@ == s@.subrange(0, j as int),
        decreases n - j,
    {
        r.push(s[j]);
        j = j + 1;
    }
    r
}

/// `needle` occurs in `hay` starting at index `i`.
pub open spec fn match_at(hay: Seq<char>, needle: Seq<char>, i: int) -> bool {
    0 <= i && i + needle.len() <= hay.len() && hay.subrange(i, i + needle.len()) == needle
}

/// `needle` occurs somewhere in `hay` (`str::contains`).
pub open spec fn contains(hay: Seq<char>, needle: Seq<char>) -> bool {
    exists|i: int| match_at(hay, needle, i)
}

/// A text occurs in any text built around it.
pub proof fn lemma_contains_within(p: Seq<char>, s: Seq<char>, q: Seq<char>, x: Seq<char>)
    requires
        contains(s, x),
    ensures
        contains(p + s + q, x),
{
    let i = choose|i: int| match_at(s, x, i);
    assert((p + s + q).subrange(p.len() + i, p.len() + i + x.len()) =~= s.subrange(i, i + x.len()));
    assert(match_at(p + s + q, x, p.len() + i));
}

/// A text occurs in itself.
pub proof fn lemma_contains_self(x: Seq<char>)
    ensures
        contains(x, x),
{
    assert(x.subrange(0, x.len() as int) =~= x);
    assert(match_at(x, x, 0));
}

/// `s` begins with `p` (`str::starts_with`).
pub open spec fn starts_with(s: Seq<char>, p: Seq<char>) -> bool {
    match_at(s, p, 0)
}

pub fn match_at_exec(hay: &[char], needle: &[char], i: usize) -> (r: bool)
    ensures
        r == match_at(hay@, needle@, i as int),
{
    if i > hay.len() || needle.len() > hay.len() - i {
        return false;
    }
    let mut k: usize = 0;
    while k < needle.len()
        invariant
            i + needle.len() <= hay.len(),
            k <= needle.len(),
            forall|j: int| 0 <= j < k ==> hay@[i + j] == needle@[j],
        decreases needle.len() - k,
    {
        if hay[i + k] != needle[k] {
            assert(hay@.subrange(i as int, i + needle@.len())[k as int] != needle@[k as int]);
            return false;
        }
        k = k + 1;
    }
    assert(hay@.subrange(i as int, i + needle@.len()) =~= needle@);
    true
}

/// The first index at which `needle` occurs in `hay` (`str::find`).
pub fn find(hay: &[char], needle: &[char]) -> (r: Option<usize>)
    ensures
        r matches Some(i) ==> match_at(hay@, needle@, i as int) && forall|j: int|
            0 <= j < i ==> !match_at(hay@, needle@, j),
        r is None ==> !contains(hay@, needle@),
{
    if needle.len() > hay.len() {
        return None;
    }
    let last = hay.len() - needle.len();
    let mut i: usize = 0;
    while i < last
        invariant
            last == hay.len() - needle.len(),
            needle.len() <= hay.len(),
            i <= last,
            forall|j: int| 0 <= j < i ==> !match_at(hay@, needle@, j),
        decreases last - i,
    {
        if match_at_exec(hay, needle, i) {
            return Some(i);
        }
        i = i + 1;
    }
    if match_at_exec(hay, needle, last) {
        Some(last)
    } else {
        None
    }
}

pub fn contains_exec(hay: &[char], needle: &[char]) -> (r: bool)
    ensures
        r == contains(hay@, needle@),
{
    match find(hay, needle) {
        Some(_) => true,
        None => false,
    }
}

pub fn contains_str(hay: &[char], needle: &str) -> (r: bool)
    ensures
        r == contains(hay@, needle@),
{
    let n = chars_of(needle);
    contains_exec(hay, &n)
}

pub fn starts_with_str(s: &[char], p: &str) -> (r: bool)
    ensures
        r == starts_with(s@, p@),
{
    let pc = chars_of(p);
    match_at_exec(s, &pc, 0)
}

pub fn seq_eq(a: &[char], b: &[char]) -> (r: bool)
    ensures
        r == (a@ == b@),
{
    if a.len() != b.len() {
        return false;
    }
    let r = match_at_exec(a, b, 0);
    proof {
        if r {
            assert(a@.subrange(0, a@.len() as int) =~= a@);
        } else {
            if a@ == b@ {
                assert(a@.subrange(0, a@.len() as int) =~= a@);
            }
        }
    }
    r
}

pub fn str_eq(a: &[char], b: &str) -> (r: bool)
    ensures
        r == (a@ == b@),
{
    let bc = chars_of(b);
    seq_eq(a, &bc)
}

/// The part of `s` from `i` to `j`.
pub fn slice_chars(s: &[char], i: usize, j: usize) -> (r: Vec<char>)
    requires
        i <= j <= s.len(),
    ensures
        r@ == s@.subrange(i as int, j as int),
{
    let mut r: Vec<char> = Vec::new();
    let mut k: usize = i;
    while k < j
        invariant
            i <= k <= j <= s.len(),
            r@ == s@.subrange(i as int, k as int),
        decreases j - k,
    {
        r.push(s[k]);
        k = k + 1;
    }
    r
}

/// `s` with each `from` replaced by the characters of `to` (`str::replace` with a character).
pub open spec fn replace_char(s: Seq<char>, from: char, to: Seq<char>) -> Seq<char>
    decreases s.len(),
{
    if s.len() == 0 {
        seq![]
    } else {
        replace_char(s.drop_last(), from, to) + (if s.last() == from {
            to
        } else {
            seq![s.last()]
        })
    }
}

pub fn replace_char_exec(s: &[char], from: char, to: &[char]) -> (r: Vec<char>)
    ensures
        r@ == replace_char(s@, from, to@),
{
    let mut r: Vec<char> = Vec::new();
    let mut i: usize = 0;
    while i < s.len()
        invariant
            i <= s.len(),
            r@ == replace_char(s@.subrange(0, i as int), from, to@),
        decreases s.len() - i,
    {
        let ghost prev = r@;
        if s[i] == from {
            extend_chars(&mut r, to);
        } else {
            r.push(s[i]);
        }
        assert(s@.subrange(0, i + 1).drop_last() =~= s@.subrange(0, i as int));
        i = i + 1;
    }
    assert(s@.subrange(0, s@.len() as int) =~= s@);
    r
}


/// Index of the first `'\n'` at or after `i`, or `s.len()` when there is none.
pub open spec fn next_nl(s: Seq<char>, i: int) -> int
    decreases s.len() - i,
{
    if i < 0 || i >= s.len() {
        s.len() as int
    } else if s[i] == '\n' {
        i
    } else {
        next_nl(s, i + 1)
    }
}

/// Index of the first non-white-space character at or after `i`, or `s.len()`.
pub open spec fn next_non_ws(s: Seq<char>, i: int) -> int
    decreases s.len() - i,
{
    if i < 0 || i >= s.len() {
        s.len() as int
    } else if !is_ws(s[i]) {
        i
    } else {
        next_non_ws(s, i + 1)
    }
}

/// Index of the first white-space character at or after `i`, or `s.len()`.
pub open spec fn next_ws(s: Seq<char>, i: int) -> int
    decreases s.len() - i,
{
    if i < 0 || i >= s.len() {
        s.len() as int
    } else if is_ws(s[i]) {
        i
    } else {
        next_ws(s, i + 1)
    }
}

pub proof fn lemma_next_nl(s: Seq<char>, i: int, j: int)
    requires
        0 <= i <= j <= s.len(),
        forall|k: int| i <= k < j ==> s[k] != '\n',
        j == s.len() || s[j] == '\n',
    ensures
        next_nl(s, i) == j,
    decreases j - i,
{
    if i < j {
        lemma_next_nl(s, i + 1, j);
    }
}

pub proof fn lemma_next_nl_bounds(s: Seq<char>, i: int)
    requires
        0 <= i <= s.len(),
    ensures
        i <= next_nl(s, i) <= s.len(),
    decreases s.len() - i,
{
    if i < s.len() && s[i] != '\n' {
        lemma_next_nl_bounds(s, i + 1);
    }
}

pub proof fn lemma_next_non_ws(s: Seq<char>, i: int, j: int)
    requires
        0 <= i <= j <= s.len(),
        forall|k: int| i <= k < j ==> is_ws(s[k]),
        j == s.len() || !is_ws(s[j]),
    ensures
        next_non_ws(s, i) == j,
    decreases j - i,
{
    if i < j {
        lemma_next_non_ws(s, i + 1, j);
    }
}

pub proof fn lemma_next_non_ws_bounds(s: Seq<char>, i: int)
    requires
        0 <= i <= s.len(),
    ensures
        i <= next_non_ws(s, i) <= s.len(),
        next_non_ws(s, i) < s.len() ==> !is_ws(s[next_non_ws(s, i)]),
    decreases s.len() - i,
{
    if i < s.len() && is_ws(s[i]) {
        lemma_next_non_ws_bounds(s, i + 1);
    }
}

pub proof fn lemma_next_ws(s: Seq<char>, i: int, j: int)
    requires
        0 <= i <= j <= s.len(),
        forall|k: int| i <= k < j ==> !is_ws(s[k]),
        j == s.len() || is_ws(s[j]),
    ensures
        next_ws(s, i) == j,
    decreases j - i,
{
    if i < j {
        lemma_next_ws(s, i + 1, j);
    }
}

pub proof fn lemma_next_ws_bounds(s: Seq<char>, i: int)
    requires
        0 <= i <= s.len(),
    ensures
        i <= next_ws(s, i) <= s.len(),
    decreases s.len() - i,
{
    if i < s.len() && !is_ws(s[i]) {
        lemma_next_ws_bounds(s, i + 1);
    }
}

/// A line with one trailing carriage return removed.
pub open spec fn strip_cr(l: Seq<char>) -> Seq<char> {
    if l.len() > 0 && l.last() == '\r' {
        l.drop_last()
    } else {
        l
    }
}

/// The lines of `s` from index `i` on.
pub open spec fn lines_from(s: Seq<char>, i: int) -> Seq<Seq<char>>
    decreases s.len() - i,
{
    if i < 0 || i >= s.len() {
        seq![]
    } else {
        let e = next_nl(s, i);
        proof {
            lemma_next_nl_bounds(s, i);
        }
        if e < s.len() {
            seq![strip_cr(s.subrange(i, e))] + lines_from(s, e + 1)
        } else {
            seq![s.subrange(i, s.len() as int)]
        }
    }
}

/// The lines of `s` (`str::lines`): split at `'\n'`, a `'\r'` before the `'\n'` dropped,
/// and no empty last line after a final `'\n'`.
pub open spec fn lines(s: Seq<char>) -> Seq<Seq<char>> {
    lines_from(s, 0)
}

/// Newline search in `p + q` past `p` is newline search in `q`.
pub proof fn lemma_next_nl_shift(p: Seq<char>, q: Seq<char>, j: int)
    requires
        0 <= j <= q.len(),
    ensures
        next_nl(p + q, p.len() + j) == p.len() + next_nl(q, j),
    decreases q.len() - j,
{
    if j < q.len() && q[j] != '\n' {
        lemma_next_nl_shift(p, q, j + 1);
    }
}

/// The lines of `p + q` from a position past `p` are the lines of `q` from there.
pub proof fn lemma_lines_shift(p: Seq<char>, q: Seq<char>, j: int)
    requires
        0 <= j <= q.len(),
    ensures
        lines_from(p + q, p.len() + j) == lines_from(q, j),
    decreases q.len() - j,
{
    if j < q.len() {
        let s = p + q;
        lemma_next_nl_shift(p, q, j);
        lemma_next_nl_bounds(q, j);
        let e = next_nl(q, j);
        assert(s.subrange(p.len() + j, p.len() + e) =~= q.subrange(j, e));
        assert(s.subrange(p.len() + j, s.len() as int) =~= q.subrange(j, q.len() as int));
        if e < q.len() {
            lemma_lines_shift(p, q, e + 1);
        }
    }
}

/// A line without a line break, a line break, and more text: the line (without a final
/// carriage return) comes first, then the lines of the rest.
pub proof fn lemma_lines_cons(l: Seq<char>, q: Seq<char>)
    requires
        forall|k: int| 0 <= k < l.len() ==> l[k] != '\n',
    ensures
        lines(l + seq!['\n'] + q) == seq![strip_cr(l)] + lines(q),
{
    let s = l + seq!['\n'] + q;
    lemma_next_nl(s, 0, l.len() as int);
    assert(s.subrange(0, l.len() as int) =~= l);
    assert(s =~= (l + seq!['\n']) + q);
    lemma_lines_shift(l + seq!['\n'], q, 0);
}

/// No line contains a line break.
pub proof fn lemma_lines_no_nl(s: Seq<char>, i: int)
    ensures
        forall|a: int, k: int| 0 <= a < lines_from(s, i).len() && 0 <= k < lines_from(s, i)[a].len()
            ==> #[trigger] lines_from(s, i)[a][k] != '\n',
    decreases s.len() - i,
{
    if 0 <= i < s.len() {
        let e = next_nl(s, i);
        lemma_next_nl_bounds(s, i);
        let ls = lines_from(s, i);
        assert forall|k: int| i <= k < e implies s[k] != '\n' by {
            lemma_next_nl_first(s, i, k);
        }
        let first = if e < s.len() { strip_cr(s.subrange(i, e)) } else { s.subrange(i, s.len() as int) };
        assert(ls[0] == first);
        assert forall|k: int| 0 <= k < first.len() implies first[k] != '\n' by {
            assert(first[k] == s[i + k]);
        }
        if e < s.len() {
            lemma_lines_no_nl(s, e + 1);
            assert forall|a: int, k: int| 0 <= a < ls.len() && 0 <= k < ls[a].len() implies #[trigger] ls[a][k] != '\n' by {
                if a > 0 {
                    assert(ls[a] == lines_from(s, e + 1)[a - 1]);
                }
            }
        }
    }
}

/// Where a text holds no carriage return, neither does any of its lines.
pub proof fn lemma_lines_no_cr(s: Seq<char>, i: int)
    requires
        forall|j: int| 0 <= j < s.len() ==> s[j] != '\r',
    ensures
        forall|a: int, k: int| 0 <= a < lines_from(s, i).len() && 0 <= k < lines_from(s, i)[a].len()
            ==> #[trigger] lines_from(s, i)[a][k] != '\r',
    decreases s.len() - i,
{
    if 0 <= i < s.len() {
        let e = next_nl(s, i);
        lemma_next_nl_bounds(s, i);
        let ls = lines_from(s, i);
        let first = if e < s.len() { strip_cr(s.subrange(i, e)) } else { s.subrange(i, s.len() as int) };
        assert(ls[0] == first);
        assert forall|k: int| 0 <= k < first.len() implies first[k] != '\r' by {
            assert(first[k] == s[i + k]);
        }
        if e < s.len() {
            lemma_lines_no_cr(s, e + 1);
            assert forall|a: int, k: int| 0 <= a < ls.len() && 0 <= k < ls[a].len() implies #[trigger] ls[a][k] != '\r' by {
                if a > 0 {
                    assert(ls[a] == lines_from(s, e + 1)[a - 1]);
                }
            }
        }
    }
}

/// Nothing before the first newline at or after `i` is a newline.
pub proof fn lemma_next_nl_first(s: Seq<char>, i: int, k: int)
    requires
        0 <= i <= k < next_nl(s, i),
        i < s.len(),
    ensures
        s[k] != '\n',
    decreases k - i,
{
    lemma_next_nl_bounds(s, i);
    if i < k {
        lemma_next_nl_first(s, i + 1, k);
    }
}

/// The white-space separated words of `s` from index `i` on.
pub open spec fn words_from(s: Seq<char>, i: int) -> Seq<Seq<char>>
    decreases s.len() - i,
{
    if i < 0 || i >= s.len() {
        seq![]
    } else {
        let b = next_non_ws(s, i);
        proof {
            lemma_next_non_ws_bounds(s, i);
        }
        if b >= s.len() {
            seq![]
        } else {
            let e = next_ws(s, b);
            proof {
                lemma_next_ws_bounds(s, b + 1);
            }
            seq![s.subrange(b, e)] + words_from(s, e)
        }
    }
}

/// The words of `s` (`str::split_whitespace`).
pub open spec fn words(s: Seq<char>) -> Seq<Seq<char>> {
    words_from(s, 0)
}

/// The pieces of `ws` joined with `sep` between them (`[T]::join`).
pub open spec fn join(ws: Seq<Seq<char>>, sep: Seq<char>) -> Seq<char>
    decreases ws.len(),
{
    if ws.len() == 0 {
        seq![]
    } else if ws.len() == 1 {
        ws[0]
    } else {
        join(ws.drop_last(), sep) + sep + ws.last()
    }
}

/// Each piece of `ls` followed by a `'\n'`.
pub open spec fn join_lines(ls: Seq<Seq<char>>) -> Seq<char>
    decreases ls.len(),
{
    if ls.len() == 0 {
        seq![]
    } else {
        join_lines(ls.drop_last()) + ls.last() + seq!['\n']
    }
}

/// The views of a vector of character vectors.
pub open spec fn views(v: Seq<Vec<char>>) -> Seq<Seq<char>> {
    v.map_values(|x: Vec<char>| x@)
}

pub fn lines_exec(s: &[char]) -> (r: Vec<Vec<char>>)
    ensures
        views(r@) == lines(s@),
{
    let mut r: Vec<Vec<char>> = Vec::new();
    let mut start: usize = 0;
    let mut i: usize = 0;
    while i < s.len()
        invariant
            start <= i <= s.len(),
            forall|k: int| start <= k < i ==> s@[k] != '\n',
            lines(s@) == views(r@) + lines_from(s@, start as int),
        decreases s.len() - i,
    {
        if s[i] == '\n' {
            proof {
                lemma_next_nl(s@, start as int, i as int);
            }
            let mut line = slice_chars(s, start, i);
            if line.len() > 0 && line[line.len() - 1] == '\r' {
                line.pop();
            }
            assert(line@ == strip_cr(s@.subrange(start as int, i as int)));
            let ghost before = views(r@);
            r.push(line);
            assert(views(r@) =~= before.push(line@));
            start = i + 1;
        }
        i = i + 1;
    }
    if start < s.len() {
        proof {
            lemma_next_nl(s@, start as int, s@.len() as int);
        }
        let line = slice_chars(s, start, s.len());
        let ghost before = views(r@);
        r.push(line);
        assert(views(r@) =~= before.push(line@));
    }
    assert(views(r@) =~= lines(s@));
    r
}

pub fn words_exec(s: &[char]) -> (r: Vec<Vec<char>>)
    ensures
        views(r@) == words(s@),
{
    let mut r: Vec<Vec<char>> = Vec::new();
    let mut i: usize = 0;
    while i < s.len()
        invariant
            i <= s.len(),
            words(s@) == views(r@) + words_from(s@, i as int),
        decreases s.len() - i,
    {
        let mut b: usize = i;
        while b < s.len() && is_whitespace(s[b])
            invariant
                i <= b <= s.len(),
                forall|k: int| i <= k < b ==> is_ws(s@[k]),
            decreases s.len() - b,
        {
            b = b + 1;
        }
        proof {
            lemma_next_non_ws(s@, i as int, b as int);
        }
        if b == s.len() {
            assert(words_from(s@, i as int) =~= Seq::<Seq<char>>::empty());
            i = b;
        } else {
            let mut e: usize = b + 1;
            while e < s.len() && !is_whitespace(s[e])
                invariant
                    b < e <= s.len(),
                    forall|k: int| b <= k < e ==> !is_ws(s@[k]),
                decreases s.len() - e,
            {
                e = e + 1;
            }
            proof {
                lemma_next_ws(s@, b as int, e as int);
            }
            let w = slice_chars(s, b, e);
            let ghost before = views(r@);
            r.push(w);
            assert(views(r@) =~= before.push(w@));
            i = e;
        }
    }
    assert(words_from(s@, s@.len() as int) =~= Seq::<Seq<char>>::empty());
    assert(views(r@) =~= words(s@));
    r
}

pub fn join_exec(ws: &Vec<Vec<char>>, sep: &[char]) -> (r: Vec<char>)
    ensures
        r@ == join(views(ws@), sep@),
{
    let mut r: Vec<char> = Vec::new();
    let mut i: usize = 0;
    while i < ws.len()
        invariant
            i <= ws.len(),
            r@ == join(views(ws@).subrange(0, i as int), sep@),
        decreases ws.len() - i,
    {
        let ghost pre = views(ws@).subrange(0, i as int);
        if i > 0 {
            extend_chars(&mut r, sep);
        }
        extend_chars(&mut r, &ws[i]);
        assert(views(ws@).subrange(0, i + 1).drop_last() =~= pre);
        i = i + 1;
    }
    assert(views(ws@).subrange(0, ws.len() as int) =~= views(ws@));
    r
}

/// Runs of white space in `s` collapsed to single spaces, and white space at both ends
/// removed (`split_whitespace` joined with `" "`).
pub open spec fn collapse_ws(s: Seq<char>) -> Seq<char> {
    join(words(s), seq![' '])
}

/// `f` is words of characters other than white space, one space between each two.
pub open spec fn spaced_words(f: Seq<char>) -> bool {
    &&& f.len() > 0
    &&& !is_ws(f[0])
    &&& !is_ws(f.last())
    &&& forall|t: int| 0 < t < f.len() - 1 && is_ws(#[trigger] f[t]) ==> f[t] == ' ' && !is_ws(f[t - 1]) && !is_ws(
        f[t + 1],
    )
}

proof fn lemma_next_ws_props(s: Seq<char>, i: int)
    requires
        0 <= i <= s.len(),
    ensures
        i <= next_ws(s, i) <= s.len(),
        forall|k: int| i <= k < next_ws(s, i) ==> !is_ws(#[trigger] s[k]),
        next_ws(s, i) < s.len() ==> is_ws(s[next_ws(s, i)]),
    decreases s.len() - i,
{
    if i < s.len() && !is_ws(s[i]) {
        lemma_next_ws_props(s, i + 1);
    }
}

proof fn lemma_next_non_ws_props(s: Seq<char>, i: int)
    requires
        0 <= i <= s.len(),
    ensures
        i <= next_non_ws(s, i) <= s.len(),
        forall|k: int| i <= k < next_non_ws(s, i) ==> is_ws(#[trigger] s[k]),
        next_non_ws(s, i) < s.len() ==> !is_ws(s[next_non_ws(s, i)]),
    decreases s.len() - i,
{
    if i < s.len() && is_ws(s[i]) {
        lemma_next_non_ws_props(s, i + 1);
    }
}

proof fn lemma_join_cons(w: Seq<char>, rest: Seq<Seq<char>>, sep: Seq<char>)
    ensures
        join(seq![w] + rest, sep) == if rest.len() == 0 {
            w
        } else {
            w + sep + join(rest, sep)
        },
    decreases rest.len(),
{
    if rest.len() == 0 {
        assert(seq![w] + rest =~= seq![w]);
    } else {
        let all = seq![w] + rest;
        assert(all.drop_last() =~= seq![w] + rest.drop_last());
        lemma_join_cons(w, rest.drop_last(), sep);
        if rest.len() == 1 {
            assert(rest.drop_last() =~= Seq::<Seq<char>>::empty());
            assert(join(rest, sep) == rest[0]);
        } else {
            assert(join(rest, sep) == join(rest.drop_last(), sep) + sep + rest.last());
            assert(w + sep + join(rest, sep) =~= (w + sep + join(rest.drop_last(), sep)) + sep + rest.last());
        }
    }
}

proof fn lemma_join_empty(ws: Seq<Seq<char>>, sep: Seq<char>)
    requires
        join(ws, sep).len() > 0,
    ensures
        ws.len() > 0,
{
}

/// Collapsing white space keeps every occurrence of words separated by single spaces: an
/// occurrence at or after `i` is found again in the words from `i` joined by spaces, and
/// at their start when only white space comes before it.
pub proof fn lemma_collapse_keeps(s: Seq<char>, f: Seq<char>, i: int, k: int)
    requires
        spaced_words(f),
        0 <= i <= k,
        match_at(s, f, k),
    ensures
        contains(join(words_from(s, i), seq![' ']), f),
        next_non_ws(s, i) == k ==> starts_with(join(words_from(s, i), seq![' ']), f),
    decreases s.len() - i,
{
    let sp = seq![' '];
    lemma_next_non_ws_props(s, i);
    let b = next_non_ws(s, i);
    assert(s[k] == f[0]);
    if b > k {
        assert(is_ws(s[k]));
    }
    assert(b <= k);
    lemma_next_ws_props(s, b);
    let e = next_ws(s, b);
    let w = s.subrange(b, e);
    let rest = words_from(s, e);
    assert(words_from(s, i) == seq![w] + rest);
    lemma_join_cons(w, rest, sp);
    let j = join(words_from(s, i), sp);
    if k >= e {
        lemma_collapse_keeps(s, f, e, k);
        let jr = join(rest, sp);
        let x = choose|x: int| match_at(jr, f, x);
        lemma_join_empty(rest, sp);
        assert(j == w + sp + jr);
        assert(j.subrange(w.len() + 1 + x, w.len() + 1 + x + f.len()) =~= jr.subrange(x, x + f.len()));
        assert(match_at(j, f, w.len() + 1 + x));
    } else if e >= k + f.len() {
        assert forall|t: int| 0 <= t < f.len() implies j[k - b + t] == f[t] by {
            assert(s[k + t] == f[t]);
        }
        assert(j.subrange(k - b, k - b + f.len()) =~= f);
        assert(match_at(j, f, k - b));
    } else {
        let t = e - k;
        assert(s[e] == f[t]);
        assert(0 < t);
        assert(t < f.len() - 1);
        assert(f[t] == ' ' && !is_ws(f[t + 1]));
        let g = f.subrange(t + 1, f.len() as int);
        assert(g[0] == f[t + 1]);
        assert(g.last() == f.last());
        assert forall|u: int| 0 < u < g.len() - 1 && is_ws(#[trigger] g[u]) implies g[u] == ' ' && !is_ws(g[u - 1])
            && !is_ws(g[u + 1]) by {
            assert(g[u] == f[t + 1 + u]);
            assert(g[u - 1] == f[t + u]);
            assert(g[u + 1] == f[t + 2 + u]);
        }
        assert(spaced_words(g));
        assert(s.subrange(e + 1, e + 1 + g.len()) =~= g) by {
            assert forall|u: int| 0 <= u < g.len() implies s[e + 1 + u] == g[u] by {
                assert(s[k + t + 1 + u] == f[t + 1 + u]);
            }
        }
        assert(match_at(s, g, e + 1));
        assert(s[e + 1] == g[0]);
        lemma_next_non_ws(s, e, e + 1);
        lemma_collapse_keeps(s, g, e, e + 1);
        let jr = join(rest, sp);
        lemma_join_empty(rest, sp);
        assert(j == w + sp + jr);
        assert forall|u: int| 0 <= u < f.len() implies j[k - b + u] == f[u] by {
            if u < t {
                assert(s[k + u] == f[u]);
            } else if u > t {
                assert(jr[u - t - 1] == g[u - t - 1]);
            }
        }
        assert(j.subrange(k - b, k - b + f.len()) =~= f);
        assert(match_at(j, f, k - b));
    }
}

pub fn collapse_ws_exec(s: &[char]) -> (r: Vec<char>)
    ensures
        r@ == collapse_ws(s@),
{
    let ws = words_exec(s);
    let mut sep: Vec<char> = Vec::new();
    sep.push(' ');
    assert(sep@ =~= seq![' ']);
    join_exec(&ws, &sep)
}


/// The first index at or after `i` at which `needle` occurs in `hay`.
pub open spec fn find_from(hay: Seq<char>, needle: Seq<char>, i: int) -> Option<int>
    decreases hay.len() + 1 - i,
{
    if i < 0 || i + needle.len() > hay.len() {
        None
    } else if match_at(hay, needle, i) {
        Some(i)
    } else {
        find_from(hay, needle, i + 1)
    }
}

/// The first index at which `needle` occurs in `hay` (`str::find`).
pub open spec fn find_first(hay: Seq<char>, needle: Seq<char>) -> Option<int> {
    find_from(hay, needle, 0)
}

pub proof fn lemma_find_from_some(hay: Seq<char>, needle: Seq<char>, i: int, j: int)
    requires
        0 <= i <= j,
        match_at(hay, needle, j),
        forall|k: int| i <= k < j ==> !match_at(hay, needle, k),
    ensures
        find_from(hay, needle, i) == Some(j),
    decreases j - i,
{
    if i < j {
        lemma_find_from_some(hay, needle, i + 1, j);
    }
}

pub proof fn lemma_find_from_none(hay: Seq<char>, needle: Seq<char>, i: int)
    requires
        0 <= i,
        forall|k: int| i <= k ==> !match_at(hay, needle, k),
    ensures
        find_from(hay, needle, i) is None,
    decreases hay.len() + 1 - i,
{
    if i + needle.len() <= hay.len() {
        lemma_find_from_none(hay, needle, i + 1);
    }
}

/// `find` with its result stated as `find_first`.
pub fn find_first_exec(hay: &[char], needle: &[char]) -> (r: Option<usize>)
    ensures
        match r {
            Some(i) => find_first(hay@, needle@) == Some(i as int),
            None => find_first(hay@, needle@) is None,
        },
{
    let r = find(hay, needle);
    proof {
        match r {
            Some(i) => lemma_find_from_some(hay@, needle@, 0, i as int),
            None => lemma_find_from_none(hay@, needle@, 0),
        }
    }
    r
}


pub proof fn lemma_find_first_matches(hay: Seq<char>, needle: Seq<char>)
    ensures
        find_first(hay, needle) matches Some(i) ==> match_at(hay, needle, i),
{
    lemma_find_from_matches(hay, needle, 0);
}

proof fn lemma_find_from_matches(hay: Seq<char>, needle: Seq<char>, i: int)
    ensures
        find_from(hay, needle, i) matches Some(j) ==> match_at(hay, needle, j),
    decreases hay.len() + 1 - i,
{
    if !(i < 0 || i + needle.len() > hay.len()) && !match_at(hay, needle, i) {
        lemma_find_from_matches(hay, needle, i + 1);
    }
}


/// The view of an optional string.
pub open spec fn opt_view(o: Option<String>) -> Option<Seq<char>> {
    match o {
        Some(s) => Some(s@),
        None => None,
    }
}

} // verus!
