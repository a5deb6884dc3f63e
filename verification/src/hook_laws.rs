//! What installing and uninstalling do to the user's own Codex configuration.
use vstd::prelude::*;
use vstd::string::*;
use crate::hooks::{
    append_hooks_text, end_marker, escape_quotes, event_block, event_blocks, hook_events, kept_lines,
    managed_block_text, remove_managed_text, start_marker,
};
use crate::text::{
    is_ws, lemma_lines_cons, lemma_lines_no_cr, lemma_lines_no_nl, lemma_trim_end_concat, lemma_trim_end_idem, lemma_trim_end_prefix, lemma_trim_first,
    lemma_trim_of_trim_end, lines, replace_char, strip_cr, trim, trim_end, trim_start,
};

verus! {

/// A line that `lines` gives back as it is: no line break in it, no carriage return at its end.
pub open spec fn plain_line(l: Seq<char>) -> bool {
    &&& forall|k: int| 0 <= k < l.len() ==> l[k] != '\n'
    &&& !(l.len() > 0 && l.last() == '\r')
}

/// A line without a line break that is not a marker line.
pub open spec fn user_line(l: Seq<char>) -> bool {
    &&& forall|k: int| 0 <= k < l.len() ==> l[k] != '\n'
    &&& trim(l) != start_marker()
    &&& trim(l) != end_marker()
}

/// The line ends with a carriage return.
pub open spec fn ends_with_cr(l: Seq<char>) -> bool {
    l.len() > 0 && l.last() == '\r'
}

/// Each line followed by a line break.
pub open spec fn line_block(ls: Seq<Seq<char>>) -> Seq<char>
    decreases ls.len(),
{
    if ls.len() == 0 {
        seq![]
    } else {
        ls[0] + seq!['\n'] + line_block(ls.drop_first())
    }
}

proof fn lemma_line_block_lines(ls: Seq<Seq<char>>, q: Seq<char>)
    requires
        forall|i: int| 0 <= i < ls.len() ==> plain_line(#[trigger] ls[i]),
    ensures
        lines(line_block(ls) + q) == ls + lines(q),
    decreases ls.len(),
{
    if ls.len() == 0 {
        assert(line_block(ls) + q =~= q);
        assert(ls + lines(q) =~= lines(q));
    } else {
        let rest = ls.drop_first();
        assert(plain_line(ls[0]));
        assert forall|i: int| 0 <= i < rest.len() implies plain_line(#[trigger] rest[i]) by {
            assert(rest[i] == ls[i + 1]);
        }
        lemma_line_block_lines(rest, q);
        assert(line_block(ls) + q =~= ls[0] + seq!['\n'] + (line_block(rest) + q));
        lemma_lines_cons(ls[0], line_block(rest) + q);
        assert(ls + lines(q) =~= seq![ls[0]] + (rest + lines(q)));
    }
}

proof fn lemma_line_block_push(ls: Seq<Seq<char>>, l: Seq<char>)
    ensures
        line_block(ls.push(l)) == line_block(ls) + l + seq!['\n'],
    decreases ls.len(),
{
    if ls.len() == 0 {
        assert(ls.push(l).drop_first() =~= Seq::<Seq<char>>::empty());
        assert(line_block(Seq::<Seq<char>>::empty()) == Seq::<char>::empty());
        assert(line_block(ls.push(l)) =~= l + seq!['\n']);
        assert(line_block(ls) + l + seq!['\n'] =~= l + seq!['\n']);
    } else {
        assert(ls.push(l).drop_first() =~= ls.drop_first().push(l));
        lemma_line_block_push(ls.drop_first(), l);
        assert(line_block(ls.push(l)) =~= line_block(ls) + l + seq!['\n']);
    }
}

proof fn lemma_line_block_concat(a: Seq<Seq<char>>, b: Seq<Seq<char>>)
    ensures
        line_block(a + b) == line_block(a) + line_block(b),
    decreases a.len(),
{
    if a.len() == 0 {
        assert(a + b =~= b);
        assert(line_block(a) + line_block(b) =~= line_block(b));
    } else {
        assert((a + b).drop_first() =~= a.drop_first() + b);
        assert((a + b)[0] == a[0]);
        lemma_line_block_concat(a.drop_first(), b);
        assert(line_block(a + b) =~= line_block(a) + line_block(b));
    }
}

proof fn lemma_kept_user_prefix(a: Seq<Seq<char>>, rest: Seq<Seq<char>>)
    requires
        forall|i: int| 0 <= i < a.len() ==> user_line(#[trigger] a[i]),
    ensures
        kept_lines(a + rest, false) == line_block(a) + kept_lines(rest, false),
    decreases a.len(),
{
    if a.len() == 0 {
        assert(a + rest =~= rest);
        assert(line_block(a) + kept_lines(rest, false) =~= kept_lines(rest, false));
    } else {
        assert(user_line(a[0]));
        assert((a + rest)[0] == a[0]);
        assert((a + rest).drop_first() =~= a.drop_first() + rest);
        assert forall|i: int| 0 <= i < a.drop_first().len() implies user_line(#[trigger] a.drop_first()[i]) by {
            assert(a.drop_first()[i] == a[i + 1]);
        }
        lemma_kept_user_prefix(a.drop_first(), rest);
        assert(kept_lines(a + rest, false) =~= line_block(a) + kept_lines(rest, false));
    }
}

/// The lines `kept_lines` keeps, in order.
pub open spec fn kept_list(ls: Seq<Seq<char>>, skipping: bool) -> Seq<Seq<char>>
    decreases ls.len(),
{
    if ls.len() == 0 {
        seq![]
    } else {
        let l = ls[0];
        if trim(l) == start_marker() {
            kept_list(ls.drop_first(), true)
        } else if trim(l) == end_marker() {
            kept_list(ls.drop_first(), false)
        } else if skipping {
            kept_list(ls.drop_first(), true)
        } else {
            seq![l] + kept_list(ls.drop_first(), false)
        }
    }
}

proof fn lemma_kept_list(ls: Seq<Seq<char>>, skipping: bool)
    requires
        forall|i: int, k: int| 0 <= i < ls.len() && 0 <= k < ls[i].len() ==> #[trigger] ls[i][k] != '\n',
    ensures
        kept_lines(ls, skipping) == line_block(kept_list(ls, skipping)),
        forall|j: int| 0 <= j < kept_list(ls, skipping).len() ==> user_line(#[trigger] kept_list(ls, skipping)[j]),
    decreases ls.len(),
{
    if ls.len() > 0 {
        let rest = ls.drop_first();
        assert forall|i: int, k: int| 0 <= i < rest.len() && 0 <= k < rest[i].len() implies #[trigger] rest[i][k] != '\n' by {
            assert(rest[i] == ls[i + 1]);
        }
        let l = ls[0];
        assert forall|k: int| 0 <= k < l.len() implies l[k] != '\n' by {
            assert(ls[0][k] != '\n');
        }
        if trim(l) == start_marker() {
            lemma_kept_list(rest, true);
        } else if trim(l) == end_marker() {
            lemma_kept_list(rest, false);
        } else if skipping {
            lemma_kept_list(rest, true);
        } else {
            lemma_kept_list(rest, false);
            let k = kept_list(rest, false);
            assert((seq![l] + k).drop_first() =~= k);
            assert((seq![l] + k)[0] == l);
            assert forall|j: int| 0 <= j < (seq![l] + k).len() implies user_line(#[trigger] (seq![l] + k)[j]) by {
                if j > 0 {
                    assert((seq![l] + k)[j] == k[j - 1]);
                }
            }
        }
    }
}

proof fn lemma_skip_to_end(ls: Seq<Seq<char>>, rest: Seq<Seq<char>>)
    requires
        forall|i: int| 0 <= i < ls.len() ==> trim(#[trigger] ls[i]) != end_marker(),
    ensures
        kept_lines(ls + rest, true) == kept_lines(rest, true),
    decreases ls.len(),
{
    if ls.len() == 0 {
        assert(ls + rest =~= rest);
    } else {
        assert((ls + rest)[0] == ls[0]);
        assert((ls + rest).drop_first() =~= ls.drop_first() + rest);
        assert(trim(ls[0]) != end_marker());
        assert forall|i: int| 0 <= i < ls.drop_first().len() implies trim(#[trigger] ls.drop_first()[i]) != end_marker() by {
            assert(ls.drop_first()[i] == ls[i + 1]);
        }
        lemma_skip_to_end(ls.drop_first(), rest);
    }
}

/// The user's lines as they stand after trimming the end of their text: blank lines at the
/// end dropped and the last line trimmed at its end.
pub open spec fn trimmed_lines(ls: Seq<Seq<char>>) -> Seq<Seq<char>>
    decreases ls.len(),
{
    if ls.len() == 0 {
        seq![]
    } else if trim_end(ls.last()).len() > 0 {
        ls.drop_last().push(trim_end(ls.last()))
    } else {
        trimmed_lines(ls.drop_last())
    }
}

proof fn lemma_trimmed_lines(ls: Seq<Seq<char>>)
    requires
        forall|i: int| 0 <= i < ls.len() ==> user_line(#[trigger] ls[i]),
    ensures
        forall|j: int| 0 <= j < trimmed_lines(ls).len() ==> user_line(#[trigger] trimmed_lines(ls)[j]),
        trimmed_lines(ls).len() > 0 ==> trim_end(line_block(ls)) + seq!['\n'] == line_block(trimmed_lines(ls)),
        trimmed_lines(ls).len() > 0 ==> !ends_with_cr(trimmed_lines(ls).last()),
        trimmed_lines(ls).len() == 0 ==> trim_end(line_block(ls)).len() == 0,
    decreases ls.len(),
{
    if ls.len() > 0 {
        let d = ls.drop_last();
        let l = ls.last();
        assert(ls =~= d.push(l));
        assert forall|i: int| 0 <= i < d.len() implies user_line(#[trigger] d[i]) by {
            assert(d[i] == ls[i]);
        }
        assert(user_line(l)) by {
            assert(l == ls[ls.len() - 1]);
        }
        lemma_line_block_push(d, l);
        assert(line_block(d) + l + seq!['\n'] =~= line_block(d) + (l + seq!['\n']));
        lemma_trim_end_concat(line_block(d), l + seq!['\n']);
        assert((l + seq!['\n']).drop_last() =~= l);
        assert(trim_end(l + seq!['\n']) == trim_end(l));
        let t = trim_end(l);
        if t.len() > 0 {
            lemma_line_block_push(d, t);
            lemma_trim_end_prefix(l);
            lemma_trim_of_trim_end(l);
            assert forall|k: int| 0 <= k < t.len() implies t[k] != '\n' by {
                assert(t[k] == l[k]);
            }
            assert(is_ws('\r'));
            assert(d.push(t).last() == t);
            let tl = d.push(t);
            assert forall|j: int| 0 <= j < tl.len() implies user_line(#[trigger] tl[j]) by {
                if j < d.len() {
                    assert(tl[j] == d[j]);
                }
            }
            assert(trim_end(line_block(ls)) + seq!['\n'] =~= line_block(d) + t + seq!['\n']);
        } else {
            lemma_trimmed_lines(d);
        }
    }
}

/// The lines of the hook table for one event.
pub open spec fn event_lines(event: Seq<char>, command: Seq<char>) -> Seq<Seq<char>> {
    seq![
        Seq::<char>::empty(),
        "[[hooks."@ + event + "]]"@,
        "[[hooks."@ + event + ".hooks]]"@,
        "type = \"command\""@,
        "command = \""@ + escape_quotes(command) + "\""@,
        "timeout = 30"@,
        "statusMessage = \"Notice processing hook\""@,
    ]
}

pub open spec fn all_event_lines(events: Seq<Seq<char>>, command: Seq<char>) -> Seq<Seq<char>>
    decreases events.len(),
{
    if events.len() == 0 {
        seq![]
    } else {
        all_event_lines(events.drop_last(), command) + event_lines(events.last(), command)
    }
}

proof fn lemma_event_block_lines(event: Seq<char>, command: Seq<char>)
    ensures
        event_block(event, command) == line_block(event_lines(event, command)),
{
    reveal_with_fuel(line_block, 8);
    reveal_strlit("\n[[hooks.");
    reveal_strlit("[[hooks.");
    reveal_strlit("]]\n");
    reveal_strlit("]]");
    reveal_strlit(".hooks]]\n");
    reveal_strlit(".hooks]]");
    reveal_strlit("type = \"command\"\n");
    reveal_strlit("type = \"command\"");
    reveal_strlit("\"\n");
    reveal_strlit("\"");
    reveal_strlit("timeout = 30\n");
    reveal_strlit("timeout = 30");
    reveal_strlit("statusMessage = \"Notice processing hook\"\n");
    reveal_strlit("statusMessage = \"Notice processing hook\"");
    let ls = event_lines(event, command);
    assert(line_block(ls) =~= ls[0] + seq!['\n'] + (ls[1] + seq!['\n']) + (ls[2] + seq!['\n']) + (ls[3] + seq!['\n'])
        + (ls[4] + seq!['\n']) + (ls[5] + seq!['\n']) + (ls[6] + seq!['\n'])) by {
        assert(ls.drop_first().drop_first().drop_first().drop_first().drop_first().drop_first().drop_first()
            =~= Seq::<Seq<char>>::empty());
    }
    assert(event_block(event, command) =~= line_block(ls));
}

proof fn lemma_event_blocks_lines(events: Seq<Seq<char>>, command: Seq<char>)
    ensures
        event_blocks(events, command) == line_block(all_event_lines(events, command)),
    decreases events.len(),
{
    if events.len() > 0 {
        lemma_event_blocks_lines(events.drop_last(), command);
        lemma_event_block_lines(events.last(), command);
        lemma_line_block_concat(all_event_lines(events.drop_last(), command), event_lines(events.last(), command));
    } else {
        assert(line_block(Seq::<Seq<char>>::empty()) == Seq::<char>::empty());
    }
}

proof fn lemma_replace_no_nl(s: Seq<char>, from: char, to: Seq<char>)
    requires
        forall|k: int| 0 <= k < s.len() ==> s[k] != '\n',
        forall|k: int| 0 <= k < to.len() ==> to[k] != '\n',
    ensures
        forall|k: int| 0 <= k < replace_char(s, from, to).len() ==> #[trigger] replace_char(s, from, to)[k] != '\n',
    decreases s.len(),
{
    if s.len() > 0 {
        lemma_replace_no_nl(s.drop_last(), from, to);
        let front = replace_char(s.drop_last(), from, to);
        let back = if s.last() == from { to } else { seq![s.last()] };
        assert forall|k: int| 0 <= k < (front + back).len() implies #[trigger] (front + back)[k] != '\n' by {
            if k >= front.len() {
                assert((front + back)[k] == back[k - front.len()]);
            }
        }
    }
}

/// A line that starts with a character other than white space and `#` is no marker line.
proof fn lemma_not_marker(l: Seq<char>)
    requires
        l.len() > 0,
        !is_ws(l[0]),
        l[0] != '#',
    ensures
        trim(l) != end_marker(),
        trim(l) != start_marker(),
{
    lemma_trim_first(l);
    reveal_strlit("# <<< Notice managed hooks <<<");
    reveal_strlit("# >>> Notice managed hooks >>>");
    assert(end_marker()[0] == '#');
    assert(start_marker()[0] == '#');
}

proof fn lemma_event_lines_plain(events: Seq<Seq<char>>, command: Seq<char>)
    requires
        forall|k: int| 0 <= k < command.len() ==> command[k] != '\n',
        forall|i: int, k: int| 0 <= i < events.len() && 0 <= k < events[i].len() ==> #[trigger] events[i][k] != '\n',
    ensures
        forall|j: int| 0 <= j < all_event_lines(events, command).len() ==> plain_line(#[trigger] all_event_lines(events, command)[j])
            && trim(all_event_lines(events, command)[j]) != end_marker(),
    decreases events.len(),
{
    if events.len() > 0 {
        let d = events.drop_last();
        assert forall|i: int, k: int| 0 <= i < d.len() && 0 <= k < d[i].len() implies #[trigger] d[i][k] != '\n' by {
            assert(d[i] == events[i]);
        }
        lemma_event_lines_plain(d, command);
        let e = events.last();
        assert forall|k: int| 0 <= k < e.len() implies e[k] != '\n' by {
            assert(events[events.len() - 1][k] != '\n');
        }
        reveal_strlit("[[hooks.");
        reveal_strlit("]]");
        reveal_strlit(".hooks]]");
        reveal_strlit("type = \"command\"");
        reveal_strlit("command = \"");
        reveal_strlit("\"");
        reveal_strlit("timeout = 30");
        reveal_strlit("statusMessage = \"Notice processing hook\"");
        reveal_strlit("\\\"");
        reveal_strlit("# <<< Notice managed hooks <<<");
        lemma_replace_no_nl(command, '"', "\\\""@);
        let el = event_lines(e, command);
        assert forall|j: int| 0 <= j < el.len() implies plain_line(#[trigger] el[j]) && trim(el[j]) != end_marker() by {
            if j == 0 {
                assert(el[0].len() == 0);
                assert(trim(Seq::<char>::empty()) == Seq::<char>::empty());
            } else {
                let l = el[j];
                assert(l.len() > 0);
                assert(!is_ws(l[0]) && l[0] != '#');
                lemma_not_marker(l);
                assert forall|k: int| 0 <= k < l.len() implies l[k] != '\n' by {
                    if j == 4 {
                        let esc = escape_quotes(command);
                        if 11 <= k < 11 + esc.len() {
                            assert(l[k] == esc[k - 11]);
                        }
                    }
                    if j == 1 || j == 2 {
                        if 8 <= k < 8 + e.len() {
                            assert(l[k] == e[k - 8]);
                        }
                    }
                }
            }
        }
        let front = all_event_lines(d, command);
        assert forall|j: int| 0 <= j < (front + el).len() implies plain_line(#[trigger] (front + el)[j])
            && trim((front + el)[j]) != end_marker() by {
            if j >= front.len() {
                assert((front + el)[j] == el[j - front.len()]);
            } else {
                assert((front + el)[j] == front[j]);
            }
        }
    }
}

/// Uninstalling from a configuration that holds nothing but a fresh managed block leaves
/// nothing, for a hook command on one line.
pub proof fn law_managed_block_removes_itself(command: Seq<char>)
    requires
        forall|k: int| 0 <= k < command.len() ==> command[k] != '\n',
    ensures
        remove_managed_text(managed_block_text(command)) == Seq::<char>::empty(),
{
    reveal_strlit("# <<< Notice managed hooks <<<");
    reveal_strlit("# >>> Notice managed hooks >>>");
    reveal_strlit("SessionStart");
    reveal_strlit("UserPromptSubmit");
    reveal_strlit("PermissionRequest");
    reveal_strlit("PreToolUse");
    reveal_strlit("PostToolUse");
    reveal_strlit("Stop");
    let events = hook_events();
    assert forall|i: int, k: int| 0 <= i < events.len() && 0 <= k < events[i].len() implies #[trigger] events[i][k] != '\n' by {
    }
    lemma_event_lines_plain(events, command);
    lemma_event_blocks_lines(events, command);
    let ael = all_event_lines(events, command);
    let start = start_marker();
    let end = end_marker();
    assert forall|k: int| 0 <= k < start.len() implies start[k] != '\n' by {}
    assert forall|k: int| 0 <= k < end.len() implies end[k] != '\n' by {}
    assert(managed_block_text(command) =~= start + seq!['\n'] + (line_block(ael) + (end + seq!['\n'])));
    lemma_lines_cons(start, line_block(ael) + (end + seq!['\n']));
    assert(strip_cr(start) == start);
    assert forall|i: int| 0 <= i < ael.len() implies plain_line(#[trigger] ael[i]) by {}
    lemma_line_block_lines(ael, end + seq!['\n']);
    assert(end + seq!['\n'] =~= end + seq!['\n'] + Seq::<char>::empty());
    lemma_lines_cons(end, Seq::<char>::empty());
    assert(lines(Seq::<char>::empty()) == Seq::<Seq<char>>::empty());
    assert(strip_cr(end) == end);
    let ls = lines(managed_block_text(command));
    assert(ls =~= seq![start] + (ael + seq![end]));
    assert(trim_start(start) == start);
    assert(trim_end(start) == start);
    assert(trim(start) == start);
    assert(trim_start(end) == end);
    assert(trim_end(end) == end);
    assert(trim(end) == end);
    assert(ls[0] == start);
    assert(ls.drop_first() =~= ael + seq![end]);
    assert forall|i: int| 0 <= i < ael.len() implies trim(#[trigger] ael[i]) != end_marker() by {}
    lemma_skip_to_end(ael, seq![end]);
    assert(seq![end].drop_first() =~= Seq::<Seq<char>>::empty());
    assert(kept_lines(seq![end], true) == kept_lines(Seq::<Seq<char>>::empty(), false));
}

/// The user's lines that installing keeps in front of the managed block.
pub open spec fn kept_user_lines(existing: Seq<char>) -> Seq<Seq<char>> {
    trimmed_lines(kept_list(lines(existing), false))
}

/// Installing never touches the user's own configuration: uninstalling after installing
/// gives back the user's configuration without its managed blocks, trailing white space
/// trimmed and one line break at the end. This holds whenever the managed block removes
/// itself (for every hook command on one line: see `law_managed_block_removes_itself`) and
/// none of the kept user lines but the last ends with a carriage return (`lines` would drop
/// that carriage return).
pub proof fn law_uninstall_undoes_install(existing: Seq<char>, command: Seq<char>)
    requires
        remove_managed_text(managed_block_text(command)).len() == 0,
        forall|i: int| 0 <= i < kept_user_lines(existing).len() - 1 ==> !ends_with_cr(#[trigger] kept_user_lines(existing)[i]),
    ensures
        remove_managed_text(append_hooks_text(existing, command)) == trim_end(remove_managed_text(existing)) + seq![
            '\n',
        ],
{
    let el = lines(existing);
    lemma_lines_no_nl(existing, 0);
    lemma_kept_list(el, false);
    let user = kept_list(el, false);
    lemma_trimmed_lines(user);
    let x = trim_end(remove_managed_text(existing));
    let block = managed_block_text(command);
    let tl = trimmed_lines(user);
    if tl.len() > 0 {
        assert(append_hooks_text(existing, command) =~= line_block(tl) + block);
        assert forall|i: int| 0 <= i < tl.len() implies plain_line(#[trigger] tl[i]) by {
            assert(user_line(tl[i]));
            if i < tl.len() - 1 {
                assert(!ends_with_cr(kept_user_lines(existing)[i]));
            }
        }
        lemma_line_block_lines(tl, block);
        lemma_kept_user_prefix(tl, lines(block));
        assert(line_block(tl) + Seq::<char>::empty() =~= line_block(tl));
    } else {
        assert(x.len() == 0);
        let one = seq![Seq::<char>::empty()];
        assert(line_block(one) =~= seq!['\n']) by {
            assert(one.drop_first() =~= Seq::<Seq<char>>::empty());
            assert(line_block(Seq::<Seq<char>>::empty()) == Seq::<char>::empty());
            assert(one[0] == Seq::<char>::empty());
            assert(line_block(one) == one[0] + seq!['\n'] + line_block(one.drop_first()));
        }
        assert(append_hooks_text(existing, command) =~= line_block(one) + block);
        assert(trim(Seq::<char>::empty()) == Seq::<char>::empty());
        reveal_strlit("# <<< Notice managed hooks <<<");
        reveal_strlit("# >>> Notice managed hooks >>>");
        assert(user_line(one[0]));
        assert(plain_line(one[0]));
        assert forall|i: int| 0 <= i < one.len() implies user_line(#[trigger] one[i]) && plain_line(one[i]) by {}
        lemma_line_block_lines(one, block);
        lemma_kept_user_prefix(one, lines(block));
        assert(x + seq!['\n'] =~= seq!['\n']);
        assert(line_block(one) + Seq::<char>::empty() =~= line_block(one));
    }
}

/// Installing into a configuration whose text is `existing` writes this text.
pub open spec fn install_text(existing: Seq<char>, command: Seq<char>) -> Seq<char> {
    append_hooks_text(remove_managed_text(existing), command)
}

/// Installing again changes nothing: installing into the text an install wrote gives the
/// same text. This holds whenever the managed block removes itself (for every hook command
/// on one line) and none of the user lines kept in front of the block but the last ends
/// with a carriage return.
pub proof fn law_reinstall_changes_nothing(existing: Seq<char>, command: Seq<char>)
    requires
        remove_managed_text(managed_block_text(command)).len() == 0,
        forall|i: int| 0 <= i < kept_user_lines(remove_managed_text(existing)).len() - 1
            ==> !ends_with_cr(#[trigger] kept_user_lines(remove_managed_text(existing))[i]),
    ensures
        install_text(install_text(existing, command), command) == install_text(existing, command),
{
    let r1 = remove_managed_text(existing);
    let first = install_text(existing, command);
    law_uninstall_undoes_install(r1, command);
    let x = trim_end(remove_managed_text(r1));
    assert(remove_managed_text(first) == x + seq!['\n']);
    let el = lines(r1);
    lemma_lines_no_nl(r1, 0);
    lemma_kept_list(el, false);
    lemma_trimmed_lines(kept_list(el, false));
    let tl = trimmed_lines(kept_list(el, false));
    if tl.len() > 0 {
        assert forall|i: int| 0 <= i < tl.len() implies plain_line(#[trigger] tl[i]) by {
            assert(user_line(tl[i]));
            if i < tl.len() - 1 {
                assert(!ends_with_cr(kept_user_lines(r1)[i]));
            }
        }
        lemma_line_block_lines(tl, Seq::<char>::empty());
        assert(line_block(tl) + Seq::<char>::empty() =~= line_block(tl));
        assert(lines(Seq::<char>::empty()) == Seq::<Seq<char>>::empty());
        assert(tl + Seq::<Seq<char>>::empty() =~= tl);
        lemma_kept_user_prefix(tl, Seq::<Seq<char>>::empty());
        assert(remove_managed_text(x + seq!['\n']) == x + seq!['\n']);
    } else {
        assert(x.len() == 0);
        assert(x + seq!['\n'] =~= seq!['\n'] + Seq::<char>::empty());
        lemma_lines_cons(Seq::<char>::empty(), Seq::<char>::empty());
        assert(Seq::<char>::empty() + seq!['\n'] + Seq::<char>::empty() =~= x + seq!['\n']);
        assert(lines(Seq::<char>::empty()) == Seq::<Seq<char>>::empty());
        assert(strip_cr(Seq::<char>::empty()) == Seq::<char>::empty());
        let one = seq![Seq::<char>::empty()];
        assert(lines(x + seq!['\n']) =~= one);
        assert(trim(Seq::<char>::empty()) == Seq::<char>::empty());
        reveal_strlit("# <<< Notice managed hooks <<<");
        reveal_strlit("# >>> Notice managed hooks >>>");
        assert(one.drop_first() =~= Seq::<Seq<char>>::empty());
        assert(one[0] == Seq::<char>::empty());
        assert(trim(one[0]) != start_marker() && trim(one[0]) != end_marker());
        assert(kept_lines(Seq::<Seq<char>>::empty(), false) == Seq::<char>::empty());
        assert(kept_lines(one, false) == one[0] + seq!['\n'] + kept_lines(one.drop_first(), false));
        assert(kept_lines(one, false) =~= seq!['\n']);
    }
    lemma_trim_end_prefix(remove_managed_text(r1));
    lemma_trim_end_concat(x, seq!['\n']);
    assert(seq!['\n'].drop_last() =~= Seq::<char>::empty());
    assert(trim_end(seq!['\n']) == trim_end(Seq::<char>::empty()));
    lemma_trim_end_idem(remove_managed_text(r1));
    assert(trim_end(x + seq!['\n']) == x);
}


/// The lines that removing the managed block keeps hold no carriage return where the
/// lines they come from hold none.
proof fn lemma_kept_list_no_cr(ls: Seq<Seq<char>>, skipping: bool)
    requires
        forall|i: int, k: int| 0 <= i < ls.len() && 0 <= k < ls[i].len() ==> #[trigger] ls[i][k] != '\r',
    ensures
        forall|i: int, k: int| 0 <= i < kept_list(ls, skipping).len() && 0 <= k < kept_list(ls, skipping)[i].len()
            ==> #[trigger] kept_list(ls, skipping)[i][k] != '\r',
    decreases ls.len(),
{
    if ls.len() > 0 {
        let rest = ls.drop_first();
        assert forall|i: int, k: int| 0 <= i < rest.len() && 0 <= k < rest[i].len() implies #[trigger] rest[i][k] != '\r' by {
            assert(rest[i] == ls[i + 1]);
        }
        lemma_kept_list_no_cr(rest, true);
        lemma_kept_list_no_cr(rest, false);
        let kl = kept_list(ls, skipping);
        let l = ls[0];
        if trim(l) == start_marker() || skipping && trim(l) != end_marker() {
            assert(kl == kept_list(rest, true));
        } else if trim(l) == end_marker() {
            assert(kl == kept_list(rest, false));
        } else {
            let kr = kept_list(rest, false);
            assert(kl == seq![l] + kr);
            assert forall|i: int, k: int| 0 <= i < kl.len() && 0 <= k < kl[i].len() implies #[trigger] kl[i][k] != '\r' by {
                if i == 0 {
                    assert(ls[0][k] != '\r');
                } else {
                    assert(kl[i] == kr[i - 1]);
                }
            }
        }
    }
}

/// Trimming the end of the last line adds no carriage return.
proof fn lemma_trimmed_lines_no_cr(ls: Seq<Seq<char>>)
    requires
        forall|i: int, k: int| 0 <= i < ls.len() && 0 <= k < ls[i].len() ==> #[trigger] ls[i][k] != '\r',
    ensures
        forall|i: int, k: int| 0 <= i < trimmed_lines(ls).len() && 0 <= k < trimmed_lines(ls)[i].len()
            ==> #[trigger] trimmed_lines(ls)[i][k] != '\r',
    decreases ls.len(),
{
    if ls.len() > 0 {
        let t = trimmed_lines(ls);
        if trim_end(ls.last()).len() > 0 {
            lemma_trim_end_prefix(ls.last());
            assert forall|i: int, k: int| 0 <= i < t.len() && 0 <= k < t[i].len() implies #[trigger] t[i][k] != '\r' by {
                if i == t.len() - 1 {
                    assert(t[i] == trim_end(ls.last()));
                    assert(trim_end(ls.last())[k] == ls.last()[k]);
                    assert(ls[ls.len() - 1][k] != '\r');
                } else {
                    assert(t[i] == ls[i]);
                }
            }
        } else {
            let d = ls.drop_last();
            assert forall|i: int, k: int| 0 <= i < d.len() && 0 <= k < d[i].len() implies #[trigger] d[i][k] != '\r' by {
                assert(d[i] == ls[i]);
            }
            lemma_trimmed_lines_no_cr(d);
            assert(t == trimmed_lines(d));
        }
    }
}

/// Installing twice is installing once: appending the managed block to the text that
/// appending it wrote gives that text again, for a configuration without carriage returns
/// and a hook command on one line.
pub proof fn law_append_hooks_twice(existing: Seq<char>, command: Seq<char>)
    requires
        forall|j: int| 0 <= j < existing.len() ==> existing[j] != '\r',
        forall|k: int| 0 <= k < command.len() ==> command[k] != '\n',
    ensures
        append_hooks_text(append_hooks_text(existing, command), command)
            == append_hooks_text(existing, command),
{
    law_managed_block_removes_itself(command);
    lemma_lines_no_cr(existing, 0);
    lemma_kept_list_no_cr(lines(existing), false);
    lemma_trimmed_lines_no_cr(kept_list(lines(existing), false));
    let ku = kept_user_lines(existing);
    assert forall|i: int| 0 <= i < ku.len() - 1 implies !ends_with_cr(#[trigger] ku[i]) by {
        if ku[i].len() > 0 {
            assert(ku[i][ku[i].len() - 1] != '\r');
        }
    }
    law_uninstall_undoes_install(existing, command);
    let x = trim_end(remove_managed_text(existing));
    lemma_trim_end_concat(x, seq!['\n']);
    assert(seq!['\n'].drop_last() =~= Seq::<char>::empty());
    assert(trim_end(seq!['\n']) == trim_end(Seq::<char>::empty()));
    lemma_trim_end_idem(remove_managed_text(existing));
    assert(trim_end(x + seq!['\n']) == x);
}

} // verus!
