//! The Notice-managed block of hooks in the Codex configuration file: what it contains,
//! how it is added to and removed from the user's configuration, and the wrapper script
//! the hooks run.
use vstd::prelude::*;
use vstd::string::*;
use crate::codec::{hex_encode, hex_text, sha256_digest, sha256_of};
use crate::domain::{HookPreview, HookStatus};
use crate::text::{chars_of, contains, contains_str, lemma_contains_self, lemma_contains_within, extend_chars, lines, lines_exec, push_char, replace_char, replace_char_exec, seq_eq, string_of, trim, trim_chars, trim_end, trim_end_chars, views};

verus! {

/// The line that opens the managed block.
pub const START_MARKER: &'static str = "# >>> Notice managed hooks >>>";

/// The line that closes the managed block.
pub const END_MARKER: &'static str = "# <<< Notice managed hooks <<<";

pub open spec fn start_marker() -> Seq<char> {
    "# >>> Notice managed hooks >>>"@
}

pub open spec fn end_marker() -> Seq<char> {
    "# <<< Notice managed hooks <<<"@
}

/// The Codex hook events Notice registers for, in order.
pub open spec fn hook_events() -> Seq<Seq<char>> {
    seq![
        "SessionStart"@,
        "UserPromptSubmit"@,
        "PermissionRequest"@,
        "PreToolUse"@,
        "PostToolUse"@,
        "Stop"@,
    ]
}

fn hook_event(i: usize) -> (r: &'static str)
    requires
        i < 6,
    ensures
        r@ == hook_events()[i as int],
{
    match i {
        0 => "SessionStart",
        1 => "UserPromptSubmit",
        2 => "PermissionRequest",
        3 => "PreToolUse",
        4 => "PostToolUse",
        _ => "Stop",
    }
}

/// The command with every `"` escaped as `\"`.
pub open spec fn escape_quotes(command: Seq<char>) -> Seq<char> {
    replace_char(command, '"', "\\\""@)
}

/// The hook table for one event.
pub open spec fn event_block(event: Seq<char>, command: Seq<char>) -> Seq<char> {
    "\n[[hooks."@ + event + "]]\n"@ + "[[hooks."@ + event + ".hooks]]\n"@
        + "type = \"command\"\n"@ + "command = \""@ + escape_quotes(command) + "\"\n"@
        + "timeout = 30\n"@ + "statusMessage = \"Notice processing hook\"\n"@
}

pub open spec fn event_blocks(events: Seq<Seq<char>>, command: Seq<char>) -> Seq<char>
    decreases events.len(),
{
    if events.len() == 0 {
        seq![]
    } else {
        event_blocks(events.drop_last(), command) + event_block(events.last(), command)
    }
}

/// The whole managed block: the start marker, one table per hook event running
/// `command`, the end marker.
pub open spec fn managed_block_text(command: Seq<char>) -> Seq<char> {
    start_marker() + seq!['\n'] + event_blocks(hook_events(), command) + end_marker() + seq!['\n']
}

fn append_str(out: &mut String, s: &str)
    ensures
        final(out)@ == old(out)@ + s@,
{
    out.append(s);
}

fn event_block_exec(event: &str, escaped: &String, Ghost(command): Ghost<Seq<char>>) -> (r: String)
    requires
        escaped@ == escape_quotes(command),
    ensures
        r@ == event_block(event@, command),
{
    let mut b = String::new();
    append_str(&mut b, "\n[[hooks.");
    append_str(&mut b, event);
    append_str(&mut b, "]]\n");
    append_str(&mut b, "[[hooks.");
    append_str(&mut b, event);
    append_str(&mut b, ".hooks]]\n");
    append_str(&mut b, "type = \"command\"\n");
    append_str(&mut b, "command = \"");
    append_str(&mut b, escaped.as_str());
    append_str(&mut b, "\"\n");
    append_str(&mut b, "timeout = 30\n");
    append_str(&mut b, "statusMessage = \"Notice processing hook\"\n");
    assert(b@ =~= event_block(event@, command));
    b
}

/// The managed block for `command` (see `managed_block_text`).
pub fn managed_block(command: &str) -> (r: String)
    ensures
        r@ == managed_block_text(command@),
{
    let cmd = chars_of(command);
    let quote = chars_of("\\\"");
    let escaped_chars = replace_char_exec(&cmd, '"', &quote);
    let escaped = string_of(&escaped_chars);
    let mut block = String::new();
    append_str(&mut block, START_MARKER);
    push_char(&mut block, '\n');
    let ghost head = block@;
    let mut i: usize = 0;
    while i < 6
        invariant
            i <= 6,
            escaped@ == escape_quotes(command@),
            block@ == head + event_blocks(hook_events().subrange(0, i as int), command@),
        decreases 6 - i,
    {
        let event = hook_event(i);
        let eb = event_block_exec(event, &escaped, Ghost(command@));
        let ghost prev = block@;
        append_str(&mut block, eb.as_str());
        assert(hook_events().subrange(0, i + 1).drop_last() =~= hook_events().subrange(0, i as int));
        assert(block@ =~= head + event_blocks(hook_events().subrange(0, i + 1), command@));
        i = i + 1;
    }
    assert(hook_events().subrange(0, 6) =~= hook_events());
    append_str(&mut block, END_MARKER);
    push_char(&mut block, '\n');
    assert(block@ =~= managed_block_text(command@));
    block
}

/// The content of the configuration with the managed blocks taken out: lines from a start
/// marker up to and including the next end marker are dropped (a marker line is one whose
/// trimmed text is the marker), every other line is kept with a `'\n'` after it.
pub open spec fn kept_lines(ls: Seq<Seq<char>>, skipping: bool) -> Seq<char>
    decreases ls.len(),
{
    if ls.len() == 0 {
        seq![]
    } else {
        let l = ls[0];
        if trim(l) == start_marker() {
            kept_lines(ls.drop_first(), true)
        } else if trim(l) == end_marker() {
            kept_lines(ls.drop_first(), false)
        } else if skipping {
            kept_lines(ls.drop_first(), true)
        } else {
            l + seq!['\n'] + kept_lines(ls.drop_first(), false)
        }
    }
}

pub open spec fn remove_managed_text(input: Seq<char>) -> Seq<char> {
    kept_lines(lines(input), false)
}

/// Takes every managed block out of `input` (see `kept_lines`).
pub fn remove_managed_block(input: &str) -> (r: String)
    ensures
        r@ == remove_managed_text(input@),
{
    let s = chars_of(input);
    let ls = lines_exec(&s);
    let start = chars_of(START_MARKER);
    let end = chars_of(END_MARKER);
    let ghost all = views(ls@);
    let mut out: Vec<char> = Vec::new();
    let mut skipping = false;
    let mut j: usize = 0;
    assert(all.subrange(0, all.len() as int) =~= all);
    while j < ls.len()
        invariant
            j <= ls.len(),
            all == views(ls@),
            all == lines(input@),
            start@ == start_marker(),
            end@ == end_marker(),
            kept_lines(all, false) == out@ + kept_lines(all.subrange(j as int, all.len() as int), skipping),
        decreases ls.len() - j,
    {
        let ghost rest = all.subrange(j as int, all.len() as int);
        assert(rest[0] == ls@[j as int]@);
        assert(rest.drop_first() =~= all.subrange(j + 1, all.len() as int));
        let t = trim_chars(&ls[j]);
        let ghost old_out = out@;
        let ghost old_skip = skipping;
        if seq_eq(&t, &start) {
            skipping = true;
        } else if seq_eq(&t, &end) {
            skipping = false;
        } else if !skipping {
            extend_chars(&mut out, &ls[j]);
            out.push('\n');
            assert(out@ =~= old_out + (rest[0] + seq!['\n']));
        }
        assert(kept_lines(rest, old_skip) == (out@.subrange(old_out.len() as int, out@.len() as int)) + kept_lines(rest.drop_first(), skipping)) by {
            assert(out@.subrange(old_out.len() as int, out@.len() as int) =~= if trim(rest[0]) != start_marker() && trim(rest[0]) != end_marker() && !old_skip { rest[0] + seq!['\n'] } else { Seq::<char>::empty() });
        }
        assert(out@ =~= old_out + out@.subrange(old_out.len() as int, out@.len() as int));
        j = j + 1;
    }
    assert(all.subrange(ls.len() as int, all.len() as int) =~= Seq::<Seq<char>>::empty());
    string_of(&out)
}

/// `existing` without managed blocks and trailing white space, a line break, and a fresh
/// managed block for `command`.
pub open spec fn append_hooks_text(existing: Seq<char>, command: Seq<char>) -> Seq<char> {
    trim_end(remove_managed_text(existing)) + seq!['\n'] + managed_block_text(command)
}

/// Adds the managed block for `command` after the user's own configuration.
pub fn append_hooks(existing: &str, command: &str) -> (r: String)
    ensures
        r@ == append_hooks_text(existing@, command@),
{
    let block = managed_block(command);
    let cleaned = remove_managed_block(existing);
    let cleaned_chars = chars_of(cleaned.as_str());
    let trimmed = trim_end_chars(&cleaned_chars);
    let mut out = string_of(&trimmed);
    push_char(&mut out, '\n');
    append_str(&mut out, block.as_str());
    assert(out@ =~= append_hooks_text(existing@, command@));
    out
}

/// The configuration holds both markers and a table for every hook event.
pub open spec fn block_complete(content: Seq<char>) -> bool {
    &&& contains(content, start_marker())
    &&& contains(content, end_marker())
    &&& forall|i: int|
        0 <= i < 6 ==> contains(content, "[[hooks."@ + #[trigger] hook_events()[i] + "]]"@)
}

proof fn lemma_event_block_has_table(event: Seq<char>, command: Seq<char>)
    ensures
        contains(event_block(event, command), "[[hooks."@ + event + "]]"@),
{
    reveal_strlit("\n[[hooks.");
    reveal_strlit("[[hooks.");
    reveal_strlit("]]\n");
    reveal_strlit("]]");
    let table = "[[hooks."@ + event + "]]"@;
    let rest = "[[hooks."@ + event + ".hooks]]\n"@ + "type = \"command\"\n"@ + "command = \""@
        + escape_quotes(command) + "\"\n"@ + "timeout = 30\n"@ + "statusMessage = \"Notice processing hook\"\n"@;
    assert(event_block(event, command) =~= seq!['\n'] + table + (seq!['\n'] + rest));
    lemma_contains_self(table);
    lemma_contains_within(seq!['\n'], table, seq!['\n'] + rest, table);
}

proof fn lemma_event_blocks_have_tables(events: Seq<Seq<char>>, command: Seq<char>, i: int)
    requires
        0 <= i < events.len(),
    ensures
        contains(event_blocks(events, command), "[[hooks."@ + events[i] + "]]"@),
    decreases events.len(),
{
    let table = "[[hooks."@ + events[i] + "]]"@;
    let front = event_blocks(events.drop_last(), command);
    let back = event_block(events.last(), command);
    if i == events.len() - 1 {
        lemma_event_block_has_table(events[i], command);
        lemma_contains_within(front, back, seq![], table);
        assert(front + back + seq![] =~= front + back);
    } else {
        lemma_event_blocks_have_tables(events.drop_last(), command, i);
        lemma_contains_within(seq![], front, back, table);
        assert(seq![] + front + back =~= front + back);
    }
}

/// After installing, the configuration holds a complete managed block: whatever the user's
/// configuration and the hook command, the status reads installed.
pub proof fn law_install_completes_block(existing: Seq<char>, command: Seq<char>)
    ensures
        block_complete(append_hooks_text(existing, command)),
{
    let user = trim_end(remove_managed_text(existing)) + seq!['\n'];
    let blocks = event_blocks(hook_events(), command);
    let full = append_hooks_text(existing, command);
    lemma_contains_self(start_marker());
    lemma_contains_within(user, start_marker(), seq!['\n'] + blocks + end_marker() + seq!['\n'], start_marker());
    assert(full =~= user + start_marker() + (seq!['\n'] + blocks + end_marker() + seq!['\n']));
    lemma_contains_self(end_marker());
    lemma_contains_within(user + start_marker() + seq!['\n'] + blocks, end_marker(), seq!['\n'], end_marker());
    assert(full =~= (user + start_marker() + seq!['\n'] + blocks) + end_marker() + seq!['\n']);
    assert forall|i: int| 0 <= i < 6 implies contains(full, "[[hooks."@ + #[trigger] hook_events()[i] + "]]"@) by {
        lemma_event_blocks_have_tables(hook_events(), command, i);
        lemma_contains_within(user + start_marker() + seq!['\n'], blocks, end_marker() + seq!['\n'], "[[hooks."@ + hook_events()[i] + "]]"@);
        assert(full =~= (user + start_marker() + seq!['\n']) + blocks + (end_marker() + seq!['\n']));
    }
}

/// Whether the configuration holds a complete managed block (see `block_complete`).
pub fn managed_block_complete(content: &str) -> (r: bool)
    ensures
        r == block_complete(content@),
{
    let c = chars_of(content);
    if !contains_str(&c, START_MARKER) || !contains_str(&c, END_MARKER) {
        return false;
    }
    let mut i: usize = 0;
    while i < 6
        invariant
            i <= 6,
            c@ == content@,
            forall|k: int| 0 <= k < i ==> contains(content@, "[[hooks."@ + #[trigger] hook_events()[k] + "]]"@),
        decreases 6 - i,
    {
        let mut table = String::new();
        append_str(&mut table, "[[hooks.");
        append_str(&mut table, hook_event(i));
        append_str(&mut table, "]]");
        if !contains_str(&c, table.as_str()) {
            return false;
        }
        i = i + 1;
    }
    true
}

/// The UTF-8 bytes of `text`, hashed with SHA-256, in lower-case hexadecimal.
pub open spec fn notice_block_hash(text: Seq<char>) -> Seq<char> {
    hex_text(sha256_of(vstd::utf8::encode_utf8(text)))
}

/// Fingerprint of the configuration text.
pub fn hash_notice_block(content: &str) -> (r: String)
    ensures
        r@ == notice_block_hash(content@),
{
    let digest = sha256_digest(content.as_bytes());
    hex_encode(&digest)
}

/// `value` in single quotes for the shell, each `'` written as `'\''`.
pub open spec fn shell_escape_text(value: Seq<char>) -> Seq<char> {
    seq!['\''] + replace_char(value, '\'', "'\\''"@) + seq!['\'']
}

pub fn shell_escape(value: &str) -> (r: String)
    ensures
        r@ == shell_escape_text(value@),
{
    let v = chars_of(value);
    let rep = chars_of("'\\''");
    let body = replace_char_exec(&v, '\'', &rep);
    let mut out = String::new();
    push_char(&mut out, '\'');
    let b = string_of(&body);
    append_str(&mut out, b.as_str());
    push_char(&mut out, '\'');
    assert(out@ =~= shell_escape_text(value@));
    out
}

/// `base` joined with the relative component `name` (`Path::join`): a `'/'` between them
/// unless `base` is empty or already ends with one.
pub open spec fn path_join(base: Seq<char>, name: Seq<char>) -> Seq<char> {
    if base.len() == 0 {
        name
    } else if base.last() == '/' {
        base + name
    } else {
        base + seq!['/'] + name
    }
}

pub fn join_path(base: &str, name: &str) -> (r: String)
    ensures
        r@ == path_join(base@, name@),
{
    let b = chars_of(base);
    if b.len() == 0 {
        return String::from_str(name);
    }
    let mut out = string_of(&b);
    if b[b.len() - 1] != '/' {
        push_char(&mut out, '/');
    }
    append_str(&mut out, name);
    assert(out@ =~= path_join(base@, name@));
    out
}

/// The path of the wrapper script below the application data directory.
pub open spec fn hook_script_path(data_dir: Seq<char>) -> Seq<char> {
    path_join(path_join(data_dir, "hooks"@), "notice-hook.sh"@)
}

/// The command every managed hook runs: the wrapper script through `/bin/sh`.
pub open spec fn hook_command_text(data_dir: Seq<char>) -> Seq<char> {
    "/bin/sh "@ + shell_escape_text(hook_script_path(data_dir))
}

pub fn hook_command(data_dir: &str) -> (r: String)
    ensures
        r@ == hook_command_text(data_dir@),
{
    let hooks_dir = join_path(data_dir, "hooks");
    let script = join_path(hooks_dir.as_str(), "notice-hook.sh");
    let escaped = shell_escape(script.as_str());
    let mut out = String::from_str("/bin/sh ");
    append_str(&mut out, escaped.as_str());
    out
}

/// The text after the token path in the wrapper script: it reads the payload, allows 30
/// seconds for destructive-looking commands and 2 otherwise, forwards the payload with the
/// token to the local server, and prints a fallback reply when the token or the server is
/// missing (refusing a critical command when the server did not answer).
pub const WRAPPER_SCRIPT_TAIL: &'static str = "\nPAYLOAD=\"$(cat)\"\nTIMEOUT=2\nif printf \"%s\" \"$PAYLOAD\" | /usr/bin/grep -Eiq 'rm -rf /|sudo rm|diskutil erase|drop table|truncate table'; then\n  TIMEOUT=30\nfi\nif [ ! -f \"$TOKEN_FILE\" ]; then\n  printf '{\"continue\":true,\"suppressOutput\":true}\\n'\n  exit 0\nfi\nTOKEN=\"$(cat \"$TOKEN_FILE\")\"\nRESP=\"$(printf \"%s\" \"$PAYLOAD\" | /usr/bin/curl -sS --max-time \"$TIMEOUT\" \\\n  -H \"Content-Type: application/json\" \\\n  -H \"X-Notice-Token: $TOKEN\" \\\n  --data-binary @- \\\n  http://127.0.0.1:3746/api/webhook/codex)\"\nSTATUS=$?\nif [ \"$STATUS\" -eq 0 ] && [ -n \"$RESP\" ]; then\n  printf \"%s\\n\" \"$RESP\"\nelif [ \"$TIMEOUT\" -eq 30 ]; then\n  printf '{\"continue\":false,\"stopReason\":\"Notice unavailable for critical command\",\"suppressOutput\":false}\\n'\nelse\n  printf '{\"continue\":true,\"suppressOutput\":true}\\n'\nfi\n";

/// The wrapper script: a shell script that names the token file and forwards the hook
/// payload to the local server.
pub open spec fn wrapper_script_text(token_file: Seq<char>) -> Seq<char> {
    "#!/bin/sh\nTOKEN_FILE="@ + shell_escape_text(token_file) + WRAPPER_SCRIPT_TAIL@
}

/// The token file below the application data directory.
pub open spec fn token_file_path(data_dir: Seq<char>) -> Seq<char> {
    path_join(path_join(data_dir, "hooks"@), "token"@)
}

/// The wrapper script for the application data directory `data_dir`: its path and its text.
pub fn wrapper_script(data_dir: &str) -> (r: (String, String))
    ensures
        r.0@ == hook_script_path(data_dir@),
        r.1@ == wrapper_script_text(token_file_path(data_dir@)),
{
    let dir = join_path(data_dir, "hooks");
    let token_file = join_path(dir.as_str(), "token");
    let script = join_path(dir.as_str(), "notice-hook.sh");
    let mut body = String::from_str("#!/bin/sh\nTOKEN_FILE=");
    let escaped = shell_escape(token_file.as_str());
    append_str(&mut body, escaped.as_str());
    append_str(&mut body, WRAPPER_SCRIPT_TAIL);
    (script, body)
}

/// The files Notice keeps beside the configuration, which uninstalling removes: the
/// wrapper script and the token file it reads.
pub fn wrapper_files(data_dir: &str) -> (r: Vec<String>)
    ensures
        r@.len() == 2,
        r@[0]@ == hook_script_path(data_dir@),
        r@[1]@ == token_file_path(data_dir@),
{
    let dir = join_path(data_dir, "hooks");
    let mut files: Vec<String> = Vec::new();
    files.push(join_path(dir.as_str(), "notice-hook.sh"));
    files.push(join_path(dir.as_str(), "token"));
    files
}

/// Where the configuration is backed up before a change: `config-<stamp>.toml` in the
/// `hooks/backups` directory below the application data directory.
pub open spec fn backup_file_path(data_dir: Seq<char>, stamp: Seq<char>) -> Seq<char> {
    path_join(path_join(path_join(data_dir, "hooks"@), "backups"@), "config-"@ + stamp + ".toml"@)
}

/// The backup path for the time stamp `stamp` (year to second, digits only).
pub fn backup_path(data_dir: &str, stamp: &str) -> (r: String)
    ensures
        r@ == backup_file_path(data_dir@, stamp@),
{
    let hooks = join_path(data_dir, "hooks");
    let dir = join_path(hooks.as_str(), "backups");
    let mut name = String::from_str("config-");
    append_str(&mut name, stamp);
    append_str(&mut name, ".toml");
    join_path(dir.as_str(), name.as_str())
}

/// The status message for the three states of the configuration.
pub open spec fn status_message(installed: bool, has_block: bool) -> Seq<char> {
    if installed {
        "Notice hooks installed"@
    } else if has_block {
        "Notice hooks need reinstall"@
    } else {
        "Notice hooks not installed"@
    }
}

/// Both markers occur in the configuration.
pub open spec fn has_block(content: Seq<char>) -> bool {
    contains(content, start_marker()) && contains(content, end_marker())
}

/// The parts of a hook status that follow from the configuration's path and text.
pub open spec fn status_fields(s: HookStatus, config_path: Seq<char>, content: Seq<char>) -> bool {
    &&& s.installed == block_complete(content)
    &&& s.config_path@ == config_path
    &&& (match s.managed_block_hash {
        Some(h) => has_block(content) && h@ == notice_block_hash(content),
        None => !has_block(content),
    })
}

/// The hook status of a configuration whose text is `content`.
pub open spec fn status_holds(s: HookStatus, config_path: Seq<char>, content: Seq<char>) -> bool {
    &&& status_fields(s, config_path, content)
    &&& s.message@ == status_message(s.installed, has_block(content))
}

/// Whether the hooks are installed in the configuration at `config_path` whose text is
/// `content` (an absent file reads as empty text).
pub fn status(config_path: &str, content: &str) -> (r: HookStatus)
    ensures
        status_holds(r, config_path@, content@),
        r.backup_path is None,
{
    let installed = managed_block_complete(content);
    let c = chars_of(content);
    let has_managed_block = contains_str(&c, START_MARKER) && contains_str(&c, END_MARKER);
    let managed_block_hash = if has_managed_block {
        Some(hash_notice_block(content))
    } else {
        None
    };
    let message = if installed {
        String::from_str("Notice hooks installed")
    } else if has_managed_block {
        String::from_str("Notice hooks need reinstall")
    } else {
        String::from_str("Notice hooks not installed")
    };
    HookStatus {
        installed,
        config_path: String::from_str(config_path),
        managed_block_hash,
        backup_path: None,
        message,
    }
}

/// What installing would write to the configuration at `config_path`.
pub fn preview(config_path: &str, config_exists: bool, data_dir: &str) -> (r: HookPreview)
    ensures
        r.config_path@ == config_path@,
        r.will_create_config == !config_exists,
        r.preview@ == managed_block_text(hook_command_text(data_dir@)),
{
    let command = hook_command(data_dir);
    HookPreview {
        config_path: String::from_str(config_path),
        will_create_config: !config_exists,
        preview: managed_block(command.as_str()),
    }
}

/// Installing into a configuration whose text is `existing`: the text to write, and the
/// status of that text with the backup path and the install message.
pub fn install(config_path: &str, existing: &str, data_dir: &str, backup_path: &str) -> (r: (
    String,
    HookStatus,
))
    ensures
        r.0@ == append_hooks_text(remove_managed_text(existing@), hook_command_text(data_dir@)),
        status_fields(r.1, config_path@, r.0@),
        r.1.backup_path matches Some(b) && b@ == backup_path@,
        r.1.message@ == "Notice hooks installed with backup"@,
{
    let cleaned = remove_managed_block(existing);
    let command = hook_command(data_dir);
    let next = append_hooks(cleaned.as_str(), command.as_str());
    let mut current = status(config_path, next.as_str());
    current.backup_path = Some(String::from_str(backup_path));
    current.message = String::from_str("Notice hooks installed with backup");
    (next, current)
}

/// Uninstalling from a configuration whose text is `existing`: the text to write (the
/// managed blocks taken out), and the status of that text with the backup path and the
/// removal message.
pub fn uninstall(config_path: &str, existing: &str, backup_path: &str) -> (r: (String, HookStatus))
    ensures
        r.0@ == remove_managed_text(existing@),
        status_fields(r.1, config_path@, r.0@),
        r.1.backup_path matches Some(b) && b@ == backup_path@,
        r.1.message@ == "Notice hooks removed"@,
{
    let cleaned = remove_managed_block(existing);
    let mut current = status(config_path, cleaned.as_str());
    current.backup_path = Some(String::from_str(backup_path));
    current.message = String::from_str("Notice hooks removed");
    (cleaned, current)
}

} // verus!
