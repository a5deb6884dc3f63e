use notice::hooks::{
    append_hooks, backup_path, hash_notice_block, hook_command, install, managed_block, managed_block_complete,
    preview, remove_managed_block, shell_escape, status, uninstall, wrapper_script, START_MARKER, END_MARKER,
};

#[test]
fn install_preserves_existing_hooks() {
    let existing = "[hooks]\n\n[[hooks.Stop]]\n[[hooks.Stop.hooks]]\ntype = \"command\"\ncommand = \"echo existing\"\n";
    let next = append_hooks(existing, "notice-hook");
    assert!(next.contains("echo existing"));
    assert!(next.contains(START_MARKER));
    assert!(next.contains("notice-hook"));
    assert!(next.contains("[[hooks.UserPromptSubmit]]"));
}

#[test]
fn uninstall_removes_only_managed_block() {
    let input = "before\n# >>> Notice managed hooks >>>\nmanaged\n# <<< Notice managed hooks <<<\nafter\n";
    let cleaned = remove_managed_block(input);
    assert!(cleaned.contains("before"));
    assert!(cleaned.contains("after"));
    assert!(!cleaned.contains("managed"));
}

#[test]
fn managed_block_is_incomplete_without_user_prompt_submit() {
    let input = "# >>> Notice managed hooks >>>\n[[hooks.SessionStart]]\n[[hooks.PermissionRequest]]\n[[hooks.PreToolUse]]\n[[hooks.PostToolUse]]\n[[hooks.Stop]]\n# <<< Notice managed hooks <<<\n";

    assert!(!managed_block_complete(input));
}

#[test]
fn command_runs_wrapper_through_shell_for_paths_with_spaces() {
    let command = hook_command("/Users/di/Library/Application Support/Notice");
    assert_eq!(
        command,
        "/bin/sh '/Users/di/Library/Application Support/Notice/hooks/notice-hook.sh'"
    );
}

#[test]
fn managed_block_lists_every_event_with_escaped_command() {
    let block = managed_block("say \"hi\"");
    assert!(block.starts_with("# >>> Notice managed hooks >>>\n\n[[hooks.SessionStart]]\n[[hooks.SessionStart.hooks]]\ntype = \"command\"\ncommand = \"say \\\"hi\\\"\"\ntimeout = 30\nstatusMessage = \"Notice processing hook\"\n"));
    assert!(block.ends_with("statusMessage = \"Notice processing hook\"\n# <<< Notice managed hooks <<<\n"));
    for event in ["SessionStart", "UserPromptSubmit", "PermissionRequest", "PreToolUse", "PostToolUse", "Stop"] {
        assert!(block.contains(&format!("[[hooks.{event}]]")));
        assert!(block.contains(&format!("[[hooks.{event}.hooks]]")));
    }
    assert!(managed_block_complete(&block));
}

#[test]
fn uninstall_after_install_gives_back_user_text() {
    let existing = "model = \"o3\"\n\n[hooks]\n  \n\n";
    let installed = append_hooks(existing, "/bin/sh '/tmp/x/hooks/notice-hook.sh'");
    assert!(managed_block_complete(&installed));
    assert_eq!(remove_managed_block(&installed), "model = \"o3\"\n\n[hooks]\n");
}

#[test]
fn uninstall_after_install_into_empty_config_leaves_a_line_break() {
    let installed = append_hooks("", "cmd");
    assert!(installed.starts_with("\n# >>> Notice managed hooks >>>\n"));
    assert_eq!(remove_managed_block(&installed), "\n");
}

#[test]
fn reinstall_changes_nothing() {
    let existing = "a = 1\n# >>> Notice managed hooks >>>\nold\n# <<< Notice managed hooks <<<\nb = 2\n";
    let once = append_hooks(&remove_managed_block(existing), "cmd");
    let twice = append_hooks(&remove_managed_block(&once), "cmd");
    assert_eq!(once, twice);
    assert!(once.starts_with("a = 1\nb = 2\n# >>> Notice managed hooks >>>\n"));
}

#[test]
fn markers_are_recognised_with_surrounding_space() {
    let input = "keep\n   # >>> Notice managed hooks >>>  \ndrop\n\t# <<< Notice managed hooks <<<\nlast";
    assert_eq!(remove_managed_block(input), "keep\nlast\n");
}

#[test]
fn unterminated_block_drops_the_rest() {
    let input = "keep\n# >>> Notice managed hooks >>>\nrest\nmore\n";
    assert_eq!(remove_managed_block(input), "keep\n");
}

#[test]
fn crlf_lines_lose_their_carriage_return() {
    assert_eq!(remove_managed_block("a\r\nb\r\n"), "a\nb\n");
}

#[test]
fn shell_escape_quotes_single_quotes() {
    assert_eq!(shell_escape("it's"), "'it'\\''s'");
    assert_eq!(shell_escape(""), "''");
}

#[test]
fn hash_is_lowercase_sha256_hex() {
    assert_eq!(
        hash_notice_block(""),
        "e3b0c44298fc1c149afbf4c8996fb92427ae41e4649b934ca495991b7852b855"
    );
    assert_eq!(
        hash_notice_block("# >>> Notice managed hooks >>>"),
        "73e378698be49cb3c55e1f1141fe04153c00bc05952711363d97425a975e46b6"
    );
}

#[test]
fn status_reports_three_states() {
    let complete = managed_block("cmd");
    let s = status("/home/u/.codex/config.toml", &complete);
    assert!(s.installed);
    assert_eq!(s.message, "Notice hooks installed");
    assert_eq!(s.config_path, "/home/u/.codex/config.toml");
    assert_eq!(s.managed_block_hash.as_deref(), Some(hash_notice_block(&complete).as_str()));
    assert!(s.backup_path.is_none());

    let partial = format!("{START_MARKER}\n[[hooks.Stop]]\n{END_MARKER}\n");
    let s = status("c", &partial);
    assert!(!s.installed);
    assert_eq!(s.message, "Notice hooks need reinstall");
    assert!(s.managed_block_hash.is_some());

    let s = status("c", "");
    assert!(!s.installed);
    assert_eq!(s.message, "Notice hooks not installed");
    assert!(s.managed_block_hash.is_none());
}

#[test]
fn install_and_uninstall_report_backup() {
    let (text, s) = install("cfg", "x = 1\n", "/data", "/data/hooks/backups/config-20260101000000.toml");
    assert!(text.starts_with("x = 1\n# >>> Notice managed hooks >>>\n"));
    assert!(text.contains("command = \"/bin/sh '/data/hooks/notice-hook.sh'\""));
    assert!(s.installed);
    assert_eq!(s.message, "Notice hooks installed with backup");
    assert_eq!(s.backup_path.as_deref(), Some("/data/hooks/backups/config-20260101000000.toml"));

    let (cleaned, s) = uninstall("cfg", &text, "b");
    assert_eq!(cleaned, "x = 1\n");
    assert!(!s.installed);
    assert_eq!(s.message, "Notice hooks removed");
    assert_eq!(s.backup_path.as_deref(), Some("b"));
}

#[test]
fn preview_shows_block_for_data_dir() {
    let p = preview("/home/u/.codex/config.toml", false, "/data/");
    assert!(p.will_create_config);
    assert_eq!(p.preview, managed_block("/bin/sh '/data/hooks/notice-hook.sh'"));
    let p = preview("c", true, "/data");
    assert!(!p.will_create_config);
}

#[test]
fn wrapper_script_names_token_file() {
    let (path, body) = wrapper_script("/data dir");
    assert_eq!(path, "/data dir/hooks/notice-hook.sh");
    assert!(body.starts_with("#!/bin/sh\nTOKEN_FILE='/data dir/hooks/token'\nPAYLOAD=\"$(cat)\"\n"));
    assert!(body.contains("http://127.0.0.1:3746/api/webhook/codex"));
    assert!(body.contains("printf '{\"continue\":true,\"suppressOutput\":true}\\n'"));
    assert!(body.ends_with("fi\n"));
}

#[test]
fn backup_path_is_in_hooks_backups() {
    assert_eq!(backup_path("/data", "20260102030405"), "/data/hooks/backups/config-20260102030405.toml");
}

#[test]
fn managed_block_removes_itself() {
    assert_eq!(remove_managed_block(&managed_block("/bin/sh '/x/hooks/notice-hook.sh'")), "");
    assert_eq!(remove_managed_block(&managed_block("say \"# <<< Notice managed hooks <<<\"")), "");
}

#[test]
fn uninstall_removes_wrapper_and_token_files() {
    assert_eq!(
        notice::hooks::wrapper_files("/data"),
        vec!["/data/hooks/notice-hook.sh".to_string(), "/data/hooks/token".to_string()]
    );
}

#[test]
fn appending_hooks_twice_is_appending_once() {
    let existing = "model = \"gpt\"\n\n[profile]\nname = \"me\"   \n\n";
    let once = append_hooks(existing, "notice-hook");
    let twice = append_hooks(&once, "notice-hook");
    assert_eq!(twice, once);
    assert!(once.starts_with("model = \"gpt\"\n\n[profile]\nname = \"me\"\n"));
}
