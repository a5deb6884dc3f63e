//! Risk classification of shell commands.
use vstd::prelude::*;
use crate::text::{chars_of, collapse_ws, collapse_ws_exec, contains, contains_str, lower, starts_with, starts_with_str, to_lower};

verus! {

/// How dangerous a command is.
#[derive(Debug, Clone, Copy, PartialEq, Eq, Structural)]
pub enum RiskLevel {
    Critical,
    High,
    Medium,
    NoRisk,
}

/// The level of a command and the name of the rule that set it.
#[derive(Debug, Clone)]
pub struct RiskMatch {
    pub level: RiskLevel,
    pub rule: String,
}

/// The command as the rules see it: ASCII lower case, white-space runs collapsed to one
/// space, no white space at either end.
pub open spec fn normalized_command(command: Seq<char>) -> Seq<char> {
    collapse_ws(lower(command))
}

pub open spec fn is_critical(c: Seq<char>) -> bool {
    ||| contains(c, "rm -rf /"@)
    ||| contains(c, "sudo rm"@)
    ||| contains(c, "diskutil erase"@)
    ||| contains(c, "drop table"@)
    ||| contains(c, "truncate table"@)
}

/// High: world-writable permissions and recursive deletion.
pub open spec fn is_high(c: Seq<char>) -> bool {
    ||| contains(c, "chmod 777"@)
    ||| contains(c, "rm -rf"@)
}

/// Medium (recorded, never blocking): an ordinary `delete`, `git clean`, `docker prune`.
pub open spec fn is_medium(c: Seq<char>) -> bool {
    ||| contains(c, " delete "@)
    ||| starts_with(c, "delete "@)
    ||| contains(c, "git clean -fd"@)
    ||| contains(c, "docker system prune"@)
}

/// The level the rules give a command: the first of critical, high, medium that matches
/// its normalized form, else none.
pub open spec fn risk_level_of(command: Seq<char>) -> RiskLevel {
    let c = normalized_command(command);
    if is_critical(c) {
        RiskLevel::Critical
    } else if is_high(c) {
        RiskLevel::High
    } else if is_medium(c) {
        RiskLevel::Medium
    } else {
        RiskLevel::NoRisk
    }
}

/// The rules ignore ASCII letter case: a command and its lower-case form get the same level.
pub proof fn law_risk_ignores_case(command: Seq<char>)
    ensures
        risk_level_of(lower(command)) == risk_level_of(command),
{
    assert(lower(lower(command)) =~= lower(command));
}

/// The name of the rule for each level.
pub open spec fn rule_name(level: RiskLevel) -> Seq<char> {
    match level {
        RiskLevel::Critical => "critical-destructive-command"@,
        RiskLevel::High => "high-risk-command"@,
        RiskLevel::Medium => "medium-delete-token"@,
        RiskLevel::NoRisk => "none"@,
    }
}

/// The destructive commands are critical, and nothing else is: a command is critical
/// exactly when its normalized form holds `rm -rf /`, `sudo rm`, `diskutil erase`,
/// `drop table` or `truncate table`, whatever else it holds; a critical command is
/// reported under the rule `critical-destructive-command`.
pub proof fn law_destructive_commands_critical(command: Seq<char>)
    ensures
        (risk_level_of(command) == RiskLevel::Critical) == {
            let c = normalized_command(command);
            ||| contains(c, "rm -rf /"@)
            ||| contains(c, "sudo rm"@)
            ||| contains(c, "diskutil erase"@)
            ||| contains(c, "drop table"@)
            ||| contains(c, "truncate table"@)
        },
        rule_name(RiskLevel::Critical) == "critical-destructive-command"@,
{
}

/// Classifies a shell command by the substrings of its normalized form.
pub fn classify_command(command: &str) -> (r: RiskMatch)
    ensures
        r.level == risk_level_of(command@),
        r.rule@ == rule_name(r.level),
        (r.level == RiskLevel::Critical) == {
            let c = normalized_command(command@);
            ||| contains(c, "rm -rf /"@)
            ||| contains(c, "sudo rm"@)
            ||| contains(c, "diskutil erase"@)
            ||| contains(c, "drop table"@)
            ||| contains(c, "truncate table"@)
        },
{
    let raw = chars_of(command);
    let normalized = to_lower(&raw);
    let collapsed = collapse_ws_exec(&normalized);
    if contains_str(&collapsed, "rm -rf /") || contains_str(&collapsed, "sudo rm")
        || contains_str(&collapsed, "diskutil erase") || contains_str(&collapsed, "drop table")
        || contains_str(&collapsed, "truncate table") {
        return RiskMatch { level: RiskLevel::Critical, rule: String::from_str("critical-destructive-command") };
    }
    if contains_str(&collapsed, "chmod 777") || contains_str(&collapsed, "rm -rf") {
        return RiskMatch { level: RiskLevel::High, rule: String::from_str("high-risk-command") };
    }
    if contains_str(&collapsed, " delete ") || starts_with_str(&collapsed, "delete ")
        || contains_str(&collapsed, "git clean -fd") || contains_str(&collapsed, "docker system prune") {
        return RiskMatch { level: RiskLevel::Medium, rule: String::from_str("medium-delete-token") };
    }
    RiskMatch { level: RiskLevel::NoRisk, rule: String::from_str("none") }
}

} // verus!
