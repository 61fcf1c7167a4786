use sorry::history::{
    format_history_context, get_last_commands, history_candidates, is_zsh_history,
    parse_bash_line, parse_commands_from_string, parse_zsh_line, HistoryCandidate,
};

fn strings(items: &[&str]) -> Vec<String> {
    items.iter().map(|s| s.to_string()).collect()
}

fn candidate_pairs(found: Vec<HistoryCandidate>) -> Vec<(bool, String)> {
    found
        .into_iter()
        .map(|c| match c {
            HistoryCandidate::Path(p) => (false, p),
            HistoryCandidate::UnderHome(p) => (true, p),
        })
        .collect()
}

#[test]
fn zsh_line_with_header_yields_command() {
    assert_eq!(parse_zsh_line(": 1690000000:0;git status"), Some("git status".to_string()));
}

#[test]
fn zsh_line_without_semicolon_yields_nothing() {
    assert_eq!(parse_zsh_line(": 1690000000:0"), None);
}

#[test]
fn zsh_line_with_nothing_after_semicolon_yields_nothing() {
    assert_eq!(parse_zsh_line(": 1690000000:0;"), None);
}

#[test]
fn zsh_line_keeps_later_semicolons() {
    assert_eq!(parse_zsh_line(": 1:0;cd /tmp; ls"), Some("cd /tmp; ls".to_string()));
}

#[test]
fn zsh_plain_line_is_trimmed() {
    assert_eq!(parse_zsh_line("  ls -la \t"), Some("ls -la".to_string()));
    assert_eq!(parse_zsh_line("   "), None);
    assert_eq!(parse_zsh_line(""), None);
}

#[test]
fn bash_line_is_trimmed() {
    assert_eq!(parse_bash_line("  make test  "), Some("make test".to_string()));
    assert_eq!(parse_bash_line(" \t "), None);
    assert_eq!(parse_bash_line(": 1:0;x"), Some(": 1:0;x".to_string()));
}

#[test]
fn zsh_continuation_is_joined_by_newline() {
    let text = ": 1690000000:0;for i in 1 2\ndo echo $i; done\n";
    assert_eq!(get_last_commands(text, true, 10), strings(&["for i in 1 2\ndo echo $i; done"]));
}

#[test]
fn zsh_entries_follow_each_other() {
    let text = ": 1:0;git add .\n: 2:0;git commit\n\n: 3:0;git push\n";
    assert_eq!(get_last_commands(text, true, 10), strings(&["git add .", "git commit", "git push"]));
}

#[test]
fn zsh_malformed_marker_is_discarded() {
    let text = ": 1:0;ls\n: 1690000000:0\n: 2:0;pwd\n";
    assert_eq!(get_last_commands(text, true, 10), strings(&["ls", "pwd"]));
}

#[test]
fn zsh_line_after_discarded_marker_stands_alone() {
    let text = ": 1:0;ls\n: 2:0\necho hi\n";
    assert_eq!(get_last_commands(text, true, 10), strings(&["ls", "echo hi"]));
}

#[test]
fn zsh_plain_lines_without_markers_join() {
    let text = "ls\npwd\n";
    assert_eq!(get_last_commands(text, true, 10), strings(&["ls\npwd"]));
}

#[test]
fn zsh_handles_carriage_returns() {
    let text = ": 1:0;ls\r\n: 2:0;pwd\r\n";
    assert_eq!(get_last_commands(text, true, 10), strings(&["ls", "pwd"]));
}

#[test]
fn bash_history_is_one_command_per_line() {
    let text = "ls\n\n  cd /tmp  \ngit status\n";
    assert_eq!(get_last_commands(text, false, 10), strings(&["ls", "cd /tmp", "git status"]));
}

#[test]
fn own_invocations_are_excluded_even_when_most_recent() {
    let text = "ls\nsorry what did I do\ngit status\n  sorry again\n";
    assert_eq!(get_last_commands(text, false, 10), strings(&["ls", "git status"]));
    let zsh = ": 1:0;ls\n: 2:0;sorry help\n";
    assert_eq!(get_last_commands(zsh, true, 10), strings(&["ls"]));
}

#[test]
fn own_invocations_do_not_count_towards_the_window() {
    let text = "a\nb\nc\nsorry x\nsorry y\n";
    assert_eq!(get_last_commands(text, false, 2), strings(&["b", "c"]));
}

#[test]
fn last_three_of_ten_in_chronological_order() {
    let text = "c1\nc2\nc3\nc4\nc5\nc6\nc7\nc8\nc9\nc10\n";
    assert_eq!(get_last_commands(text, false, 3), strings(&["c8", "c9", "c10"]));
    let mut zsh = String::new();
    for i in 1..11 {
        zsh.push_str(&format!(": {}:0;cmd{}\n", 1690000000 + i, i));
    }
    assert_eq!(get_last_commands(&zsh, true, 3), strings(&["cmd8", "cmd9", "cmd10"]));
}

#[test]
fn window_larger_than_history_returns_all() {
    assert_eq!(get_last_commands("a\nb\n", false, 10), strings(&["a", "b"]));
    assert_eq!(get_last_commands("a\nb\n", false, 0), Vec::<String>::new());
    assert_eq!(get_last_commands("", false, 5), Vec::<String>::new());
    assert_eq!(get_last_commands("", true, 5), Vec::<String>::new());
}

#[test]
fn commands_from_string_are_trimmed_and_filtered() {
    let text = "  git status \n\n sorry help me\nls -la\r\n   \nsorrynotsorry\n";
    assert_eq!(parse_commands_from_string(text), strings(&["git status", "ls -la"]));
    assert_eq!(parse_commands_from_string(""), Vec::<String>::new());
}

#[test]
fn empty_history_gives_empty_context() {
    assert_eq!(format_history_context(&[]), "");
}

#[test]
fn context_numbers_commands_in_order() {
    let commands = strings(&["git add .", "git commit -m x"]);
    assert_eq!(
        format_history_context(&commands),
        "Here are my last terminal commands:\n```\n1. git add .\n2. git commit -m x\n```\n\n"
    );
}

#[test]
fn context_has_one_numbered_line_per_command() {
    let commands: Vec<String> = (0..12).map(|i| format!("cmd{}", i)).collect();
    let context = format_history_context(&commands);
    let lines: Vec<&str> = context.lines().collect();
    assert_eq!(lines.len(), 12 + 4);
    for i in 0..12 {
        assert_eq!(lines[i + 2], format!("{}. cmd{}", i + 1, i));
    }
    assert_eq!(lines[1], "```");
    assert_eq!(lines[14], "```");
}

#[test]
fn candidates_for_zsh() {
    let found = candidate_pairs(history_candidates(None, "/bin/zsh", true));
    assert_eq!(
        found,
        vec![
            (true, ".zsh_history".to_string()),
            (true, ".zhistory".to_string()),
            (true, "Library/History/zsh_history".to_string()),
        ]
    );
}

#[test]
fn candidates_for_bash() {
    let found = candidate_pairs(history_candidates(None, "/usr/bin/bash", true));
    assert_eq!(found, vec![(true, ".bash_history".to_string())]);
}

#[test]
fn candidates_for_unknown_shell() {
    let found = candidate_pairs(history_candidates(None, "/usr/bin/fish", true));
    assert_eq!(
        found,
        vec![
            (true, ".zsh_history".to_string()),
            (true, ".bash_history".to_string()),
            (true, ".zhistory".to_string()),
            (true, "Library/History/zsh_history".to_string()),
        ]
    );
    assert_eq!(candidate_pairs(history_candidates(None, "", true)).len(), 4);
}

#[test]
fn candidates_start_with_configured_file() {
    let found = candidate_pairs(history_candidates(Some("~/.histfile"), "bash", true));
    assert_eq!(
        found,
        vec![
            (false, "~/.histfile".to_string()),
            (true, ".histfile".to_string()),
            (true, ".bash_history".to_string()),
        ]
    );
    let found = candidate_pairs(history_candidates(Some("/var/hist"), "bash", true));
    assert_eq!(found, vec![(false, "/var/hist".to_string()), (true, ".bash_history".to_string())]);
}

#[test]
fn candidates_without_home() {
    let found = candidate_pairs(history_candidates(Some("~/.histfile"), "zsh", false));
    assert_eq!(found, vec![(false, "~/.histfile".to_string())]);
    assert_eq!(candidate_pairs(history_candidates(None, "zsh", false)), vec![]);
}

#[test]
fn zsh_history_is_known_by_its_path() {
    assert!(is_zsh_history("/home/u/.zsh_history"));
    assert!(is_zsh_history("/Users/u/Library/History/zsh_history"));
    assert!(!is_zsh_history("/home/u/.bash_history"));
    assert!(!is_zsh_history("zs"));
    assert!(!is_zsh_history(""));
}
