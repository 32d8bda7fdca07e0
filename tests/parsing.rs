use determinal::{clean_command, parse_response};

#[test]
fn well_formed_pair_parses() {
    let hint = parse_response("Explanation: Lists files in long form.\nCommand: ls -la");
    assert_eq!(hint.text, "Lists files in long form.");
    assert_eq!(hint.command.as_deref(), Some("ls -la"));
}

#[test]
fn fenced_command_is_stripped() {
    let hint = parse_response("Explanation: Shows the date.\nCommand: ```bash date```");
    assert_eq!(hint.text, "Shows the date.");
    assert_eq!(hint.command.as_deref(), Some("date"));
    let hint = parse_response("Explanation: x\nCommand: `git status`");
    assert_eq!(hint.command.as_deref(), Some("git status"));
    let hint = parse_response("Explanation: x\nCommand: \"pwd\"");
    assert_eq!(hint.command.as_deref(), Some("pwd"));
}

#[test]
fn labels_are_case_insensitive() {
    let hint = parse_response("EXPLANATION: shout\ncommand: whoami");
    assert_eq!(hint.text, "shout");
    assert_eq!(hint.command.as_deref(), Some("whoami"));
}

#[test]
fn last_command_line_wins() {
    let hint = parse_response("Command: ls\nExplanation: two tries\nCommand: ls -a\nCommand: ls -l");
    assert_eq!(hint.command.as_deref(), Some("ls -l"));
    assert_eq!(hint.text, "two tries");
}

#[test]
fn empty_command_payload_is_ignored() {
    let hint = parse_response("Command: ls\nCommand: ``` ```");
    assert_eq!(hint.command.as_deref(), Some("ls"));
    let hint = parse_response("Explanation: nothing to do\nCommand: ''");
    assert_eq!(hint.command, None);
    assert_eq!(hint.text, "nothing to do");
}

#[test]
fn unlabelled_reply_is_all_explanation() {
    let hint = parse_response("  This is just prose.  \n\n  More prose here.\r\n");
    assert_eq!(hint.command, None);
    assert_eq!(hint.text, "This is just prose. More prose here.");
}

#[test]
fn empty_reply_gives_empty_hint() {
    let hint = parse_response("");
    assert_eq!(hint.command, None);
    assert_eq!(hint.text, "");
}

#[test]
fn commentary_around_the_sections_is_kept() {
    let hint = parse_response("Sure!\nExplanation: It lists files.\nCommand: ls\nHope this helps.");
    assert_eq!(hint.text, "Sure! It lists files. Hope this helps.");
    assert_eq!(hint.command.as_deref(), Some("ls"));
}

#[test]
fn cleaning_a_clean_command_keeps_it() {
    for c in ["ls -la", "git commit -m x", "echo a | wc -c", ""] {
        assert_eq!(clean_command(c), c);
    }
}

#[test]
fn cleaning_strips_fences_quotes_and_space() {
    assert_eq!(clean_command("  ```bash\n ls ```  "), "ls");
    assert_eq!(clean_command("```ls```"), "ls");
    assert_eq!(clean_command("'\"cat file\"'"), "cat file");
}
