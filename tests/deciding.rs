use determinal::{
    affirms_lowered, decide, decide_with, is_affirmed, parse_response, pick_candidate,
    split_candidates, AIHint, Action,
};

fn hint(text: &str, command: Option<&str>) -> AIHint {
    AIHint { text: text.to_string(), command: command.map(|c| c.to_string()) }
}

#[test]
fn each_affirming_phrase_is_recognised() {
    for t in [
        "\u{2705} fine",
        "the command is correct",
        "this is already correct",
        "there is no need for correction",
        "ls is valid here",
    ] {
        assert!(affirms_lowered(t), "{}", t);
        assert!(is_affirmed(t), "{}", t);
    }
}

#[test]
fn no_affirming_phrase_is_negative() {
    assert!(!affirms_lowered("sl is not a valid command."));
    assert!(!is_affirmed("Try something else"));
    assert!(!is_affirmed(""));
}

#[test]
fn affirmation_ignores_case() {
    assert!(is_affirmed("This Command IS CORRECT."));
    assert!(!affirms_lowered("This Command IS CORRECT."));
}

#[test]
fn affirmed_without_command_runs_original() {
    let a = decide_with("ls", &hint("fine", None), true);
    assert!(matches!(a, Action::RunOriginal));
}

#[test]
fn alternatives_offer_a_choice() {
    let a = decide_with("x", &hint("pick one", Some("a or b")), false);
    match a {
        Action::ChooseAmong(v) => assert_eq!(v, vec!["a".to_string(), "b".to_string()]),
        other => panic!("{:?}", other),
    }
}

#[test]
fn single_command_runs_on_confirmation() {
    let a = decide_with("x", &hint("long listing", Some("ls -la")), false);
    match a {
        Action::RunSingle(c) => assert_eq!(c, "ls -la"),
        other => panic!("{:?}", other),
    }
}

#[test]
fn no_command_displays_explanation() {
    let a = decide_with("what", &hint("just words", None), false);
    match a {
        Action::Display(t) => assert_eq!(t, "just words"),
        other => panic!("{:?}", other),
    }
}

#[test]
fn affirmed_but_different_command_is_offered() {
    let a = decide_with("ls -l", &hint("is valid", Some("ls -la")), true);
    assert!(matches!(a, Action::RunSingle(c) if c == "ls -la"));
}

#[test]
fn typo_is_corrected() {
    let h = parse_response("Explanation: sl is not a valid command.\nCommand: ls");
    assert_eq!(h.text, "sl is not a valid command.");
    assert_eq!(h.command.as_deref(), Some("ls"));
    assert!(!is_affirmed(&h.text));
    match decide("sl", &h) {
        Action::RunSingle(c) => assert_eq!(c, "ls"),
        other => panic!("{:?}", other),
    }
}

#[test]
fn correct_input_runs_unchanged() {
    let h = parse_response("Explanation: This command is already correct.\nCommand: ls -la");
    assert!(is_affirmed(&h.text));
    assert!(matches!(decide("ls -la", &h), Action::RunOriginal));
}

#[test]
fn candidates_are_trimmed_and_nonblank() {
    assert_eq!(split_candidates("a or b"), vec!["a", "b"]);
    assert_eq!(split_candidates("ls -la or  ls -l or   or du"), vec!["ls -la", "ls -l", "du"]);
    assert_eq!(split_candidates("sort"), vec!["sort"]);
    assert_eq!(split_candidates("color"), vec!["color"]);
}

#[test]
fn picking_defaults_to_the_first() {
    let c = vec![" a ".to_string(), "b".to_string()];
    assert_eq!(pick_candidate(&c, Some(1)), "b");
    assert_eq!(pick_candidate(&c, Some(7)), "a");
    assert_eq!(pick_candidate(&c, None), "a");
}
