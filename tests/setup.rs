use determinal::{
    available_sources, build_local_prompt, build_prompt, direct_argv, direct_argv_from,
    fallback_shell, first_word_of, model_choice, prompt_for, reply_text, shell_kind, AISource,
    CommandCatalog, ShellKind, DEFAULT_MODEL,
};

#[test]
fn prompt_embeds_platform_and_input() {
    let p = build_prompt("linux", "x86_64", "sl");
    assert!(p.starts_with("The user is running linux (x86_64). They typed this in their terminal:\n\n\"sl\"\n\n"));
    assert!(p.contains("Do not use placeholders like [command] - suggest actual commands.\n"));
    assert!(p.ends_with("Explanation: ...\nCommand: <shell_command>"));
}

#[test]
fn local_prompt_names_the_shell() {
    let p = build_local_prompt("linux", "aarch64", "/bin/zsh", "PROMPT");
    assert_eq!(
        p,
        "You are a helpful shell assistant.\nThe user is running linux (aarch64) using /bin/zsh.\n\
If the user input is valid, explain it and repeat it exactly.\n\
If it's invalid, infer the correct command and output the result in the following format:\n\
\nExplanation: ...\nCommand: <shell_command>\n\nUser input:\nPROMPT\n"
    );
}

#[test]
fn prompt_follows_the_backend() {
    assert_eq!(prompt_for(AISource::Unselected, "ls", "linux", "x86_64", "bash"), None);
    assert_eq!(
        prompt_for(AISource::OpenAI, "ls", "linux", "x86_64", "bash"),
        Some(build_prompt("linux", "x86_64", "ls"))
    );
    let inner = build_prompt("linux", "x86_64", "ls");
    assert_eq!(
        prompt_for(AISource::Ollama, "ls", "linux", "x86_64", "bash"),
        Some(build_local_prompt("linux", "x86_64", "bash", &inner))
    );
}

#[test]
fn sources_on_offer() {
    assert_eq!(available_sources(true, true), vec![AISource::OpenAI, AISource::Ollama]);
    assert_eq!(available_sources(false, true), vec![AISource::Ollama]);
    assert!(available_sources(false, false).is_empty());
}

#[test]
fn model_defaults_when_none_listed() {
    assert_eq!(model_choice(&vec![], Some(0)), DEFAULT_MODEL);
    assert_eq!(model_choice(&vec![], None), "llama3");
    let names = vec!["phi3".to_string(), "mistral".to_string()];
    assert_eq!(model_choice(&names, Some(1)), "mistral");
    assert_eq!(model_choice(&names, Some(5)), "phi3");
}

#[test]
fn reply_text_is_trimmed() {
    assert_eq!(reply_text(Some("  Command: ls \n")), "Command: ls");
    assert_eq!(reply_text(None), "");
}

#[test]
fn shell_kinds() {
    assert_eq!(shell_kind("/usr/bin/zsh"), ShellKind::Zsh);
    assert_eq!(shell_kind("pwsh"), ShellKind::PowerShell);
    assert_eq!(shell_kind("C:\\powershell.exe"), ShellKind::PowerShell);
    assert_eq!(shell_kind("cmd.exe"), ShellKind::Cmd);
    assert_eq!(shell_kind("/bin/bash"), ShellKind::Bash);
    assert_eq!(shell_kind(""), ShellKind::Bash);
    assert_eq!(ShellKind::PowerShell.section(), "powershell");
    assert_eq!(fallback_shell(true, true), "powershell");
    assert_eq!(fallback_shell(true, false), "cmd");
    assert_eq!(fallback_shell(false, true), "bash");
}

#[test]
fn first_words() {
    assert_eq!(first_word_of("  ls -la"), Some("ls".to_string()));
    assert_eq!(first_word_of("git\tstatus"), Some("git".to_string()));
    assert_eq!(first_word_of("   "), None);
    assert_eq!(first_word_of(""), None);
}

#[test]
fn catalog_checks_the_first_word() {
    let mut c = CommandCatalog::new();
    c.insert("ls");
    c.insert("git");
    c.insert("ls");
    assert!(c.contains("ls"));
    assert!(!c.contains("l"));
    assert!(c.is_valid_command("ls -la"));
    assert!(c.is_valid_command("  git status"));
    assert!(!c.is_valid_command("sl"));
    assert!(!c.is_valid_command(""));
}

#[test]
fn direct_invocation_uses_shell_words() {
    assert_eq!(
        direct_argv("echo 'a b' c"),
        Some(vec!["echo".to_string(), "a b".to_string(), "c".to_string()])
    );
    assert_eq!(direct_argv("ls | wc -l"), None);
    assert_eq!(direct_argv("echo hi > f"), None);
    assert_eq!(direct_argv("echo 'open"), None);
    assert_eq!(direct_argv("   "), None);
    assert_eq!(direct_argv_from("ls", Some(vec!["ls".to_string()])), Some(vec!["ls".to_string()]));
    assert_eq!(direct_argv_from("ls", None), None);
}
