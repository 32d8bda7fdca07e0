//! The prompts sent to a backend for one line of user input.
use vstd::prelude::*;
use crate::text::{append_chars, chars_of, string_of, trim, trim_chars};

verus! {

/// What follows the platform and architecture, up to the quoted input.
pub const PROMPT_LEAD: &'static str = "). They typed this in their terminal:\n\n\"";

/// The instructions that follow the quoted input.
pub const PROMPT_INSTRUCTIONS: &'static str = "\"\n\n\
    If the command is a request for help or information, suggest specific, actionable commands.\n\
    For example, if they type 'help', suggest 'man bash' or 'help' (for bash) or 'compgen -c' to list commands.\n\
    Do not use placeholders like [command] - suggest actual commands.\n\
    If the command is valid, explain it and repeat it exactly.\n\
    If it's invalid, infer the correct command and output the result in this format:\n\n\
    Explanation: ...\n\
    Command: <shell_command>";

/// The opening of the prompt for a local model.
pub const LOCAL_OPENING: &'static str = "You are a helpful shell assistant.\nThe user is running ";

/// The instructions between the shell name and the prompt it wraps.
pub const LOCAL_INSTRUCTIONS: &'static str = ".\n\
    If the user input is valid, explain it and repeat it exactly.\n\
    If it's invalid, infer the correct command and output the result in the following format:\n\
    \nExplanation: ...\nCommand: <shell_command>\n\nUser input:\n";

/// The prompt for `input`, typed on `platform` (`arch`).
pub open spec fn prompt_text(platform: Seq<char>, arch: Seq<char>, input: Seq<char>) -> Seq<
    char,
> {
    "The user is running "@ + platform + " ("@ + arch + PROMPT_LEAD@ + input
        + PROMPT_INSTRUCTIONS@
}

/// The prompt for a local model: `prompt` wrapped with the platform,
/// architecture and shell.
pub open spec fn local_prompt_text(
    os: Seq<char>,
    arch: Seq<char>,
    shell: Seq<char>,
    prompt: Seq<char>,
) -> Seq<char> {
    LOCAL_OPENING@ + os + " ("@ + arch + ") using "@ + shell + LOCAL_INSTRUCTIONS@ + prompt
        + "\n"@
}

/// The prompt that embeds the platform, the architecture and the user's
/// input, quoted, with the instructions on the reply's form.
pub fn build_prompt(platform: &str, arch: &str, input: &str) -> (r: String)
    ensures
        r@ == prompt_text(platform@, arch@, input@),
{
    let mut out = chars_of("The user is running ");
    append_chars(&mut out, &chars_of(platform));
    append_chars(&mut out, &chars_of(" ("));
    append_chars(&mut out, &chars_of(arch));
    append_chars(&mut out, &chars_of(PROMPT_LEAD));
    append_chars(&mut out, &chars_of(input));
    append_chars(&mut out, &chars_of(PROMPT_INSTRUCTIONS));
    string_of(&out)
}

/// The prompt for a local model, which also names the shell.
pub fn build_local_prompt(os: &str, arch: &str, shell: &str, prompt: &str) -> (r: String)
    ensures
        r@ == local_prompt_text(os@, arch@, shell@, prompt@),
{
    let mut out = chars_of(LOCAL_OPENING);
    append_chars(&mut out, &chars_of(os));
    append_chars(&mut out, &chars_of(" ("));
    append_chars(&mut out, &chars_of(arch));
    append_chars(&mut out, &chars_of(") using "));
    append_chars(&mut out, &chars_of(shell));
    append_chars(&mut out, &chars_of(LOCAL_INSTRUCTIONS));
    append_chars(&mut out, &chars_of(prompt));
    append_chars(&mut out, &chars_of("\n"));
    string_of(&out)
}

/// The reply text that a backend's envelope held, trimmed; empty where it
/// held none.
pub fn reply_text(content: Option<&str>) -> (r: String)
    ensures
        r@ == match content {
            Some(c) => trim(c@),
            None => Seq::empty(),
        },
{
    match content {
        Some(c) => string_of(&trim_chars(&chars_of(c))),
        None => String::new(),
    }
}

} // verus!
