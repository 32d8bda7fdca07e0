//! Interpretation of a shell assistant's AI replies: the prompt sent for a
//! line of user input, the parse of the reply into a hint, the test of
//! whether the reply affirms the input, and the decision on what to run.
pub mod backend;
pub mod catalog;
pub mod classify;
pub mod decision;
pub mod hint;
pub mod invocation;
pub mod prompt;
pub mod text;

pub use backend::{available_sources, model_choice, prompt_for, AISource, DEFAULT_MODEL};
pub use catalog::{fallback_shell, first_word_of, shell_kind, CommandCatalog, ShellKind};
pub use classify::{affirms_lowered, is_affirmed};
pub use decision::{decide, decide_with, pick_candidate, split_candidates, Action};
pub use hint::{clean_command, parse_response, AIHint};
pub use invocation::{direct_argv, direct_argv_from};
pub use prompt::{build_local_prompt, build_prompt, reply_text};
