//! The choice of backend, and the prompt each backend is sent.
use vstd::prelude::*;
use crate::prompt::{build_local_prompt, build_prompt, local_prompt_text, prompt_text};

verus! {

/// The backend that answers queries.
#[derive(Debug, Clone, Copy, PartialEq, Eq, Structural)]
pub enum AISource {
    OpenAI,
    Ollama,
    Unselected,
}

/// The model asked where no local model can be listed.
pub const DEFAULT_MODEL: &'static str = "llama3";

/// The backends on offer, in the order they are listed: OpenAI where its
/// credential is present, then the local server where it answers.
pub open spec fn available(has_openai: bool, has_ollama: bool) -> Seq<AISource> {
    (if has_openai {
        seq![AISource::OpenAI]
    } else {
        Seq::empty()
    }) + (if has_ollama {
        seq![AISource::Ollama]
    } else {
        Seq::empty()
    })
}

/// The prompt that `source` is sent for `input`; none where no backend is
/// selected.
pub open spec fn source_prompt(
    source: AISource,
    input: Seq<char>,
    os: Seq<char>,
    arch: Seq<char>,
    shell: Seq<char>,
) -> Option<Seq<char>> {
    match source {
        AISource::OpenAI => Some(prompt_text(os, arch, input)),
        AISource::Ollama => Some(local_prompt_text(os, arch, shell, prompt_text(os, arch, input))),
        AISource::Unselected => None,
    }
}

/// The backends on offer, given which are reachable.
pub fn available_sources(has_openai: bool, has_ollama: bool) -> (r: Vec<AISource>)
    ensures
        r@ == available(has_openai, has_ollama),
{
    let mut r: Vec<AISource> = Vec::new();
    if has_openai {
        r.push(AISource::OpenAI);
    }
    if has_ollama {
        r.push(AISource::Ollama);
    }
    assert(r@ =~= available(has_openai, has_ollama));
    r
}

/// The prompt for `input` on the selected backend; `None` where none is
/// selected.
pub fn prompt_for(source: AISource, input: &str, os: &str, arch: &str, shell: &str) -> (r:
    Option<String>)
    ensures
        match r {
            Some(p) => source_prompt(source, input@, os@, arch@, shell@) == Some(p@),
            None => source_prompt(source, input@, os@, arch@, shell@) is None,
        },
{
    match source {
        AISource::OpenAI => Some(build_prompt(os, arch, input)),
        AISource::Ollama => {
            let p = build_prompt(os, arch, input);
            Some(build_local_prompt(os, arch, shell, p.as_str()))
        },
        AISource::Unselected => None,
    }
}

/// The local model to use: the one selected among `names` (the first where
/// the selection is missing or out of range), or the default where none is
/// listed.
pub fn model_choice(names: &Vec<String>, selection: Option<usize>) -> (r: String)
    ensures
        names.len() == 0 ==> r@ == DEFAULT_MODEL@,
        names.len() > 0 ==> r@ == names@[crate::decision::picked_index(
            selection,
            names.len() as int,
        )]@,
{
    if names.len() == 0 {
        return String::from_str(DEFAULT_MODEL);
    }
    let i: usize = match selection {
        Some(i) => if i < names.len() {
            i
        } else {
            0
        },
        None => 0,
    };
    names[i].clone()
}

} // verus!
