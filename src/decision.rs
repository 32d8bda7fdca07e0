//! The decision, for one turn, on what to run or show.
use vstd::prelude::*;
use crate::classify::{affirms, is_affirmed, lower_of};
use crate::hint::{option_view, AIHint};
use crate::text::{
    chars_of, same_chars, split_on, split_on_chars, string_of, string_views, trim, trim_chars,
};

verus! {

/// What to do with one line of input once the reply is parsed.
#[derive(Debug)]
pub enum Action {
    /// Run the user's input as it stands, without asking.
    RunOriginal,
    /// Offer the command and, on confirmation, run the hint's command field
    /// whole, as parsed (a single candidate is never run in its place).
    RunSingle(String),
    /// Offer the candidates and run the one the user picks, trimmed.
    ChooseAmong(Vec<String>),
    /// Show the explanation; run nothing.
    Display(String),
}

/// The mathematical form of an `Action`.
pub enum ActionModel {
    RunOriginal,
    RunSingle(Seq<char>),
    ChooseAmong(Seq<Seq<char>>),
    Display(Seq<char>),
}

impl View for Action {
    type V = ActionModel;

    open spec fn view(&self) -> ActionModel {
        match self {
            Action::RunOriginal => ActionModel::RunOriginal,
            Action::RunSingle(c) => ActionModel::RunSingle(c@),
            Action::ChooseAmong(v) => ActionModel::ChooseAmong(string_views(v@)),
            Action::Display(t) => ActionModel::Display(t@),
        }
    }
}

/// The separator between alternative commands.
pub open spec fn or_separator() -> Seq<char> {
    " or "@
}

/// The pieces, trimmed, that are not empty.
pub open spec fn nonblank(ps: Seq<Seq<char>>) -> Seq<Seq<char>>
    decreases ps.len(),
{
    if ps.len() == 0 {
        Seq::empty()
    } else {
        let r = nonblank(ps.drop_last());
        if trim(ps.last()).len() > 0 {
            r.push(trim(ps.last()))
        } else {
            r
        }
    }
}

/// The alternatives that a command offers, split at `" or "`.
pub open spec fn candidates(c: Seq<char>) -> Seq<Seq<char>> {
    nonblank(split_on(c, or_separator()))
}

/// The decision for `input`, given the hint's explanation and command and
/// whether the explanation affirms the input.
pub open spec fn decision(
    input: Seq<char>,
    text: Seq<char>,
    command: Option<Seq<char>>,
    affirmed: bool,
) -> ActionModel {
    if affirmed && (command is None || command == Some(input)) {
        ActionModel::RunOriginal
    } else {
        match command {
            Some(c) => if candidates(c).len() > 1 {
                ActionModel::ChooseAmong(candidates(c))
            } else {
                ActionModel::RunSingle(c)
            },
            None => ActionModel::Display(text),
        }
    }
}

/// The rules of the decision: an affirmed input with no command, or with
/// its own text as the command, runs as it is; otherwise a command with two
/// or more alternatives offers a choice among them, a command with one runs
/// on confirmation, and without a command the explanation is shown.
pub proof fn lemma_decision_rules(
    input: Seq<char>,
    text: Seq<char>,
    command: Option<Seq<char>>,
    affirmed: bool,
)
    ensures
        affirmed && (command is None || command == Some(input)) ==> decision(
            input,
            text,
            command,
            affirmed,
        ) == ActionModel::RunOriginal,
        !affirmed && command is Some && candidates(command->0).len() > 1 ==> decision(
            input,
            text,
            command,
            affirmed,
        ) == ActionModel::ChooseAmong(candidates(command->0)),
        !affirmed && command is Some && candidates(command->0).len() <= 1 ==> decision(
            input,
            text,
            command,
            affirmed,
        ) == ActionModel::RunSingle(command->0),
        !affirmed && command is None ==> decision(input, text, command, affirmed)
            == ActionModel::Display(text),
{
}

/// The index that a selection picks among `n` items: the selection where it
/// is in range, else the first.
pub open spec fn picked_index(selection: Option<usize>, n: int) -> int {
    match selection {
        Some(i) => if i < n {
            i as int
        } else {
            0
        },
        None => 0,
    }
}

/// The alternatives of a command: its pieces between `" or "`, trimmed,
/// without the empty ones.
pub fn split_candidates(command: &str) -> (r: Vec<String>)
    ensures
        string_views(r@) == candidates(command@),
{
    let sep = chars_of(" or ");
    proof {
        reveal_strlit(" or ");
    }
    let pieces = split_on_chars(&chars_of(command), &sep);
    let ghost ps = split_on(command@, or_separator());
    let mut out: Vec<String> = Vec::new();
    let mut i: usize = 0;
    assert(ps.take(0) =~= Seq::<Seq<char>>::empty());
    while i < pieces.len()
        invariant
            i <= pieces.len(),
            crate::text::views(pieces@) == ps,
            string_views(out@) == nonblank(ps.take(i as int)),
        decreases pieces.len() - i,
    {
        assert(ps.take(i + 1).drop_last() =~= ps.take(i as int));
        let t = trim_chars(&pieces[i]);
        if t.len() > 0 {
            let ghost before = out@;
            out.push(string_of(&t));
            assert(string_views(out@) =~= string_views(before).push(t@));
        }
        i = i + 1;
    }
    assert(ps.take(pieces.len() as int) =~= ps);
    out
}

/// The decision for `input` and its hint, given whether the hint's
/// explanation affirms the input.
pub fn decide_with(input: &str, hint: &AIHint, affirmed: bool) -> (r: Action)
    ensures
        r@ == decision(input@, hint.text@, option_view(hint.command), affirmed),
{
    let same = match &hint.command {
        Some(c) => same_chars(&chars_of(c.as_str()), &chars_of(input)),
        None => true,
    };
    if affirmed && same {
        return Action::RunOriginal;
    }
    match &hint.command {
        Some(c) => {
            let cands = split_candidates(c.as_str());
            if cands.len() > 1 {
                Action::ChooseAmong(cands)
            } else {
                Action::RunSingle(c.clone())
            }
        },
        None => Action::Display(hint.text.clone()),
    }
}

/// The decision for `input` and its hint, the explanation's lowercase form
/// deciding whether it affirms the input.
pub fn decide(input: &str, hint: &AIHint) -> (r: Action)
    ensures
        r@ == decision(
            input@,
            hint.text@,
            option_view(hint.command),
            affirms(lower_of(hint.text@)),
        ),
{
    let affirmed = is_affirmed(hint.text.as_str());
    decide_with(input, hint, affirmed)
}

/// The candidate that a selection picks, trimmed; the first where the
/// selection is missing or out of range.
pub fn pick_candidate(candidates: &Vec<String>, selection: Option<usize>) -> (r: String)
    requires
        candidates.len() > 0,
    ensures
        r@ == trim(candidates@[picked_index(selection, candidates.len() as int)]@),
{
    let i: usize = match selection {
        Some(i) => if i < candidates.len() {
            i
        } else {
            0
        },
        None => 0,
    };
    string_of(&trim_chars(&chars_of(candidates[i].as_str())))
}

} // verus!
