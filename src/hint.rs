//! The parse of an AI reply into a hint: an explanation and at most one
//! suggested command.
use vstd::prelude::*;
use crate::text::{
    append_chars, is_quote, occurs_at, trim_start, chars_of, is_space, slice, split_on, split_on_chars, string_of,
    strip_prefix_all, strip_prefix_all_chars, strip_suffix_all, strip_suffix_all_chars, trim,
    trim_chars, trim_quote_chars, trim_quotes, views,
};

verus! {

/// What a reply says: its explanation, and the command it suggests, if any.
#[derive(Debug)]
pub struct AIHint {
    pub text: String,
    pub command: Option<String>,
}

pub open spec fn option_view(o: Option<String>) -> Option<Seq<char>> {
    match o {
        Some(s) => Some(s@),
        None => None,
    }
}

pub open spec fn command_label() -> Seq<char> {
    "command:"@
}

pub open spec fn explanation_label() -> Seq<char> {
    "explanation:"@
}

pub open spec fn fence_bash() -> Seq<char> {
    "```bash"@
}

pub open spec fn fence() -> Seq<char> {
    "```"@
}

/// `c` lowercases to the label character `l`. Labels hold lowercase ASCII
/// letters and punctuation only, and besides `c == l` the one character that
/// lowercases to such a letter is its ASCII capital (the Kelvin sign, which
/// lowercases to `k`, matches no label letter).
pub open spec fn folds_to(c: char, l: char) -> bool {
    c == l || ('a' <= l && l <= 'z' && c as u32 == l as u32 - 32)
}

/// The line starts with `label`, compared case-insensitively.
pub open spec fn has_label(line: Seq<char>, label: Seq<char>) -> bool {
    line.len() >= label.len() && forall|i: int|
        0 <= i < label.len() ==> #[trigger] folds_to(line[i], label[i])
}

/// A command payload without its code fences, quotes, backticks and
/// surrounding white space.
pub open spec fn clean(s: Seq<char>) -> Seq<char> {
    trim(
        trim_quotes(
            strip_suffix_all(strip_prefix_all(strip_prefix_all(trim(s), fence_bash()), fence()), fence()),
        ),
    )
}

/// The lines of a reply. `str::lines` would also drop a final empty line
/// and a carriage return before each newline; neither matters once every
/// line is trimmed and empty pieces are skipped.
pub open spec fn lines_of(s: Seq<char>) -> Seq<Seq<char>> {
    split_on(s, seq!['\n'])
}

/// The command a trimmed line gives, if it is a `Command:` line whose payload
/// stays non-empty after cleaning.
pub open spec fn line_command(t: Seq<char>) -> Option<Seq<char>> {
    let c = clean(t.skip(command_label().len() as int));
    if has_label(t, command_label()) && c.len() > 0 {
        Some(c)
    } else {
        None
    }
}

/// What a trimmed line adds to the explanation: nothing for a `Command:`
/// line, the text after the label for an `Explanation:` line, else the line.
pub open spec fn line_piece(t: Seq<char>) -> Seq<char> {
    if has_label(t, command_label()) {
        Seq::empty()
    } else if has_label(t, explanation_label()) {
        trim(t.skip(explanation_label().len() as int))
    } else {
        t
    }
}

/// `acc` followed by the piece `p`, with one space between two non-empty
/// parts; an empty piece is skipped.
pub open spec fn join_piece(acc: Seq<char>, p: Seq<char>) -> Seq<char> {
    if p.len() == 0 {
        acc
    } else if acc.len() == 0 {
        p
    } else {
        acc + seq![' '] + p
    }
}

/// The command of the last line that gives one.
pub open spec fn hint_command(ls: Seq<Seq<char>>) -> Option<Seq<char>>
    decreases ls.len(),
{
    if ls.len() == 0 {
        None
    } else {
        match line_command(trim(ls.last())) {
            Some(c) => Some(c),
            None => hint_command(ls.drop_last()),
        }
    }
}

/// The non-empty pieces of the lines, in order, joined by single spaces.
pub open spec fn hint_explanation(ls: Seq<Seq<char>>) -> Seq<char>
    decreases ls.len(),
{
    if ls.len() == 0 {
        Seq::empty()
    } else {
        join_piece(hint_explanation(ls.drop_last()), line_piece(trim(ls.last())))
    }
}

/// The trimmed lines that are not empty, joined by single spaces.
pub open spec fn joined_lines(ls: Seq<Seq<char>>) -> Seq<char>
    decreases ls.len(),
{
    if ls.len() == 0 {
        Seq::empty()
    } else {
        join_piece(joined_lines(ls.drop_last()), trim(ls.last()))
    }
}

fn has_label_chars(line: &Vec<char>, label: &Vec<char>) -> (r: bool)
    ensures
        r == has_label(line@, label@),
{
    if line.len() < label.len() {
        return false;
    }
    let mut i: usize = 0;
    while i < label.len()
        invariant
            i <= label.len() <= line.len(),
            forall|j: int| 0 <= j < i ==> #[trigger] folds_to(line@[j], label@[j]),
        decreases label.len() - i,
    {
        let c = line[i];
        let l = label[i];
        if !(c == l || ('a' <= l && l <= 'z' && c as u32 == l as u32 - 32)) {
            assert(!folds_to(line@[i as int], label@[i as int]));
            return false;
        }
        i = i + 1;
    }
    true
}

fn clean_chars(s: &Vec<char>) -> (r: Vec<char>)
    ensures
        r@ == clean(s@),
{
    let t = trim_chars(s);
    let a = strip_prefix_all_chars(&t, &chars_of("```bash"));
    let b = strip_prefix_all_chars(&a, &chars_of("```"));
    let c = strip_suffix_all_chars(&b, &chars_of("```"));
    let d = trim_quote_chars(&c);
    trim_chars(&d)
}

/// A command with a leading code fence (bare or tagged `bash`), a trailing
/// code fence, surrounding quotes and backticks, and surrounding white space
/// removed.
pub fn clean_command(cmd: &str) -> (r: String)
    ensures
        r@ == clean(cmd@),
{
    string_of(&clean_chars(&chars_of(cmd)))
}

/// Parses a reply line by line. A `Command:` line whose cleaned payload is
/// non-empty sets the command, the last such line winning; every other line
/// adds its text (after the label, for an `Explanation:` line) to the
/// explanation.
pub fn parse_response(response: &str) -> (r: AIHint)
    ensures
        r.text@ == hint_explanation(lines_of(response@)),
        option_view(r.command) == hint_command(lines_of(response@)),
{
    let chars = chars_of(response);
    let newline: Vec<char> = vec!['\n'];
    assert(newline@ =~= seq!['\n']);
    let lines = split_on_chars(&chars, &newline);
    let ghost ls = lines_of(response@);
    let command_tag = chars_of("command:");
    let explanation_tag = chars_of("explanation:");
    let mut explanation: Vec<char> = Vec::new();
    let mut command: Option<Vec<char>> = None;
    let mut i: usize = 0;
    assert(ls.take(0) =~= Seq::<Seq<char>>::empty());
    while i < lines.len()
        invariant
            i <= lines.len(),
            views(lines@) == ls,
            command_tag@ == command_label(),
            explanation_tag@ == explanation_label(),
            explanation@ == hint_explanation(ls.take(i as int)),
            match command {
                Some(c) => hint_command(ls.take(i as int)) == Some(c@),
                None => hint_command(ls.take(i as int)) is None,
            },
        decreases lines.len() - i,
    {
        assert(ls.take(i + 1).drop_last() =~= ls.take(i as int));
        assert(ls.take(i + 1).last() == lines@[i as int]@);
        let t = trim_chars(&lines[i]);
        if has_label_chars(&t, &command_tag) {
            let c = clean_chars(&slice(&t, command_tag.len(), t.len()));
            assert(t@.skip(command_label().len() as int) =~= t@.subrange(
                command_tag.len() as int,
                t.len() as int,
            ));
            if c.len() > 0 {
                command = Some(c);
            }
        } else {
            let piece = if has_label_chars(&t, &explanation_tag) {
                assert(t@.skip(explanation_label().len() as int) =~= t@.subrange(
                    explanation_tag.len() as int,
                    t.len() as int,
                ));
                trim_chars(&slice(&t, explanation_tag.len(), t.len()))
            } else {
                t
            };
            if piece.len() > 0 {
                if explanation.len() > 0 {
                    explanation.push(' ');
                }
                append_chars(&mut explanation, &piece);
            }
        }
        i = i + 1;
    }
    assert(ls.take(lines.len() as int) =~= ls);
    let text = string_of(&explanation);
    let command = match command {
        Some(c) => Some(string_of(&c)),
        None => None,
    };
    AIHint { text, command }
}

proof fn lemma_split_without_separator(s: Seq<char>, c: char)
    requires
        !s.contains(c),
    ensures
        split_on(s, seq![c]) == seq![s],
    decreases s.len(),
{
    if s.len() > 0 {
        assert(s[0] != c);
        assert(!occurs_at(s, 0, seq![c])) by {
            if s.len() >= 1 {
                assert(s.subrange(0, 1)[0] == s[0]);
            }
        }
        assert(!s.drop_first().contains(c)) by {
            if s.drop_first().contains(c) {
                let j = choose|j: int| 0 <= j < s.drop_first().len() && s.drop_first()[j] == c;
                assert(s[j + 1] == c);
            }
        }
        lemma_split_without_separator(s.drop_first(), c);
        assert(seq![s[0]] + s.drop_first() =~= s);
    }
}

proof fn lemma_split_first_piece(a: Seq<char>, b: Seq<char>, c: char)
    requires
        !a.contains(c),
    ensures
        split_on(a + seq![c] + b, seq![c]) == seq![a] + split_on(b, seq![c]),
    decreases a.len(),
{
    let s = a + seq![c] + b;
    if a.len() == 0 {
        assert(s.subrange(0, 1) =~= seq![c]);
        assert(s.skip(1) =~= b);
        assert(a =~= Seq::<char>::empty());
    } else {
        assert(s[0] == a[0]);
        assert(a[0] != c);
        assert(!occurs_at(s, 0, seq![c])) by {
            assert(s.subrange(0, 1)[0] == s[0]);
        }
        assert(!a.drop_first().contains(c)) by {
            if a.drop_first().contains(c) {
                let j = choose|j: int| 0 <= j < a.drop_first().len() && a.drop_first()[j] == c;
                assert(a[j + 1] == c);
            }
        }
        assert(s.drop_first() =~= a.drop_first() + seq![c] + b);
        lemma_split_first_piece(a.drop_first(), b, c);
        assert(seq![a[0]] + a.drop_first() =~= a);
        let rest = split_on(s.drop_first(), seq![c]);
        assert(rest.update(0, seq![s[0]] + rest[0]) =~= seq![a] + split_on(b, seq![c]));
    }
}

proof fn lemma_trim_keeps(s: Seq<char>)
    requires
        s.len() > 0,
        !is_space(s[0]),
        !is_space(s.last()),
    ensures
        trim(s) == s,
{
}

proof fn lemma_trim_after_space(s: Seq<char>)
    requires
        s.len() > 0,
        !is_space(s[0]),
        !is_space(s.last()),
    ensures
        trim(seq![' '] + s) == s,
{
    let t = seq![' '] + s;
    assert(t.drop_first() =~= s);
    assert(trim_start(t) == trim_start(s));
}

/// A reply made of an `Explanation: X` line and a `Command: Y` line, with no
/// white space around `X` or `Y`, parses to the explanation `X` and the
/// command `Y` stripped of its fences and quotes, where that is not empty.
pub proof fn lemma_well_formed_pair(x: Seq<char>, y: Seq<char>)
    requires
        x.len() > 0,
        !is_space(x[0]),
        !is_space(x.last()),
        !x.contains('\n'),
        y.len() > 0,
        !is_space(y[0]),
        !is_space(y.last()),
        !y.contains('\n'),
        clean(y).len() > 0,
    ensures
        hint_explanation(lines_of("Explanation: "@ + x + "\n"@ + "Command: "@ + y)) == x,
        hint_command(lines_of("Explanation: "@ + x + "\n"@ + "Command: "@ + y)) == Some(clean(y)),
{
    reveal_strlit("Explanation: ");
    reveal_strlit("Command: ");
    reveal_strlit("\n");
    reveal_strlit("command:");
    reveal_strlit("explanation:");
    let a = "Explanation: "@ + x;
    let b = "Command: "@ + y;
    let r = "Explanation: "@ + x + "\n"@ + "Command: "@ + y;
    assert(r =~= a + seq!['\n'] + b);
    assert(!a.contains('\n')) by {
        if a.contains('\n') {
            let j = choose|j: int| 0 <= j < a.len() && a[j] == '\n';
            if j >= 13 {
                assert(x[j - 13] == '\n');
            }
        }
    }
    assert(!b.contains('\n')) by {
        if b.contains('\n') {
            let j = choose|j: int| 0 <= j < b.len() && b[j] == '\n';
            if j >= 9 {
                assert(y[j - 9] == '\n');
            }
        }
    }
    lemma_split_first_piece(a, b, '\n');
    lemma_split_without_separator(b, '\n');
    let ls = lines_of(r);
    assert(ls =~= seq![a, b]);
    assert(ls.drop_last() =~= seq![a]);
    assert(seq![a].drop_last() =~= Seq::<Seq<char>>::empty());
    lemma_trim_keeps(a);
    lemma_trim_keeps(b);
    assert(!has_label(a, command_label())) by {
        assert(!folds_to(a[0], command_label()[0]));
    }
    assert(has_label(a, explanation_label())) by {
        assert forall|i: int| 0 <= i < explanation_label().len() implies #[trigger] folds_to(
            a[i],
            explanation_label()[i],
        ) by {
            assert(a[i] == "Explanation: "@[i]);
        }
    }
    assert(a.skip(12) =~= seq![' '] + x);
    lemma_trim_after_space(x);
    assert(line_piece(a) == x);
    assert(has_label(b, command_label())) by {
        assert forall|i: int| 0 <= i < command_label().len() implies #[trigger] folds_to(
            b[i],
            command_label()[i],
        ) by {
            assert(b[i] == "Command: "@[i]);
        }
    }
    assert(b.skip(8) =~= seq![' '] + y);
    lemma_trim_after_space(y);
    lemma_trim_keeps(y);
    assert(clean(b.skip(8)) == clean(y));
    assert(line_command(b) == Some(clean(y)));
    assert(line_piece(b) == Seq::<char>::empty());
    assert(ls.last() == b);
    assert(seq![a].last() == a);
    assert(hint_explanation(Seq::<Seq<char>>::empty()) == Seq::<char>::empty());
    assert(hint_explanation(seq![a]) == x);
    assert(line_command(a) is None);
    assert(hint_command(Seq::<Seq<char>>::empty()) is None);
    assert(hint_command(seq![a]) is None);
}

proof fn lemma_last_command_lines(ls: Seq<Seq<char>>, k: int)
    requires
        0 <= k < ls.len(),
        line_command(trim(ls[k])) is Some,
        forall|j: int| k < j < ls.len() ==> line_command(trim(#[trigger] ls[j])) is None,
    ensures
        hint_command(ls) == line_command(trim(ls[k])),
    decreases ls.len(),
{
    if k < ls.len() - 1 {
        assert(line_command(trim(ls[ls.len() - 1])) is None);
        lemma_last_command_lines(ls.drop_last(), k);
    }
}

/// The command of a reply is the payload of its last `Command:` line that
/// gives one: earlier such lines are overridden.
pub proof fn lemma_last_command_wins(response: Seq<char>, k: int)
    requires
        0 <= k < lines_of(response).len(),
        line_command(trim(lines_of(response)[k])) is Some,
        forall|j: int|
            k < j < lines_of(response).len() ==> line_command(
                trim(#[trigger] lines_of(response)[j]),
            ) is None,
    ensures
        hint_command(lines_of(response)) == line_command(trim(lines_of(response)[k])),
{
    lemma_last_command_lines(lines_of(response), k);
}

proof fn lemma_unlabelled_lines(ls: Seq<Seq<char>>)
    requires
        forall|j: int|
            0 <= j < ls.len() ==> !has_label(trim(#[trigger] ls[j]), command_label())
                && !has_label(trim(ls[j]), explanation_label()),
    ensures
        hint_command(ls) is None,
        hint_explanation(ls) == joined_lines(ls),
    decreases ls.len(),
{
    if ls.len() > 0 {
        assert(!has_label(trim(ls[ls.len() - 1]), command_label()));
        lemma_unlabelled_lines(ls.drop_last());
    }
}

/// A reply with no `Command:` or `Explanation:` line gives no command, and
/// its explanation is its non-empty lines, trimmed, joined by single spaces.
pub proof fn lemma_unlabelled_reply(response: Seq<char>)
    requires
        forall|j: int|
            0 <= j < lines_of(response).len() ==> !has_label(
                trim(#[trigger] lines_of(response)[j]),
                command_label(),
            ) && !has_label(trim(lines_of(response)[j]), explanation_label()),
    ensures
        hint_command(lines_of(response)) is None,
        hint_explanation(lines_of(response)) == joined_lines(lines_of(response)),
{
    lemma_unlabelled_lines(lines_of(response));
}

/// Cleaning a command that has no white space, quote or backtick at either
/// end (so no code fence either) leaves it unchanged.
pub proof fn lemma_clean_keeps_clean_command(s: Seq<char>)
    requires
        s.len() > 0 ==> !is_space(s[0]) && !is_space(s.last()) && !is_quote(s[0]) && !is_quote(
            s.last(),
        ),
    ensures
        clean(s) == s,
{
    reveal_strlit("```bash");
    reveal_strlit("```");
    if s.len() > 0 {
        lemma_trim_keeps(s);
        assert(!occurs_at(s, 0, fence_bash())) by {
            if occurs_at(s, 0, fence_bash()) {
                assert(s.subrange(0, 7)[0] == s[0]);
            }
        }
        assert(!occurs_at(s, 0, fence())) by {
            if occurs_at(s, 0, fence()) {
                assert(s.subrange(0, 3)[0] == s[0]);
            }
        }
        assert(!occurs_at(s, s.len() - 3, fence())) by {
            if occurs_at(s, s.len() - 3, fence()) {
                assert(s.subrange(s.len() - 3, s.len() as int)[2] == s.last());
            }
        }
        assert(trim_quotes(s) == s);
    } else {
        assert(trim_quotes(s) == s);
    }
}

} // verus!
