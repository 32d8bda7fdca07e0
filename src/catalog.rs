//! The fast path: the set of known command names, and the shell type that
//! picks its shell-specific section.
use vstd::prelude::*;
use crate::text::{chars_of, contains, contains_chars, is_space, is_space_char, same_chars, slice, string_of, trim_start};

verus! {

/// The kind of shell, which names a section of the command catalog.
#[derive(Debug, Clone, Copy, PartialEq, Eq, Structural)]
pub enum ShellKind {
    Zsh,
    PowerShell,
    Cmd,
    Bash,
}

/// The kind of shell that a shell name or path designates.
pub open spec fn kind_of(shell: Seq<char>) -> ShellKind {
    if contains(shell, "zsh"@) {
        ShellKind::Zsh
    } else if contains(shell, "powershell"@) || contains(shell, "pwsh"@) {
        ShellKind::PowerShell
    } else if contains(shell, "cmd"@) {
        ShellKind::Cmd
    } else {
        ShellKind::Bash
    }
}

pub open spec fn section_of(kind: ShellKind) -> Seq<char> {
    match kind {
        ShellKind::Zsh => "zsh"@,
        ShellKind::PowerShell => "powershell"@,
        ShellKind::Cmd => "cmd"@,
        ShellKind::Bash => "bash"@,
    }
}

/// The shell assumed where none is named: on Windows PowerShell where its
/// module path is set, else `cmd`; elsewhere bash.
pub open spec fn fallback_of(windows: bool, has_ps_module_path: bool) -> Seq<char> {
    if windows {
        if has_ps_module_path {
            "powershell"@
        } else {
            "cmd"@
        }
    } else {
        "bash"@
    }
}

/// The characters of `t` up to its first white space.
pub open spec fn leading_word(t: Seq<char>) -> Seq<char>
    decreases t.len(),
{
    if t.len() == 0 || is_space(t[0]) {
        Seq::empty()
    } else {
        seq![t[0]] + leading_word(t.drop_first())
    }
}

/// The first white-space-delimited word of `s`, if any.
pub open spec fn first_word(s: Seq<char>) -> Option<Seq<char>> {
    let t = trim_start(s);
    if t.len() == 0 {
        None
    } else {
        Some(leading_word(t))
    }
}

/// The kind of shell that a shell name or path designates: zsh, PowerShell
/// (`powershell` or `pwsh`), `cmd`, and bash for anything else.
pub fn shell_kind(shell: &str) -> (r: ShellKind)
    ensures
        r == kind_of(shell@),
{
    let s = chars_of(shell);
    if contains_chars(&s, &chars_of("zsh")) {
        ShellKind::Zsh
    } else if contains_chars(&s, &chars_of("powershell")) || contains_chars(&s, &chars_of("pwsh")) {
        ShellKind::PowerShell
    } else if contains_chars(&s, &chars_of("cmd")) {
        ShellKind::Cmd
    } else {
        ShellKind::Bash
    }
}

impl ShellKind {
    /// The name of the catalog section for this kind of shell.
    pub fn section(&self) -> (r: String)
        ensures
            r@ == section_of(*self),
    {
        match self {
            ShellKind::Zsh => String::from_str("zsh"),
            ShellKind::PowerShell => String::from_str("powershell"),
            ShellKind::Cmd => String::from_str("cmd"),
            ShellKind::Bash => String::from_str("bash"),
        }
    }
}

/// The shell name assumed where the environment names none.
pub fn fallback_shell(windows: bool, has_ps_module_path: bool) -> (r: String)
    ensures
        r@ == fallback_of(windows, has_ps_module_path),
{
    if windows {
        if has_ps_module_path {
            String::from_str("powershell")
        } else {
            String::from_str("cmd")
        }
    } else {
        String::from_str("bash")
    }
}

/// The first white-space-delimited word of `s`, if any.
pub fn first_word_of(s: &str) -> (r: Option<String>)
    ensures
        match r {
            Some(w) => first_word(s@) == Some(w@),
            None => first_word(s@) is None,
        },
{
    let v = chars_of(s);
    let mut lo: usize = 0;
    assert(v@.skip(0) =~= v@);
    while lo < v.len() && is_space_char(v[lo])
        invariant
            lo <= v.len(),
            trim_start(v@) == trim_start(v@.skip(lo as int)),
        decreases v.len() - lo,
    {
        assert(v@.skip(lo as int).drop_first() =~= v@.skip(lo + 1));
        lo = lo + 1;
    }
    assert(trim_start(v@.skip(lo as int)) == v@.skip(lo as int));
    if lo == v.len() {
        return None;
    }
    let mut hi: usize = lo;
    assert(v@.subrange(lo as int, lo as int) + v@.skip(lo as int) =~= v@.skip(lo as int));
    while hi < v.len() && !is_space_char(v[hi])
        invariant
            lo <= hi <= v.len(),
            leading_word(v@.skip(lo as int)) == v@.subrange(lo as int, hi as int) + leading_word(
                v@.skip(hi as int),
            ),
        decreases v.len() - hi,
    {
        assert(v@.skip(hi as int).drop_first() =~= v@.skip(hi + 1));
        assert(v@.subrange(lo as int, hi as int) + seq![v@[hi as int]] =~= v@.subrange(
            lo as int,
            hi + 1,
        ));
        assert(v@.subrange(lo as int, hi as int) + (seq![v@[hi as int]] + leading_word(
            v@.skip(hi + 1),
        )) =~= v@.subrange(lo as int, hi + 1) + leading_word(v@.skip(hi + 1)));
        hi = hi + 1;
    }
    assert(leading_word(v@.skip(hi as int)) =~= Seq::<char>::empty());
    assert(v@.subrange(lo as int, hi as int) + Seq::<char>::empty() =~= v@.subrange(
        lo as int,
        hi as int,
    ));
    Some(string_of(&slice(&v, lo, hi)))
}

/// A set of known command names.
pub struct CommandCatalog {
    names: Vec<String>,
}

impl View for CommandCatalog {
    type V = Set<Seq<char>>;

    closed spec fn view(&self) -> Set<Seq<char>> {
        Set::new(|w: Seq<char>| exists|i: int| 0 <= i < self.names.len() && self.names@[i]@ == w)
    }
}

impl CommandCatalog {
    /// An empty catalog.
    pub fn new() -> (r: CommandCatalog)
        ensures
            r@ == Set::<Seq<char>>::empty(),
    {
        let r = CommandCatalog { names: Vec::new() };
        assert(r@ =~= Set::<Seq<char>>::empty());
        r
    }

    /// Adds a command name.
    pub fn insert(&mut self, name: &str)
        ensures
            final(self)@ == old(self)@.insert(name@),
    {
        if !self.contains(name) {
            let ghost before = self.names@;
            self.names.push(String::from_str(name));
            assert forall|w: Seq<char>| #[trigger] final(self)@.contains(w) <==> old(self)@.insert(name@).contains(w) by {
                if w == name@ {
                    assert(self.names@[before.len() as int]@ == w);
                }
                if exists|i: int| 0 <= i < before.len() && before[i]@ == w {
                    let i = choose|i: int| 0 <= i < before.len() && before[i]@ == w;
                    assert(self.names@[i]@ == w);
                }
                if exists|i: int| 0 <= i < self.names.len() && self.names@[i]@ == w {
                    let i = choose|i: int| 0 <= i < self.names.len() && self.names@[i]@ == w;
                    if i < before.len() {
                        assert(before[i]@ == w);
                    }
                }
            }
            assert(final(self)@ =~= old(self)@.insert(name@));
        } else {
            assert(old(self)@.insert(name@) =~= old(self)@);
        }
    }

    /// Whether `name` is a known command.
    pub fn contains(&self, name: &str) -> (r: bool)
        ensures
            r == self@.contains(name@),
    {
        let target = chars_of(name);
        let mut i: usize = 0;
        while i < self.names.len()
            invariant
                i <= self.names.len(),
                target@ == name@,
                forall|j: int| 0 <= j < i ==> self.names@[j]@ != name@,
            decreases self.names.len() - i,
        {
            if same_chars(&chars_of(self.names[i].as_str()), &target) {
                return true;
            }
            i = i + 1;
        }
        false
    }

    /// Whether the first word of `input` is a known command; false for an
    /// input with no word.
    pub fn is_valid_command(&self, input: &str) -> (r: bool)
        ensures
            r == match first_word(input@) {
                Some(w) => self@.contains(w),
                None => false,
            },
    {
        match first_word_of(input) {
            Some(w) => self.contains(w.as_str()),
            None => false,
        }
    }
}

} // verus!
