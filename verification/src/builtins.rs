//! The closed set of internal commands, their registry, and the dispatch
//! decision.
//!
//! The registry maps exact command names to command variants; the dispatch
//! loop looks the first token up and routes the command. The commands'
//! decisions and session mutations are here; printing, existence checks and
//! process exit are the caller's side effects.

use vstd::prelude::*;
use crate::state::is_absolute;
use crate::state::ShellError;
use crate::state::State;

verus! {

/// The internal commands, as a closed set of variants: each takes exclusive
/// mutable access to the session and yields an integer status.
#[derive(Clone, Copy, PartialEq, Eq, Structural, Debug)]
pub enum Builtin {
    Cd,
    Ls,
    Echo,
    SetVar,
    UnsetVar,
    GetVar,
    Pwd,
    Exit,
}

/// The exact-name mapping the registry realizes.
pub open spec fn builtin_of(name: Seq<char>) -> Option<Builtin> {
    if name == "cd"@ {
        Some(Builtin::Cd)
    } else if name == "ls"@ {
        Some(Builtin::Ls)
    } else if name == "echo"@ {
        Some(Builtin::Echo)
    } else if name == "set"@ {
        Some(Builtin::SetVar)
    } else if name == "unset"@ {
        Some(Builtin::UnsetVar)
    } else if name == "get"@ {
        Some(Builtin::GetVar)
    } else if name == "pwd"@ {
        Some(Builtin::Pwd)
    } else if name == "exit"@ {
        Some(Builtin::Exit)
    } else {
        None
    }
}

/// The internal-command registry: command names bound to command variants,
/// consulted by exact string match on a command's first token.
pub struct Registry {
    entries: Vec<(String, Builtin)>,
}

impl Registry {
    /// The registry holds exactly the eight internal commands under their
    /// names, in load order.
    pub closed spec fn complete(&self) -> bool {
        &&& self.entries@.len() == 8
        &&& self.entries@[0].0@ == "cd"@ && self.entries@[0].1 == Builtin::Cd
        &&& self.entries@[1].0@ == "ls"@ && self.entries@[1].1 == Builtin::Ls
        &&& self.entries@[2].0@ == "echo"@ && self.entries@[2].1 == Builtin::Echo
        &&& self.entries@[3].0@ == "set"@ && self.entries@[3].1 == Builtin::SetVar
        &&& self.entries@[4].0@ == "unset"@ && self.entries@[4].1 == Builtin::UnsetVar
        &&& self.entries@[5].0@ == "get"@ && self.entries@[5].1 == Builtin::GetVar
        &&& self.entries@[6].0@ == "pwd"@ && self.entries@[6].1 == Builtin::Pwd
        &&& self.entries@[7].0@ == "exit"@ && self.entries@[7].1 == Builtin::Exit
    }

    /// Looks a command name up by exact string match.
    pub fn find(&self, name: &String) -> (r: Option<Builtin>)
        requires
            self.complete(),
        ensures
            r == builtin_of(name@),
    {
        let n = self.entries.len();
        let mut i: usize = 0;
        while i < n
            invariant
                i <= n,
                n == self.entries@.len(),
                self.complete(),
                forall|j: int| 0 <= j < i ==> self.entries@[j].0@ != name@,
            decreases n - i,
        {
            if self.entries[i].0 == *name {
                return Some(self.entries[i].1);
            }
            i = i + 1;
        }
        None
    }

    /// The registered command names, in load order.
    pub fn names(&self) -> (r: Vec<String>)
        requires
            self.complete(),
        ensures
            r.deep_view() == builtin_names(),
    {
        let mut r: Vec<String> = Vec::new();
        let n = self.entries.len();
        let mut i: usize = 0;
        while i < n
            invariant
                i <= n,
                n == self.entries@.len(),
                self.complete(),
                r.deep_view() =~= builtin_names().take(i as int),
            decreases n - i,
        {
            let ghost prev = r.deep_view();
            let name = self.entries[i].0.clone();
            r.push(name);
            proof {
                assert(r.deep_view() =~= prev.push(self.entries@[i as int].0@));
                assert(r.deep_view() =~= builtin_names().take(i as int + 1));
            }
            i = i + 1;
        }
        proof {
            assert(builtin_names().take(8) =~= builtin_names());
        }
        r
    }
}

/// The registered command names, in load order.
pub open spec fn builtin_names() -> Seq<Seq<char>> {
    seq!["cd"@, "ls"@, "echo"@, "set"@, "unset"@, "get"@, "pwd"@, "exit"@]
}

/// Builds the registry of internal commands.
pub fn load() -> (r: Registry)
    ensures
        r.complete(),
{
    let mut entries: Vec<(String, Builtin)> = Vec::new();
    entries.push((String::from_str("cd"), Builtin::Cd));
    entries.push((String::from_str("ls"), Builtin::Ls));
    entries.push((String::from_str("echo"), Builtin::Echo));
    entries.push((String::from_str("set"), Builtin::SetVar));
    entries.push((String::from_str("unset"), Builtin::UnsetVar));
    entries.push((String::from_str("get"), Builtin::GetVar));
    entries.push((String::from_str("pwd"), Builtin::Pwd));
    entries.push((String::from_str("exit"), Builtin::Exit));
    Registry { entries }
}

/// Where one tokenized command goes: nowhere (the line was empty), to an
/// internal command, or to the external resolver.
#[derive(Clone, Copy, PartialEq, Eq, Structural, Debug)]
pub enum Action {
    Reprompt,
    Internal(Builtin),
    External,
}

/// The routing decision for one argument vector.
pub open spec fn dispatch_of(argv: Seq<Seq<char>>) -> Action {
    if argv.len() == 0 {
        Action::Reprompt
    } else {
        match builtin_of(argv[0]) {
            Some(b) => Action::Internal(b),
            None => Action::External,
        }
    }
}

/// Routes one tokenized command: an empty line is re-prompted without
/// dispatching, a first token found in the registry runs internally, and
/// anything else is handed to the external resolver.
pub fn dispatch(registry: &Registry, argv: &Vec<String>) -> (a: Action)
    requires
        registry.complete(),
    ensures
        a == dispatch_of(argv.deep_view()),
{
    if argv.len() == 0 {
        return Action::Reprompt;
    }
    proof {
        assert(argv.deep_view()[0] == argv@[0]@);
    }
    match registry.find(&argv[0]) {
        Some(b) => Action::Internal(b),
        None => Action::External,
    }
}

/// Binds a session variable: the first argument names it, the second is the
/// value. With fewer arguments nothing is bound; the status is zero either
/// way, the shortfall being only reported to the user.
pub fn set(s: &mut State) -> (r: i32)
    requires
        old(s).wf(),
    ensures
        final(s).wf(),
        r == 0,
        old(s).argv@.len() >= 3 ==> final(s).variables@ == old(s).variables@.insert(
            old(s).argv@[1]@,
            old(s).argv@[2]@,
        ),
        old(s).argv@.len() < 3 ==> final(s).variables@ == old(s).variables@,
        final(s).cwd == old(s).cwd,
        final(s).argv == old(s).argv,
        final(s).argc == old(s).argc,
        final(s).exit_status == old(s).exit_status,
{
    if s.argv.len() >= 3 {
        let name = s.argv[1].clone();
        let value = s.argv[2].clone();
        s.variables.insert(name, value);
    }
    0
}

/// Unbinds a session variable named by the first argument. Without one the
/// status is one; unbinding an unbound name still succeeds.
pub fn unset(s: &mut State) -> (r: i32)
    requires
        old(s).wf(),
    ensures
        final(s).wf(),
        old(s).argv@.len() >= 2 ==> r == 0 && final(s).variables@ == old(s).variables@.remove(
            old(s).argv@[1]@,
        ),
        old(s).argv@.len() < 2 ==> r == 1 && final(s).variables@ == old(s).variables@,
        final(s).cwd == old(s).cwd,
        final(s).argv == old(s).argv,
        final(s).argc == old(s).argc,
        final(s).exit_status == old(s).exit_status,
{
    if s.argv.len() >= 2 {
        let name = s.argv[1].clone();
        s.variables.remove(name.as_str());
        0
    } else {
        1
    }
}

/// Reports a variable lookup's status: zero when a name was given (bound or
/// not), one when none was. The caller prints the bound value, read from the
/// session's store.
pub fn get(s: &mut State) -> (r: i32)
    requires
        old(s).wf(),
    ensures
        *final(s) == *old(s),
        r == if old(s).argv@.len() >= 2 {
            0i32
        } else {
            1i32
        },
{
    if s.argv.len() >= 2 {
        0
    } else {
        1
    }
}

/// A print-working-directory command changes nothing and always succeeds;
/// the caller prints the session's current directory.
pub fn pwd(s: &mut State) -> (r: i32)
    requires
        old(s).wf(),
    ensures
        *final(s) == *old(s),
        r == 0,
{
    0
}

/// The directories a listing command consults: the current directory when
/// the command stands alone, otherwise every argument token read as a path.
pub fn ls(s: &State) -> (dirs: Vec<String>)
    ensures
        s.argv@.len() == 1 ==> dirs.deep_view() == seq![s.cwd@],
        s.argv@.len() != 1 ==> dirs.deep_view() == s.argv.deep_view(),
{
    let mut dirs: Vec<String> = Vec::new();
    if s.argv.len() == 1 {
        dirs.push(s.cwd.clone());
        proof {
            assert(dirs.deep_view() =~= seq![s.cwd@]);
        }
        return dirs;
    }
    let n = s.argv.len();
    let mut i: usize = 0;
    while i < n
        invariant
            i <= n,
            n == s.argv@.len(),
            dirs.deep_view() =~= s.argv.deep_view().take(i as int),
        decreases n - i,
    {
        let ghost prev = dirs.deep_view();
        let d = s.argv[i].clone();
        dirs.push(d);
        proof {
            assert(dirs.deep_view() =~= prev.push(s.argv@[i as int]@));
            assert(dirs.deep_view() =~= s.argv.deep_view().take(i as int + 1));
        }
        i = i + 1;
    }
    proof {
        assert(s.argv.deep_view().take(n as int) =~= s.argv.deep_view());
    }
    dirs
}

/// The directory a change-directory command aims at: its first argument, or
/// the caller-supplied home directory when none was given.
pub fn cd_target(argv: &Vec<String>, home: &str) -> (t: String)
    ensures
        argv@.len() >= 2 ==> t@ == argv@[1]@,
        argv@.len() < 2 ==> t@ == home@,
{
    if argv.len() >= 2 {
        argv[1].clone()
    } else {
        home.to_owned()
    }
}

/// Whether a path is rooted, i.e. absolute in the POSIX model; a relative
/// target must be canonicalized by the caller before the session moves.
pub fn has_root(p: &str) -> (r: bool)
    ensures
        r == is_absolute(p@),
{
    p.unicode_len() > 0 && p.get_char(0) == '/'
}

/// The arguments joined by single spaces.
pub open spec fn join_spaced(parts: Seq<Seq<char>>) -> Seq<char>
    decreases parts.len(),
{
    if parts.len() == 0 {
        Seq::empty()
    } else if parts.len() == 1 {
        parts[0]
    } else {
        join_spaced(parts.drop_last()) + seq![' '] + parts.last()
    }
}

fn join_from(argv: &Vec<String>, k: usize) -> (r: String)
    requires
        k as int <= argv@.len(),
    ensures
        r@ == join_spaced(argv.deep_view().skip(k as int)),
{
    let mut out = String::new();
    let n = argv.len();
    let mut i = k;
    while i < n
        invariant
            k <= i <= n,
            n == argv@.len(),
            out@ == join_spaced(argv.deep_view().subrange(k as int, i as int)),
        decreases n - i,
    {
        if i > k {
            out.append(" ");
        }
        out.append(argv[i].as_str());
        proof {
            reveal_strlit(" ");
            let dv = argv.deep_view();
            let sub1 = dv.subrange(k as int, i as int + 1);
            assert(sub1.drop_last() =~= dv.subrange(k as int, i as int));
            assert(sub1.last() == dv[i as int]);
            assert(" "@ =~= seq![' ']);
            assert(out@ =~= join_spaced(sub1));
        }
        i = i + 1;
    }
    proof {
        assert(argv.deep_view().subrange(k as int, n as int) =~= argv.deep_view().skip(k as int));
    }
    out
}

/// The text an echo command prints: its arguments joined by single spaces.
/// A first argument of "-n" is consumed as a flag and suppresses the
/// trailing newline; the second component says whether one is owed.
pub fn echo(s: &State) -> (out: (String, bool))
    requires
        s.argv@.len() >= 2,
    ensures
        s.argv@[1]@ == "-n"@ ==> out.0@ == join_spaced(s.argv.deep_view().skip(2)) && !out.1,
        s.argv@[1]@ != "-n"@ ==> out.0@ == join_spaced(s.argv.deep_view().skip(1)) && out.1,
{
    let flag = String::from_str("-n");
    if s.argv[1] == flag {
        (join_from(&s.argv, 2), false)
    } else {
        (join_from(&s.argv, 1), true)
    }
}

/// A decimal digit's place in the usual base-ten reading.
pub open spec fn is_dec_digit(c: char) -> bool {
    48 <= c as u32 <= 57
}

/// The value of one decimal digit.
pub open spec fn digit_val(c: char) -> int {
    c as u32 - 48
}

/// Every character is a decimal digit.
pub open spec fn all_dec_digits(s: Seq<char>) -> bool {
    forall|i: int| 0 <= i < s.len() ==> is_dec_digit(s[i])
}

/// The base-ten value of a digit string.
pub open spec fn digits_val(s: Seq<char>) -> int
    decreases s.len(),
{
    if s.len() == 0 {
        0
    } else {
        digits_val(s.drop_last()) * 10 + digit_val(s.last())
    }
}

/// The integer a decimal literal denotes: an optional single sign followed
/// by at least one digit and nothing else. Anything else denotes nothing.
pub open spec fn int_literal_val(s: Seq<char>) -> Option<int> {
    if s.len() >= 1 && s[0] == '-' {
        if s.len() >= 2 && all_dec_digits(s.skip(1)) {
            Some(-digits_val(s.skip(1)))
        } else {
            None
        }
    } else if s.len() >= 1 && s[0] == '+' {
        if s.len() >= 2 && all_dec_digits(s.skip(1)) {
            Some(digits_val(s.skip(1)))
        } else {
            None
        }
    } else if s.len() >= 1 && all_dec_digits(s) {
        Some(digits_val(s))
    } else {
        None
    }
}

proof fn lemma_digits_val_nonneg(s: Seq<char>)
    requires
        all_dec_digits(s),
    ensures
        digits_val(s) >= 0,
    decreases s.len(),
{
    if s.len() > 0 {
        assert(all_dec_digits(s.drop_last()));
        lemma_digits_val_nonneg(s.drop_last());
    }
}

proof fn lemma_digits_val_prefix(s: Seq<char>, i: int)
    requires
        all_dec_digits(s),
        0 <= i <= s.len(),
    ensures
        digits_val(s) >= digits_val(s.take(i)),
    decreases s.len() - i,
{
    if i < s.len() {
        assert(all_dec_digits(s.take(i)));
        lemma_digits_val_nonneg(s.take(i));
        assert(s.take(i + 1).drop_last() =~= s.take(i));
        assert(digits_val(s.take(i + 1)) == digits_val(s.take(i)) * 10 + digit_val(s[i]));
        lemma_digits_val_prefix(s, i + 1);
    } else {
        assert(s.take(i) =~= s);
    }
}

/// Parses a decimal integer the way the exit command reads its argument: an
/// optional single sign, then one or more digits, the value within a 32-bit
/// signed integer's range; everything else is an invalid exit code.
pub fn parse_i32(s: &str) -> (r: Result<i32, ShellError>)
    ensures
        match r {
            Ok(v) => int_literal_val(s@) == Some(v as int),
            Err(e) => e == ShellError::InvalidExitCode && (match int_literal_val(s@) {
                Some(v) => v < i32::MIN as int || v > i32::MAX as int,
                None => true,
            }),
        },
{
    let n = s.unicode_len();
    if n == 0 {
        return Err(ShellError::InvalidExitCode);
    }
    let c0 = s.get_char(0);
    let negative = c0 == '-';
    let start: usize = if c0 == '-' || c0 == '+' {
        1
    } else {
        0
    };
    if n == start {
        return Err(ShellError::InvalidExitCode);
    }
    let ghost digits = s@.skip(start as int);
    let mut acc: i64 = 0;
    let mut i: usize = start;
    proof {
        assert(digits.take(0) =~= Seq::<char>::empty());
        if start == 0 {
            assert(s@.skip(0) =~= s@);
        }
    }
    while i < n
        invariant
            start <= i <= n,
            n == s@.len(),
            start == if s@[0] == '-' || s@[0] == '+' {
                1int
            } else {
                0int
            },
            negative == (s@[0] == '-'),
            digits == s@.skip(start as int),
            start == 0 ==> digits == s@,
            all_dec_digits(digits.take(i - start)),
            acc == digits_val(digits.take(i - start)),
            0 <= acc <= 2147483648,
        decreases n - i,
    {
        let c = s.get_char(i);
        let cv = c as u32;
        proof {
            assert(digits[i - start] == s@[i as int]);
        }
        if cv < 48 || cv > 57 {
            proof {
                assert(!is_dec_digit(s@[i as int]));
            }
            return Err(ShellError::InvalidExitCode);
        }
        let d = (cv - 48) as i64;
        acc = acc * 10 + d;
        proof {
            let sub1 = digits.take(i + 1 - start);
            assert(sub1.drop_last() =~= digits.take(i - start));
            assert(sub1.last() == digits[i - start]);
        }
        if acc > 2147483648 {
            proof {
                if all_dec_digits(digits) {
                    lemma_digits_val_prefix(digits, i + 1 - start);
                }
            }
            return Err(ShellError::InvalidExitCode);
        }
        i = i + 1;
    }
    proof {
        assert(digits.take(n - start) =~= digits);
    }
    if negative {
        Ok((-acc) as i32)
    } else {
        if acc > 2147483647 {
            return Err(ShellError::InvalidExitCode);
        }
        Ok(acc as i32)
    }
}

/// The exit code an exit command carries: its optional first argument parsed
/// as a decimal integer, no argument meaning zero. The caller terminates the
/// whole interpreter process with it, or reports the invalid code.
pub fn exit_code(argv: &Vec<String>) -> (r: Result<i32, ShellError>)
    ensures
        argv@.len() < 2 ==> r == Ok::<i32, ShellError>(0),
        argv@.len() >= 2 ==> match r {
            Ok(v) => int_literal_val(argv@[1]@) == Some(v as int),
            Err(e) => e == ShellError::InvalidExitCode && (match int_literal_val(argv@[1]@) {
                Some(v) => v < i32::MIN as int || v > i32::MAX as int,
                None => true,
            }),
        },
{
    if argv.len() < 2 {
        Ok(0)
    } else {
        parse_i32(argv[1].as_str())
    }
}

} // verus!
