//! The session's mutable record: current working directory, argument vector
//! with its derived count, the variable store, and the last exit status.
//! The dispatch loop owns one such record and lends it to one command at a
//! time.

use vstd::prelude::*;
use crate::resolver::search_dirs;
use crate::resolver::split_on_char;
use crate::vars::VarStore;

verus! {

/// An absolute path in the POSIX model: non-empty and rooted at '/'.
pub open spec fn is_absolute(p: Seq<char>) -> bool {
    p.len() > 0 && p[0] == '/'
}

/// The named failures of the interpreter's core. Reading input can fail
/// fatally, an exit code can fail to parse, and a path can fail to resolve
/// to an existing absolute directory.
#[derive(Clone, Copy, PartialEq, Eq, Structural, Debug)]
pub enum ShellError {
    InputClosed,
    InvalidExitCode,
    PathUnresolvable,
}

/// One interpreter session. Created once at startup, mutated every loop
/// iteration, alive until the process exits.
pub struct State {
    pub cwd: String,
    pub variables: VarStore,
    pub argv: Vec<String>,
    pub argc: usize,
    pub exit_status: i32,
}

impl State {
    /// The session's invariant: the variable store is well formed, the
    /// argument count is the argument vector's length, and the current
    /// directory is an absolute path.
    pub open spec fn wf(&self) -> bool {
        &&& self.variables.wf()
        &&& self.argc == self.argv@.len()
        &&& is_absolute(self.cwd@)
    }

    /// A fresh session rooted at the given directory, which the caller has
    /// already canonicalized to an absolute path.
    pub fn new(cwd: String) -> (s: State)
        requires
            is_absolute(cwd@),
        ensures
            s.wf(),
            s.cwd@ == cwd@,
            s.variables@ == Map::<Seq<char>, Seq<char>>::empty(),
            s.argv@.len() == 0,
            s.argc == 0,
            s.exit_status == 0,
    {
        State { cwd, variables: VarStore::new(), argv: Vec::new(), argc: 0, exit_status: 0 }
    }

    /// A fresh session rooted at the file-system root, for callers with no
    /// better starting directory in hand.
    pub fn default() -> (s: State)
        ensures
            s.wf(),
            s.cwd@ == "/"@,
            s.variables@ == Map::<Seq<char>, Seq<char>>::empty(),
            s.argv@.len() == 0,
            s.argc == 0,
            s.exit_status == 0,
    {
        proof {
            reveal_strlit("/");
        }
        State::new(String::from_str("/"))
    }

    /// Replaces the argument vector wholesale; the count is always its
    /// length. Nothing else moves.
    pub fn set_args(&mut self, argv: Vec<String>)
        requires
            old(self).wf(),
        ensures
            final(self).wf(),
            final(self).argv == argv,
            final(self).argc == argv@.len(),
            final(self).cwd == old(self).cwd,
            final(self).variables == old(self).variables,
            final(self).exit_status == old(self).exit_status,
    {
        self.argc = argv.len();
        self.argv = argv;
    }

    /// Folds a command's returned status into the session as the last exit
    /// status. Nothing else moves.
    pub fn record_status(&mut self, status: i32)
        requires
            old(self).wf(),
        ensures
            final(self).wf(),
            final(self).exit_status == status,
            final(self).cwd == old(self).cwd,
            final(self).variables == old(self).variables,
            final(self).argv == old(self).argv,
            final(self).argc == old(self).argc,
    {
        self.exit_status = status;
    }

    /// Moves the session to a new current directory, which the caller has
    /// verified to exist and canonicalized to an absolute path.
    pub fn set_cwd(&mut self, cwd: String)
        requires
            old(self).wf(),
            is_absolute(cwd@),
        ensures
            final(self).wf(),
            final(self).cwd@ == cwd@,
            final(self).variables == old(self).variables,
            final(self).argv == old(self).argv,
            final(self).argc == old(self).argc,
            final(self).exit_status == old(self).exit_status,
    {
        self.cwd = cwd;
    }

    /// The search directories the given path-variable value names: its
    /// separator-split segments, in order. A missing or empty variable
    /// yields an empty search list, so every external lookup fails.
    pub fn exec_paths(&self, path_var: &str, sep: char) -> (dirs: Vec<String>)
        ensures
            dirs.deep_view() == search_dirs(path_var@, sep),
    {
        if path_var.unicode_len() == 0 {
            let dirs: Vec<String> = Vec::new();
            proof {
                assert(dirs.deep_view() =~= search_dirs(path_var@, sep));
            }
            dirs
        } else {
            split_on_char(path_var, sep)
        }
    }

    /// The prompt shown before each read: the current directory and an
    /// arrow.
    pub fn prompt_text(&self) -> (p: String)
        ensures
            p@ == self.cwd@ + " -> "@,
    {
        self.cwd.clone().concat(" -> ")
    }
}

} // verus!
