//! Resolution of external commands.
//!
//! The search list is the process's path variable split on the platform
//! separator. Directories are consulted in listed order and, within one
//! directory, entries in the order the file system enumerated them; the
//! first entry whose name equals the command wins, and nothing after it is
//! consulted. Reading directories and spawning the match are the caller's
//! side effects; this module decides.

use vstd::prelude::*;
use crate::tokenizer::push_char;

verus! {

/// The distinguished failure status: command not found, spawn failure, or a
/// child whose exit code could not be determined. Outside the range normal
/// exit codes use.
pub const FAILURE_STATUS: i32 = 1000;

/// Splitting `s` on `sep`, scanned from position `i` with the segments
/// `done` finished and `cur` under construction. Empty segments are kept;
/// the segment after the last separator is always emitted.
pub open spec fn split_from(
    done: Seq<Seq<char>>,
    cur: Seq<char>,
    s: Seq<char>,
    i: int,
    sep: char,
) -> Seq<Seq<char>>
    decreases s.len() - i,
{
    if i < 0 || i >= s.len() {
        done.push(cur)
    } else if s[i] == sep {
        split_from(done.push(cur), Seq::empty(), s, i + 1, sep)
    } else {
        split_from(done, cur.push(s[i]), s, i + 1, sep)
    }
}

/// The segments of `s` between occurrences of `sep`.
pub open spec fn split_on(s: Seq<char>, sep: char) -> Seq<Seq<char>> {
    split_from(Seq::empty(), Seq::empty(), s, 0, sep)
}

/// The search list a path-variable value denotes: its separator-split
/// segments, with a missing or empty value denoting no directories at all.
pub open spec fn search_dirs(path_var: Seq<char>, sep: char) -> Seq<Seq<char>> {
    if path_var.len() == 0 {
        Seq::empty()
    } else {
        split_on(path_var, sep)
    }
}

/// Splits a string on a separator character, keeping empty segments.
pub fn split_on_char(s: &str, sep: char) -> (parts: Vec<String>)
    ensures
        parts.deep_view() == split_on(s@, sep),
{
    let n = s.unicode_len();
    let mut done: Vec<String> = Vec::new();
    let mut cur = String::new();
    let mut i: usize = 0;
    proof {
        assert(done.deep_view() =~= Seq::<Seq<char>>::empty());
    }
    while i < n
        invariant
            i <= n,
            n == s@.len(),
            split_from(done.deep_view(), cur@, s@, i as int, sep) == split_on(s@, sep),
        decreases n - i,
    {
        let c = s.get_char(i);
        if c == sep {
            let ghost prev = done.deep_view();
            let ghost seg = cur@;
            done.push(cur);
            cur = String::new();
            proof {
                assert(done.deep_view() =~= prev.push(seg));
            }
        } else {
            push_char(&mut cur, c);
        }
        i = i + 1;
    }
    let ghost prev = done.deep_view();
    let ghost last = cur@;
    done.push(cur);
    proof {
        assert(done.deep_view() =~= prev.push(last));
    }
    done
}

/// One search directory as the file system enumerated it: the directory's
/// path and its entry names, in enumeration order.
pub struct DirListing {
    pub dir: String,
    pub entries: Vec<String>,
}

/// The first position at or after `j` whose entry equals `cmd`.
pub open spec fn entry_match_from(cmd: Seq<char>, entries: Seq<Seq<char>>, j: int) -> Option<
    int,
>
    decreases entries.len() - j,
{
    if j < 0 || j >= entries.len() {
        None
    } else if entries[j] == cmd {
        Some(j)
    } else {
        entry_match_from(cmd, entries, j + 1)
    }
}

/// The first (directory, entry) position at or after directory `i` whose
/// entry name equals `cmd`.
pub open spec fn dir_match_from(cmd: Seq<char>, listings: Seq<DirListing>, i: int) -> Option<
    (int, int),
>
    decreases listings.len() - i,
{
    if i < 0 || i >= listings.len() {
        None
    } else {
        match entry_match_from(cmd, listings[i].entries.deep_view(), 0) {
            Some(j) => Some((i, j)),
            None => dir_match_from(cmd, listings, i + 1),
        }
    }
}

/// Where the command resolves: the first name match over the whole search
/// list, or nothing.
pub open spec fn first_match(cmd: Seq<char>, listings: Seq<DirListing>) -> Option<(int, int)> {
    dir_match_from(cmd, listings, 0)
}

/// Finds the first entry whose name exactly equals the command, scanning
/// directories in listed order and entries in enumeration order. No
/// executable-permission check is made: the match is by name alone.
pub fn resolve(cmd: &str, listings: &Vec<DirListing>) -> (r: Option<(usize, usize)>)
    ensures
        match r {
            Some(p) => (p.0 as int) < listings@.len() && (p.1 as int) < listings@[
                p.0 as int
            ].entries@.len() && first_match(cmd@, listings@) == Some((p.0 as int, p.1 as int)),
            None => first_match(cmd@, listings@) is None,
        },
{
    let key: String = cmd.to_owned();
    let nd = listings.len();
    let mut i: usize = 0;
    while i < nd
        invariant
            i <= nd,
            nd == listings@.len(),
            key@ == cmd@,
            dir_match_from(cmd@, listings@, i as int) == first_match(cmd@, listings@),
        decreases nd - i,
    {
        let ne = listings[i].entries.len();
        let mut j: usize = 0;
        while j < ne
            invariant
                j <= ne,
                i < nd,
                nd == listings@.len(),
                key@ == cmd@,
                ne == listings@[i as int].entries@.len(),
                dir_match_from(cmd@, listings@, i as int) == first_match(cmd@, listings@),
                entry_match_from(cmd@, listings@[i as int].entries.deep_view(), j as int)
                    == entry_match_from(cmd@, listings@[i as int].entries.deep_view(), 0),
            decreases ne - j,
        {
            if listings[i].entries[j] == key {
                proof {
                    assert(listings@[i as int].entries.deep_view()[j as int] == cmd@);
                }
                return Some((i, j));
            }
            j = j + 1;
        }
        proof {
            assert(entry_match_from(cmd@, listings@[i as int].entries.deep_view(), ne as int)
                is None);
        }
        i = i + 1;
    }
    None
}

/// What came of one external-command attempt: no name match anywhere, a
/// spawn that failed, a child that exited with a code, or a child that ended
/// without one.
#[derive(Clone, Copy, PartialEq, Eq, Structural, Debug)]
pub enum SpawnOutcome {
    NotFound,
    SpawnFailed,
    Exited(i32),
    NoExitCode,
}

/// The status an attempt folds into the session: a normal exit code passes
/// through unchanged; everything else is the distinguished failure value.
pub open spec fn status_of(o: SpawnOutcome) -> int {
    match o {
        SpawnOutcome::Exited(code) => code as int,
        _ => FAILURE_STATUS as int,
    }
}

/// Maps an attempt's outcome to the status stored as the session's last
/// exit status.
pub fn exec_status(o: &SpawnOutcome) -> (r: i32)
    ensures
        r as int == status_of(*o),
{
    match o {
        SpawnOutcome::Exited(code) => *code,
        _ => FAILURE_STATUS,
    }
}

proof fn lemma_entry_match_first(cmd: Seq<char>, entries: Seq<Seq<char>>, j: int)
    requires
        0 <= j <= entries.len(),
    ensures
        entry_match_from(cmd, entries, j) is None ==> forall|t: int|
            j <= t < entries.len() ==> entries[t] != cmd,
        match entry_match_from(cmd, entries, j) {
            Some(t) => j <= t < entries.len() && entries[t] == cmd && forall|u: int|
                j <= u < t ==> entries[u] != cmd,
            None => true,
        },
    decreases entries.len() - j,
{
    if j < entries.len() && entries[j] != cmd {
        lemma_entry_match_first(cmd, entries, j + 1);
    }
}

proof fn lemma_dir_match_first(cmd: Seq<char>, listings: Seq<DirListing>, i: int)
    requires
        0 <= i <= listings.len(),
    ensures
        dir_match_from(cmd, listings, i) is None ==> forall|a: int, b: int|
            i <= a < listings.len() && 0 <= b < listings[a].entries.deep_view().len()
                ==> listings[a].entries.deep_view()[b] != cmd,
        match dir_match_from(cmd, listings, i) {
            Some(p) => i <= p.0 < listings.len() && 0 <= p.1 < listings[
                p.0
            ].entries.deep_view().len() && listings[p.0].entries.deep_view()[p.1] == cmd
                && forall|a: int, b: int|
                i <= a < listings.len() && 0 <= b < listings[a].entries.deep_view().len()
                    && listings[a].entries.deep_view()[b] == cmd ==> p.0 < a || (p.0 == a && p.1
                    <= b),
            None => true,
        },
    decreases listings.len() - i,
{
    if i < listings.len() {
        lemma_entry_match_first(cmd, listings[i].entries.deep_view(), 0);
        lemma_dir_match_first(cmd, listings, i + 1);
    }
}

/// First directory, first name match in enumeration order wins: when the
/// resolver reports a match it is the earliest position whose entry equals
/// the command, so a later directory holding another match is never
/// consulted; and it reports none exactly when no entry anywhere matches.
pub proof fn lemma_first_match_first_wins(cmd: Seq<char>, listings: Seq<DirListing>)
    ensures
        first_match(cmd, listings) is None <==> forall|a: int, b: int|
            0 <= a < listings.len() && 0 <= b < listings[a].entries.deep_view().len()
                ==> listings[a].entries.deep_view()[b] != cmd,
        match first_match(cmd, listings) {
            Some(p) => 0 <= p.0 < listings.len() && 0 <= p.1 < listings[
                p.0
            ].entries.deep_view().len() && listings[p.0].entries.deep_view()[p.1] == cmd
                && forall|a: int, b: int|
                0 <= a < listings.len() && 0 <= b < listings[a].entries.deep_view().len()
                    && listings[a].entries.deep_view()[b] == cmd ==> p.0 < a || (p.0 == a && p.1
                    <= b),
            None => true,
        },
{
    lemma_dir_match_first(cmd, listings, 0);
}

/// With the search-path variable empty or unset there is no directory to
/// consult: no command name resolves, and the attempt's status is the
/// distinguished failure value, whatever the name was.
pub proof fn lemma_empty_search_path(cmd: Seq<char>, sep: char)
    ensures
        search_dirs(Seq::empty(), sep) == Seq::<Seq<char>>::empty(),
        first_match(cmd, Seq::<DirListing>::empty()) is None,
        status_of(SpawnOutcome::NotFound) == FAILURE_STATUS as int,
{
}

} // verus!
