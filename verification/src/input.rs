//! The completion index behind the line editor.
//!
//! The index is a radix trie binding each character of every candidate word
//! to its successor. Candidate words are the path components of the
//! session's search directories and the internal-command names. The trie
//! itself comes from the radix_trie crate; its contents are named by
//! `trie_entries` and every access goes through a contracted wrapper.

use vstd::prelude::*;
use radix_trie::Trie;
use crate::builtins::builtin_names;
use crate::builtins::load;
use crate::resolver::search_dirs;
use crate::resolver::split_on;
use crate::resolver::split_on_char;
use crate::state::State;
use crate::tokenizer::filter_nonempty;
use crate::tokenizer::keep_nonempty;
use crate::tokenizer::push_char;

verus! {

#[verifier::external_type_specification]
#[verifier::external_body]
#[verifier::reject_recursive_types(K)]
#[verifier::reject_recursive_types(V)]
pub struct ExTrie<K, V>(Trie<K, V>);

/// A completion trie: single-character keys bound to successor characters.
pub type CompletionTrie = Trie<String, String>;

/// What a completion trie holds: each key bound to its value.
pub uninterp spec fn trie_entries(t: CompletionTrie) -> Map<Seq<char>, Seq<char>>;

/// The map with no key bound at all.
pub open spec fn no_entries() -> Map<Seq<char>, Seq<char>> {
    Map::empty()
}

/// Relies on radix_trie::Trie::new: the new trie holds nothing.
#[verifier::external_body]
fn trie_new() -> (tr: CompletionTrie)
    ensures
        trie_entries(tr) == no_entries(),
{
    Trie::new()
}

/// Relies on radix_trie::Trie::insert: binds the key to the value and
/// returns the value the key was bound to before, if any.
#[verifier::external_body]
fn trie_insert(t: &mut CompletionTrie, key: String, value: String) -> (prev: Option<String>)
    ensures
        trie_entries(*final(t)) == trie_entries(*old(t)).insert(key@, value@),
        match prev {
            Some(p) => trie_entries(*old(t)).contains_key(key@) && p@ == trie_entries(*old(t))[
                key@
            ],
            None => !trie_entries(*old(t)).contains_key(key@),
        },
{
    t.insert(key, value)
}

/// Relies on radix_trie::Trie::get: the value bound to the key, if any.
#[verifier::external_body]
fn trie_get<'a>(t: &'a CompletionTrie, key: &String) -> (r: Option<&'a String>)
    ensures
        match r {
            Some(v) => trie_entries(*t).contains_key(key@) && v@ == trie_entries(*t)[key@],
            None => !trie_entries(*t).contains_key(key@),
        },
{
    t.get(key)
}

/// The two-character windows of one word, bound in order from position `i`:
/// each character maps to its successor, a later window overriding an
/// earlier binding of the same character.
pub open spec fn pair_inserts(m: Map<Seq<char>, Seq<char>>, s: Seq<char>, i: int) -> Map<
    Seq<char>,
    Seq<char>,
>
    decreases s.len() - i,
{
    if i < 0 || i + 1 >= s.len() {
        m
    } else {
        pair_inserts(m.insert(seq![s[i]], seq![s[i + 1]]), s, i + 1)
    }
}

/// The windows of every source word, bound in listed order.
pub open spec fn all_pair_inserts(
    m: Map<Seq<char>, Seq<char>>,
    sources: Seq<Seq<char>>,
    i: int,
) -> Map<Seq<char>, Seq<char>>
    decreases sources.len() - i,
{
    if i < 0 || i >= sources.len() {
        m
    } else {
        all_pair_inserts(pair_inserts(m, sources[i], 0), sources, i + 1)
    }
}

/// A path's non-empty slash-separated components.
pub open spec fn path_components(p: Seq<char>) -> Seq<Seq<char>> {
    keep_nonempty(split_on(p, '/'))
}

/// The components of every directory from position `i` on, in order.
pub open spec fn components_from(dirs: Seq<Seq<char>>, i: int) -> Seq<Seq<char>>
    decreases dirs.len() - i,
{
    if i < 0 || i >= dirs.len() {
        Seq::empty()
    } else {
        path_components(dirs[i]) + components_from(dirs, i + 1)
    }
}

/// The words the completion index is built from: the path components of
/// every search directory, then the internal-command names.
pub open spec fn completion_sources(path_var: Seq<char>, sep: char) -> Seq<Seq<char>> {
    components_from(search_dirs(path_var, sep), 0) + builtin_names()
}

/// A string of exactly one character.
fn char_string(c: char) -> (r: String)
    ensures
        r@ == seq![c],
{
    let mut r = String::new();
    push_char(&mut r, c);
    proof {
        assert(r@ =~= seq![c]);
    }
    r
}

fn components_of(p: &String) -> (r: Vec<String>)
    ensures
        r.deep_view() == path_components(p@),
{
    let parts = split_on_char(p.as_str(), '/');
    filter_nonempty(parts)
}

fn insert_pairs(t: &mut CompletionTrie, word: &String)
    ensures
        trie_entries(*final(t)) == pair_inserts(trie_entries(*old(t)), word@, 0),
{
    let ghost m0 = trie_entries(*t);
    let w = word.as_str();
    let n = w.unicode_len();
    let limit: usize = if n == 0 {
        0
    } else {
        n - 1
    };
    let mut j: usize = 0;
    while j < limit
        invariant
            j <= limit,
            limit as int == if n == 0 {
                0int
            } else {
                n - 1
            },
            n == word@.len(),
            w@ == word@,
            pair_inserts(trie_entries(*t), word@, j as int) == pair_inserts(m0, word@, 0),
        decreases n - j,
    {
        let key = char_string(w.get_char(j));
        let value = char_string(w.get_char(j + 1));
        let ghost before = trie_entries(*t);
        trie_insert(t, key, value);
        proof {
            assert(trie_entries(*t) =~= before.insert(
                seq![word@[j as int]],
                seq![word@[j as int + 1]],
            ));
        }
        j = j + 1;
    }
}

/// The line editor's input side. It owns the completion index; the prompt
/// printing and byte reading around it are the caller's side effects.
pub struct Input {
    completions: CompletionTrie,
}

impl Input {
    /// What the completion index holds: each character bound to a successor.
    pub closed spec fn entries(&self) -> Map<Seq<char>, Seq<char>> {
        trie_entries(self.completions)
    }

    /// Builds the completion index for a session: every path component of
    /// every search directory and every internal-command name contributes
    /// its character windows, in that order.
    pub fn from(s: &State, path_var: &str, sep: char) -> (inp: Input)
        ensures
            inp.entries() == all_pair_inserts(
                Map::empty(),
                completion_sources(path_var@, sep),
                0,
            ),
    {
        let dirs = s.exec_paths(path_var, sep);
        let nd = dirs.len();
        let mut strs: Vec<String> = Vec::new();
        let mut i: usize = 0;
        proof {
            assert(strs.deep_view() =~= Seq::<Seq<char>>::empty());
            assert(strs.deep_view() + components_from(dirs.deep_view(), 0) =~= components_from(
                dirs.deep_view(),
                0,
            ));
        }
        while i < nd
            invariant
                i <= nd,
                nd == dirs@.len(),
                dirs.deep_view() == search_dirs(path_var@, sep),
                strs.deep_view() + components_from(dirs.deep_view(), i as int) == components_from(
                    dirs.deep_view(),
                    0,
                ),
            decreases nd - i,
        {
            let mut comps = components_of(&dirs[i]);
            let ghost prev = strs.deep_view();
            let ghost added = comps.deep_view();
            strs.append(&mut comps);
            proof {
                assert(strs.deep_view() =~= prev + added);
                assert(strs.deep_view() + components_from(dirs.deep_view(), i as int + 1) =~= prev
                    + components_from(dirs.deep_view(), i as int));
            }
            i = i + 1;
        }
        let registry = load();
        let mut names = registry.names();
        let ghost prev = strs.deep_view();
        strs.append(&mut names);
        proof {
            assert(components_from(dirs.deep_view(), nd as int) =~= Seq::<Seq<char>>::empty());
            assert(prev =~= components_from(dirs.deep_view(), 0));
            assert(strs.deep_view() =~= completion_sources(path_var@, sep));
        }
        let mut completions = trie_new();
        let ns = strs.len();
        let mut k: usize = 0;
        while k < ns
            invariant
                k <= ns,
                ns == strs@.len(),
                strs.deep_view() == completion_sources(path_var@, sep),
                all_pair_inserts(trie_entries(completions), strs.deep_view(), k as int)
                    == all_pair_inserts(Map::empty(), strs.deep_view(), 0),
            decreases ns - k,
        {
            insert_pairs(&mut completions, &strs[k]);
            proof {
                assert(strs.deep_view()[k as int] == strs@[k as int]@);
            }
            k = k + 1;
        }
        Input { completions }
    }

    /// The successor character the index records for the given key.
    pub fn lookup<'a>(&'a self, key: &String) -> (r: Option<&'a String>)
        ensures
            match r {
                Some(v) => self.entries().contains_key(key@) && v@ == self.entries()[key@],
                None => !self.entries().contains_key(key@),
            },
    {
        trie_get(&self.completions, key)
    }
}

} // verus!
