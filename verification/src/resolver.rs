//! Path resolver: given a command name and the colon-separated search
//! path, decide which file would satisfy the command.
//!
//! The filesystem itself (existence, the execute-permission bit) is the
//! caller's to consult; this module does the decisions around it: how the
//! search path splits into directories, what candidate file each
//! directory offers, when the search is skipped in favor of a direct
//! test, and which directory wins — the first in listed order whose
//! candidate passes, earlier directories shadowing later ones.

use crate::strutil::push_char;
use vstd::prelude::*;
use vstd::string::*;

verus! {

/// State of the search-path splitter after some prefix of the input: the
/// finished entries and the entry being built.
pub ghost struct SplitState {
    pub parts: Seq<Seq<char>>,
    pub cur: Seq<char>,
}

/// Folds the splitter over the input, character by character.
pub open spec fn split_run(s: Seq<char>) -> SplitState
    decreases s.len(),
{
    if s.len() == 0 {
        SplitState { parts: Seq::empty(), cur: Seq::empty() }
    } else {
        let st = split_run(s.drop_last());
        if s.last() == ':' {
            SplitState { parts: st.parts.push(st.cur), cur: Seq::empty() }
        } else {
            SplitState { parts: st.parts, cur: st.cur.push(s.last()) }
        }
    }
}

/// The entries of a colon-separated list, in order. Splitting keeps
/// empty entries: the list always has one entry more than it has colons.
pub open spec fn spec_split_colon(s: Seq<char>) -> Seq<Seq<char>> {
    let st = split_run(s);
    st.parts.push(st.cur)
}

/// Splits the value of a search-path variable on `:` into the ordered
/// list of directories to scan.
pub fn split_search_path(s: &str) -> (dirs: Vec<String>)
    ensures
        dirs.deep_view() == spec_split_colon(s@),
{
    let n = s.unicode_len();
    let mut cur = String::new();
    let mut parts: Vec<String> = Vec::new();
    let mut i: usize = 0;
    while i < n
        invariant
            n == s@.len(),
            i <= n,
            cur@ == split_run(s@.take(i as int)).cur,
            parts.deep_view() == split_run(s@.take(i as int)).parts,
        decreases n - i,
    {
        let c = s.get_char(i);
        proof {
            assert(s@.take(i as int + 1).drop_last() =~= s@.take(i as int));
            assert(s@.take(i as int + 1).last() == s@[i as int]);
        }
        if c == ':' {
            let ghost pre_parts = parts.deep_view();
            let ghost pre_cur = cur@;
            parts.push(cur);
            cur = String::new();
            proof {
                assert(parts.deep_view() =~= pre_parts.push(pre_cur));
            }
        } else {
            push_char(&mut cur, c);
        }
        i = i + 1;
    }
    proof {
        assert(s@.take(n as int) =~= s@);
    }
    let ghost pre_parts = parts.deep_view();
    let ghost pre_cur = cur@;
    parts.push(cur);
    proof {
        assert(parts.deep_view() =~= pre_parts.push(pre_cur));
    }
    parts
}

/// The file a directory offers for a command name.
pub fn candidate_path(dir: &str, name: &str) -> (path: String)
    ensures
        path@ == dir@ + seq!['/'] + name@,
{
    let mut path = String::from_str(dir);
    path.append("/");
    path.append(name);
    proof {
        reveal_strlit("/");
        assert("/"@ =~= seq!['/']);
    }
    path
}

/// Whether a command name contains a path separator; such a name is
/// tested directly and the search path is never scanned for it.
pub open spec fn spec_has_slash(s: Seq<char>) -> bool {
    exists|k: int| 0 <= k < s.len() && s[k] == '/'
}

/// Tests a command name for a path separator.
pub fn has_slash(name: &str) -> (r: bool)
    ensures
        r == spec_has_slash(name@),
{
    let n = name.unicode_len();
    let mut i: usize = 0;
    while i < n
        invariant
            n == name@.len(),
            i <= n,
            forall|j: int| 0 <= j < i ==> name@[j] != '/',
        decreases n - i,
    {
        if name.get_char(i) == '/' {
            proof {
                assert(name@[i as int] == '/');
            }
            return true;
        }
        i = i + 1;
    }
    false
}

/// The path a slash-containing name is tested at: the name itself when
/// absolute, the name under the working directory otherwise.
pub fn direct_candidate(name: &str, cwd: &str) -> (path: String)
    ensures
        name@.len() > 0 && name@[0] == '/' ==> path@ == name@,
        !(name@.len() > 0 && name@[0] == '/') ==> path@ == cwd@ + seq!['/'] + name@,
{
    if name.unicode_len() > 0 && name.get_char(0) == '/' {
        String::from_str(name)
    } else {
        candidate_path(cwd, name)
    }
}

/// Picks the winning directory of a search. `flags` holds, for each
/// directory in order, whether that directory's candidate file exists
/// with execute permission — the caller consults the filesystem for
/// that. Returns the candidate of the first flagged directory, so
/// earlier directories shadow later ones; `None` when no directory is
/// flagged.
pub fn resolve_with_flags(dirs: &Vec<String>, name: &str, flags: &Vec<bool>) -> (r: Option<
    String,
>)
    requires
        flags.len() == dirs.len(),
    ensures
        match r {
            Some(path) => exists|k: int|
                0 <= k < dirs.len() && flags@[k] && (forall|j: int| 0 <= j < k ==> !flags@[j])
                    && path@ == dirs.deep_view()[k] + seq!['/'] + name@,
            None => forall|k: int| 0 <= k < flags@.len() ==> !flags@[k],
        },
{
    let mut i: usize = 0;
    while i < dirs.len()
        invariant
            flags.len() == dirs.len(),
            i <= dirs.len(),
            forall|j: int| 0 <= j < i ==> !flags@[j],
        decreases dirs.len() - i,
    {
        if flags[i] {
            let path = candidate_path(dirs[i].as_str(), name);
            proof {
                assert(dirs.deep_view()[i as int] == dirs@[i as int]@);
                assert(flags@[i as int] && (forall|j: int| 0 <= j < i as int ==> !flags@[j])
                    && path@ == dirs.deep_view()[i as int] + seq!['/'] + name@);
            }
            return Some(path);
        }
        i = i + 1;
    }
    None
}

} // verus!
