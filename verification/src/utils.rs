//! Small decisions of the command line: colours, where a file is found, and
//! whether the check for a new version is due.
use vstd::prelude::*;

use crate::paths::{join_of, parent_of, path_join, path_parent};

verus! {

/// Whether the output is coloured, from the values that `NO_COLOR` and
/// `CLICOLOR_FORCE` had when the program was built: never when `NO_COLOR` is
/// set, and otherwise only when `CLICOLOR_FORCE` is set to something else
/// than `0`.
pub fn is_cli_colorized(no_color: Option<&str>, clicolor_force: Option<&str>) -> (r: bool)
    ensures
        r == (no_color is None && match clicolor_force {
            Some(v) => v@ != "0"@,
            None => false,
        }),
{
    if no_color.is_some() {
        return false;
    }
    match clicolor_force {
        Some(v) => !v.to_owned().eq(&"0".to_owned()),
        None => false,
    }
}

/// What to do next while looking for a file in a directory and its parents.
#[derive(Debug)]
pub enum FindStep {
    /// The file is there: its path.
    Found(String),
    /// Look in this directory next.
    Parent(String),
    /// The directory has no parent: the search fails.
    RootReached,
}

/// The message of the failed search.
pub const ROOT_DIRECTORY_REACHED: &'static str = "root directory reached";

/// One step of the search for `file_name` in `dir` and its parents, given
/// whether `file_name` exists in `dir`: the path of the file when it does,
/// else the parent directory to look in, or the end of the search at the
/// root.
pub fn find_in_parents(dir: &str, file_name: &str, exists_in_dir: bool) -> (r: FindStep)
    ensures
        exists_in_dir ==> (r matches FindStep::Found(p) && p@ == join_of(dir@, file_name@)),
        !exists_in_dir ==> match parent_of(dir@) {
            Some(parent) => (r matches FindStep::Parent(p) && p@ == parent),
            None => r is RootReached,
        },
{
    if exists_in_dir {
        FindStep::Found(path_join(dir, file_name))
    } else {
        match path_parent(dir) {
            Some(parent) => FindStep::Parent(parent),
            None => FindStep::RootReached,
        }
    }
}

/// The directory `n` levels up from `dir` (`dir` itself for 0), while
/// there is one.
pub open spec fn ancestor(dir: Seq<char>, n: nat) -> Option<Seq<char>>
    decreases n,
{
    if n == 0 {
        Some(dir)
    } else {
        match ancestor(dir, (n - 1) as nat) {
            Some(a) => parent_of(a),
            None => None,
        }
    }
}

/// The directory `a` exists and does not hold `file_name`.
pub open spec fn lacks_file(
    a: Option<Seq<char>>,
    file_name: Seq<char>,
    present: spec_fn(Seq<char>) -> bool,
) -> bool {
    match a {
        Some(b) => !present(join_of(b, file_name)),
        None => false,
    }
}

/// Where the search for `file_name` in a directory and its parents stands.
pub enum SearchState {
    /// Still looking, in this directory.
    Looking(Seq<char>),
    /// The file was found: its path.
    Found(Seq<char>),
    /// No directory left.
    RootReached,
}

/// The search for `file_name` from `dir` after `n` steps of
/// [`find_in_parents`], where `present(p)` says whether the path `p`
/// exists.
pub open spec fn search(
    dir: Seq<char>,
    file_name: Seq<char>,
    present: spec_fn(Seq<char>) -> bool,
    n: nat,
) -> SearchState
    decreases n,
{
    if n == 0 {
        SearchState::Looking(dir)
    } else {
        match search(dir, file_name, present, (n - 1) as nat) {
            SearchState::Looking(d) => if present(join_of(d, file_name)) {
                SearchState::Found(join_of(d, file_name))
            } else {
                match parent_of(d) {
                    Some(p) => SearchState::Looking(p),
                    None => SearchState::RootReached,
                }
            },
            other => other,
        }
    }
}

proof fn lemma_search_looking(
    dir: Seq<char>,
    file_name: Seq<char>,
    present: spec_fn(Seq<char>) -> bool,
    n: nat,
)
    ensures
        search(dir, file_name, present, n) matches SearchState::Looking(d) ==> {
            &&& ancestor(dir, n) == Some(d)
            &&& forall|i: nat|
                i < n ==> lacks_file(#[trigger] ancestor(dir, i), file_name, present)
        },
    decreases n,
{
    if n > 0 {
        lemma_search_looking(dir, file_name, present, (n - 1) as nat);
    }
}

/// The search for a file in a directory and its parents, run step by step
/// with [`find_in_parents`], finds the file in the first of `dir`, its
/// parent, its parent's parent, ... that holds it, and reaches the root
/// only when none of them does.
pub proof fn lemma_search_finds_first_ancestor(
    dir: Seq<char>,
    file_name: Seq<char>,
    present: spec_fn(Seq<char>) -> bool,
    n: nat,
)
    ensures
        search(dir, file_name, present, n) matches SearchState::Found(path) ==> exists|m: nat|
            {
                &&& (#[trigger] ancestor(dir, m) matches Some(a) && path == join_of(a, file_name))
                &&& present(path)
                &&& forall|i: nat|
                    i < m ==> lacks_file(#[trigger] ancestor(dir, i), file_name, present)
            },
        search(dir, file_name, present, n) is RootReached ==> exists|m: nat|
            {
                &&& #[trigger] ancestor(dir, m + 1) is None
                &&& forall|i: nat|
                    i <= m ==> lacks_file(#[trigger] ancestor(dir, i), file_name, present)
            },
    decreases n,
{
    if n > 0 {
        let prev = search(dir, file_name, present, (n - 1) as nat);
        lemma_search_finds_first_ancestor(dir, file_name, present, (n - 1) as nat);
        lemma_search_looking(dir, file_name, present, (n - 1) as nat);
        if prev is Looking {
            let m = (n - 1) as nat;
            assert(ancestor(dir, m + 1) == match ancestor(dir, m) {
                Some(a) => parent_of(a),
                None => None,
            });
            assert(ancestor(dir, m) is Some);
        }
    }
}

/// Whether the last check for a new version, recorded in a file created at
/// `create_seconds` (when the file exists), is younger than `ttl` seconds at
/// `now_seconds`.
pub fn is_checked(exists: bool, create_seconds: i64, ttl: i64, now_seconds: i64) -> (r: bool)
    requires
        exists ==> i64::MIN <= create_seconds + ttl <= i64::MAX,
    ensures
        r == (exists && create_seconds + ttl > now_seconds),
{
    exists && create_seconds + ttl > now_seconds
}

} // verus!
