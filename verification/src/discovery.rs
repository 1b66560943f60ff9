//! Which directories hold the configuration of a project.
use crate::file_path::{ancestors, join_path, joined_path, path_ancestors};
use crate::text::{copy, opt_text, texts};
use vstd::prelude::*;

verus! {

/// The first position from `i` on that holds `true`.
pub open spec fn first_true(flags: Seq<bool>, i: int) -> Option<int>
    decreases flags.len() - i,
{
    if i < 0 || i >= flags.len() {
        None
    } else if flags[i] {
        Some(i)
    } else {
        first_true(flags, i + 1)
    }
}

pub proof fn lemma_first_true(flags: Seq<bool>, i: int)
    requires
        0 <= i,
    ensures
        first_true(flags, i) matches Some(k) ==> i <= k < flags.len() && flags[k],
        first_true(flags, i) matches Some(k) ==> forall|j: int| i <= j < k ==> !flags[j],
        first_true(flags, i) is None ==> forall|j: int| i <= j < flags.len() ==> !flags[j],
    decreases flags.len() - i,
{
    if i < flags.len() && !flags[i] {
        lemma_first_true(flags, i + 1);
    }
}

/// The first position that holds `true`.
pub fn first_set(flags: &Vec<bool>) -> (r: Option<usize>)
    ensures
        (r is Some) == (first_true(flags@, 0) is Some),
        r matches Some(k) ==> first_true(flags@, 0) == Some(k as int) && k < flags.len(),
{
    let mut i: usize = 0;
    while i < flags.len()
        invariant
            i <= flags@.len(),
            first_true(flags@, i as int) == first_true(flags@, 0),
        decreases flags@.len() - i,
    {
        if flags[i] {
            return Some(i);
        }
        i += 1;
    }
    None
}

/// The innermost of `start` and the directories around it that holds `.git`. `has_git` says of
/// each of them, from `start` on outward, whether it does.
pub open spec fn git_root(start: Seq<char>, has_git: Seq<bool>) -> Option<Seq<char>> {
    match first_true(has_git, 0) {
        Some(k) => Some(ancestors(start)[k]),
        None => None,
    }
}

/// The directories of a project: from `start` outward up to the one that holds `.git`, or
/// `start` alone where none does.
pub open spec fn dirs_of_project(start: Seq<char>, has_git: Seq<bool>) -> Seq<Seq<char>> {
    match first_true(has_git, 0) {
        Some(k) => ancestors(start).take(k + 1),
        None => ancestors(start).take(1),
    }
}

/// The innermost directory that holds `.git`, from `start` on outward. `has_git` says of
/// `start` and each directory around it whether it does.
pub fn find_git_root(start: &str, has_git: &Vec<bool>) -> (r: Option<String>)
    requires
        has_git@.len() == ancestors(start@).len(),
    ensures
        opt_text(r) == git_root(start@, has_git@),
{
    match first_set(has_git) {
        Some(k) => {
            let dirs = path_ancestors(start);
            assert(texts(dirs@)[k as int] == ancestors(start@)[k as int]);
            Some(dirs[k].clone())
        },
        None => None,
    }
}

/// The directories of the project that `start` lies in, the nearest first. `has_git` says of
/// `start` and each directory around it whether it holds `.git`.
pub fn project_dirs(start: &str, has_git: &Vec<bool>) -> (r: Vec<String>)
    requires
        has_git@.len() == ancestors(start@).len(),
    ensures
        texts(r@) == dirs_of_project(start@, has_git@),
{
    let mut dirs = path_ancestors(start);
    let ghost all = texts(dirs@);
    let n: usize = match first_set(has_git) {
        Some(k) => k + 1,
        None => 1,
    };
    dirs.truncate(n);
    proof {
        ancestors_start_with_the_path(start@);
    }
    assert(texts(dirs@) =~= all.take(n as int));
    dirs
}

pub proof fn ancestors_start_with_the_path(path: Seq<char>)
    ensures
        ancestors(path).len() >= 1,
        ancestors(path)[0] == path,
{
}

/// A project's directories start with the one asked about and end with the git root, where
/// there is one.
pub proof fn project_dirs_end_at_the_git_root(start: Seq<char>, has_git: Seq<bool>)
    requires
        has_git.len() == ancestors(start).len(),
    ensures
        dirs_of_project(start, has_git).len() >= 1,
        dirs_of_project(start, has_git)[0] == start,
        git_root(start, has_git) matches Some(root) ==> dirs_of_project(start, has_git).last()
            == root,
        git_root(start, has_git) is None ==> dirs_of_project(start, has_git) == seq![start],
{
    ancestors_start_with_the_path(start);
    lemma_first_true(has_git, 0);
    if first_true(has_git, 0) is None {
        assert(ancestors(start).take(1) =~= seq![start]);
    }
}

/// The directory `.agents/<sub>` of the nearest directory of the project that has one:
/// `is_dir` says of each directory of the project whether it does.
pub open spec fn nearest_dir(
    start: Seq<char>,
    has_git: Seq<bool>,
    is_dir: Seq<bool>,
    sub: Seq<char>,
) -> Option<Seq<char>> {
    match first_true(is_dir, 0) {
        Some(k) => Some(
            join_path(join_path(dirs_of_project(start, has_git)[k], ".agents"@), sub),
        ),
        None => None,
    }
}

/// The directory `.agents/<sub>` of the nearest directory of the project that has one.
pub fn nearest_agents_dir(start: &str, has_git: &Vec<bool>, is_dir: &Vec<bool>, sub: &str) -> (r:
    Option<String>)
    requires
        has_git@.len() == ancestors(start@).len(),
        is_dir@.len() == dirs_of_project(start@, has_git@).len(),
    ensures
        opt_text(r) == nearest_dir(start@, has_git@, is_dir@, sub@),
{
    match first_set(is_dir) {
        Some(k) => {
            let dirs = project_dirs(start, has_git);
            assert(texts(dirs@)[k as int] == dirs@[k as int]@);
            let agents = joined_path(dirs[k].as_str(), ".agents");
            Some(joined_path(agents.as_str(), sub))
        },
        None => None,
    }
}

/// Where a scope of long-term memory is rooted: the git root, or `start` outside of one.
pub fn project_root(start: &str, has_git: &Vec<bool>) -> (r: String)
    requires
        has_git@.len() == ancestors(start@).len(),
    ensures
        r@ == (match git_root(start@, has_git@) {
            Some(root) => root,
            None => start@,
        }),
{
    match find_git_root(start, has_git) {
        Some(root) => root,
        None => copy(start),
    }
}

/// The nearest directory counts: the first one of the project that has the directory asked for,
/// and none where none has it.
pub proof fn the_nearest_directory_counts(
    start: Seq<char>,
    has_git: Seq<bool>,
    is_dir: Seq<bool>,
    sub: Seq<char>,
    k: int,
)
    ensures
        0 <= k < is_dir.len() && is_dir[k] && (forall|j: int| 0 <= j < k ==> !#[trigger] is_dir[j])
            ==> nearest_dir(start, has_git, is_dir, sub) == Some(
            join_path(join_path(dirs_of_project(start, has_git)[k], ".agents"@), sub),
        ),
        (nearest_dir(start, has_git, is_dir, sub) is None) == (forall|j: int|
            0 <= j < is_dir.len() ==> !#[trigger] is_dir[j]),
{
    lemma_first_true(is_dir, 0);
}

/// A project reaches from where one is outward to the first directory that holds `.git` and no
/// further.
pub proof fn projects_end_at_the_first_git(start: Seq<char>, has_git: Seq<bool>, k: int)
    requires
        has_git.len() == ancestors(start).len(),
        0 <= k < has_git.len(),
        has_git[k],
        forall|j: int| 0 <= j < k ==> !#[trigger] has_git[j],
    ensures
        git_root(start, has_git) == Some(ancestors(start)[k]),
        dirs_of_project(start, has_git).len() == k + 1,
        forall|j: int|
            0 <= j <= k ==> #[trigger] dirs_of_project(start, has_git)[j] == ancestors(start)[j],
{
    lemma_first_true(has_git, 0);
}

/// A project is rooted at the first directory outward that holds `.git`, and without one where one
/// is.
pub proof fn projects_are_rooted_at_git(start: &str, has_git: Vec<bool>, r: String, k: int)
    requires
        has_git@.len() == ancestors(start@).len(),
        call_ensures(project_root, (start, &has_git), r),
    ensures
        0 <= k < has_git@.len() && has_git@[k] && (forall|j: int|
            0 <= j < k ==> !#[trigger] has_git@[j]) ==> r@ == ancestors(start@)[k],
        (forall|j: int| 0 <= j < has_git@.len() ==> !#[trigger] has_git@[j]) ==> r@ == start@,
{
    lemma_first_true(has_git@, 0);
}

} // verus!
