//! Paths as text, with `/` between components: joining them and taking them apart.
use crate::text::{
    chars_of, copy, except, lemma_run_back, lemma_run_back_is, opt_text, run_back, text_of, texts,
};
use vstd::prelude::*;

verus! {

/// `name` below `base`. An absolute `name` stands for itself.
pub open spec fn join_path(base: Seq<char>, name: Seq<char>) -> Seq<char> {
    if name.len() > 0 && name[0] == '/' {
        name
    } else if base.len() == 0 || base.last() == '/' {
        base + name
    } else {
        base.push('/') + name
    }
}

/// Where the last component of `s[..j]` ends: separators and `.` components behind it do not
/// count.
pub open spec fn component_end(s: Seq<char>, j: int) -> int
    decreases j,
{
    if j <= 0 || j > s.len() {
        0
    } else if s[j - 1] == '/' {
        component_end(s, j - 1)
    } else if j >= 2 && s[j - 1] == '.' && s[j - 2] == '/' {
        component_end(s, j - 1)
    } else {
        j
    }
}

/// Where the component that ends at `j` starts.
pub open spec fn component_start(s: Seq<char>, j: int) -> int {
    j - run_back(s, except('/'), j)
}

/// The last component.
pub open spec fn last_component(s: Seq<char>) -> Seq<char> {
    let j = component_end(s, s.len() as int);
    s.subrange(component_start(s, j), j)
}

/// The name that the path ends in. There is none where the path is empty, is the root, or ends
/// in `.` or `..`.
pub open spec fn file_name(s: Seq<char>) -> Option<Seq<char>> {
    let name = last_component(s);
    if name.len() == 0 || name == seq!['.'] || name == seq!['.', '.'] {
        None
    } else {
        Some(name)
    }
}

/// The part of the file name behind its last dot. A dot in front of the name does not count.
pub open spec fn extension(s: Seq<char>) -> Option<Seq<char>> {
    match file_name(s) {
        None => None,
        Some(name) => {
            let k = name.len() - run_back(name, except('.'), name.len() as int);
            if k <= 1 {
                None
            } else {
                Some(name.skip(k))
            }
        },
    }
}

/// The part of the file name before its last dot, the dots in front of the name left alone.
pub open spec fn file_stem(s: Seq<char>) -> Option<Seq<char>> {
    match file_name(s) {
        None => None,
        Some(name) => {
            let k = name.len() - run_back(name, except('.'), name.len() as int);
            if k <= 1 {
                Some(name)
            } else {
                Some(name.take(k - 1))
            }
        },
    }
}

/// The path without its last component. The root and the empty path have no parent.
pub open spec fn parent(s: Seq<char>) -> Option<Seq<char>> {
    let j = component_end(s, s.len() as int);
    if j == 0 {
        None
    } else {
        let k = component_start(s, j);
        let e = component_end(s, k);
        if e == 0 && k > 0 {
            Some(seq!['/'])
        } else {
            Some(s.take(e))
        }
    }
}

pub proof fn lemma_component_end(s: Seq<char>, j: int)
    requires
        0 <= j <= s.len(),
    ensures
        0 <= component_end(s, j) <= j,
        component_end(s, j) > 0 ==> s[component_end(s, j) - 1] != '/',
    decreases j,
{
    if j > 0 && (s[j - 1] == '/' || (j >= 2 && s[j - 1] == '.' && s[j - 2] == '/')) {
        lemma_component_end(s, j - 1);
    }
}

/// The parent of a path is shorter than the path.
pub proof fn parent_is_shorter(s: Seq<char>)
    ensures
        parent(s) matches Some(p) ==> p.len() < s.len(),
{
    let j = component_end(s, s.len() as int);
    lemma_component_end(s, s.len() as int);
    if j > 0 {
        lemma_run_back(s, except('/'), j);
        let k = component_start(s, j);
        assert(except('/')(s[j - 1]));
        assert(run_back(s, except('/'), j) >= 1);
        lemma_component_end(s, k);
    }
}

pub fn joined_path(base: &str, name: &str) -> (r: String)
    ensures
        r@ == join_path(base@, name@),
{
    let b = chars_of(base);
    let n = chars_of(name);
    if n.len() > 0 && n[0] == '/' {
        return copy(name);
    }
    let mut r = copy(base);
    if b.len() > 0 && b[b.len() - 1] != '/' {
        r.push('/');
    }
    r.append(name);
    r
}

/// Where the last component of `v[..j]` ends.
fn end_of_component(v: &Vec<char>, j: usize) -> (r: usize)
    requires
        j <= v@.len(),
    ensures
        r == component_end(v@, j as int),
        r <= j,
{
    let mut k: usize = j;
    while k > 0 && (v[k - 1] == '/' || (k >= 2 && v[k - 1] == '.' && v[k - 2] == '/'))
        invariant
            k <= j <= v@.len(),
            component_end(v@, k as int) == component_end(v@, j as int),
        decreases k,
    {
        k -= 1;
    }
    k
}

/// Where the stretch without `x` that ends at `j` starts.
fn start_after(v: &Vec<char>, x: char, j: usize) -> (r: usize)
    requires
        j <= v@.len(),
    ensures
        r == j - run_back(v@, except(x), j as int),
        r <= j,
{
    let mut k: usize = j;
    while k > 0 && v[k - 1] != x
        invariant
            k <= j <= v@.len(),
            k - run_back(v@, except(x), k as int) == j - run_back(v@, except(x), j as int),
        decreases k,
    {
        k -= 1;
    }
    k
}

pub fn path_file_name(path: &str) -> (r: Option<String>)
    ensures
        opt_text(r) == file_name(path@),
{
    let v = chars_of(path);
    let j = end_of_component(&v, v.len());
    let k = start_after(&v, '/', j);
    let name = text_of(&v, k, j);
    assert(name@ == last_component(path@));
    let n: usize = j - k;
    if n == 0 {
        return None;
    }
    if n == 1 && v[k] == '.' {
        assert(name@ =~= seq!['.']);
        return None;
    }
    if n == 2 && v[k] == '.' && v[k + 1] == '.' {
        assert(name@ =~= seq!['.', '.']);
        return None;
    }
    assert(name@[0] == v@[k as int]);
    assert(n >= 2 ==> name@[1] == v@[k + 1]);
    Some(name)
}

pub fn path_extension(path: &str) -> (r: Option<String>)
    ensures
        opt_text(r) == extension(path@),
{
    match path_file_name(path) {
        None => None,
        Some(name) => {
            let v = chars_of(name.as_str());
            let k = start_after(&v, '.', v.len());
            if k <= 1 {
                None
            } else {
                let e = text_of(&v, k, v.len());
                assert(e@ =~= name@.skip(k as int));
                Some(e)
            }
        },
    }
}

pub fn path_file_stem(path: &str) -> (r: Option<String>)
    ensures
        opt_text(r) == file_stem(path@),
{
    match path_file_name(path) {
        None => None,
        Some(name) => {
            let v = chars_of(name.as_str());
            let k = start_after(&v, '.', v.len());
            if k <= 1 {
                Some(name)
            } else {
                let e = text_of(&v, 0, k - 1);
                assert(e@ =~= name@.take(k - 1));
                Some(e)
            }
        },
    }
}

pub fn path_parent(path: &str) -> (r: Option<String>)
    ensures
        opt_text(r) == parent(path@),
{
    let v = chars_of(path);
    let j = end_of_component(&v, v.len());
    if j == 0 {
        return None;
    }
    let k = start_after(&v, '/', j);
    let e = end_of_component(&v, k);
    if e == 0 && k > 0 {
        let mut root = String::new();
        root.push('/');
        assert(root@ =~= seq!['/']);
        Some(root)
    } else {
        let p = text_of(&v, 0, e);
        assert(p@ =~= path@.take(e as int));
        Some(p)
    }
}

/// `path`, its parent, the parent of that, and so on to the end.
pub open spec fn ancestors(path: Seq<char>) -> Seq<Seq<char>>
    decreases path.len(),
{
    match parent(path) {
        Some(p) => if p.len() < path.len() {
            seq![path] + ancestors(p)
        } else {
            seq![path]
        },
        None => seq![path],
    }
}

pub fn path_ancestors(path: &str) -> (r: Vec<String>)
    ensures
        texts(r@) == ancestors(path@),
{
    let mut r: Vec<String> = Vec::new();
    let mut here = copy(path);
    assert(texts(r@) + ancestors(path@) =~= ancestors(path@));
    loop
        invariant
            texts(r@) + ancestors(here@) == ancestors(path@),
        decreases here@.len(),
    {
        let ghost r0 = texts(r@);
        proof {
            parent_is_shorter(here@);
        }
        let up = path_parent(here.as_str());
        r.push(here.clone());
        assert(texts(r@) =~= r0.push(here@));
        match up {
            None => {
                assert(texts(r@) =~= r0 + seq![here@]);
                return r;
            },
            Some(p) => {
                assert(r0 + (seq![here@] + ancestors(p@)) =~= texts(r@) + ancestors(p@));
                here = p;
            },
        }
    }
}

/// Whether `name` can name a file: not empty, without a separator, and none of the two names
/// that stand for directories.
pub open spec fn is_file_name(name: Seq<char>) -> bool {
    &&& name.len() > 0
    &&& forall|i: int| 0 <= i < name.len() ==> #[trigger] name[i] != '/'
    &&& name != seq!['.']
    &&& name != seq!['.', '.']
}

/// What is joined is taken apart again: a path made of a directory and a name ends in that name.
pub proof fn joined_paths_end_in_their_name(dir: Seq<char>, name: Seq<char>)
    requires
        is_file_name(name),
    ensures
        file_name(join_path(dir, name)) == Some(name),
        component_end(join_path(dir, name), join_path(dir, name).len() as int) == join_path(
            dir,
            name,
        ).len(),
        component_start(join_path(dir, name), join_path(dir, name).len() as int) == join_path(
            dir,
            name,
        ).len() - name.len(),
{
    let s = join_path(dir, name);
    let n = s.len() as int;
    let m = name.len() as int;
    assert(name[0] != '/');
    assert(s.skip(n - m) =~= name);
    assert forall|k: int| n - m <= k < n implies except('/')(#[trigger] s[k]) by {
        assert(s[k] == name[k - (n - m)]);
    }
    assert(s[n - 1] == name[m - 1]);
    if m >= 2 {
        assert(s[n - 2] == name[m - 2]);
    } else {
        if name[0] == '.' {
            assert(name =~= seq!['.']);
        }
    }
    assert(component_end(s, n) == n);
    if n - m > 0 {
        assert(s[n - m - 1] == '/');
    }
    lemma_run_back_is(s, except('/'), n, m as nat);
    assert(s.subrange(n - m, n) =~= name);
}

/// The parent of what lies in a directory is that directory, written without a separator or a
/// dot of its own at the end.
pub proof fn the_parent_is_the_directory(dir: Seq<char>, name: Seq<char>)
    requires
        is_file_name(name),
        dir.len() > 0,
        dir.last() != '/',
        !(dir.len() >= 2 && dir.last() == '.' && dir[dir.len() - 2] == '/'),
    ensures
        parent(join_path(dir, name)) == Some(dir),
{
    let s = join_path(dir, name);
    joined_paths_end_in_their_name(dir, name);
    assert(name[0] != '/');
    let k = dir.len() + 1;
    assert(s == dir.push('/') + name);
    assert(s[k - 1] == '/');
    assert(s[k - 2] == dir.last());
    if k >= 3 {
        assert(s[k - 3] == dir[dir.len() - 2]);
    }
    assert(component_end(s, k - 1) == k - 1);
    assert(component_end(s, k as int) == k - 1);
    assert(s.take(dir.len() as int) =~= dir);
}

/// A file name made of a stem, a dot and an ending without a dot has that stem and that ending.
pub proof fn stems_and_endings_are_told_apart(dir: Seq<char>, stem: Seq<char>, ending: Seq<char>)
    requires
        stem.len() > 0,
        forall|i: int| 0 <= i < stem.len() ==> #[trigger] stem[i] != '/',
        forall|i: int| 0 <= i < ending.len() ==> #[trigger] ending[i] != '/' && ending[i] != '.',
        ending.len() > 0,
    ensures
        file_stem(join_path(dir, stem.push('.') + ending)) == Some(stem),
        extension(join_path(dir, stem.push('.') + ending)) == Some(ending),
{
    let name = stem.push('.') + ending;
    let n = name.len() as int;
    let e = ending.len() as int;
    assert forall|i: int| 0 <= i < n implies #[trigger] name[i] != '/' by {
        if i < stem.len() {
            assert(name[i] == stem[i]);
        } else if i > stem.len() {
            assert(name[i] == ending[i - stem.len() - 1]);
        }
    }
    assert(name.last() == ending.last());
    assert(ending[e - 1] != '.');
    assert(n >= 3);
    assert(is_file_name(name));
    joined_paths_end_in_their_name(dir, name);
    assert forall|k: int| n - e <= k < n implies except('.')(#[trigger] name[k]) by {
        assert(name[k] == ending[k - (n - e)]);
    }
    assert(name[n - e - 1] == '.');
    lemma_run_back_is(name, except('.'), n, e as nat);
    assert(name.skip(n - e) =~= ending);
    assert(name.take(n - e - 1) =~= stem);
}

/// A path and the directories around it: the path comes first, behind each comes its parent, and
/// the last has none.
pub proof fn ancestors_go_from_parent_to_parent(path: Seq<char>, i: int)
    requires
        0 <= i < ancestors(path).len(),
    ensures
        ancestors(path)[0] == path,
        i + 1 < ancestors(path).len() ==> parent(ancestors(path)[i]) == Some(ancestors(path)[i + 1]),
        i + 1 == ancestors(path).len() ==> parent(ancestors(path)[i]) is None,
    decreases path.len(),
{
    parent_is_shorter(path);
    match parent(path) {
        Some(p) => {
            let rest = ancestors(p);
            assert(ancestors(path) == seq![path] + rest);
            assert(rest.len() > 0);
            ancestors_go_from_parent_to_parent(p, 0);
            if i > 0 {
                ancestors_go_from_parent_to_parent(p, i - 1);
                assert(ancestors(path)[i] == rest[i - 1]);
            }
            if i + 1 < ancestors(path).len() {
                assert(ancestors(path)[i + 1] == rest[i]);
            }
        },
        None => {},
    }
}

/// An absolute name stands for itself wherever it is joined; any other name stands behind the
/// directory, with one separator between them.
pub proof fn names_stand_below_their_directory(base: Seq<char>, name: Seq<char>)
    ensures
        name.len() > 0 && name[0] == '/' ==> join_path(base, name) == name,
        base.len() > 0 && base.last() != '/' && !(name.len() > 0 && name[0] == '/') ==> join_path(
            base,
            name,
        ) == base + seq!['/'] + name,
        base.len() > 0 && base.last() == '/' && !(name.len() > 0 && name[0] == '/') ==> join_path(
            base,
            name,
        ) == base + name,
{
    assert(base.push('/') + name =~= base + seq!['/'] + name);
}

} // verus!
