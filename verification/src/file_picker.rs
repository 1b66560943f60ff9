//! The picker for files that opens on `@`: which files it shows, and in what order.
use crate::command::Command;
use crate::sort::{
    Sortable, arranged, is_order_of, is_sorted_of, sorted, sorting_keeps_every_value, sorts_before,
};
use crate::text::{
    ascii_lowered, chars_of, contains, copy, found_place, has_prefix, has_text, lemma_contains,
    lemma_run_back, lower, lower_char, opt_text, run_back, same, starts_with, text_of,
};
use crate::text_map::{comes_before, text_less, texts_are_ordered};
use vstd::prelude::*;

verus! {

/// How many files the picker shows at most.
pub const PICKER_LIMIT: usize = 50;

/// How deep the tree of files is walked.
pub const MAX_WALK_DEPTH: usize = 10;

/// A file or a directory of the project. The path of a directory ends with a slash.
#[derive(Debug, PartialEq, Eq)]
pub struct FileEntry {
    pub path: String,
    pub is_dir: bool,
}

impl FileEntry {
    pub fn copied(&self) -> (r: FileEntry)
        ensures
            r == *self,
    {
        FileEntry { path: self.path.clone(), is_dir: self.is_dir }
    }
}

/// Directories come first, then the order of paths decides.
impl Sortable for FileEntry {
    open spec fn precedes(&self, other: &FileEntry) -> bool {
        (self.is_dir && !other.is_dir) || (self.is_dir == other.is_dir && text_less(
            self.path@,
            other.path@,
        ))
    }

    proof fn order_laws(a: &FileEntry, b: &FileEntry, c: &FileEntry) {
        texts_are_ordered(a.path@, b.path@, c.path@);
        texts_are_ordered(b.path@, c.path@, a.path@);
        texts_are_ordered(c.path@, a.path@, b.path@);
        texts_are_ordered(c.path@, b.path@, a.path@);
    }

    fn is_before(&self, other: &FileEntry) -> (r: bool) {
        (self.is_dir && !other.is_dir) || (self.is_dir == other.is_dir && comes_before(
            self.path.as_str(),
            other.path.as_str(),
        ))
    }
}

// ---------------------------------------------------------------------------
// Listing
// ---------------------------------------------------------------------------
/// The entry of something found at the path `rel` below the project: none for the project
/// itself.
pub open spec fn is_entry_of(e: FileEntry, rel: Seq<char>, is_dir: bool) -> bool {
    e.is_dir == is_dir && e.path@ == if is_dir {
        rel + "/"@
    } else {
        rel
    }
}

/// What was found, without the project itself.
pub open spec fn below_root(found: Seq<(String, bool)>) -> Seq<(String, bool)>
    decreases found.len(),
{
    if found.len() == 0 {
        Seq::empty()
    } else if found.last().0@.len() == 0 {
        below_root(found.drop_last())
    } else {
        below_root(found.drop_last()).push(found.last())
    }
}

/// Whether each of `entries` is the entry of what was found in its place.
pub open spec fn are_entries_of(entries: Seq<FileEntry>, found: Seq<(String, bool)>) -> bool {
    entries.len() == found.len() && forall|i: int|
        0 <= i < entries.len() ==> is_entry_of(#[trigger] entries[i], found[i].0@, found[i].1)
}

/// The entries of what was found below a project, as paths relative to it with whether each is
/// a directory: directories first, then in the order of their paths.
pub fn walk_files(found: &Vec<(String, bool)>) -> (r: Vec<FileEntry>)
    ensures
        exists|u: Seq<FileEntry>|
            #[trigger] are_entries_of(u, below_root(found@)) && is_sorted_of(r@, u),
{
    let mut entries: Vec<FileEntry> = Vec::new();
    let mut i: usize = 0;
    assert(found@.take(0) =~= Seq::empty());
    while i < found.len()
        invariant
            i <= found@.len(),
            are_entries_of(entries@, below_root(found@.take(i as int))),
        decreases found@.len() - i,
    {
        let f = &found[i];
        proof {
            let t = found@.take(i + 1);
            assert(t.drop_last() =~= found@.take(i as int));
            assert(t.last() == *f);
        }
        if !f.0.as_str().is_empty() {
            let mut path = f.0.clone();
            if f.1 {
                path.append("/");
            }
            entries.push(FileEntry { path, is_dir: f.1 });
        }
        i += 1;
    }
    assert(found@.take(i as int) =~= found@);
    let ghost u = entries@;
    let r = sorted(entries);
    assert(are_entries_of(u, below_root(found@)));
    r
}

/// The files of the project, as long as the directory stays the same.
pub struct FileListCache {
    pub entries: Option<Vec<FileEntry>>,
    pub built_for_cwd: Option<String>,
}

impl FileListCache {
    pub fn new() -> (r: FileListCache)
        ensures
            r.entries is None,
            r.built_for_cwd is None,
    {
        FileListCache { entries: None, built_for_cwd: None }
    }

    /// The files of the directory `cwd`, where they were listed for it.
    pub fn get(&self, cwd: &str) -> (r: Option<&Vec<FileEntry>>)
        ensures
            (r is Some) == (opt_text(self.built_for_cwd) == Some(cwd@) && self.entries is Some),
            r matches Some(v) ==> self.entries == Some(*v),
    {
        match &self.built_for_cwd {
            Some(dir) => if same(dir.as_str(), cwd) {
                self.entries.as_ref()
            } else {
                None
            },
            None => None,
        }
    }

    /// Keeps the files of the directory `cwd`.
    pub fn put(&mut self, cwd: &str, entries: Vec<FileEntry>)
        ensures
            final(self).entries == Some(entries),
            opt_text(final(self).built_for_cwd) == Some(cwd@),
    {
        self.entries = Some(entries);
        self.built_for_cwd = Some(copy(cwd));
    }
}

// ---------------------------------------------------------------------------
// Filtering
// ---------------------------------------------------------------------------
/// Whether a path holds the filter, but for letter case.
pub open spec fn path_matches(path: Seq<char>, filter: Seq<char>) -> bool {
    filter.len() == 0 || contains(lower(path), lower(filter))
}

/// Whether a path holds the filter, but for letter case.
pub fn matches_filter(entry: &str, filter: &str) -> (r: bool)
    ensures
        r == path_matches(entry@, filter@),
{
    if filter.is_empty() {
        return true;
    }
    let path = ascii_lowered(entry);
    let f = ascii_lowered(filter);
    has_text(path.as_str(), f.as_str())
}

/// Everything but separators.
pub open spec fn no_separator() -> spec_fn(char) -> bool {
    |c: char| c != '/' && c != '\\'
}

/// The part of a path behind its last separator.
pub open spec fn name_part(path: Seq<char>) -> Seq<char> {
    path.skip(path.len() - run_back(path, no_separator(), path.len() as int))
}

/// How well the filter fits the name in a path: it is the name, starts it, or stands in it.
pub open spec fn name_score(path: Seq<char>, filter: Seq<char>) -> u8 {
    let name = lower(name_part(path));
    let f = lower(filter);
    if name == f {
        3
    } else if starts_with(name, f) {
        2
    } else if contains(name, f) {
        1
    } else {
        0
    }
}

fn last_name(path: &str) -> (r: String)
    ensures
        r@ == name_part(path@),
{
    let v = chars_of(path);
    let mut k: usize = v.len();
    while k > 0 && v[k - 1] != '/' && v[k - 1] != '\\'
        invariant
            k <= v@.len(),
            k - run_back(v@, no_separator(), k as int) == v@.len() - run_back(
                v@,
                no_separator(),
                v@.len() as int,
            ),
        decreases k,
    {
        k -= 1;
    }
    let r = text_of(&v, k, v.len());
    assert(r@ =~= path@.skip(k as int));
    r
}

/// How well the filter fits the name in a path, but for letter case: 3 where it is the name, 2
/// where it starts it, 1 where it stands in it, else 0.
pub fn filename_match_score(path: &str, filter: &str) -> (r: u8)
    ensures
        r == name_score(path@, filter@),
{
    let last = last_name(path);
    let name = ascii_lowered(last.as_str());
    let f = ascii_lowered(filter);
    if same(name.as_str(), f.as_str()) {
        3
    } else if has_prefix(name.as_str(), f.as_str()) {
        2
    } else if has_text(name.as_str(), f.as_str()) {
        1
    } else {
        0
    }
}

/// An entry with how well it fits.
pub struct ScoredEntry {
    pub score: u8,
    pub entry: FileEntry,
}

/// What fits better comes first, then the order of paths decides.
impl Sortable for ScoredEntry {
    open spec fn precedes(&self, other: &ScoredEntry) -> bool {
        self.score > other.score || (self.score == other.score && text_less(
            self.entry.path@,
            other.entry.path@,
        ))
    }

    proof fn order_laws(a: &ScoredEntry, b: &ScoredEntry, c: &ScoredEntry) {
        texts_are_ordered(a.entry.path@, b.entry.path@, c.entry.path@);
        texts_are_ordered(b.entry.path@, c.entry.path@, a.entry.path@);
        texts_are_ordered(c.entry.path@, a.entry.path@, b.entry.path@);
        texts_are_ordered(c.entry.path@, b.entry.path@, a.entry.path@);
    }

    fn is_before(&self, other: &ScoredEntry) -> (r: bool) {
        self.score > other.score || (self.score == other.score && comes_before(
            self.entry.path.as_str(),
            other.entry.path.as_str(),
        ))
    }
}

/// The entries that hold the filter, each with how well it fits.
pub open spec fn scored(all: Seq<FileEntry>, filter: Seq<char>) -> Seq<ScoredEntry>
    decreases all.len(),
{
    if all.len() == 0 {
        Seq::empty()
    } else {
        let e = all.last();
        let before = scored(all.drop_last(), filter);
        if path_matches(e.path@, filter) {
            before.push(ScoredEntry { score: name_score(e.path@, filter), entry: e })
        } else {
            before
        }
    }
}

/// Whether `r` holds the first `limit` entries of `s`.
pub open spec fn are_first(r: Seq<FileEntry>, s: Seq<ScoredEntry>, limit: int) -> bool {
    &&& r.len() == if s.len() <= limit {
        s.len() as int
    } else {
        limit
    }
    &&& forall|i: int| 0 <= i < r.len() ==> #[trigger] r[i] == s[i].entry
}

/// The entries that hold the filter, those that it fits best first, and no more than `limit`.
pub fn filter_entries(all: &Vec<FileEntry>, filter: &str, limit: usize) -> (r: Vec<FileEntry>)
    ensures
        exists|s: Seq<ScoredEntry>|
            #[trigger] is_sorted_of(s, scored(all@, filter@)) && are_first(r@, s, limit as int),
{
    let mut found: Vec<ScoredEntry> = Vec::new();
    let mut i: usize = 0;
    assert(all@.take(0) =~= Seq::empty());
    while i < all.len()
        invariant
            i <= all@.len(),
            found@ == scored(all@.take(i as int), filter@),
        decreases all@.len() - i,
    {
        let e = &all[i];
        proof {
            let t = all@.take(i + 1);
            assert(t.drop_last() =~= all@.take(i as int));
            assert(t.last() == *e);
        }
        if matches_filter(e.path.as_str(), filter) {
            let score = filename_match_score(e.path.as_str(), filter);
            found.push(ScoredEntry { score, entry: e.copied() });
        }
        i += 1;
    }
    assert(all@.take(i as int) =~= all@);
    let s = sorted(found);
    let mut r: Vec<FileEntry> = Vec::new();
    let mut k: usize = 0;
    while k < s.len() && k < limit
        invariant
            k <= s@.len(),
            k <= limit,
            r@.len() == k,
            forall|j: int| 0 <= j < k ==> #[trigger] r@[j] == s@[j].entry,
        decreases s@.len() - k,
    {
        r.push(s[k].entry.copied());
        k += 1;
    }
    assert(are_first(r@, s@, limit as int));
    r
}

proof fn lemma_scores(all: Seq<FileEntry>, filter: Seq<char>)
    ensures
        forall|i: int|
            0 <= i < scored(all, filter).len() ==> (#[trigger] scored(all, filter)[i]).score
                == name_score(scored(all, filter)[i].entry.path@, filter),
        forall|k: int|
            0 <= k < all.len() && path_matches((#[trigger] all[k]).path@, filter) ==> scored(
                all,
                filter,
            ).contains(
                (ScoredEntry { score: name_score(all[k].path@, filter), entry: all[k] }),
            ),
    decreases all.len(),
{
    if all.len() > 0 {
        let before = scored(all.drop_last(), filter);
        let now = scored(all, filter);
        lemma_scores(all.drop_last(), filter);
        assert forall|i: int| 0 <= i < now.len() implies (#[trigger] now[i]).score == name_score(
            now[i].entry.path@,
            filter,
        ) by {
            if i < before.len() {
                assert(now[i] == before[i]);
            }
        }
        assert forall|k: int|
            0 <= k < all.len() && path_matches(
                (#[trigger] all[k]).path@,
                filter,
            ) implies now.contains(
            (ScoredEntry { score: name_score(all[k].path@, filter), entry: all[k] }),
        ) by {
            let want = ScoredEntry { score: name_score(all[k].path@, filter), entry: all[k] };
            if k < all.len() - 1 {
                assert(all.drop_last()[k] == all[k]);
                assert(before.contains(want));
                let i = choose|i: int| 0 <= i < before.len() && before[i] == want;
                assert(now[i] == want);
            } else {
                assert(now[now.len() - 1] == want);
            }
        }
    }
}

/// However many entries hold the filter and in whatever order they come, the first one shown
/// fits at least as well as every other.
pub proof fn the_best_match_comes_first(
    all: Seq<FileEntry>,
    filter: Seq<char>,
    s: Seq<ScoredEntry>,
    r: Seq<FileEntry>,
    limit: int,
    k: int,
)
    requires
        limit > 0,
        is_sorted_of(s, scored(all, filter)),
        are_first(r, s, limit),
        0 <= k < all.len(),
        path_matches(all[k].path@, filter),
    ensures
        r.len() > 0,
        name_score(r[0].path@, filter) >= name_score(all[k].path@, filter),
{
    lemma_scores(all, filter);
    let u = scored(all, filter);
    let want = ScoredEntry { score: name_score(all[k].path@, filter), entry: all[k] };
    assert(u.contains(want));
    let j = choose|j: int| 0 <= j < u.len() && u[j] == want;
    let p = choose|p: Seq<int>| #[trigger] is_order_of(p, u) && s == arranged(u, p);
    assert(p.contains(j));
    let i = choose|i: int| 0 <= i < p.len() && p[i] == j;
    assert(s[i] == want);
    assert(s[0] == u[p[0]]);
    assert(r[0] == s[0].entry);
    if i > 0 {
        assert(sorts_before(u, p[0], p[i]));
    }
}

// ---------------------------------------------------------------------------
// The picker
// ---------------------------------------------------------------------------
/// The state of the open picker.
pub struct FilePicker {
    pub filter: String,
    pub entries: Vec<FileEntry>,
    pub selected: usize,
    pub scroll: usize,
}

/// How the picker was closed.
#[derive(Clone, Copy, Debug, PartialEq, Eq, Structural)]
pub enum PickerAction {
    Accepted,
    Cancelled,
}

/// What a command comes to.
#[derive(Debug, PartialEq, Eq)]
pub enum FilePickerStep {
    /// Nothing, not even a redraw.
    Ignore,
    /// The picker is drawn anew.
    Redraw,
    /// The selection moves.
    Move(i32),
    /// The picker was closed and this path goes into the line.
    Insert(String),
    /// The picker was closed with nothing picked.
    Cancelled,
}

/// What a command comes to. A filter opens the picker, or shows other files in it from the
/// top; accepting takes the selected file, if there is one.
pub fn dispatch(picker: &mut Option<FilePicker>, all: &Vec<FileEntry>, command: &Command) -> (r:
    FilePickerStep)
    ensures
        match *command {
            Command::FilePickerFilter(filter) => r is Redraw && (*final(picker) matches Some(p)
                && p.filter == filter && p.selected == 0 && p.scroll == 0 && exists|
                s: Seq<ScoredEntry>,
            |
                #[trigger] is_sorted_of(s, scored(all@, filter@)) && are_first(
                    p.entries@,
                    s,
                    PICKER_LIMIT as int,
                )),
            Command::SelectMove(delta) => *final(picker) == *old(picker) && r == (if *old(
                picker) is Some {
                FilePickerStep::Move(delta)
            } else {
                FilePickerStep::Redraw
            }),
            Command::FilePickerAccept => *final(picker) is None && (match *old(picker) {
                Some(p) => if p.selected < p.entries@.len() {
                    r == FilePickerStep::Insert(p.entries@[p.selected as int].path)
                } else {
                    r is Cancelled
                },
                None => r is Cancelled,
            }),
            Command::FilePickerClose => *final(picker) is None && r == (if *old(picker) is Some {
                FilePickerStep::Cancelled
            } else {
                FilePickerStep::Ignore
            }),
            _ => *final(picker) == *old(picker) && r is Redraw,
        },
{
    match command {
        Command::FilePickerFilter(filter) => {
            let entries = filter_entries(all, filter.as_str(), PICKER_LIMIT);
            *picker = Some(FilePicker { filter: filter.clone(), entries, selected: 0, scroll: 0 });
            FilePickerStep::Redraw
        },
        Command::SelectMove(delta) => if picker.is_some() {
            FilePickerStep::Move(*delta)
        } else {
            FilePickerStep::Redraw
        },
        Command::FilePickerAccept => {
            let open = picker.take();
            match open {
                Some(p) => if p.selected < p.entries.len() {
                    FilePickerStep::Insert(p.entries[p.selected].path.clone())
                } else {
                    FilePickerStep::Cancelled
                },
                None => FilePickerStep::Cancelled,
            }
        },
        Command::FilePickerClose => {
            let open = picker.take();
            if open.is_some() {
                FilePickerStep::Cancelled
            } else {
                FilePickerStep::Ignore
            }
        },
        _ => FilePickerStep::Redraw,
    }
}

impl FilePickerStep {
    /// How the picker was closed, where it was.
    pub fn action(&self) -> (r: Option<PickerAction>)
        ensures
            r == (match *self {
                FilePickerStep::Insert(_) => Some(PickerAction::Accepted),
                FilePickerStep::Cancelled => Some(PickerAction::Cancelled),
                _ => None,
            }),
    {
        match self {
            FilePickerStep::Insert(_) => Some(PickerAction::Accepted),
            FilePickerStep::Cancelled => Some(PickerAction::Cancelled),
            _ => None,
        }
    }
}

/// A path is offered for every part of it that is typed, in whatever letter case: directories
/// and separators count as much as names.
pub proof fn paths_match_their_parts(path: Seq<char>, a: int, b: int, filter: Seq<char>)
    requires
        0 <= a <= b <= path.len(),
        filter.len() == b - a,
        forall|k: int|
            0 <= k < filter.len() ==> lower_char(#[trigger] filter[k]) == lower_char(path[a + k]),
    ensures
        path_matches(path, filter),
        path_matches(path, path.subrange(a, b)),
{
    assert(lower(path).subrange(a, a + filter.len()) =~= lower(filter));
    assert(lower(path.subrange(a, b)) =~= lower(filter));
    lemma_contains(lower(path), lower(filter), a);
}

/// A path that does not hold the filter is not offered: where one is, the filter stands in it
/// at some place but for letter case.
pub proof fn offered_paths_hold_the_filter(path: Seq<char>, filter: Seq<char>) -> (at: int)
    requires
        path_matches(path, filter),
    ensures
        0 <= at <= path.len() - filter.len(),
        forall|k: int|
            0 <= k < filter.len() ==> lower_char(#[trigger] filter[k]) == lower_char(path[at + k]),
{
    if filter.len() == 0 {
        0
    } else {
        let at = found_place(lower(path), lower(filter));
        assert forall|k: int| 0 <= k < filter.len() implies lower_char(#[trigger] filter[k])
            == lower_char(path[at + k]) by {
            assert(lower(path).subrange(at, at + filter.len())[k] == lower(filter)[k]);
        }
        at
    }
}

/// The name in a path is its end, reaches back to a separator or to the start, and holds none.
pub proof fn names_stand_behind_the_last_separator(path: Seq<char>)
    ensures
        ({
            let start = path.len() - name_part(path).len();
            &&& 0 <= start
            &&& name_part(path) == path.skip(start)
            &&& start > 0 ==> path[start - 1] == '/' || path[start - 1] == '\\'
            &&& forall|k: int|
                start <= k < path.len() ==> #[trigger] path[k] != '/' && path[k] != '\\'
        }),
{
    lemma_run_back(path, no_separator(), path.len() as int);
}

/// A filter that is the name fits best, one that starts it fits better than one that stands
/// elsewhere in it, and one that stands in the directories only fits least.
pub proof fn better_fits_score_higher(path: Seq<char>, filter: Seq<char>)
    ensures
        lower(name_part(path)) == lower(filter) <==> name_score(path, filter) == 3,
        starts_with(lower(name_part(path)), lower(filter)) <==> name_score(path, filter) >= 2,
        contains(lower(name_part(path)), lower(filter)) <==> name_score(path, filter) >= 1,
{
    let name = lower(name_part(path));
    let f = lower(filter);
    if starts_with(name, f) {
        assert(name.subrange(0, f.len() as int) =~= f);
        lemma_contains(name, f, 0);
    }
    if name == f {
        assert(name.take(f.len() as int) =~= f);
    }
}

/// What is shown is part of the project and holds the filter, and nothing that holds it is left
/// out while there is room.
pub proof fn everything_that_matches_is_shown(
    all: Seq<FileEntry>,
    filter: Seq<char>,
    s: Seq<ScoredEntry>,
    r: Seq<FileEntry>,
    limit: int,
    k: int,
)
    requires
        0 <= limit,
        is_sorted_of(s, scored(all, filter)),
        are_first(r, s, limit),
        0 <= k < all.len(),
    ensures
        r.len() <= limit,
        r.len() < limit && path_matches(all[k].path@, filter) ==> r.contains(all[k]),
        forall|i: int|
            0 <= i < r.len() ==> all.contains(#[trigger] r[i]) && path_matches(r[i].path@, filter),
{
    lemma_scores(all, filter);
    lemma_scored_come_from(all, filter);
    sorting_keeps_every_value(s, scored(all, filter));
    if r.len() < limit && path_matches(all[k].path@, filter) {
        let e = ScoredEntry { score: name_score(all[k].path@, filter), entry: all[k] };
        assert(s.contains(e));
        let j = choose|j: int| 0 <= j < s.len() && s[j] == e;
        assert(r[j] == all[k]);
    }
    assert forall|i: int| 0 <= i < r.len() implies all.contains(#[trigger] r[i]) && path_matches(
        r[i].path@,
        filter,
    ) by {
        assert(s.contains(s[i]));
        assert(scored(all, filter).contains(s[i]));
    }
}

proof fn lemma_scored_come_from(all: Seq<FileEntry>, filter: Seq<char>)
    ensures
        forall|i: int|
            0 <= i < scored(all, filter).len() ==> all.contains(
                (#[trigger] scored(all, filter)[i]).entry,
            ) && path_matches(scored(all, filter)[i].entry.path@, filter),
    decreases all.len(),
{
    if all.len() > 0 {
        let rest = all.drop_last();
        lemma_scored_come_from(rest, filter);
        assert forall|i: int| 0 <= i < scored(all, filter).len() implies all.contains(
            (#[trigger] scored(all, filter)[i]).entry,
        ) && path_matches(scored(all, filter)[i].entry.path@, filter) by {
            let e = scored(all, filter)[i];
            if i < scored(rest, filter).len() {
                assert(e == scored(rest, filter)[i]);
                let j = choose|j: int| 0 <= j < rest.len() && rest[j] == e.entry;
                assert(all[j] == e.entry);
            } else {
                assert(all[all.len() - 1] == e.entry);
            }
        }
    }
}

/// Everything found below the project is listed, and nothing else: one more thing found is one
/// more entry, unless it is the project itself.
pub proof fn everything_found_is_listed(found: Seq<(String, bool)>, f: (String, bool))
    ensures
        below_root(found.push(f)) == if f.0@.len() > 0 {
            below_root(found).push(f)
        } else {
            below_root(found)
        },
{
    assert(found.push(f).drop_last() =~= found);
}

/// Among the files of a project the directories come first, and each kind in the order of paths.
pub proof fn directories_come_first(r: Seq<FileEntry>, u: Seq<FileEntry>, i: int, j: int)
    requires
        is_sorted_of(r, u),
        0 <= i < j < r.len(),
    ensures
        r[j].is_dir ==> r[i].is_dir,
        r[i].is_dir == r[j].is_dir ==> !text_less(r[j].path@, r[i].path@),
{
    sorting_keeps_every_value(r, u);
    assert(!r[j].precedes(&r[i]));
}

/// Each thing that was found has its entry in the list, a directory under its path and a slash,
/// and a file under its path.
pub proof fn found_things_are_listed_by_path(
    r: Seq<FileEntry>,
    u: Seq<FileEntry>,
    found: Seq<(String, bool)>,
    k: int,
) -> (i: int)
    requires
        are_entries_of(u, found),
        is_sorted_of(r, u),
        0 <= k < found.len(),
    ensures
        0 <= i < r.len(),
        r.len() == found.len(),
        r[i].is_dir == found[k].1,
        found[k].1 ==> r[i].path@ == found[k].0@ + "/"@,
        !found[k].1 ==> r[i].path@ == found[k].0@,
{
    sorting_keeps_every_value(r, u);
    assert(u.contains(u[k]));
    let i = choose|i: int| 0 <= i < r.len() && r[i] == u[k];
    assert(is_entry_of(u[k], found[k].0@, found[k].1));
    i
}

/// What fits the filter better is shown before what fits it less, and among equals the order of
/// paths decides.
pub proof fn better_fits_come_first(
    all: Seq<FileEntry>,
    filter: Seq<char>,
    s: Seq<ScoredEntry>,
    r: Seq<FileEntry>,
    limit: int,
    i: int,
    j: int,
)
    requires
        is_sorted_of(s, scored(all, filter)),
        are_first(r, s, limit),
        0 <= i < j < r.len(),
    ensures
        name_score(r[i].path@, filter) >= name_score(r[j].path@, filter),
        name_score(r[i].path@, filter) == name_score(r[j].path@, filter) ==> !text_less(
            r[j].path@,
            r[i].path@,
        ),
{
    sorting_keeps_every_value(s, scored(all, filter));
    lemma_scores(all, filter);
    assert(!s[j].precedes(&s[i]));
    assert(s.contains(s[i]) && s.contains(s[j]));
    assert(scored(all, filter).contains(s[i]) && scored(all, filter).contains(s[j]));
}

/// Whether a path is offered for a filter: it is for each part of it that is typed.
pub proof fn filters_find_every_part(entry: &str, filter: &str, r: bool, a: int)
    requires
        call_ensures(matches_filter, (entry, filter), r),
        0 <= a,
        a + filter@.len() <= entry@.len(),
        forall|k: int|
            0 <= k < filter@.len() ==> lower_char(#[trigger] filter@[k]) == lower_char(entry@[a + k]),
    ensures
        r,
{
    paths_match_their_parts(entry@, a, a + filter@.len(), filter@);
}

/// The entries that are shown for a filter hold it and belong to the project, and while there is
/// room every entry that holds it is shown.
pub proof fn filtered_entries_hold_the_filter(
    all: Vec<FileEntry>,
    filter: &str,
    limit: usize,
    r: Vec<FileEntry>,
    k: int,
)
    requires
        call_ensures(filter_entries, (&all, filter, limit), r),
        0 <= k < all@.len(),
    ensures
        r@.len() <= limit,
        r@.len() < limit && path_matches(all@[k].path@, filter@) ==> r@.contains(all@[k]),
        forall|i: int|
            0 <= i < r@.len() ==> all@.contains(#[trigger] r@[i]) && path_matches(
                r@[i].path@,
                filter@,
            ),
{
    let s = choose|s: Seq<ScoredEntry>|
        #[trigger] is_sorted_of(s, scored(all@, filter@)) && are_first(r@, s, limit as int);
    everything_that_matches_is_shown(all@, filter@, s, r@, limit as int, k);
}

/// The files of a directory are kept for that directory and for no other.
pub proof fn listed_files_are_kept(cache: FileListCache, cwd: &str, r: Option<&Vec<FileEntry>>)
    requires
        call_ensures(FileListCache::get, (&cache, cwd), r),
    ensures
        opt_text(cache.built_for_cwd) == Some(cwd@) ==> (cache.entries matches Some(e) ==> (
        r matches Some(v) && *v == e)),
        opt_text(cache.built_for_cwd) != Some(cwd@) ==> r is None,
{
}

/// In the file picker, a filter shows what holds it, from the top; accepting puts the path of the
/// selected file, whole, into the line and closes the picker; closing it inserts nothing.
pub proof fn selected_files_are_inserted(
    filtered: &mut Option<FilePicker>,
    accepted: &mut Option<FilePicker>,
    closed: &mut Option<FilePicker>,
    all: Vec<FileEntry>,
    filter: String,
    on_filter: FilePickerStep,
    on_accept: FilePickerStep,
    on_close: FilePickerStep,
    i: int,
)
    requires
        call_ensures(
            dispatch,
            (filtered, &all, &Command::FilePickerFilter(filter)),
            on_filter,
        ),
        call_ensures(dispatch, (accepted, &all, &Command::FilePickerAccept), on_accept),
        call_ensures(dispatch, (closed, &all, &Command::FilePickerClose), on_close),
    ensures
        *final(filtered) matches Some(p) && p.filter == filter && p.selected == 0
            && p.entries@.len() <= 50 && (0 <= i < p.entries@.len() ==> path_matches(
            p.entries@[i].path@,
            filter@,
        ) && all@.contains(p.entries@[i])),
        0 <= i < all@.len() && path_matches(all@[i].path@, filter@) ==> (
        *final(filtered) matches Some(p) && (p.entries@.len() < 50 ==> p.entries@.contains(
            all@[i],
        ))),
        *old(accepted) matches Some(p) ==> (p.selected < p.entries@.len() ==> on_accept
            == FilePickerStep::Insert(p.entries@[p.selected as int].path)),
        *final(accepted) is None,
        *final(closed) is None,
        !(on_close is Insert),
{
    let p = (*final(filtered))->0;
    let s = choose|s: Seq<ScoredEntry>|
        #[trigger] is_sorted_of(s, scored(all@, filter@)) && are_first(p.entries@, s, 50);
    if all@.len() > 0 {
        let k: int = if 0 <= i < all@.len() {
            i
        } else {
            0
        };
        everything_that_matches_is_shown(all@, filter@, s, p.entries@, 50, k);
    } else {
        sorting_keeps_every_value(s, scored(all@, filter@));
    }
}

/// Files that were put for a directory are given for it, until others are put.
pub proof fn put_files_are_given(
    cache: &mut FileListCache,
    cwd: &str,
    entries: Vec<FileEntry>,
    r: Option<&Vec<FileEntry>>,
)
    requires
        call_ensures(FileListCache::put, (cache, cwd, entries), ()),
        call_ensures(FileListCache::get, (&*final(cache), cwd), r),
    ensures
        r matches Some(v) && *v == entries,
{
}

} // verus!
