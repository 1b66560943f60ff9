//! What the main agent is working on: the plan or review that drives it, and its todo list.
//! Both are shown to the agent anew on every turn.
use crate::file_path::{join_path, joined_path};
use crate::text::{
    ascii_lower_char, chars_of, contains, copy, decimal, decimal_text, is_ascii_alnum,
    is_ascii_lower, is_digit, is_space, lemma_contains, lemma_run, lemma_run_back, lines, lines_of,
    lower, lower_char, only, opt_text, run, spaces, starts_with, texts, trim, trim_end,
    trim_end_char, trim_start_char, trimmed, trimmed_end, trimmed_end_char, trimmed_start_char,
    trimming_takes_white_space_only,
};
use vstd::prelude::*;

verus! {

/// Which kind of report drives the work.
#[derive(Clone, Copy, Debug, PartialEq, Eq, Structural)]
pub enum SourceKind {
    Plan,
    Review,
}

impl SourceKind {
    pub open spec fn label_text(self) -> Seq<char> {
        match self {
            SourceKind::Plan => "plan"@,
            SourceKind::Review => "review"@,
        }
    }

    pub open spec fn subdir_text(self) -> Seq<char> {
        match self {
            SourceKind::Plan => "plans"@,
            SourceKind::Review => "reviews"@,
        }
    }

    pub fn label(self) -> (r: &'static str)
        ensures
            r@ == self.label_text(),
    {
        match self {
            SourceKind::Plan => "plan",
            SourceKind::Review => "review",
        }
    }

    /// The directory of such reports below the session's directory.
    pub fn subdir(self) -> (r: &'static str)
        ensures
            r@ == self.subdir_text(),
    {
        match self {
            SourceKind::Plan => "plans",
            SourceKind::Review => "reviews",
        }
    }
}

/// The report that drives the work; its path is relative to the session's directory.
#[derive(Debug, PartialEq, Eq)]
pub struct ReportRef {
    pub kind: SourceKind,
    pub path: String,
}

/// How far a todo item is.
#[derive(Clone, Copy, Debug, PartialEq, Eq, Structural)]
pub enum TodoStatus {
    Pending,
    InProgress,
    Done,
}

impl Default for TodoStatus {
    fn default() -> (r: TodoStatus)
        ensures
            r == TodoStatus::Pending,
    {
        TodoStatus::Pending
    }
}

impl TodoStatus {
    pub open spec fn marker_text(self) -> Seq<char> {
        match self {
            TodoStatus::Pending => "[ ]"@,
            TodoStatus::InProgress => "[~]"@,
            TodoStatus::Done => "[x]"@,
        }
    }

    pub fn marker(self) -> (r: &'static str)
        ensures
            r@ == self.marker_text(),
    {
        match self {
            TodoStatus::Pending => "[ ]",
            TodoStatus::InProgress => "[~]",
            TodoStatus::Done => "[x]",
        }
    }
}

/// A todo item under its number, which counts from one.
#[derive(Debug, PartialEq, Eq)]
pub struct TodoItem {
    pub id: u32,
    pub text: String,
    pub status: TodoStatus,
}

/// A todo item as the agent gives it.
pub struct TodoArg {
    pub text: String,
    pub status: TodoStatus,
}

#[derive(Debug, PartialEq, Eq)]
pub struct TrackerState {
    pub source: Option<ReportRef>,
    pub todos: Vec<TodoItem>,
}

impl Default for TrackerState {
    fn default() -> (r: TrackerState)
        ensures
            r.source is None,
            r.todos@.len() == 0,
    {
        TrackerState { source: None, todos: Vec::new() }
    }
}

// ---------------------------------------------------------------------------
// The reminder
// ---------------------------------------------------------------------------
/// A todo item on a line.
pub open spec fn todo_line(item: TodoItem) -> Seq<char> {
    item.status.marker_text() + " "@ + decimal(item.id as nat) + ". "@ + item.text@ + "\n"@
}

pub open spec fn todo_lines(todos: Seq<TodoItem>) -> Seq<char>
    decreases todos.len(),
{
    if todos.len() == 0 {
        Seq::empty()
    } else {
        todo_lines(todos.drop_last()) + todo_line(todos.last())
    }
}

/// The part of the reminder on the report.
pub open spec fn source_text(session_dir: Seq<char>, source: Option<ReportRef>) -> Seq<char> {
    match source {
        Some(r) => "## Active "@ + r.kind.label_text() + "\nSource file: "@ + join_path(
            session_dir,
            r.path@,
        ) + " - re-read it with ReadFile for full detail.\n"@,
        None => Seq::empty(),
    }
}

/// The part of the reminder on the todo list.
pub open spec fn todos_text(todos: Seq<TodoItem>) -> Seq<char> {
    if todos.len() == 0 {
        Seq::empty()
    } else {
        "\n## Todo list (work through these; do not start unrelated work until every item is done)\n"@
            + todo_lines(todos)
    }
}

/// The reminder: nothing where there is neither a report nor a todo item.
pub open spec fn reminder(session_dir: Seq<char>, state: TrackerState) -> Option<Seq<char>> {
    if state.source is None && state.todos@.len() == 0 {
        None
    } else {
        Some(trim_end(source_text(session_dir, state.source) + todos_text(state.todos@)))
    }
}

/// The reminder of what the agent is working on.
pub fn render_state(session_dir: &str, state: &TrackerState) -> (r: Option<String>)
    ensures
        opt_text(r) == reminder(session_dir@, *state),
{
    if state.source.is_none() && state.todos.len() == 0 {
        return None;
    }
    let mut out = String::new();
    match &state.source {
        Some(src) => {
            out = copy("## Active ");
            out.append(src.kind.label());
            out.append("\nSource file: ");
            let file = joined_path(session_dir, src.path.as_str());
            out.append(file.as_str());
            out.append(" - re-read it with ReadFile for full detail.\n");
        },
        None => {},
    }
    let ghost head = out@;
    assert(head == source_text(session_dir@, state.source));
    if state.todos.len() > 0 {
        let mut list = copy(
            "\n## Todo list (work through these; do not start unrelated work until every item is done)\n",
        );
        let ghost heading = list@;
        let mut i: usize = 0;
        assert(state.todos@.take(0) =~= Seq::empty());
        assert(list@ =~= heading + todo_lines(state.todos@.take(0)));
        while i < state.todos.len()
            invariant
                i <= state.todos@.len(),
                list@ == heading + todo_lines(state.todos@.take(i as int)),
            decreases state.todos@.len() - i,
        {
            let item = &state.todos[i];
            let mut line = copy(item.status.marker());
            line.append(" ");
            let n = decimal_text(item.id as u64);
            line.append(n.as_str());
            line.append(". ");
            line.append(item.text.as_str());
            line.append("\n");
            list.append(line.as_str());
            proof {
                let t = state.todos@.take(i + 1);
                assert(t.drop_last() =~= state.todos@.take(i as int));
                assert(t.last() == item);
                assert(list@ =~= heading + todo_lines(t));
            }
            i += 1;
        }
        assert(state.todos@.take(i as int) =~= state.todos@);
        out.append(list.as_str());
    } else {
        assert(head + todos_text(state.todos@) =~= head);
    }
    Some(trimmed_end(out.as_str()))
}

/// There is a reminder if and only if there is a report or a todo item, and it is not empty.
pub proof fn reminders_are_never_empty(session_dir: Seq<char>, state: TrackerState)
    ensures
        reminder(session_dir, state) is None <==> (state.source is None && state.todos@.len() == 0),
        reminder(session_dir, state) matches Some(t) ==> t.len() > 0,
{
    reveal_strlit("## Active ");
    reveal_strlit(
        "\n## Todo list (work through these; do not start unrelated work until every item is done)\n",
    );
    let t = source_text(session_dir, state.source) + todos_text(state.todos@);
    if state.source is Some {
        assert(t[0] == '#');
        lemma_trim_end_keeps(t, 0);
    } else if state.todos@.len() > 0 {
        assert(t[1] == '#');
        lemma_trim_end_keeps(t, 1);
    }
}

proof fn lemma_trim_end_keeps(t: Seq<char>, i: int)
    requires
        0 <= i < t.len(),
        !is_space(t[i]),
    ensures
        trim_end(t).len() > i,
{
    lemma_run_back(t, spaces(), t.len() as int);
    if trim_end(t).len() <= i {
        assert(spaces()(t[i]));
    }
}

// ---------------------------------------------------------------------------
// Names of report files
// ---------------------------------------------------------------------------
/// A line without the marks of a heading and without white space around it.
pub open spec fn title_of(line: Seq<char>) -> Seq<char> {
    trim(trim_start_char(line, '#'))
}

/// The first title from line `i` on that is not empty.
pub open spec fn title_from(ls: Seq<Seq<char>>, i: int) -> Seq<char>
    decreases ls.len() - i,
{
    if i < 0 || i >= ls.len() {
        ""@
    } else if title_of(ls[i]).len() > 0 {
        title_of(ls[i])
    } else {
        title_from(ls, i + 1)
    }
}

/// `acc` after the characters of `title` from `i` on: letters and digits in lower case, and
/// one dash for what stands between them, until forty characters are there.
pub open spec fn slug_from(title: Seq<char>, i: int, acc: Seq<char>, dashed: bool) -> Seq<char>
    decreases title.len() - i,
{
    if i < 0 || i >= title.len() {
        acc
    } else {
        let c = title[i];
        let next = if is_ascii_alnum(c) {
            acc.push(lower_char(c))
        } else if !dashed && acc.len() > 0 {
            acc.push('-')
        } else {
            acc
        };
        if next.len() >= 40 {
            next
        } else {
            slug_from(title, i + 1, next, !is_ascii_alnum(c) && (dashed || acc.len() > 0))
        }
    }
}

/// A short name for a report: from its first title, or else `report`.
pub open spec fn slug_of(content: Seq<char>) -> Seq<char> {
    let s = slug_from(title_from(lines(content), 0), 0, Seq::empty(), false);
    let t = trim_end_char(trim_start_char(s, '-'), '-');
    if t.len() == 0 {
        "report"@
    } else {
        t
    }
}

fn title_in(content: &str) -> (r: String)
    ensures
        r@ == title_from(lines(content@), 0),
{
    let all = lines_of(content);
    let ghost ls = texts(all@);
    let mut i: usize = 0;
    while i < all.len()
        invariant
            i <= all@.len(),
            ls == texts(all@),
            ls == lines(content@),
            title_from(ls, i as int) == title_from(ls, 0),
        decreases all@.len() - i,
    {
        assert(ls[i as int] == all@[i as int]@);
        let bare = trimmed_start_char(all[i].as_str(), '#');
        let t = trimmed(bare.as_str());
        if !t.as_str().is_empty() {
            return t;
        }
        i += 1;
    }
    copy("")
}

/// A short name for a report.
pub fn slug(content: &str) -> (r: String)
    ensures
        r@ == slug_of(content@),
{
    let title = title_in(content);
    let v = chars_of(title.as_str());
    let mut s = String::new();
    let mut n: usize = 0;
    let mut dashed: bool = false;
    let mut i: usize = 0;
    let ghost whole = slug_from(v@, 0, Seq::empty(), false);
    let mut full: bool = false;
    while i < v.len() && !full
        invariant
            i <= v@.len(),
            n == s@.len(),
            n <= 40,
            !full ==> n < 40,
            !full ==> slug_from(v@, i as int, s@, dashed) == whole,
            full ==> s@ == whole,
        decreases v@.len() - i,
    {
        let c = v[i];
        if ('0' <= c && c <= '9') || ('A' <= c && c <= 'Z') || ('a' <= c && c <= 'z') {
            s.push(ascii_lower_char(c));
            n += 1;
            dashed = false;
        } else if !dashed && n > 0 {
            s.push('-');
            n += 1;
            dashed = true;
        }
        if n >= 40 {
            full = true;
        }
        i += 1;
    }
    let front = trimmed_start_char(s.as_str(), '-');
    let t = trimmed_end_char(front.as_str(), '-');
    if t.as_str().is_empty() {
        copy("report")
    } else {
        t
    }
}

/// Whether `c` can stand in a short name.
pub open spec fn is_slug_char(c: char) -> bool {
    is_digit(c) || is_ascii_lower(c) || c == '-'
}

/// Whether no dash follows a dash.
pub open spec fn dashes_stand_alone(s: Seq<char>) -> bool {
    forall|k: int| 0 < k < s.len() && #[trigger] s[k] == '-' ==> s[k - 1] != '-'
}

proof fn lemma_slug_from(title: Seq<char>, i: int, acc: Seq<char>, dashed: bool)
    requires
        0 <= i,
        acc.len() < 40,
        forall|k: int| 0 <= k < acc.len() ==> is_slug_char(#[trigger] acc[k]),
        dashes_stand_alone(acc),
        dashed == (acc.len() > 0 && acc.last() == '-'),
    ensures
        slug_from(title, i, acc, dashed).len() <= 40,
        forall|k: int|
            0 <= k < slug_from(title, i, acc, dashed).len() ==> is_slug_char(
                #[trigger] slug_from(title, i, acc, dashed)[k],
            ),
        dashes_stand_alone(slug_from(title, i, acc, dashed)),
    decreases title.len() - i,
{
    if i < title.len() {
        let c = title[i];
        let next = if is_ascii_alnum(c) {
            acc.push(lower_char(c))
        } else if !dashed && acc.len() > 0 {
            acc.push('-')
        } else {
            acc
        };
        assert forall|k: int| 0 <= k < next.len() implies is_slug_char(#[trigger] next[k]) by {
            if k < acc.len() {
                assert(is_slug_char(acc[k]));
            }
        }
        assert forall|k: int| 0 < k < next.len() && #[trigger] next[k] == '-' implies next[k - 1]
            != '-' by {
            if k < acc.len() {
                assert(acc[k] == '-');
            } else {
                assert(next[k - 1] == acc.last());
            }
        }
        if next.len() < 40 {
            lemma_slug_from(
                title,
                i + 1,
                next,
                !is_ascii_alnum(c) && (dashed || acc.len() > 0),
            );
        }
    }
}

/// A short name has at least one and at most forty characters, all of them small letters,
/// digits and dashes, neither starts nor ends with a dash, and never holds two dashes in a row.
pub proof fn slugs_are_plain(content: Seq<char>)
    ensures
        1 <= slug_of(content).len() <= 40,
        forall|k: int|
            0 <= k < slug_of(content).len() ==> is_slug_char(#[trigger] slug_of(content)[k]),
        slug_of(content)[0] != '-',
        slug_of(content).last() != '-',
        dashes_stand_alone(slug_of(content)),
{
    let title = title_from(lines(content), 0);
    let s = slug_from(title, 0, Seq::empty(), false);
    lemma_slug_from(title, 0, Seq::empty(), false);
    let front = trim_start_char(s, '-');
    lemma_run(s, only('-'), 0);
    let t = trim_end_char(front, '-');
    lemma_run_back(front, only('-'), front.len() as int);
    if t.len() == 0 {
        reveal_strlit("report");
    } else {
        let a = run(s, only('-'), 0) as int;
        assert forall|k: int| 0 <= k < t.len() implies is_slug_char(#[trigger] t[k]) by {
            assert(t[k] == s[k + a]);
        }
        assert forall|k: int| 0 < k < t.len() && #[trigger] t[k] == '-' implies t[k - 1] != '-' by {
            assert(t[k] == s[k + a]);
            assert(t[k - 1] == s[k + a - 1]);
        }
        assert(t[0] == s[a]);
        assert(!only('-')(s[a]));
        assert(t.last() == front[t.len() - 1]);
        assert(!only('-')(front[t.len() - 1]));
    }
}

/// Whether `t` is a date and a time as `YYYYMMDD-HHMMSS`. The year may have a sign in front, and
/// more digits than four.
pub open spec fn is_timestamp(t: Seq<char>) -> bool {
    &&& t.len() >= 15
    &&& t[t.len() - 7] == '-'
    &&& is_digit(t[0]) || t[0] == '+' || t[0] == '-'
    &&& forall|i: int| 0 < i < t.len() && i != t.len() - 7 ==> is_digit(#[trigger] t[i])
}

/// The local time as `YYYYMMDD-HHMMSS`, by `chrono::Local::now` and its `format`. Only the form
/// is stated: which time it is depends on the clock and the time zone. `chrono` writes a year
/// beyond four digits, or before the year zero, with a sign.
#[verifier::external_body]
fn local_timestamp() -> (r: String)
    ensures
        is_timestamp(r@),
{
    chrono::Local::now().format("%Y%m%d-%H%M%S").to_string()
}

/// The name of the file for a report made at the time `timestamp`.
pub fn report_filename_at(timestamp: &str, content: &str) -> (r: String)
    ensures
        r@ == timestamp@ + "-"@ + slug_of(content@) + ".md"@,
{
    let mut r = copy(timestamp);
    r.append("-");
    let s = slug(content);
    r.append(s.as_str());
    r.append(".md");
    r
}

/// The name of the file for a report made now.
pub fn report_filename(content: &str) -> (r: String)
    ensures
        exists|timestamp: Seq<char>| #[trigger]
            is_timestamp(timestamp) && r@ == timestamp + "-"@ + slug_of(content@) + ".md"@,
{
    let now = local_timestamp();
    report_filename_at(now.as_str(), content)
}

/// The name of a report's file holds small letters, digits, dashes, dots and plus signs alone, and
/// ends in `.md`: it never names a file in another directory.
pub proof fn report_names_are_plain(timestamp: Seq<char>, content: Seq<char>)
    requires
        is_timestamp(timestamp),
    ensures
        ({
            let name = timestamp + "-"@ + slug_of(content) + ".md"@;
            &&& forall|k: int|
                0 <= k < name.len() ==> is_slug_char(#[trigger] name[k]) || name[k] == '.'
                    || name[k] == '+'
            &&& name[0] != '.'
            &&& name.skip(name.len() - 3) == ".md"@
        }),
{
    reveal_strlit("-");
    reveal_strlit(".md");
    slugs_are_plain(content);
    let slug = slug_of(content);
    let front = timestamp + "-"@;
    let name = front + slug + ".md"@;
    assert forall|k: int| 0 <= k < name.len() implies is_slug_char(#[trigger] name[k]) || name[k]
        == '.' || name[k] == '+' by {
        if k < timestamp.len() {
            assert(name[k] == timestamp[k]);
        } else if k < front.len() {
            assert(name[k] == '-');
        } else if k < front.len() + slug.len() {
            assert(name[k] == slug[k - front.len()]);
        } else {
            assert(name[k] == ".md"@[k - front.len() - slug.len()]);
        }
    }
    assert(name[0] == timestamp[0]);
    assert(name.skip(name.len() - 3) =~= ".md"@);
}

// ---------------------------------------------------------------------------
// The tracker
// ---------------------------------------------------------------------------
/// The tracker of one session.
pub struct PlanTracker {
    pub session_dir: String,
    pub state: TrackerState,
}

/// The path of a report below the session's directory.
pub open spec fn report_path(kind: SourceKind, name: Seq<char>) -> Seq<char> {
    join_path(kind.subdir_text(), name)
}

/// The items under their numbers.
pub open spec fn numbered(args: Seq<TodoArg>, todos: Seq<TodoItem>) -> bool {
    &&& todos.len() == args.len()
    &&& forall|i: int|
        0 <= i < args.len() ==> (#[trigger] todos[i]).text@ == args[i].text@ && todos[i].status
            == args[i].status && todos[i].id == ((i + 1) as usize) as u32
}

impl PlanTracker {
    /// A tracker that goes on from `state`, or starts with nothing where there is none.
    pub fn load(session_dir: &str, state: Option<TrackerState>) -> (r: PlanTracker)
        ensures
            r.session_dir@ == session_dir@,
            match state {
                Some(s) => r.state == s,
                None => r.state.source is None && r.state.todos@.len() == 0,
            },
    {
        PlanTracker {
            session_dir: copy(session_dir),
            state: match state {
                Some(s) => s,
                None => TrackerState::default(),
            },
        }
    }

    /// The file that keeps the tracker's state.
    pub fn tracker_path(&self) -> (r: String)
        ensures
            r@ == join_path(self.session_dir@, "tracker.json"@),
    {
        joined_path(self.session_dir.as_str(), "tracker.json")
    }

    fn save(&mut self, kind: SourceKind, name: &str) -> (r: String)
        ensures
            r@ == join_path(old(self).session_dir@, report_path(kind, name@)),
            final(self).session_dir == old(self).session_dir,
            final(self).state.todos == old(self).state.todos,
            final(self).state.source matches Some(s) && s.kind == kind && s.path@ == report_path(
                kind,
                name@,
            ),
    {
        let rel = joined_path(kind.subdir(), name);
        let abs = joined_path(self.session_dir.as_str(), rel.as_str());
        self.state.source = Some(ReportRef { kind, path: rel });
        abs
    }

    /// Makes the plan in the file named `name` what drives the work, and gives the file's
    /// path. The todo list stays.
    pub fn save_plan(&mut self, name: &str) -> (r: String)
        ensures
            r@ == join_path(old(self).session_dir@, report_path(SourceKind::Plan, name@)),
            final(self).session_dir == old(self).session_dir,
            final(self).state.todos == old(self).state.todos,
            final(self).state.source matches Some(s) && s.kind == SourceKind::Plan && s.path@
                == report_path(SourceKind::Plan, name@),
    {
        self.save(SourceKind::Plan, name)
    }

    /// Makes the review in the file named `name` what drives the work, and gives the file's
    /// path. The todo list stays.
    pub fn save_review(&mut self, name: &str) -> (r: String)
        ensures
            r@ == join_path(old(self).session_dir@, report_path(SourceKind::Review, name@)),
            final(self).session_dir == old(self).session_dir,
            final(self).state.todos == old(self).state.todos,
            final(self).state.source matches Some(s) && s.kind == SourceKind::Review && s.path@
                == report_path(SourceKind::Review, name@),
    {
        self.save(SourceKind::Review, name)
    }

    /// Puts a new todo list in the place of the old one, and gives what the agent is told.
    pub fn write_todos(&mut self, todos: &Vec<TodoArg>) -> (r: String)
        ensures
            final(self).session_dir == old(self).session_dir,
            final(self).state.source == old(self).state.source,
            numbered(todos@, final(self).state.todos@),
            r@ == (match reminder(final(self).session_dir@, final(self).state) {
                Some(t) => t,
                None => "Todo list cleared."@,
            }),
    {
        let mut items: Vec<TodoItem> = Vec::new();
        let mut i: usize = 0;
        while i < todos.len()
            invariant
                i <= todos@.len(),
                items@.len() == i,
                forall|k: int|
                    0 <= k < i ==> (#[trigger] items@[k]).text@ == todos@[k].text@
                        && items@[k].status == todos@[k].status && items@[k].id == ((k
                        + 1) as usize) as u32,
            decreases todos@.len() - i,
        {
            let t = &todos[i];
            let n: usize = i + 1;
            let id: u32 = #[verifier::truncate] (n as u32);
            items.push(TodoItem { id, text: t.text.clone(), status: t.status });
            i += 1;
        }
        self.state.todos = items;
        match self.render() {
            Some(t) => t,
            None => copy("Todo list cleared."),
        }
    }

    /// The reminder of what the agent is working on.
    pub fn render(&self) -> (r: Option<String>)
        ensures
            opt_text(r) == reminder(self.session_dir@, self.state),
    {
        render_state(self.session_dir.as_str(), &self.state)
    }
}

/// The todo list is told item by item: one more item is one more line, with how far it is, its
/// number and its text.
pub proof fn each_todo_adds_its_line(todos: Seq<TodoItem>, item: TodoItem)
    ensures
        todo_lines(todos.push(item)) == todo_lines(todos) + (item.status.marker_text() + " "@
            + decimal(item.id as nat) + ". "@ + item.text@ + "\n"@),
        todo_lines(Seq::empty()).len() == 0,
{
    assert(todos.push(item).drop_last() =~= todos);
}

/// How far an item is can be told from its mark, and what kind a report is from its name and
/// from where it lies.
pub proof fn marks_are_told_apart(a: TodoStatus, b: TodoStatus, k: SourceKind, l: SourceKind)
    ensures
        a.marker_text() == b.marker_text() ==> a == b,
        k.label_text() == l.label_text() ==> k == l,
        k.subdir_text() == l.subdir_text() ==> k == l,
{
    reveal_strlit("[ ]");
    reveal_strlit("[~]");
    reveal_strlit("[x]");
    reveal_strlit("plan");
    reveal_strlit("review");
    reveal_strlit("plans");
    reveal_strlit("reviews");
    assert("[ ]"@[1] == ' ' && "[~]"@[1] == '~' && "[x]"@[1] == 'x');
    assert("plan"@.len() == 4 && "review"@.len() == 6 && "plans"@.len() == 5 && "reviews"@.len()
        == 7);
}

proof fn lemma_todo_lines_at(todos: Seq<TodoItem>, i: int) -> (parts: (Seq<char>, Seq<char>))
    requires
        0 <= i < todos.len(),
    ensures
        todo_lines(todos) == parts.0 + todo_line(todos[i]) + parts.1,
    decreases todos.len(),
{
    let rest = todos.drop_last();
    if i == todos.len() - 1 {
        assert(todo_lines(todos) =~= todo_lines(rest) + todo_line(todos[i]) + Seq::empty());
        (todo_lines(rest), Seq::empty())
    } else {
        let parts = lemma_todo_lines_at(rest, i);
        let line = todo_line(todos.last());
        assert(todo_lines(todos) =~= parts.0 + todo_line(todos[i]) + (parts.1 + line));
        (parts.0, parts.1 + line)
    }
}

/// A text that ends in no white space is still there once white space is taken off the end of
/// what holds it.
proof fn lemma_trim_end_holds(a: Seq<char>, p: Seq<char>, b: Seq<char>)
    requires
        p.len() > 0,
        !is_space(p.last()),
    ensures
        contains(trim_end(a + p + b), p),
{
    let s = a + p + b;
    let n = a.len() as int;
    assert(s[n + p.len() - 1] == p.last());
    lemma_trim_end_keeps(s, n + p.len() - 1);
    trimming_takes_white_space_only(s);
    let t = trim_end(s);
    assert(t.subrange(n, n + p.len()) =~= p) by {
        assert forall|k: int| 0 <= k < p.len() implies t[n + k] == p[k] by {
            assert(t[n + k] == s.take(t.len() as int)[n + k]);
            assert(s[n + k] == p[k]);
        }
    }
    lemma_contains(t, p, n);
}

/// Every todo item is in the reminder, with how far it is, its number and its text but for
/// white space at the end, whatever else there is to be reminded of.
pub proof fn every_todo_is_in_the_reminder(session_dir: Seq<char>, state: TrackerState, i: int)
    requires
        0 <= i < state.todos@.len(),
    ensures
        ({
            let item = state.todos@[i];
            let line = item.status.marker_text() + " "@ + decimal(item.id as nat) + ". "@
                + item.text@;
            reminder(session_dir, state) matches Some(t) && contains(t, trim_end(line))
        }),
{
    let item = state.todos@[i];
    let line = item.status.marker_text() + " "@ + decimal(item.id as nat) + ". "@ + item.text@;
    let p = trim_end(line);
    let (x, y) = lemma_todo_lines_at(state.todos@, i);
    reveal_strlit("[ ]");
    reveal_strlit("[~]");
    reveal_strlit("[x]");
    assert(line[0] == '[');
    lemma_trim_end_keeps(line, 0);
    trimming_takes_white_space_only(line);
    let head = source_text(session_dir, state.source)
        + "\n## Todo list (work through these; do not start unrelated work until every item is done)\n"@;
    let full = source_text(session_dir, state.source) + todos_text(state.todos@);
    let tail = line.skip(p.len() as int) + "\n"@ + y;
    assert(line =~= p + line.skip(p.len() as int));
    assert(todo_line(item) =~= line + "\n"@);
    assert(full =~= head + (x + todo_line(item) + y));
    assert(full =~= (head + x) + p + tail);
    lemma_trim_end_holds(head + x, p, tail);
}

/// The report that drives the work is in the reminder under its path.
pub proof fn the_report_is_in_the_reminder(session_dir: Seq<char>, state: TrackerState)
    ensures
        state.source matches Some(r) ==> (reminder(session_dir, state) matches Some(t) && contains(
            t,
            join_path(session_dir, r.path@) + " - re-read it with ReadFile for full detail."@,
        )),
{
    if state.source is Some {
        let r = state.source->0;
        let a = "## Active "@ + r.kind.label_text() + "\nSource file: "@;
        reveal_strlit(" - re-read it with ReadFile for full detail.");
        reveal_strlit(" - re-read it with ReadFile for full detail.\n");
        let end = " - re-read it with ReadFile for full detail."@;
        assert(" - re-read it with ReadFile for full detail.\n"@ =~= end.push('\n'));
        let p = join_path(session_dir, r.path@) + end;
        let b = seq!['\n'] + todos_text(state.todos@);
        let full = source_text(session_dir, state.source) + todos_text(state.todos@);
        assert(full =~= a + p + b);
        assert(p.last() == end.last());
        assert(end.last() == '.');
        lemma_trim_end_holds(a, p, b);
    }
}

/// A new todo list holds the items as they were given, in their order, and numbers them from one.
pub proof fn todos_are_kept_as_given(args: Seq<TodoArg>, todos: Seq<TodoItem>, i: int)
    requires
        numbered(args, todos),
        0 <= i < args.len(),
        i < u32::MAX,
    ensures
        todos.len() == args.len(),
        todos[i].text@ == args[i].text@,
        todos[i].status == args[i].status,
        todos[i].id == i + 1,
{
}

proof fn lemma_title_from(ls: Seq<Seq<char>>, k: int, i: int)
    requires
        0 <= k <= i < ls.len(),
        title_of(ls[i]).len() > 0,
        forall|j: int| k <= j < i ==> title_of(#[trigger] ls[j]).len() == 0,
    ensures
        title_from(ls, k) == title_of(ls[i]),
    decreases i - k,
{
    if k < i {
        lemma_title_from(ls, k + 1, i);
    }
}

/// A report is named after its first line that is more than marks of a heading and white space.
pub proof fn the_first_title_counts(content: Seq<char>, i: int)
    requires
        0 <= i < lines(content).len(),
        title_of(lines(content)[i]).len() > 0,
        forall|j: int| 0 <= j < i ==> title_of(#[trigger] lines(content)[j]).len() == 0,
    ensures
        title_from(lines(content), 0) == trim(trim_start_char(lines(content)[i], '#')),
{
    lemma_title_from(lines(content), 0, i);
}

proof fn lemma_slug_word(title: Seq<char>, i: int, j: int, acc: Seq<char>, dashed: bool)
    requires
        0 <= i < j <= title.len(),
        forall|k: int| i <= k < j ==> is_ascii_alnum(#[trigger] title[k]),
        acc.len() + (j - i) < 40,
    ensures
        slug_from(title, i, acc, dashed) == slug_from(
            title,
            j,
            acc + lower(title.subrange(i, j)),
            false,
        ),
    decreases j - i,
{
    let next = acc.push(lower_char(title[i]));
    if i + 1 == j {
        assert(acc + lower(title.subrange(i, j)) =~= next);
    } else {
        lemma_slug_word(title, i + 1, j, next, false);
        assert(next + lower(title.subrange(i + 1, j)) =~= acc + lower(title.subrange(i, j)));
    }
}

proof fn lemma_slug_gap(title: Seq<char>, i: int, j: int, acc: Seq<char>)
    requires
        0 <= i <= j <= title.len(),
        forall|k: int| i <= k < j ==> !is_ascii_alnum(#[trigger] title[k]),
        0 < acc.len() < 40,
    ensures
        slug_from(title, i, acc, true) == slug_from(title, j, acc, true),
    decreases j - i,
{
    if i < j {
        lemma_slug_gap(title, i + 1, j, acc);
    }
}

/// The words of a title, in small letters and with one dash for whatever stands between them, are
/// its short name, as far as there is room.
pub proof fn slugs_spell_the_title(first: Seq<char>, gap: Seq<char>, second: Seq<char>)
    requires
        first.len() > 0,
        gap.len() > 0,
        second.len() > 0,
        first.len() + 1 + second.len() < 40,
        forall|k: int| 0 <= k < first.len() ==> is_ascii_alnum(#[trigger] first[k]),
        forall|k: int| 0 <= k < gap.len() ==> !is_ascii_alnum(#[trigger] gap[k]),
        forall|k: int| 0 <= k < second.len() ==> is_ascii_alnum(#[trigger] second[k]),
    ensures
        slug_from(first, 0, Seq::empty(), false) == lower(first),
        slug_from(first + gap + second, 0, Seq::empty(), false) == lower(first) + seq!['-']
            + lower(second),
{
    let a = first.len() as int;
    let b = a + gap.len();
    let t = first + gap + second;
    let n = t.len() as int;
    lemma_slug_word(first, 0, a, Seq::empty(), false);
    assert(first.subrange(0, a) =~= first);
    assert(Seq::<char>::empty() + lower(first) =~= lower(first));
    assert forall|k: int| 0 <= k < a implies is_ascii_alnum(#[trigger] t[k]) by {
        assert(t[k] == first[k]);
    }
    assert forall|k: int| a <= k < b implies !is_ascii_alnum(#[trigger] t[k]) by {
        assert(t[k] == gap[k - a]);
    }
    assert forall|k: int| b <= k < n implies is_ascii_alnum(#[trigger] t[k]) by {
        assert(t[k] == second[k - b]);
    }
    lemma_slug_word(t, 0, a, Seq::empty(), false);
    assert(t.subrange(0, a) =~= first);
    let acc = lower(first).push('-');
    assert(slug_from(t, a, lower(first), false) == slug_from(t, a + 1, acc, true));
    lemma_slug_gap(t, a + 1, b, acc);
    lemma_slug_word(t, b, n, acc, true);
    assert(t.subrange(b, n) =~= second);
    assert(acc + lower(second) =~= lower(first) + seq!['-'] + lower(second));
}

/// A report's file is named by when it was made and by its title.
pub proof fn reports_are_named_by_time_and_title(timestamp: &str, content: &str, name: String)
    requires
        call_ensures(report_filename_at, (timestamp, content), name),
    ensures
        starts_with(name@, timestamp@ + "-"@ + slug_of(content@)),
{
    let head = timestamp@ + "-"@ + slug_of(content@);
    assert(name@.take(head.len() as int) =~= head);
}

/// A plan or a review that is kept lies in its own directory of the session under its name, and is
/// then what drives the work, whatever did before; the todo list stays.
pub proof fn kept_reports_drive_the_work(
    planned: &mut PlanTracker,
    reviewed: &mut PlanTracker,
    name: &str,
    plan: String,
    review: String,
)
    requires
        call_ensures(PlanTracker::save_plan, (planned, name), plan),
        call_ensures(PlanTracker::save_review, (reviewed, name), review),
    ensures
        plan@ == join_path(old(planned).session_dir@, join_path("plans"@, name@)),
        review@ == join_path(old(reviewed).session_dir@, join_path("reviews"@, name@)),
        final(planned).state.source matches Some(s) && s.kind == SourceKind::Plan && join_path(
            final(planned).session_dir@,
            s.path@,
        ) == plan@,
        final(reviewed).state.source matches Some(s) && s.kind == SourceKind::Review && join_path(
            final(reviewed).session_dir@,
            s.path@,
        ) == review@,
        final(planned).state.todos == old(planned).state.todos,
        final(reviewed).state.todos == old(reviewed).state.todos,
{
}

/// A new todo list takes the place of the old one, item by item as it was given, and the agent is
/// shown it; the report that drives the work stays.
pub proof fn new_todos_replace_the_old(
    t: &mut PlanTracker,
    todos: Vec<TodoArg>,
    r: String,
    i: int,
)
    requires
        call_ensures(PlanTracker::write_todos, (t, &todos), r),
        0 <= i < todos@.len(),
        i < u32::MAX,
    ensures
        final(t).state.todos@.len() == todos@.len(),
        final(t).state.todos@[i].text@ == todos@[i].text@,
        final(t).state.todos@[i].status == todos@[i].status,
        final(t).state.todos@[i].id == i + 1,
        final(t).state.source == old(t).state.source,
        reminder(final(t).session_dir@, final(t).state) == Some(r@),
{
}

/// A tracker goes on from what was kept, and starts with nothing where nothing was.
pub proof fn trackers_go_on(
    session_dir: &str,
    state: TrackerState,
    kept: PlanTracker,
    new: PlanTracker,
)
    requires
        call_ensures(PlanTracker::load, (session_dir, Some(state)), kept),
        call_ensures(PlanTracker::load, (session_dir, None::<TrackerState>), new),
    ensures
        kept.state == state,
        kept.session_dir@ == session_dir@,
        reminder(new.session_dir@, new.state) is None,
{
}

} // verus!
