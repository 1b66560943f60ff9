//! Handing a plan or a review over to the main agent, and what the sandbox lets it reach.
use crate::agents::AgentKind;
use crate::byte_path::{joined_bytes, opt_bytes, path_below};
use crate::file_path::{ancestors, join_path, joined_path, path_ancestors};
use crate::message::{Message, MessageView, Role, message_views};
use crate::text::{contains, copy, lemma_contains, opt_str, opt_text, starts_with, texts};
use vstd::prelude::*;

verus! {

// ---------------------------------------------------------------------------
// What the sandbox lets through
// ---------------------------------------------------------------------------
/// `.cargo` below those of the directories from `i` on that have one.
pub open spec fn cargo_dirs_from(dirs: Seq<Seq<char>>, has_cargo: Seq<bool>, i: int) -> Seq<Seq<char>>
    decreases dirs.len() - i,
{
    if i < 0 || i >= dirs.len() {
        Seq::empty()
    } else if has_cargo[i] {
        seq![join_path(dirs[i], ".cargo"@)] + cargo_dirs_from(dirs, has_cargo, i + 1)
    } else {
        cargo_dirs_from(dirs, has_cargo, i + 1)
    }
}

/// The directories `.cargo` around the working directory, but not its own. `has_cargo` says of
/// the working directory and each directory around it whether it holds one.
pub fn ancestor_cargo_dirs(cwd: &str, has_cargo: &Vec<bool>) -> (r: Vec<String>)
    requires
        has_cargo@.len() == ancestors(cwd@).len(),
    ensures
        texts(r@) == cargo_dirs_from(ancestors(cwd@), has_cargo@, 1),
{
    let dirs = path_ancestors(cwd);
    let ghost views = texts(dirs@);
    let mut r: Vec<String> = Vec::new();
    let mut i: usize = 1;
    assert(texts(r@) + cargo_dirs_from(views, has_cargo@, 1) =~= cargo_dirs_from(
        views,
        has_cargo@,
        1,
    ));
    while i < dirs.len()
        invariant
            1 <= i,
            views == texts(dirs@),
            has_cargo@.len() == dirs@.len(),
            texts(r@) + cargo_dirs_from(views, has_cargo@, i as int) == cargo_dirs_from(
                views,
                has_cargo@,
                1,
            ),
        decreases dirs@.len() - i,
    {
        let ghost r0 = texts(r@);
        if has_cargo[i] {
            let dir = joined_path(dirs[i].as_str(), ".cargo");
            assert(views[i as int] == dirs@[i as int]@);
            r.push(dir);
            proof {
                assert(texts(r@) =~= r0.push(dir@));
                let rest = cargo_dirs_from(views, has_cargo@, i + 1);
                assert(r0 + (seq![dir@] + rest) =~= texts(r@) + rest);
            }
        }
        i += 1;
    }
    assert(texts(r@) + Seq::<Seq<char>>::empty() =~= texts(r@));
    r
}

/// What the agent may read besides the project: the sessions, where their directory is known,
/// and the directories `.cargo` around the working directory.
pub fn sandbox_read_roots<P>(sessions: Option<P>, cargo_dirs: Vec<P>) -> (r: Vec<P>)
    ensures
        r@ == (match sessions {
            Some(s) => seq![s] + cargo_dirs@,
            None => cargo_dirs@,
        }),
{
    let mut r: Vec<P> = Vec::new();
    match sessions {
        Some(s) => {
            r.push(s);
        },
        None => {},
    }
    let mut more = cargo_dirs;
    let ghost before = r@;
    r.append(&mut more);
    assert(r@ =~= match sessions {
        Some(s) => seq![s] + cargo_dirs@,
        None => cargo_dirs@,
    });
    r
}

/// Where cargo keeps its files: where the environment says, or else `.cargo` below the home
/// directory. An empty word in the environment does not count.
pub open spec fn cargo_home(env: Option<Seq<u8>>, home: Option<Seq<u8>>) -> Option<Seq<u8>> {
    if env is Some && env->0.len() > 0 {
        env
    } else {
        match home {
            Some(h) => Some(path_below(h, ".cargo"@)),
            None => None,
        }
    }
}

/// Where cargo keeps its files, as the bytes of a path.
pub fn cargo_home_from(env_cargo_home: Option<Vec<u8>>, home: Option<Vec<u8>>) -> (r: Option<
    Vec<u8>,
>)
    ensures
        opt_bytes(r) == cargo_home(opt_bytes(env_cargo_home), opt_bytes(home)),
{
    match env_cargo_home {
        Some(e) => {
            if e.len() > 0 {
                return Some(e);
            }
        },
        None => {},
    }
    match home {
        Some(h) => Some(joined_bytes(&h, ".cargo")),
        None => None,
    }
}

/// The candidate, where it is a directory.
pub fn existing_dirs<P>(candidate: Option<P>, is_dir: bool) -> (r: Vec<P>)
    ensures
        r@ == (match candidate {
            Some(d) => if is_dir {
                seq![d]
            } else {
                Seq::empty()
            },
            None => Seq::empty(),
        }),
{
    let mut r: Vec<P> = Vec::new();
    match candidate {
        Some(d) => {
            if is_dir {
                r.push(d);
            }
        },
        None => {},
    }
    assert(r@ =~= match candidate {
        Some(d) => if is_dir {
            seq![d]
        } else {
            Seq::empty()
        },
        None => Seq::empty(),
    });
    r
}

/// What the agent may write besides the project: where cargo keeps its files, if that is a
/// directory.
pub fn sandbox_write_roots(
    env_cargo_home: Option<Vec<u8>>,
    home: Option<Vec<u8>>,
    is_dir: bool,
) -> (r: Vec<Vec<u8>>)
    ensures
        match cargo_home(opt_bytes(env_cargo_home), opt_bytes(home)) {
            Some(d) => if is_dir {
                r@.len() == 1 && r@[0]@ == d
            } else {
                r@.len() == 0
            },
            None => r@.len() == 0,
        },
{
    existing_dirs(cargo_home_from(env_cargo_home, home), is_dir)
}

// ---------------------------------------------------------------------------
// Handing over
// ---------------------------------------------------------------------------
/// The text of the last message of the assistant that has any.
pub open spec fn last_reply(messages: Seq<MessageView>) -> Option<Seq<char>>
    decreases messages.len(),
{
    if messages.len() == 0 {
        None
    } else {
        let m = messages.last();
        if m.role == Role::Assistant && m.text().len() > 0 {
            Some(m.text())
        } else {
            last_reply(messages.drop_last())
        }
    }
}

/// The text of the last message of the assistant that has any.
pub fn last_assistant_text(messages: &Vec<Message>) -> (r: Option<String>)
    ensures
        opt_text(r) == last_reply(message_views(messages@)),
{
    let ghost views = message_views(messages@);
    let mut k: usize = messages.len();
    assert(views.take(k as int) =~= views);
    while k > 0
        invariant
            k <= messages@.len(),
            views == message_views(messages@),
            last_reply(views.take(k as int)) == last_reply(views),
        decreases k,
    {
        let m = &messages[k - 1];
        proof {
            assert(views.take(k as int).drop_last() =~= views.take(k - 1));
            assert(views.take(k as int).last() == m@);
        }
        if m.role == Role::Assistant {
            let text = m.text_content();
            if !text.as_str().is_empty() {
                return Some(text);
            }
        }
        k -= 1;
    }
    None
}

/// What is handed over: a report, and what the user said about it.
#[derive(Debug, PartialEq, Eq)]
pub struct Handover {
    pub report: String,
    pub instruction: Option<String>,
}

/// What is handed over. Where the agent left a report, that is it, and `step_with` is what the
/// user said about it; else `step_with` is the report.
pub fn resolve_handover(session_report: Option<String>, step_with: Option<String>) -> (r: Option<
    Handover,
>)
    ensures
        r == (match (session_report, step_with) {
            (Some(report), instruction) => Some(Handover { report, instruction }),
            (None, Some(report)) => Some(Handover { report, instruction: None }),
            (None, None) => None,
        }),
{
    match session_report {
        Some(report) => Some(Handover { report, instruction: step_with }),
        None => match step_with {
            Some(report) => Some(Handover { report, instruction: None }),
            None => None,
        },
    }
}

/// What a report of an agent is called.
pub open spec fn report_name(kind: AgentKind) -> Seq<char> {
    match kind {
        AgentKind::Plan => "plan"@,
        AgentKind::Review => "review"@,
        AgentKind::Main => "report"@,
    }
}

/// What the main agent is told of a report in the file `path`.
pub open spec fn directive(kind: AgentKind, path: Seq<char>, instruction: Option<Seq<char>>) -> Seq<char> {
    match instruction {
        Some(i) => i + "\n\nThe full "@ + report_name(kind) + " is saved to "@ + path
            + ". The request above is authoritative about WHICH items to act on - call write_todos with exactly those (all of them if it asks for all, only the named ones if it is selective), then work through them, re-reading the file with ReadFile whenever you need full detail."@,
        None => "The "@ + report_name(kind) + " has been saved to "@ + path
            + ". Decide which items to act on, call write_todos with that list, then work through it - re-read the file with ReadFile whenever you need full detail."@,
    }
}

/// What the main agent is told of a report: what the user said about it comes first.
pub fn report_directive(kind: AgentKind, path: &str, instruction: Option<&str>) -> (r: String)
    ensures
        r@ == directive(kind, path@, opt_str(instruction)),
{
    let what = match kind {
        AgentKind::Plan => "plan",
        AgentKind::Review => "review",
        AgentKind::Main => "report",
    };
    match instruction {
        Some(i) => {
            let mut r = copy(i);
            r.append("\n\nThe full ");
            r.append(what);
            r.append(" is saved to ");
            r.append(path);
            r.append(
                ". The request above is authoritative about WHICH items to act on - call write_todos with exactly those (all of them if it asks for all, only the named ones if it is selective), then work through them, re-reading the file with ReadFile whenever you need full detail.",
            );
            r
        },
        None => {
            let mut r = copy("The ");
            r.append(what);
            r.append(" has been saved to ");
            r.append(path);
            r.append(
                ". Decide which items to act on, call write_todos with that list, then work through it - re-read the file with ReadFile whenever you need full detail.",
            );
            r
        },
    }
}

/// What the user said when handing a report over leads what the main agent is told: no part of
/// it is lost.
pub proof fn instructions_are_kept(kind: AgentKind, path: Seq<char>, instruction: Seq<char>)
    ensures
        starts_with(directive(kind, path, Some(instruction)), instruction),
{
    let d = directive(kind, path, Some(instruction));
    assert(d.take(instruction.len() as int) =~= instruction);
}

/// What the sandbox lets through of the directories around: `.cargo` below each that has one,
/// and nothing else.
pub proof fn cargo_dirs_are_those_there(
    dirs: Seq<Seq<char>>,
    has_cargo: Seq<bool>,
    i: int,
    path: Seq<char>,
)
    requires
        0 <= i,
        has_cargo.len() == dirs.len(),
    ensures
        cargo_dirs_from(dirs, has_cargo, i).contains(path) <==> exists|k: int|
            i <= k < dirs.len() && #[trigger] has_cargo[k] && path == join_path(
                dirs[k],
                ".cargo"@,
            ),
    decreases dirs.len() - i,
{
    if i < dirs.len() {
        cargo_dirs_are_those_there(dirs, has_cargo, i + 1, path);
        let rest = cargo_dirs_from(dirs, has_cargo, i + 1);
        let all = cargo_dirs_from(dirs, has_cargo, i);
        if has_cargo[i] {
            let first = join_path(dirs[i], ".cargo"@);
            assert(all == seq![first] + rest);
            assert(all[0] == first);
            if rest.contains(path) {
                let k = choose|k: int| 0 <= k < rest.len() && rest[k] == path;
                assert(all[k + 1] == path);
            }
            if all.contains(path) {
                let k = choose|k: int| 0 <= k < all.len() && all[k] == path;
                if k > 0 {
                    assert(rest[k - 1] == path);
                }
            }
        }
    }
}

/// The environment says where cargo keeps its files; where it says nothing, the home directory
/// does.
pub proof fn the_environment_goes_before_home(env: Seq<u8>, home: Option<Seq<u8>>)
    ensures
        env.len() > 0 ==> cargo_home(Some(env), home) == Some(env),
        cargo_home(Some(Seq::empty()), home) == cargo_home(None, home),
        (cargo_home(None, home) is Some) == (home is Some),
        home matches Some(h) ==> cargo_home(None, home) == Some(path_below(h, ".cargo"@)),
{
}

/// The last reply is that of the last message of the assistant that says anything: whatever
/// follows it and is no such message does not count.
pub proof fn the_last_reply_counts(messages: Seq<MessageView>, m: MessageView)
    ensures
        m.role == Role::Assistant && m.text().len() > 0 ==> last_reply(messages.push(m)) == Some(
            m.text(),
        ),
        !(m.role == Role::Assistant && m.text().len() > 0) ==> last_reply(messages.push(m))
            == last_reply(messages),
        last_reply(Seq::empty()) is None,
{
    assert(messages.push(m).drop_last() =~= messages);
}

/// The main agent is always told where a report lies.
pub proof fn reports_are_named_by_their_path(
    kind: AgentKind,
    path: Seq<char>,
    instruction: Option<Seq<char>>,
)
    ensures
        contains(directive(kind, path, instruction), path),
{
    let d = directive(kind, path, instruction);
    let at = match instruction {
        Some(i) => (i + "\n\nThe full "@ + report_name(kind) + " is saved to "@).len() as int,
        None => ("The "@ + report_name(kind) + " has been saved to "@).len() as int,
    };
    assert(d.subrange(at, at + path.len()) =~= path);
    lemma_contains(d, path, at);
}

/// What is handed over: the report that an agent left, with what the user said of it, or else what
/// the user said as the report.
pub proof fn reports_go_before_instructions(
    session_report: Option<String>,
    step_with: Option<String>,
    r: Option<Handover>,
)
    requires
        call_ensures(resolve_handover, (session_report, step_with), r),
    ensures
        session_report matches Some(report) ==> (r matches Some(h) && h.report == report
            && h.instruction == step_with),
        session_report is None ==> (step_with matches Some(s) ==> (r matches Some(h) && h.report == s
            && h.instruction is None)),
        session_report is None && step_with is None ==> r is None,
{
}

/// The sandbox lets the agent read the sessions, where their directory is known, and everything
/// that cargo keeps around the project; and write where cargo keeps its files, where that is a
/// directory.
pub proof fn sandboxes_let_cargo_through<P>(
    sessions: Option<P>,
    cargo_dirs: Vec<P>,
    r: Vec<P>,
    env: Option<Vec<u8>>,
    home: Option<Vec<u8>>,
    is_dir: bool,
    w: Vec<Vec<u8>>,
    i: int,
)
    requires
        call_ensures(sandbox_read_roots::<P>, (sessions, cargo_dirs), r),
        call_ensures(sandbox_write_roots, (env, home, is_dir), w),
    ensures
        sessions matches Some(s) ==> r@.contains(s),
        0 <= i < cargo_dirs@.len() ==> r@.contains(cargo_dirs@[i]),
        is_dir ==> (cargo_home(opt_bytes(env), opt_bytes(home)) matches Some(d) ==> w@.len() == 1
            && w@[0]@ == d),
        !is_dir ==> w@.len() == 0,
{
    let n: int = if sessions is Some {
        1
    } else {
        0
    };
    if sessions is Some {
        assert(r@[0] == sessions->0);
    }
    if 0 <= i < cargo_dirs@.len() {
        assert(r@[n + i] == cargo_dirs@[i]);
    }
}

/// The sandbox lets through `.cargo` of the directories around the working directory that have one,
/// and not its own, which lies in the project.
pub proof fn cargo_is_read_from_around(
    cwd: &str,
    has_cargo: Vec<bool>,
    r: Vec<String>,
    k: int,
)
    requires
        has_cargo@.len() == ancestors(cwd@).len(),
        call_ensures(ancestor_cargo_dirs, (cwd, &has_cargo), r),
        1 <= k < has_cargo@.len(),
    ensures
        has_cargo@[k] ==> texts(r@).contains(join_path(ancestors(cwd@)[k], ".cargo"@)),
        (forall|j: int| 1 <= j < has_cargo@.len() ==> !#[trigger] has_cargo@[j]) ==> r@.len() == 0,
{
    cargo_dirs_are_those_there(
        ancestors(cwd@),
        has_cargo@,
        1,
        join_path(ancestors(cwd@)[k], ".cargo"@),
    );
    if r@.len() > 0 {
        let path = texts(r@)[0];
        assert(texts(r@).contains(path));
        cargo_dirs_are_those_there(ancestors(cwd@), has_cargo@, 1, path);
    }
}

} // verus!
