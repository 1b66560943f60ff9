//! Runs without a user: what is printed, and how they end.
use crate::config::ShirlConfig;
use crate::message::Message;
use crate::picker::cut;
use crate::text::{
    blank, chars_of, copy, copy_opt, is_blank, lines, lines_of, opt_text, starts_with, texts,
    trim_end, trimmed_end,
};
use crate::worker::TurnOutcome;
use vstd::prelude::*;

verus! {

/// How a run ends that went well.
pub const EXIT_SUCCESS: i32 = 0;

/// How a run ends that failed.
pub const EXIT_ERROR: i32 = 1;

/// How a run ends whose arguments are wrong.
pub const EXIT_USAGE: i32 = 2;

/// How a run ends that lacks a configuration.
pub const EXIT_CONFIG_INCOMPLETE: i32 = 5;

#[derive(Clone, Copy, Debug, PartialEq, Eq, Structural)]
pub enum OutputFormat {
    Text,
    Json,
}

/// `s` cut to `max` characters, with an ellipsis as the last one where anything is cut.
pub fn truncate(s: &str, max: usize) -> (r: String)
    ensures
        r@ == cut(s@, max as int),
{
    if max == 0 {
        return String::new();
    }
    let v = chars_of(s);
    let keep: usize = max - 1;
    let mut out = String::new();
    let mut i: usize = 0;
    while i < keep && i < v.len()
        invariant
            i <= keep,
            i <= v@.len(),
            v@ == s@,
            out@ == s@.take(i as int),
        decreases keep - i,
    {
        out.push(v[i]);
        i += 1;
        assert(s@.take(i as int) =~= s@.take(i - 1).push(s@[i - 1]));
    }
    if i == v.len() {
        assert(s@.take(i as int) =~= s@);
        return out;
    }
    if i + 1 == v.len() {
        out.push(v[i]);
        assert(out@ =~= s@);
        return out;
    }
    out.push('…');
    out
}

/// The arguments of a tool call: a text, or other JSON as text.
pub enum CallArguments {
    Text(String),
    Json(String),
}

/// The line on a tool call.
pub fn tool_call_line(name: &str, args: &CallArguments) -> (r: String)
    ensures
        r@ == "· "@ + name@ + "("@ + (match *args {
            CallArguments::Text(t) => t@,
            CallArguments::Json(j) => cut(j@, 80),
        }) + ")"@,
{
    let shown = match args {
        CallArguments::Text(t) => t.clone(),
        CallArguments::Json(j) => truncate(j.as_str(), 80),
    };
    let mut r = copy("· ");
    r.append(name);
    r.append("(");
    r.append(shown.as_str());
    r.append(")");
    r
}

/// The first lines of a text, at most three.
pub open spec fn first_three(ls: Seq<Seq<char>>) -> Seq<Seq<char>> {
    if ls.len() <= 3 {
        ls
    } else {
        ls.take(3)
    }
}

/// The lines on a tool's result: its first three, cut.
pub fn tool_result_lines(result: &str) -> (r: Vec<String>)
    ensures
        texts(r@) == Seq::new(
            first_three(lines(result@)).len(),
            |i: int| "  ↳ "@ + cut(first_three(lines(result@))[i], 120),
        ),
{
    let all = lines_of(result);
    let ghost ls = texts(all@);
    let ghost want = Seq::new(
        first_three(ls).len(),
        |i: int| "  ↳ "@ + cut(first_three(ls)[i], 120),
    );
    let mut r: Vec<String> = Vec::new();
    let mut i: usize = 0;
    while i < all.len() && i < 3
        invariant
            i <= all@.len(),
            i <= 3,
            ls == texts(all@),
            want == Seq::new(
                first_three(ls).len(),
                |i: int| "  ↳ "@ + cut(first_three(ls)[i], 120),
            ),
            texts(r@) =~= want.take(i as int),
        decreases 3 - i,
    {
        let ghost r0 = texts(r@);
        assert(ls[i as int] == all@[i as int]@);
        let mut line = copy("  ↳ ");
        let c = truncate(all[i].as_str(), 120);
        line.append(c.as_str());
        r.push(line);
        assert(line@ == want[i as int]);
        assert(texts(r@) =~= r0.push(line@));
        i += 1;
    }
    assert(texts(r@) =~= want);
    r
}

/// What git printed, where it worked and printed anything.
pub fn git_text(success: bool, stdout: String) -> (r: Option<String>)
    ensures
        r == (if success && !is_blank(stdout@) {
            Some(stdout)
        } else {
            None
        }),
{
    if success && !blank(stdout.as_str()) {
        Some(stdout)
    } else {
        None
    }
}

/// The files that git names, one on each line.
pub fn git_files_touched(names: &Option<String>) -> (r: Vec<String>)
    ensures
        texts(r@) == (match *names {
            Some(s) => lines(s@),
            None => Seq::empty(),
        }),
{
    match names {
        Some(s) => lines_of(s.as_str()),
        None => {
            let r: Vec<String> = Vec::new();
            assert(texts(r@) =~= Seq::empty());
            r
        },
    }
}

/// What is printed as text: the reply, if there is any, and what changed in the working tree.
pub open spec fn text_report(
    reply: Seq<char>,
    stat: Option<Seq<char>>,
    diff: Option<Seq<char>>,
) -> Seq<char> {
    let a = if reply.len() > 0 {
        reply + "\n"@
    } else {
        Seq::empty()
    };
    let b = match stat {
        Some(s) => "\n── changes ──\n"@ + trim_end(s) + "\n"@,
        None => Seq::empty(),
    };
    let c = match diff {
        Some(d) => d + "\n"@,
        None => Seq::empty(),
    };
    a + b + c
}

/// What is printed as text.
pub fn text_output(reply: &str, stat: &Option<String>, diff: &Option<String>) -> (r: String)
    ensures
        r@ == text_report(reply@, opt_text(*stat), opt_text(*diff)),
{
    let mut r = String::new();
    if !reply.is_empty() {
        r = copy(reply);
        r.append("\n");
    }
    let ghost a = r@;
    match stat {
        Some(s) => {
            let mut part = copy("\n── changes ──\n");
            let t = trimmed_end(s.as_str());
            part.append(t.as_str());
            part.append("\n");
            r.append(part.as_str());
        },
        None => {
            assert(r@ =~= a + Seq::<char>::empty());
        },
    }
    let ghost b = r@;
    match diff {
        Some(d) => {
            let mut part = d.clone();
            part.append("\n");
            r.append(part.as_str());
        },
        None => {
            assert(r@ =~= b + Seq::<char>::empty());
        },
    }
    r
}

/// What is printed as JSON. What is absent has no field.
#[derive(Debug, PartialEq, Eq)]
pub struct JsonReport {
    pub session_id: String,
    pub result: String,
    pub files_touched: Vec<String>,
    pub diff_stat: Option<String>,
    pub diff: Option<String>,
}

/// What is printed as JSON.
pub fn json_output(
    session_id: &str,
    reply: &str,
    names: &Option<String>,
    stat: &Option<String>,
    diff: &Option<String>,
) -> (r: JsonReport)
    ensures
        r.session_id@ == session_id@,
        r.result@ == reply@,
        texts(r.files_touched@) == (match *names {
            Some(s) => lines(s@),
            None => Seq::empty(),
        }),
        opt_text(r.diff_stat) == (match *stat {
            Some(s) => Some(trim_end(s@)),
            None => None,
        }),
        r.diff == *diff,
{
    JsonReport {
        session_id: copy(session_id),
        result: copy(reply),
        files_touched: git_files_touched(names),
        diff_stat: match stat {
            Some(s) => Some(trimmed_end(s.as_str())),
            None => None,
        },
        diff: copy_opt(diff),
    }
}

/// How a run without a user starts: with this configuration, or not at all.
pub fn headless_config(config: Option<ShirlConfig>) -> (r: Result<ShirlConfig, (i32, String)>)
    ensures
        match config {
            Some(c) if c.default.provider@.len() > 0 && c.default.model@.len() > 0 => r
                == Ok::<ShirlConfig, (i32, String)>(c),
            _ => r matches Err(e) && e.0 == EXIT_CONFIG_INCOMPLETE && e.1@
                == "Config incomplete. Run shirl interactively first to set up a default model."@,
        },
{
    match config {
        Some(c) => {
            if c.is_complete() {
                return Ok(c);
            }
        },
        None => {},
    }
    Err(
        (
            EXIT_CONFIG_INCOMPLETE,
            copy("Config incomplete. Run shirl interactively first to set up a default model."),
        ),
    )
}

/// What the turn of a run comes to: its reply, or what is said and how the run ends. A handoff
/// has no meaning there.
pub fn headless_reply(outcome: TurnOutcome) -> (r: Result<String, (i32, String)>)
    ensures
        match outcome {
            TurnOutcome::Message(t) => r == Ok::<String, (i32, String)>(t),
            TurnOutcome::Handoff { .. } => r matches Err(e) && e.0 == EXIT_ERROR && e.1@
                == "Error: unexpected handoff in headless mode"@,
            TurnOutcome::Failed(m) => r matches Err(e) && e.0 == EXIT_ERROR && e.1@ == "Error: "@
                + m@,
        },
{
    match outcome {
        TurnOutcome::Message(t) => Ok(t),
        TurnOutcome::Handoff { .. } => Err(
            (EXIT_ERROR, copy("Error: unexpected handoff in headless mode")),
        ),
        TurnOutcome::Failed(m) => {
            let mut e = copy("Error: ");
            e.append(m.as_str());
            Err((EXIT_ERROR, e))
        },
    }
}

/// What a finished run prints: text or a JSON report.
pub enum HeadlessOutput {
    Text(String),
    Json(JsonReport),
}

/// What came of a run: what is printed and said, and how it ends.
pub struct HeadlessResult {
    pub output: Option<HeadlessOutput>,
    pub note: String,
    pub exit_code: i32,
}

/// What comes of a run once its turn is over. `stat`, `diff` and `names` are what git says of
/// the working tree; the difference itself is printed only where it is asked for.
pub fn run_headless(
    outcome: TurnOutcome,
    format: OutputFormat,
    include_diff: bool,
    session_id: &str,
    stat: Option<String>,
    diff: Option<String>,
    names: Option<String>,
) -> (r: HeadlessResult)
    ensures
        match outcome {
            TurnOutcome::Message(reply) => {
                let shown = if include_diff {
                    opt_text(diff)
                } else {
                    None
                };
                &&& r.exit_code == EXIT_SUCCESS
                &&& r.note@ == "session: "@ + session_id@
                &&& match format {
                    OutputFormat::Text => r.output matches Some(HeadlessOutput::Text(t)) && t@
                        == text_report(reply@, opt_text(stat), shown),
                    OutputFormat::Json => r.output matches Some(HeadlessOutput::Json(j))
                        && j.session_id@ == session_id@ && j.result@ == reply@ && texts(
                        j.files_touched@,
                    ) == (match names {
                        Some(s) => lines(s@),
                        None => Seq::empty(),
                    }) && opt_text(j.diff_stat) == (match stat {
                        Some(s) => Some(trim_end(s@)),
                        None => None,
                    }) && opt_text(j.diff) == shown,
                }
            },
            TurnOutcome::Handoff { .. } => r.output is None && r.exit_code == EXIT_ERROR && r.note@
                == "Error: unexpected handoff in headless mode"@,
            TurnOutcome::Failed(m) => r.output is None && r.exit_code == EXIT_ERROR && r.note@
                == "Error: "@ + m@,
        },
{
    match headless_reply(outcome) {
        Err((exit_code, note)) => HeadlessResult { output: None, note, exit_code },
        Ok(reply) => {
            let shown = if include_diff {
                diff
            } else {
                None
            };
            let output = match format {
                OutputFormat::Text => HeadlessOutput::Text(
                    text_output(reply.as_str(), &stat, &shown),
                ),
                OutputFormat::Json => HeadlessOutput::Json(
                    json_output(session_id, reply.as_str(), &names, &stat, &shown),
                ),
            };
            let mut note = copy("session: ");
            note.append(session_id);
            HeadlessResult { output: Some(output), note, exit_code: EXIT_SUCCESS }
        },
    }
}

/// The reply of a run is printed first and whole, whatever git says of the working tree.
pub proof fn replies_are_always_printed(
    reply: Seq<char>,
    stat: Option<Seq<char>>,
    diff: Option<Seq<char>>,
)
    ensures
        reply.len() > 0 ==> starts_with(text_report(reply, stat, diff), reply + "\n"@),
        reply.len() > 0 ==> text_report(reply, None, None) == reply + "\n"@,
        text_report(Seq::empty(), None, None).len() == 0,
{
    let r = text_report(reply, stat, diff);
    if reply.len() > 0 {
        assert(r.take((reply + "\n"@).len() as int) =~= reply + "\n"@);
        assert(text_report(reply, None, None) =~= reply + "\n"@);
    }
}

/// The changes are printed behind the reply whatever the reply and the difference are: under
/// their heading, and as git gives them but for white space at the end.
pub proof fn changes_are_always_printed(
    reply: Seq<char>,
    stat: Seq<char>,
    diff: Option<Seq<char>>,
)
    ensures
        text_report(reply, Some(stat), None) == text_report(reply, None, None)
            + "\n── changes ──\n"@ + trim_end(stat) + "\n"@,
        starts_with(
            text_report(reply, Some(stat), diff),
            text_report(reply, Some(stat), None),
        ),
{
    let short = text_report(reply, Some(stat), None);
    assert(text_report(reply, Some(stat), diff).take(short.len() as int) =~= short);
    assert(short =~= text_report(reply, None, None) + "\n── changes ──\n"@ + trim_end(stat)
        + "\n"@);
}

/// The difference, where it is asked for, is printed last and as git gives it, whatever is
/// printed before it.
pub proof fn differences_are_printed_last(
    reply: Seq<char>,
    stat: Option<Seq<char>>,
    diff: Seq<char>,
)
    ensures
        text_report(reply, stat, Some(diff)) == text_report(reply, stat, None) + diff + "\n"@,
{
    assert(text_report(reply, stat, Some(diff)) =~= text_report(reply, stat, None) + diff
        + "\n"@);
}

/// The lines shown of a tool's result are the first ones, in order, and all of them where they
/// are few.
pub proof fn results_are_shown_from_the_top(ls: Seq<Seq<char>>, i: int)
    requires
        0 <= i < ls.len(),
    ensures
        first_three(ls).len() <= 3,
        i < 3 ==> i < first_three(ls).len() && first_three(ls)[i] == ls[i],
        first_three(ls).len() <= ls.len(),
{
}

/// A run that went well prints its reply whole and says which session it was: as text the reply
/// comes first, as JSON it is the result.
pub proof fn finished_runs_print_their_reply(
    outcome: TurnOutcome,
    format: OutputFormat,
    include_diff: bool,
    session_id: &str,
    stat: Option<String>,
    diff: Option<String>,
    names: Option<String>,
    r: HeadlessResult,
)
    requires
        call_ensures(
            run_headless,
            (outcome, format, include_diff, session_id, stat, diff, names),
            r,
        ),
    ensures
        outcome matches TurnOutcome::Message(reply) ==> {
            &&& r.exit_code == 0
            &&& r.note@ == "session: "@ + session_id@
            &&& format == OutputFormat::Text && reply@.len() > 0 ==> (r.output matches Some(
                HeadlessOutput::Text(t),
            ) && starts_with(t@, reply@ + "\n"@))
            &&& format == OutputFormat::Json ==> (r.output matches Some(HeadlessOutput::Json(j))
                && j.result@ == reply@ && j.session_id@ == session_id@ && (j.diff is Some) == (
            include_diff && diff is Some))
            &&& format == OutputFormat::Text && !include_diff ==> (r.output matches Some(
                HeadlessOutput::Text(t),
            ) && t@ == text_report(reply@, opt_text(stat), None))
            &&& format == OutputFormat::Text && include_diff && diff is Some ==> (
            r.output matches Some(HeadlessOutput::Text(t)) && t@ == text_report(
                reply@,
                opt_text(stat),
                None,
            ) + (diff->0)@ + "\n"@)
        },
        !(outcome is Message) ==> r.exit_code == 1 && r.output is None,
{
    match outcome {
        TurnOutcome::Message(reply) => {
            let shown = if include_diff {
                opt_text(diff)
            } else {
                None
            };
            replies_are_always_printed(reply@, opt_text(stat), shown);
            if diff is Some {
                differences_are_printed_last(reply@, opt_text(stat), (diff->0)@);
            }
        },
        _ => {},
    }
}

/// What is printed as text starts with the reply, and as JSON the reply is the result, beside the
/// files that git names, one for each line.
pub proof fn outputs_hold_the_reply(
    session_id: &str,
    reply: &str,
    names: Option<String>,
    stat: Option<String>,
    diff: Option<String>,
    text: String,
    json: JsonReport,
)
    requires
        call_ensures(text_output, (reply, &stat, &diff), text),
        call_ensures(json_output, (session_id, reply, &names, &stat, &diff), json),
    ensures
        reply@.len() > 0 ==> starts_with(text@, reply@ + "\n"@),
        diff matches Some(d) ==> text@.len() > d@.len() && text@.skip(text@.len() - d@.len() - 1)
            == d@ + "\n"@,
        json.result@ == reply@,
        json.session_id@ == session_id@,
        json.diff == diff,
        (json.diff_stat is Some) == (stat is Some),
        stat matches Some(s) ==> opt_text(json.diff_stat) == Some(trim_end(s@)),
        names matches Some(n) ==> texts(json.files_touched@) == lines(n@),
        names is None ==> json.files_touched@.len() == 0,
{
    replies_are_always_printed(reply@, opt_text(stat), opt_text(diff));
    if diff is Some {
        let d = (diff->0)@;
        differences_are_printed_last(reply@, opt_text(stat), d);
        let before = text_report(reply@, opt_text(stat), None);
        reveal_strlit("\n");
        assert(text@ == before + d + "\n"@);
        assert(text@.skip(before.len() as int) =~= d + "\n"@);
    }
    if names is None {
        assert(texts(json.files_touched@).len() == json.files_touched@.len());
    }
}

/// Only a reply counts as success: a run that failed, or that ended in a handoff, ends with an
/// error that says so.
pub proof fn failed_runs_say_so(outcome: TurnOutcome, r: Result<String, (i32, String)>)
    requires
        call_ensures(headless_reply, (outcome,), r),
    ensures
        (r is Ok) == (outcome is Message),
        outcome matches TurnOutcome::Message(t) ==> r == Ok::<String, (i32, String)>(t),
        r matches Err(e) ==> e.0 == 1,
        outcome matches TurnOutcome::Failed(m) ==> (r matches Err(e) && e.1@ == "Error: "@ + m@),
{
}

/// A run without a user starts exactly with a configuration that names a provider and a model.
pub proof fn runs_start_with_a_model(
    config: Option<ShirlConfig>,
    r: Result<ShirlConfig, (i32, String)>,
)
    requires
        call_ensures(headless_config, (config,), r),
    ensures
        (r is Ok) == (config is Some && (config->0).default.provider@.len() > 0 && (
        config->0).default.model@.len() > 0),
        r matches Ok(c) ==> config == Some(c),
        r matches Err(e) ==> e.0 == 5,
{
}

/// What is shown of a tool: its name and its arguments when it is called, and of its result the
/// first three lines, in order and marked.
pub proof fn tools_are_shown(
    name: &str,
    args: CallArguments,
    line: String,
    result: &str,
    shown: Vec<String>,
    i: int,
)
    requires
        call_ensures(tool_call_line, (name, &args), line),
        call_ensures(tool_result_lines, (result,), shown),
    ensures
        starts_with(line@, "· "@ + name@ + "("@),
        args matches CallArguments::Text(t) ==> line@ == "· "@ + name@ + "("@ + t@ + ")"@,
        args matches CallArguments::Json(j) ==> (j@.len() <= 80 ==> line@ == "· "@ + name@ + "("@
            + j@ + ")"@),
        0 <= i < 3 && i < lines(result@).len() && lines(result@)[i].len() <= 120 ==> i
            < shown@.len() && shown@[i]@ == "  ↳ "@ + lines(result@)[i],
        shown@.len() <= 3,
{
    let head = "· "@ + name@ + "("@;
    assert(line@.take(head.len() as int) =~= head);
    assert(texts(shown@).len() == shown@.len());
    if 0 <= i < 3 && i < lines(result@).len() {
        assert(texts(shown@)[i] == shown@[i]@);
    }
}

/// What git prints counts where git worked and printed anything, and then whole.
pub proof fn git_is_taken_at_its_word(success: bool, stdout: String, r: Option<String>)
    requires
        call_ensures(git_text, (success, stdout), r),
    ensures
        success && !is_blank(stdout@) ==> r == Some(stdout),
        !success || is_blank(stdout@) ==> r is None,
{
}

} // verus!
