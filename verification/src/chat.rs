//! What a line that the user enters means: a turn of the conversation, or one of the slash
//! commands.
use crate::agents::{
    AgentKind, ModeCommand, ModeView, every_switch_passes_through_main, mode_command,
    resolve_mode_command,
};
use crate::bytes::{cut_at_boundary, longer_than, start_until, utf8_len};
use crate::catalog::{Catalog, OptionView, Protocol, ReasoningOption, option_views, provider_in};
use crate::config::{ReasoningPref, ShirlConfig};
use crate::custom_commands::{arguments_reach_the_prompt, render_template, rendered};
use crate::factory::{can_disable, can_disable_reasoning};
use crate::model::{capabilities, reasoning_capability_summary};
use crate::picker::{display_name, provider_display_name};
use crate::slash::{
    lone_commands_read_back, parse_slash_command, reading_ignores_space_around, slash_command,
    typed_commands_read_back,
};
use crate::sort::{is_sorted_of, sorted, sorting_keeps_every_value};
use crate::text::{
    ascii_lowered, blank, chars_of, contains, copy, copy_all, decimal, decimal_text, is_blank,
    is_digit, is_space, join, joined, lemma_find_is, lines, lines_of, lower,
    lowering_maps_capitals_only, numbers_read_back, opt_text, parse_u32, parsed_u32, same,
    same_ignoring_case, split_at_first, split_once, stands_at, starts_with, texts, trim, trim_span,
    trimmed, trimming_twice_is_trimming_once, without_prefix,
};
use crate::turn::lemma_named_by_provider;
use vstd::prelude::*;

verus! {

/// The longest diff that is put into a review's instructions, in bytes.
pub const MAX_REVIEW_DIFF_BYTES: usize = 30_000;

// ---------------------------------------------------------------------------
// Routing a line
// ---------------------------------------------------------------------------
/// What a line means.
#[derive(Debug, PartialEq, Eq)]
pub enum ChatRoute {
    /// A turn: what runs is cancelled, then the line is shown and sent.
    Turn,
    /// A slash without a command: it is shown, and that is all.
    Nothing,
    /// The model picker opens.
    PickModel,
    Model(String),
    Provider(String),
    Reasoning(String),
    Capabilities,
    Memory(String),
    Help,
    /// The mode switches. Where `wants_diff`, the changes in the working tree are looked at
    /// for instructions first.
    Switch { target: AgentKind, step_with: Option<String>, wants_diff: bool },
    /// A command that is not available in this mode.
    Refused(String),
    /// Another command: one that the user defined, or a built-in one.
    Other { name: String, args: String },
}

pub enum RouteView {
    Turn,
    Nothing,
    PickModel,
    Model(Seq<char>),
    Provider(Seq<char>),
    Reasoning(Seq<char>),
    Capabilities,
    Memory(Seq<char>),
    Help,
    Switch { target: AgentKind, step_with: Option<Seq<char>>, wants_diff: bool },
    Refused(Seq<char>),
    Other { name: Seq<char>, args: Seq<char> },
}

impl View for ChatRoute {
    type V = RouteView;

    open spec fn view(&self) -> RouteView {
        match *self {
            ChatRoute::Turn => RouteView::Turn,
            ChatRoute::Nothing => RouteView::Nothing,
            ChatRoute::PickModel => RouteView::PickModel,
            ChatRoute::Model(a) => RouteView::Model(a@),
            ChatRoute::Provider(a) => RouteView::Provider(a@),
            ChatRoute::Reasoning(a) => RouteView::Reasoning(a@),
            ChatRoute::Capabilities => RouteView::Capabilities,
            ChatRoute::Memory(a) => RouteView::Memory(a@),
            ChatRoute::Help => RouteView::Help,
            ChatRoute::Switch { target, step_with, wants_diff } => RouteView::Switch {
                target,
                step_with: opt_text(step_with),
                wants_diff,
            },
            ChatRoute::Refused(m) => RouteView::Refused(m@),
            ChatRoute::Other { name, args } => RouteView::Other { name: name@, args: args@ },
        }
    }
}

/// What the command `/name args` means in the mode `current`.
pub open spec fn command_route(name: Seq<char>, args: Seq<char>, current: AgentKind) -> RouteView {
    if name == "model"@ {
        if is_blank(args) {
            RouteView::PickModel
        } else {
            RouteView::Model(args)
        }
    } else if name == "provider"@ {
        RouteView::Provider(args)
    } else if name == "reasoning"@ {
        RouteView::Reasoning(args)
    } else if name == "capabilities"@ {
        RouteView::Capabilities
    } else if name == "memory"@ {
        RouteView::Memory(args)
    } else if name == "help"@ {
        RouteView::Help
    } else {
        match mode_command(name, args, current) {
            ModeView::Switch { target, step_with } => RouteView::Switch {
                target,
                step_with,
                wants_diff: target == AgentKind::Review && step_with is None,
            },
            ModeView::Invalid(m) => RouteView::Refused("Error: "@ + m),
            ModeView::NotModeCommand => RouteView::Other { name, args },
        }
    }
}

/// What a line means in the mode `current`.
pub open spec fn line_route(line: Seq<char>, current: AgentKind) -> RouteView {
    let t = trim(line);
    if t.len() > 0 && t[0] == '/' {
        match slash_command(t) {
            Some((name, args)) => command_route(name, args, current),
            None => RouteView::Nothing,
        }
    } else {
        RouteView::Turn
    }
}

fn route_command(name: String, args: String, current: AgentKind) -> (r: ChatRoute)
    ensures
        r@ == command_route(name@, args@, current),
{
    let n = name.as_str();
    if same(n, "model") {
        if blank(args.as_str()) {
            ChatRoute::PickModel
        } else {
            ChatRoute::Model(args)
        }
    } else if same(n, "provider") {
        ChatRoute::Provider(args)
    } else if same(n, "reasoning") {
        ChatRoute::Reasoning(args)
    } else if same(n, "capabilities") {
        ChatRoute::Capabilities
    } else if same(n, "memory") {
        ChatRoute::Memory(args)
    } else if same(n, "help") {
        ChatRoute::Help
    } else {
        match resolve_mode_command(n, args.as_str(), current) {
            ModeCommand::Switch(s) => {
                let wants_diff = s.target == AgentKind::Review && s.step_with.is_none();
                ChatRoute::Switch { target: s.target, step_with: s.step_with, wants_diff }
            },
            ModeCommand::Invalid(m) => {
                let mut e = copy("Error: ");
                e.append(m.as_str());
                ChatRoute::Refused(e)
            },
            ModeCommand::NotModeCommand => ChatRoute::Other { name, args },
        }
    }
}

/// What a line means in the mode `current`.
pub fn handle_chat_input(line: &str, current: AgentKind) -> (r: ChatRoute)
    ensures
        r@ == line_route(line@, current),
{
    let t = trimmed(line);
    let v = chars_of(t.as_str());
    if v.len() > 0 && v[0] == '/' {
        match parse_slash_command(t.as_str()) {
            Some((name, args)) => route_command(name, args, current),
            None => ChatRoute::Nothing,
        }
    } else {
        ChatRoute::Turn
    }
}

/// A line that is not a slash command is a turn in every mode, and no slash command is one.
pub proof fn only_plain_lines_are_turns(line: Seq<char>, current: AgentKind)
    ensures
        (line_route(line, current) is Turn) == !(trim(line).len() > 0 && trim(line)[0] == '/'),
{
}

/// What a command that is neither hardwired nor a mode's comes to.
#[derive(Debug, PartialEq, Eq)]
pub enum OtherCommand {
    /// A turn with this text; what runs is cancelled first.
    Template(String),
    /// A built-in command. Where `distill_first`, what the session says is distilled into
    /// memories before the command takes the session away.
    BuiltIn { distill_first: bool },
}

/// What the command `/name args` comes to, where a user defined it with `template`, or nobody
/// did.
pub fn resolve_other(name: &str, args: &str, template: Option<&str>, memory_wired: bool) -> (r:
    OtherCommand)
    ensures
        match template {
            Some(t) => r matches OtherCommand::Template(text) && text@ == rendered(t@, args@),
            None => r == (OtherCommand::BuiltIn {
                distill_first: name@ == "new"@ && memory_wired,
            }),
        },
{
    match template {
        Some(t) => OtherCommand::Template(render_template(t, args)),
        None => OtherCommand::BuiltIn { distill_first: memory_wired && same(name, "new") },
    }
}

/// Whether a command took the session's title away: the session is another one, or empty.
pub fn session_was_reset(before: &str, after: &str, items: usize) -> (r: bool)
    ensures
        r == (after@ != before@ || items == 0),
{
    !same(after, before) || items == 0
}

/// The lines of the help on the keyboard.
pub open spec fn help_texts() -> Seq<Seq<char>> {
    seq![
        "Keyboard shortcuts:"@,
        "  Shift+Tab  cycle permission mode (normal -> accept edits -> auto)"@,
        "  Ctrl+J     insert newline"@,
        "  Ctrl+C     cancel current turn"@,
        "  Ctrl+D     exit (on empty input)"@,
    ]
}

/// The lines of the help on the keyboard.
pub fn help_lines() -> (r: Vec<String>)
    ensures
        texts(r@) == help_texts(),
{
    let mut r: Vec<String> = Vec::new();
    r.push(copy("Keyboard shortcuts:"));
    r.push(copy("  Shift+Tab  cycle permission mode (normal -> accept edits -> auto)"));
    r.push(copy("  Ctrl+J     insert newline"));
    r.push(copy("  Ctrl+C     cancel current turn"));
    r.push(copy("  Ctrl+D     exit (on empty input)"));
    assert(texts(r@) =~= help_texts());
    r
}

/// What a review is told by default: the changes in the working tree, unless there are none or
/// they are too long.
pub fn default_review_instruction(diff: &str) -> (r: Option<String>)
    ensures
        opt_text(r) == (if is_blank(diff@) || utf8_len(diff@) > MAX_REVIEW_DIFF_BYTES {
            None
        } else {
            Some("Review the following git changes:\n\n"@ + diff@)
        }),
{
    if blank(diff) || longer_than(diff, MAX_REVIEW_DIFF_BYTES) {
        None
    } else {
        let mut r = copy("Review the following git changes:\n\n");
        r.append(diff);
        Some(r)
    }
}

/// What the user is told where a review starts without instructions.
pub fn review_waits(instruction: &Option<String>) -> (r: Option<String>)
    ensures
        opt_text(r) == (if instruction is None {
            Some("Review mode: waiting for instructions."@)
        } else {
            None
        }),
{
    match instruction {
        None => Some(copy("Review mode: waiting for instructions.")),
        Some(_) => None,
    }
}

// ---------------------------------------------------------------------------
// /model
// ---------------------------------------------------------------------------
/// What `/model args` comes to.
#[derive(Debug, PartialEq, Eq)]
pub enum ModelRequest {
    Say(String),
    Switch { provider: String, model: String },
}

/// What `/model args` comes to while the model `current` is in use: without arguments its name,
/// else a switch to a provider and model, divided by a slash.
pub fn handle_model_command(args: &str, current: &str) -> (r: ModelRequest)
    ensures
        ({
            let t = trim(args@);
            if t.len() == 0 {
                r matches ModelRequest::Say(line) && line@ == "Current model: "@ + current@
            } else {
                match split_once(t, "/"@) {
                    Some(p) => r matches ModelRequest::Switch { provider, model } && (
                        provider@,
                        model@,
                    ) == p,
                    None => r matches ModelRequest::Say(line) && line@ == "Ambiguous model '"@ + t
                        + "'. Use provider/model_id (e.g. openai/gpt-4o)"@,
                }
            }
        }),
{
    let t = trimmed(args);
    if t.as_str().is_empty() {
        let mut line = copy("Current model: ");
        line.append(current);
        return ModelRequest::Say(line);
    }
    match split_at_first(t.as_str(), "/") {
        Some((provider, model)) => ModelRequest::Switch { provider, model },
        None => {
            let mut line = copy("Ambiguous model '");
            line.append(t.as_str());
            line.append("'. Use provider/model_id (e.g. openai/gpt-4o)");
            ModelRequest::Say(line)
        },
    }
}

/// What the user is told when the model picker is asked for: nothing opens unless a provider
/// is connected.
pub fn open_model_picker(connected: usize, current: &str) -> (r: (String, bool))
    ensures
        r.1 == (connected > 0),
        r.0@ == (if connected > 0 {
            "Current model: "@ + current@
        } else {
            "No providers connected. Use /provider to connect one."@
        }),
{
    if connected == 0 {
        (copy("No providers connected. Use /provider to connect one."), false)
    } else {
        let mut line = copy("Current model: ");
        line.append(current);
        (line, true)
    }
}

// ---------------------------------------------------------------------------
// /reasoning
// ---------------------------------------------------------------------------
/// What a wish about reasoning says.
pub struct PrefView {
    pub enabled: Option<bool>,
    pub effort: Option<Seq<char>>,
    pub budget_tokens: Option<u32>,
}

pub open spec fn pref_view(p: ReasoningPref) -> PrefView {
    PrefView { enabled: p.enabled, effort: opt_text(p.effort), budget_tokens: p.budget_tokens }
}

/// What a wish says, part by part.
pub open spec fn pref_parts(p: PrefView) -> Seq<Seq<char>> {
    let on = match p.enabled {
        Some(b) => seq![
            if b {
                "on"@
            } else {
                "off"@
            },
        ],
        None => Seq::empty(),
    };
    let effort = match p.effort {
        Some(e) => seq!["effort="@ + e],
        None => Seq::empty(),
    };
    let budget = match p.budget_tokens {
        Some(n) => seq!["budget="@ + decimal(n as nat)],
        None => Seq::empty(),
    };
    on + effort + budget
}

/// A wish in words.
pub open spec fn pref_text(p: Option<PrefView>) -> Seq<char> {
    match p {
        None => "default (catalog)"@,
        Some(p) => if pref_parts(p).len() == 0 {
            "default (catalog)"@
        } else {
            join(pref_parts(p), ", "@)
        },
    }
}

pub open spec fn opt_pref(p: Option<&ReasoningPref>) -> Option<PrefView> {
    match p {
        Some(p) => Some(pref_view(*p)),
        None => None,
    }
}

/// A wish about reasoning in words.
pub fn describe_reasoning_pref(pref: Option<&ReasoningPref>) -> (r: String)
    ensures
        r@ == pref_text(opt_pref(pref)),
{
    match pref {
        None => copy("default (catalog)"),
        Some(p) => {
            let mut parts: Vec<String> = Vec::new();
            match p.enabled {
                Some(b) => {
                    parts.push(
                        if b {
                            copy("on")
                        } else {
                            copy("off")
                        },
                    );
                },
                None => {},
            }
            match &p.effort {
                Some(e) => {
                    let mut s = copy("effort=");
                    s.append(e.as_str());
                    parts.push(s);
                },
                None => {},
            }
            match p.budget_tokens {
                Some(n) => {
                    let mut s = copy("budget=");
                    let d = decimal_text(n as u64);
                    s.append(d.as_str());
                    parts.push(s);
                },
                None => {},
            }
            assert(texts(parts@) =~= pref_parts(pref_view(*p)));
            if parts.len() == 0 {
                copy("default (catalog)")
            } else {
                joined(&parts, ", ")
            }
        },
    }
}

/// The bounds of the first budget control from `i` on.
pub open spec fn budget_bounds(options: Seq<OptionView>, i: int) -> Option<
    (Option<u32>, Option<u32>),
>
    decreases options.len() - i,
{
    if i < 0 || i >= options.len() {
        None
    } else {
        match options[i] {
            OptionView::BudgetTokens { min, max } => Some((min, max)),
            _ => budget_bounds(options, i + 1),
        }
    }
}

/// The levels of effort of the first `n` controls.
pub open spec fn effort_levels(options: Seq<OptionView>, n: int) -> Seq<Seq<char>>
    decreases n,
{
    if n <= 0 || n > options.len() {
        Seq::empty()
    } else {
        match options[n - 1] {
            OptionView::Effort { values } => effort_levels(options, n - 1) + values,
            _ => effort_levels(options, n - 1),
        }
    }
}

/// Whether `level` is one of `levels` but for letter case.
pub open spec fn is_level(levels: Seq<Seq<char>>, level: Seq<char>) -> bool {
    exists|i: int| 0 <= i < levels.len() && lower(#[trigger] levels[i]) == lower(level)
}

pub open spec fn no_pref() -> PrefView {
    PrefView { enabled: None, effort: None, budget_tokens: None }
}

/// What an argument of `/reasoning` asks for: to forget what was wished, a new wish, or nothing
/// that fits the model, and why.
pub open spec fn reasoning_wish(arg: Seq<char>, options: Seq<OptionView>) -> Result<
    Option<PrefView>,
    Seq<char>,
> {
    let l = lower(arg);
    let levels = effort_levels(options, options.len() as int);
    if l == "default"@ || l == "reset"@ || l == "clear"@ {
        Ok(None)
    } else if l == "on"@ {
        Ok(Some(PrefView { enabled: Some(true), ..no_pref() }))
    } else if l == "off"@ {
        Ok(Some(PrefView { enabled: Some(false), ..no_pref() }))
    } else if parse_u32(arg) is Some {
        let budget = parse_u32(arg)->0;
        match budget_bounds(options, 0) {
            None => Err("this model does not support a thinking budget"@),
            Some((min, max)) => if min is Some && budget < min->0 {
                Err(
                    "budget "@ + decimal(budget as nat) + " is below this model's minimum of "@
                        + decimal((min->0) as nat),
                )
            } else if max is Some && budget > max->0 {
                Err(
                    "budget "@ + decimal(budget as nat) + " is above this model's maximum of "@
                        + decimal((max->0) as nat),
                )
            } else {
                Ok(Some(PrefView { budget_tokens: Some(budget), ..no_pref() }))
            },
        }
    } else if levels.len() == 0 {
        Err("unknown reasoning option '"@ + arg + "'"@)
    } else if !is_level(levels, arg) {
        Err(
            "'"@ + arg + "' is not a valid effort level (expected one of "@ + join(levels, "/"@)
                + ")"@,
        )
    } else {
        Ok(Some(PrefView { effort: Some(l), ..no_pref() }))
    }
}

fn bounds_of_budget(options: &Vec<ReasoningOption>) -> (r: Option<(Option<u32>, Option<u32>)>)
    ensures
        r == budget_bounds(option_views(options@), 0),
{
    let ghost views = option_views(options@);
    let mut i: usize = 0;
    while i < options.len()
        invariant
            i <= options@.len(),
            views == option_views(options@),
            budget_bounds(views, i as int) == budget_bounds(views, 0),
        decreases options@.len() - i,
    {
        assert(views[i as int] == options@[i as int]@);
        match &options[i] {
            ReasoningOption::BudgetTokens { min, max } => {
                return Some((*min, *max));
            },
            _ => {},
        }
        i += 1;
    }
    None
}

fn levels_of_effort(options: &Vec<ReasoningOption>) -> (r: Vec<String>)
    ensures
        texts(r@) == effort_levels(option_views(options@), options@.len() as int),
{
    let ghost views = option_views(options@);
    let mut r: Vec<String> = Vec::new();
    let mut i: usize = 0;
    assert(texts(r@) =~= Seq::empty());
    while i < options.len()
        invariant
            i <= options@.len(),
            views == option_views(options@),
            texts(r@) == effort_levels(views, i as int),
        decreases options@.len() - i,
    {
        assert(views[i as int] == options@[i as int]@);
        match &options[i] {
            ReasoningOption::Effort { values } => {
                let ghost r0 = texts(r@);
                let mut more = copy_all(values);
                r.append(&mut more);
                assert(texts(r@) =~= r0 + texts(values@));
            },
            _ => {},
        }
        i += 1;
    }
    r
}

fn names_level(levels: &Vec<String>, level: &str) -> (r: bool)
    ensures
        r == is_level(texts(levels@), level@),
{
    let mut i: usize = 0;
    while i < levels.len()
        invariant
            i <= levels@.len(),
            forall|k: int| 0 <= k < i ==> lower(#[trigger] texts(levels@)[k]) != lower(level@),
        decreases levels@.len() - i,
    {
        if same_ignoring_case(levels[i].as_str(), level) {
            assert(lower(texts(levels@)[i as int]) == lower(level@));
            return true;
        }
        i += 1;
    }
    false
}

/// Whether `r` says what `v` says.
pub open spec fn wish_is(
    r: Result<Option<ReasoningPref>, String>,
    v: Result<Option<PrefView>, Seq<char>>,
) -> bool {
    match r {
        Ok(None) => v == Ok::<Option<PrefView>, Seq<char>>(None),
        Ok(Some(p)) => v == Ok::<Option<PrefView>, Seq<char>>(Some(pref_view(p))),
        Err(e) => v == Err::<Option<PrefView>, Seq<char>>(e@),
    }
}

/// What an argument of `/reasoning` asks for, for a model with these controls.
pub fn parse_reasoning_arg(arg: &str, options: &Vec<ReasoningOption>) -> (r: Result<
    Option<ReasoningPref>,
    String,
>)
    ensures
        wish_is(r, reasoning_wish(arg@, option_views(options@))),
{
    let l = ascii_lowered(arg);
    let w = l.as_str();
    if same(w, "default") || same(w, "reset") || same(w, "clear") {
        return Ok(None);
    }
    if same(w, "on") {
        return Ok(
            Some(ReasoningPref { enabled: Some(true), effort: None, budget_tokens: None }),
        );
    }
    if same(w, "off") {
        return Ok(
            Some(ReasoningPref { enabled: Some(false), effort: None, budget_tokens: None }),
        );
    }
    match parsed_u32(arg) {
        Some(budget) => {
            let (min, max): (Option<u32>, Option<u32>) = match bounds_of_budget(options) {
                Some(b) => b,
                None => {
                    return Err(copy("this model does not support a thinking budget"));
                },
            };
            match min {
                Some(m) => {
                    if budget < m {
                        let mut e = copy("budget ");
                        let d = decimal_text(budget as u64);
                        e.append(d.as_str());
                        e.append(" is below this model's minimum of ");
                        let d = decimal_text(m as u64);
                        e.append(d.as_str());
                        return Err(e);
                    }
                },
                None => {},
            }
            match max {
                Some(m) => {
                    if budget > m {
                        let mut e = copy("budget ");
                        let d = decimal_text(budget as u64);
                        e.append(d.as_str());
                        e.append(" is above this model's maximum of ");
                        let d = decimal_text(m as u64);
                        e.append(d.as_str());
                        return Err(e);
                    }
                },
                None => {},
            }
            return Ok(
                Some(ReasoningPref { enabled: None, effort: None, budget_tokens: Some(budget) }),
            );
        },
        None => {},
    }
    let levels = levels_of_effort(options);
    assert(texts(levels@).len() == levels@.len());
    if levels.len() == 0 {
        let mut e = copy("unknown reasoning option '");
        e.append(arg);
        e.append("'");
        return Err(e);
    }
    if !names_level(&levels, arg) {
        let mut e = copy("'");
        e.append(arg);
        e.append("' is not a valid effort level (expected one of ");
        let list = joined(&levels, "/");
        e.append(list.as_str());
        e.append(")");
        return Err(e);
    }
    Ok(Some(ReasoningPref { enabled: None, effort: Some(l), budget_tokens: None }))
}

/// A wish that is accepted asks for one thing only, and a budget within the model's bounds.
pub proof fn accepted_wishes_fit_the_model(arg: Seq<char>, options: Seq<OptionView>)
    ensures
        reasoning_wish(arg, options) matches Ok(Some(p)) ==> {
            &&& (p.enabled is Some) as int + (p.effort is Some) as int + (p.budget_tokens is Some) as int
                == 1
            &&& p.budget_tokens matches Some(n) ==> (budget_bounds(options, 0) matches Some(b) && (
            b.0 matches Some(m) ==> n >= m) && (b.1 matches Some(m) ==> n <= m))
            &&& p.effort matches Some(e) ==> is_level(
                effort_levels(options, options.len() as int),
                e,
            )
        },
{
    if let Ok(Some(p)) = reasoning_wish(arg, options) {
        if p.effort is Some {
            let levels = effort_levels(options, options.len() as int);
            let i = choose|i: int| 0 <= i < levels.len() && lower(#[trigger] levels[i]) == lower(arg);
            assert(lower(lower(arg)) =~= lower(arg));
            assert(lower(levels[i]) == lower(p.effort->0));
        }
    }
}

/// What `/reasoning args` comes to.
pub enum ReasoningRequest {
    /// The user is told something, and nothing changes.
    Say(Vec<String>),
    /// The wish is kept, and the user is told so.
    Keep { pref: Option<ReasoningPref>, done: String },
}

/// The controls of a model in words.
pub open spec fn summary_text(options: Seq<OptionView>) -> Seq<char> {
    if options.len() == 0 {
        "on/off"@
    } else {
        join(capabilities(options), ", "@)
    }
}

/// Whether a wish is to turn reasoning off, and nothing else.
pub open spec fn turns_off(p: Option<PrefView>) -> bool {
    p == Some(PrefView { enabled: Some(false), ..no_pref() })
}

fn supported_line(options: &Vec<ReasoningOption>) -> (r: String)
    ensures
        r@ == "Supported: "@ + summary_text(option_views(options@)),
{
    let mut r = copy("Supported: ");
    let s = reasoning_capability_summary(options);
    r.append(s.as_str());
    r
}

/// What `/reasoning args` comes to for the model `provider/model`, which has these controls
/// and of which the user wishes `current`. Without arguments the user is told how things are.
/// A wish that does not fit is refused, and so is turning off what cannot be turned off.
pub fn handle_reasoning_command(
    args: &str,
    provider: &str,
    model: &str,
    current: Option<&ReasoningPref>,
    protocol: Option<Protocol>,
    options: &Vec<ReasoningOption>,
) -> (r: ReasoningRequest)
    ensures
        ({
            let arg = trim(args@);
            let name = provider@ + "/"@ + model@;
            let views = option_views(options@);
            let supported = "Supported: "@ + summary_text(views);
            if arg.len() == 0 {
                r matches ReasoningRequest::Say(lines) && texts(lines@) == seq![
                    "Reasoning for "@ + name + ": "@ + pref_text(opt_pref(current)),
                    supported,
                    "Usage: /reasoning <on|off|effort-level|budget-tokens|default>"@,
                ]
            } else {
                match reasoning_wish(arg, views) {
                    Err(e) => r matches ReasoningRequest::Say(lines) && texts(lines@) == seq![
                        "Error: "@ + e,
                        supported,
                    ],
                    Ok(p) => if turns_off(p) && protocol is Some && !can_disable(
                        protocol->0,
                        views,
                    ) {
                        r matches ReasoningRequest::Say(lines) && texts(lines@) == seq![
                            name
                                + " reasons by default and exposes no off-switch; reasoning stays on. No change made."@,
                            supported,
                        ]
                    } else {
                        r matches ReasoningRequest::Keep { pref, done } && wish_is(
                            Ok(pref),
                            Ok(p),
                        ) && done@ == "⏺ Reasoning set to "@ + pref_text(p) + " for "@ + name
                    },
                }
            }
        }),
{
    let arg = trimmed(args);
    let mut name = copy(provider);
    name.append("/");
    name.append(model);
    let mut lines: Vec<String> = Vec::new();
    if arg.as_str().is_empty() {
        let mut first = copy("Reasoning for ");
        first.append(name.as_str());
        first.append(": ");
        let d = describe_reasoning_pref(current);
        first.append(d.as_str());
        lines.push(first);
        lines.push(supported_line(options));
        lines.push(copy("Usage: /reasoning <on|off|effort-level|budget-tokens|default>"));
        assert(texts(lines@) =~= seq![
            "Reasoning for "@ + name@ + ": "@ + pref_text(opt_pref(current)),
            "Supported: "@ + summary_text(option_views(options@)),
            "Usage: /reasoning <on|off|effort-level|budget-tokens|default>"@,
        ]);
        return ReasoningRequest::Say(lines);
    }
    let pref = match parse_reasoning_arg(arg.as_str(), options) {
        Ok(p) => p,
        Err(m) => {
            let mut first = copy("Error: ");
            first.append(m.as_str());
            lines.push(first);
            lines.push(supported_line(options));
            assert(texts(lines@) =~= seq![
                "Error: "@ + m@,
                "Supported: "@ + summary_text(option_views(options@)),
            ]);
            return ReasoningRequest::Say(lines);
        },
    };
    let off = match &pref {
        Some(p) => p.enabled == Some(false) && p.effort.is_none() && p.budget_tokens.is_none(),
        None => false,
    };
    let stuck = match protocol {
        Some(p) => !can_disable_reasoning(p, options),
        None => false,
    };
    if off && stuck {
        let mut first = name.clone();
        first.append(
            " reasons by default and exposes no off-switch; reasoning stays on. No change made.",
        );
        lines.push(first);
        lines.push(supported_line(options));
        assert(texts(lines@) =~= seq![
            name@
                + " reasons by default and exposes no off-switch; reasoning stays on. No change made."@,
            "Supported: "@ + summary_text(option_views(options@)),
        ]);
        return ReasoningRequest::Say(lines);
    }
    let label = describe_reasoning_pref(pref.as_ref());
    let mut done = copy("⏺ Reasoning set to ");
    done.append(label.as_str());
    done.append(" for ");
    done.append(name.as_str());
    ReasoningRequest::Keep { pref, done }
}

// ---------------------------------------------------------------------------
// /provider
// ---------------------------------------------------------------------------
/// What `/provider args` comes to.
#[derive(Debug, PartialEq, Eq)]
pub enum ProviderRequest {
    /// A provider is to be picked and its key entered.
    Interactive,
    /// A provider is to be disconnected, and the user told so.
    Remove { provider: String, done: String },
    /// The user is told something, and nothing changes.
    Say(Vec<String>),
    /// A provider is to be connected, and the user told so.
    Connect { provider: String, key: String, done: String },
}

/// Whether a provider is known: to the catalog or to the user's configuration.
pub open spec fn is_known(provider: Seq<char>, catalog: Catalog, config: ShirlConfig) -> bool {
    provider_in(catalog, provider) is Some || config.providers@.contains_key(provider)
}

/// What `/provider args` comes to: without arguments a provider is picked; `--remove` with an
/// id disconnects it; an id and a key, divided by a space, connect a provider that is known.
pub fn handle_provider_command(args: &str, catalog: &Catalog, config: &ShirlConfig) -> (r:
    ProviderRequest)
    ensures
        ({
            let sub = trim(args@);
            if sub.len() == 0 {
                r is Interactive
            } else if starts_with(sub, "--remove "@) {
                let id = trim(sub.skip("--remove "@.len() as int));
                r matches ProviderRequest::Remove { provider, done } && provider@ == id && done@
                    == "Disconnected provider: "@ + id
            } else {
                match split_once(sub, " "@) {
                    None => r matches ProviderRequest::Say(lines) && texts(lines@) == seq![
                        "Usage: /provider <provider-id> <api-key>"@,
                        "       /provider --remove <provider-id>"@,
                    ],
                    Some((id, key)) => if is_known(id, *catalog, *config) {
                        r matches ProviderRequest::Connect { provider, key: k, done } && provider@
                            == id && k@ == key && done@ == "Connected provider: "@ + display_name(
                            id,
                            *catalog,
                            *config,
                        ) + " ("@ + id + ")"@
                    } else {
                        r matches ProviderRequest::Say(lines) && texts(lines@) == seq![
                            "Unknown provider: "@ + id
                                + ". Use a provider id from the catalog or define it in config.toml [providers."@
                                + id + "]"@,
                        ]
                    },
                }
            }
        }),
{
    let sub = trimmed(args);
    if sub.as_str().is_empty() {
        return ProviderRequest::Interactive;
    }
    match without_prefix(sub.as_str(), "--remove ") {
        Some(rest) => {
            let provider = trimmed(rest.as_str());
            let mut done = copy("Disconnected provider: ");
            done.append(provider.as_str());
            return ProviderRequest::Remove { provider, done };
        },
        None => {},
    }
    let mut lines: Vec<String> = Vec::new();
    match split_at_first(sub.as_str(), " ") {
        None => {
            lines.push(copy("Usage: /provider <provider-id> <api-key>"));
            lines.push(copy("       /provider --remove <provider-id>"));
            assert(texts(lines@) =~= seq![
                "Usage: /provider <provider-id> <api-key>"@,
                "       /provider --remove <provider-id>"@,
            ]);
            ProviderRequest::Say(lines)
        },
        Some((provider, key)) => {
            let id = provider.as_str();
            if catalog.get_provider(id).is_some() || config.providers.contains_key(id) {
                let mut done = copy("Connected provider: ");
                let display = provider_display_name(id, catalog, config);
                done.append(display.as_str());
                done.append(" (");
                done.append(id);
                done.append(")");
                ProviderRequest::Connect { provider, key, done }
            } else {
                let mut line = copy("Unknown provider: ");
                line.append(id);
                line.append(
                    ". Use a provider id from the catalog or define it in config.toml [providers.",
                );
                line.append(id);
                line.append("]");
                lines.push(line);
                assert(texts(lines@) =~= seq![line@]);
                ProviderRequest::Say(lines)
            }
        },
    }
}

// ---------------------------------------------------------------------------
// /capabilities
// ---------------------------------------------------------------------------
/// A heading with a number.
pub open spec fn counted(label: Seq<char>, n: nat) -> Seq<char> {
    "  "@ + label + " ("@ + decimal(n) + "):"@
}

/// Names on lines of their own, each behind `mark`.
pub open spec fn listed(mark: Seq<char>, names: Seq<Seq<char>>) -> Seq<Seq<char>> {
    Seq::new(names.len(), |i: int| mark + names[i])
}

/// What an agent can do, from names that are in order.
pub open spec fn capability_texts(
    kind: AgentKind,
    tools: Seq<Seq<char>>,
    handoffs: Seq<Seq<char>>,
    commands: Seq<Seq<char>>,
    custom: Seq<Seq<char>>,
) -> Seq<Seq<char>> {
    let head = seq![
        "Capabilities - "@ + kind.name() + " agent"@,
        counted("tools"@, tools.len()),
    ] + listed("    "@, tools);
    let with_handoffs = if handoffs.len() == 0 {
        head
    } else {
        head + seq![counted("handoffs"@, handoffs.len())] + listed("    "@, handoffs)
    };
    if commands.len() + custom.len() == 0 {
        with_handoffs
    } else {
        let divider = if commands.len() > 0 && custom.len() > 0 {
            seq!["    ── custom ──"@]
        } else {
            Seq::empty()
        };
        with_handoffs + seq![counted("commands"@, commands.len() + custom.len())] + listed(
            "    /"@,
            commands,
        ) + divider + listed("    /"@, custom)
    }
}

fn push_counted(lines: &mut Vec<String>, label: &str, n: u64)
    ensures
        texts(final(lines)@) == texts(old(lines)@) + seq![counted(label@, n as nat)],
{
    let ghost before = texts(lines@);
    let mut line = copy("  ");
    line.append(label);
    line.append(" (");
    let d = decimal_text(n);
    line.append(d.as_str());
    line.append("):");
    lines.push(line);
    assert(texts(lines@) =~= before + seq![counted(label@, n as nat)]);
}

fn push_listed(lines: &mut Vec<String>, mark: &str, names: &Vec<String>)
    ensures
        texts(final(lines)@) == texts(old(lines)@) + listed(mark@, texts(names@)),
{
    let ghost before = texts(lines@);
    let ghost want = listed(mark@, texts(names@));
    let mut i: usize = 0;
    assert(texts(lines@) =~= before + want.take(0));
    while i < names.len()
        invariant
            i <= names@.len(),
            want == listed(mark@, texts(names@)),
            texts(lines@) == before + want.take(i as int),
        decreases names@.len() - i,
    {
        let ghost l0 = texts(lines@);
        let mut line = copy(mark);
        line.append(names[i].as_str());
        lines.push(line);
        assert(texts(lines@) =~= l0.push(line@));
        i += 1;
        assert(texts(lines@) =~= before + want.take(i as int));
    }
    assert(want.take(i as int) =~= want);
}

/// What the agent `kind` can do: its tools, its handoffs and the commands, each sorted, with a
/// divider between the built-in commands and those that users defined.
pub fn capability_lines(
    kind: AgentKind,
    tools: Vec<String>,
    handoffs: Vec<String>,
    commands: Vec<String>,
    custom: Vec<String>,
) -> (r: Vec<String>)
    requires
        commands@.len() + custom@.len() <= usize::MAX,
    ensures
        exists|t: Seq<String>, h: Seq<String>, c: Seq<String>, u: Seq<String>|
            #![trigger is_sorted_of(t, tools@), is_sorted_of(h, handoffs@), is_sorted_of(c, commands@), is_sorted_of(u, custom@)]
            is_sorted_of(t, tools@) && is_sorted_of(h, handoffs@) && is_sorted_of(c, commands@)
                && is_sorted_of(u, custom@) && texts(r@) == capability_texts(
                kind,
                texts(t),
                texts(h),
                texts(c),
                texts(u),
            ),
{
    let tools = sorted(tools);
    let handoffs = sorted(handoffs);
    let commands = sorted(commands);
    let custom = sorted(custom);
    let mut lines: Vec<String> = Vec::new();
    let mut title = copy("Capabilities - ");
    title.append(kind.display_name());
    title.append(" agent");
    lines.push(title);
    assert(texts(lines@) =~= seq![title@]);
    push_counted(&mut lines, "tools", tools.len() as u64);
    assert(texts(lines@) =~= seq![title@, counted("tools"@, texts(tools@).len())]);
    push_listed(&mut lines, "    ", &tools);
    if handoffs.len() > 0 {
        push_counted(&mut lines, "handoffs", handoffs.len() as u64);
        push_listed(&mut lines, "    ", &handoffs);
    }
    let total: u64 = (commands.len() + custom.len()) as u64;
    if total > 0 {
        push_counted(&mut lines, "commands", total);
        push_listed(&mut lines, "    /", &commands);
        let ghost before = texts(lines@);
        if commands.len() > 0 && custom.len() > 0 {
            lines.push(copy("    ── custom ──"));
            assert(texts(lines@) =~= before + seq!["    ── custom ──"@]);
        } else {
            assert(texts(lines@) =~= before + Seq::<Seq<char>>::empty());
        }
        push_listed(&mut lines, "    /", &custom);
    }
    assert(texts(lines@) =~= capability_texts(
        kind,
        texts(tools@),
        texts(handoffs@),
        texts(commands@),
        texts(custom@),
    ));
    lines
}

/// The description of a command that a user defined.
pub open spec fn description_text(template: Seq<char>) -> Seq<char> {
    match first_line_from(lines(template), 0) {
        Some(t) => if utf8_len(t) > 60 {
            start_until(t, 60).push('…')
        } else {
            t
        },
        None => "custom command"@,
    }
}

/// The first line from `i` on that is not blank, trimmed.
pub open spec fn first_line_from(ls: Seq<Seq<char>>, i: int) -> Option<Seq<char>>
    decreases ls.len() - i,
{
    if i < 0 || i >= ls.len() {
        None
    } else if !is_blank(ls[i]) {
        Some(trim(ls[i]))
    } else {
        first_line_from(ls, i + 1)
    }
}

/// The description of a command that a user defined: the first line of its template that is
/// not blank, cut where it is long.
pub fn describe_template(template: &str) -> (r: String)
    ensures
        r@ == description_text(template@),
{
    let all = lines_of(template);
    let ghost ls = texts(all@);
    let mut i: usize = 0;
    while i < all.len()
        invariant
            i <= all@.len(),
            ls == texts(all@),
            ls == lines(template@),
            first_line_from(ls, i as int) == first_line_from(ls, 0),
        decreases all@.len() - i,
    {
        assert(ls[i as int] == all@[i as int]@);
        let t = trimmed(all[i].as_str());
        if !t.as_str().is_empty() {
            if longer_than(t.as_str(), 60) {
                let mut r = cut_at_boundary(t.as_str(), 60);
                r.push('…');
                return r;
            }
            return t;
        }
        i += 1;
    }
    copy("custom command")
}

/// A line is read without the white space around it. A command that is typed as a slash, a name
/// without white space, and then nothing or a space and arguments, is routed by that name with
/// those arguments, trimmed.
pub proof fn typed_commands_are_routed(
    line: Seq<char>,
    name: Seq<char>,
    args: Seq<char>,
    current: AgentKind,
)
    requires
        name.len() > 0,
        forall|i: int| 0 <= i < name.len() ==> !is_space(#[trigger] name[i]),
    ensures
        line_route(line, current) == line_route(trim(line), current),
        line_route("/"@ + name + " "@ + args, current) == command_route(name, trim(args), current),
        line_route("/"@ + name, current) == command_route(name, Seq::empty(), current),
{
    trimming_twice_is_trimming_once(line);
    reveal_strlit("/");
    reveal_strlit(" ");
    let typed = "/"@ + name + " "@ + args;
    typed_commands_read_back(name, args);
    reading_ignores_space_around(typed);
    let (a, b) = trim_span(typed);
    assert(typed[0] == '/');
    if a > 0 {
        assert(is_space(typed[0]));
    }
    if a >= b {
        assert(is_space(typed[0]));
    }
    assert(trim(typed)[0] == typed[0]);
    lone_commands_read_back(name);
    let lone = "/"@ + name;
    reading_ignores_space_around(lone);
    trimming_twice_is_trimming_once(lone);
    assert(lone[0] == '/');
    assert(lone.last() == name.last());
    assert(""@ =~= Seq::empty()) by {
        reveal_strlit("");
    }
}

proof fn lemma_route_names()
    ensures
        "model"@ != "provider"@ && "model"@ != "reasoning"@ && "model"@ != "capabilities"@,
        "model"@ != "memory"@ && "model"@ != "help"@ && "provider"@ != "reasoning"@,
        "provider"@ != "capabilities"@ && "provider"@ != "memory"@ && "provider"@ != "help"@,
        "reasoning"@ != "capabilities"@ && "reasoning"@ != "memory"@ && "reasoning"@ != "help"@,
        "capabilities"@ != "memory"@ && "capabilities"@ != "help"@ && "memory"@ != "help"@,
        "review"@ != "model"@ && "review"@ != "provider"@ && "review"@ != "reasoning"@,
        "review"@ != "capabilities"@ && "review"@ != "memory"@ && "review"@ != "help"@,
        "plan"@ != "help"@ && "plan"@ != "model"@ && "plan"@ != "provider"@,
        "plan"@ != "reasoning"@ && "plan"@ != "capabilities"@ && "plan"@ != "memory"@,
        "review"@ != "plan"@,
{
    reveal_strlit("model");
    reveal_strlit("provider");
    reveal_strlit("reasoning");
    reveal_strlit("capabilities");
    reveal_strlit("memory");
    reveal_strlit("help");
    reveal_strlit("review");
    reveal_strlit("plan");
    assert("review"@[0] == 'r' && "memory"@[0] == 'm');
    assert("plan"@[0] == 'p' && "help"@[0] == 'h');
    assert("model"@.len() == 5 && "provider"@.len() == 8 && "reasoning"@.len() == 9
        && "capabilities"@.len() == 12 && "memory"@.len() == 6 && "help"@.len() == 4
        && "review"@.len() == 6 && "plan"@.len() == 4);
}

/// The commands on models, providers, reasoning, capabilities, memory and help work in every
/// mode and with the arguments as typed. `/model` alone opens the picker.
pub proof fn settings_commands_work_in_every_mode(args: Seq<char>, current: AgentKind)
    ensures
        command_route("model"@, args, current) == if is_blank(args) {
            RouteView::PickModel
        } else {
            RouteView::Model(args)
        },
        command_route("provider"@, args, current) == RouteView::Provider(args),
        command_route("reasoning"@, args, current) == RouteView::Reasoning(args),
        command_route("capabilities"@, args, current) is Capabilities,
        command_route("memory"@, args, current) == RouteView::Memory(args),
        command_route("help"@, args, current) is Help,
{
    lemma_route_names();
}

/// A review that starts without instructions looks at the changes in the working tree, and
/// nothing else does.
pub proof fn bare_reviews_look_at_the_changes(
    name: Seq<char>,
    args: Seq<char>,
    current: AgentKind,
)
    ensures
        is_blank(args) ==> command_route("review"@, args, AgentKind::Main) == (RouteView::Switch {
            target: AgentKind::Review,
            step_with: None,
            wants_diff: true,
        }),
        !is_blank(args) ==> command_route("review"@, args, AgentKind::Main) == (RouteView::Switch {
            target: AgentKind::Review,
            step_with: Some(args),
            wants_diff: false,
        }),
        command_route(name, args, current) matches RouteView::Switch { target, wants_diff, .. } ==> (
        wants_diff ==> target == AgentKind::Review && current == AgentKind::Main),
{
    lemma_route_names();
    every_switch_passes_through_main(name, args, current);
}

/// A command of any other name is handed on as it was typed, in every mode.
pub proof fn other_commands_are_handed_on(name: Seq<char>, args: Seq<char>, current: AgentKind)
    requires
        name != "model"@ && name != "provider"@ && name != "reasoning"@,
        name != "capabilities"@ && name != "memory"@ && name != "help"@,
        name != "plan"@ && name != "review"@ && name != "approve"@ && name != "fix"@,
        name != "back"@,
    ensures
        command_route(name, args, current) == (RouteView::Other { name, args }),
{
}

proof fn lemma_wish_words()
    ensures
        "default"@.len() == 7 && "default"@[0] == 'd',
        "reset"@.len() == 5 && "reset"@[0] == 'r',
        "clear"@.len() == 5 && "clear"@[0] == 'c',
        "on"@.len() == 2 && "on"@[0] == 'o',
        "off"@.len() == 3 && "off"@[0] == 'o',
{
    reveal_strlit("default");
    reveal_strlit("reset");
    reveal_strlit("clear");
    reveal_strlit("on");
    reveal_strlit("off");
}

/// Reasoning can be asked to be on, off or as the catalog has it, for every model and in any
/// letter case.
pub proof fn plain_wishes_are_always_accepted(arg: Seq<char>, options: Seq<OptionView>)
    ensures
        lower(arg) == "on"@ ==> reasoning_wish(arg, options) == Ok::<Option<PrefView>, Seq<char>>(
            Some(PrefView { enabled: Some(true), effort: None, budget_tokens: None }),
        ),
        lower(arg) == "off"@ ==> reasoning_wish(arg, options) == Ok::<Option<PrefView>, Seq<char>>(
            Some(PrefView { enabled: Some(false), effort: None, budget_tokens: None }),
        ),
        lower(arg) == "default"@ || lower(arg) == "reset"@ || lower(arg) == "clear"@
            ==> reasoning_wish(arg, options) == Ok::<Option<PrefView>, Seq<char>>(None),
{
    lemma_wish_words();
}

/// A budget is accepted exactly within the bounds of the model's first budget control, and
/// where the model has none not at all. What is accepted is the number that was typed.
pub proof fn budgets_are_held_to_the_bounds(n: u32, options: Seq<OptionView>)
    ensures
        match budget_bounds(options, 0) {
            Some((min, max)) => if (min matches Some(m) ==> m <= n) && (max matches Some(m) ==> n
                <= m) {
                reasoning_wish(decimal(n as nat), options) == Ok::<Option<PrefView>, Seq<char>>(
                    Some(PrefView { enabled: None, effort: None, budget_tokens: Some(n) }),
                )
            } else {
                reasoning_wish(decimal(n as nat), options) is Err
            },
            None => reasoning_wish(decimal(n as nat), options) is Err,
        },
{
    let d = decimal(n as nat);
    numbers_read_back(n as nat);
    lemma_wish_words();
    assert(d.len() > 0);
    assert(is_digit(d[0]));
    lowering_maps_capitals_only(d, d[0]);
    assert(lower(d)[0] == d[0]);
}

/// The bounds are those of the first control on budgets, whatever other controls there are.
pub proof fn the_first_budget_control_counts(options: Seq<OptionView>, i: int, k: int)
    requires
        0 <= k <= i < options.len(),
        options[i] is BudgetTokens,
        forall|j: int| k <= j < i ==> !(#[trigger] options[j] is BudgetTokens),
    ensures
        budget_bounds(options, k) == Some(
            (options[i]->BudgetTokens_min, options[i]->BudgetTokens_max),
        ),
    decreases i - k,
{
    if k < i {
        assert(!(options[k] is BudgetTokens));
        the_first_budget_control_counts(options, i, k + 1);
    }
}

/// A level of effort that one of the model's controls offers is accepted in any letter case,
/// unless it reads as a number or as one of the plain wishes, and is kept in small letters. A
/// level that none of them offers is refused.
pub proof fn offered_levels_are_accepted(
    arg: Seq<char>,
    options: Seq<OptionView>,
    i: int,
    level: Seq<char>,
)
    requires
        parse_u32(arg) is None,
        lower(arg) != "on"@ && lower(arg) != "off"@ && lower(arg) != "default"@,
        lower(arg) != "reset"@ && lower(arg) != "clear"@,
    ensures
        0 <= i < options.len() && options[i] is Effort && options[i]->values.contains(level)
            && lower(level) == lower(arg) ==> reasoning_wish(arg, options) == Ok::<
            Option<PrefView>,
            Seq<char>,
        >(Some(PrefView { enabled: None, effort: Some(lower(arg)), budget_tokens: None })),
        (forall|j: int, l: Seq<char>|
            0 <= j < options.len() && #[trigger] options[j] is Effort
                && #[trigger] options[j]->values.contains(l) ==> lower(l) != lower(arg))
            ==> reasoning_wish(arg, options) is Err,
{
    let n = options.len() as int;
    let levels = effort_levels(options, n);
    if 0 <= i < n && options[i] is Effort && options[i]->values.contains(level) && lower(level)
        == lower(arg) {
        lemma_levels_hold(options, n, i, level);
        let k = choose|k: int| 0 <= k < levels.len() && levels[k] == level;
        assert(lower(levels[k]) == lower(arg));
        assert(is_level(levels, arg));
    }
    if reasoning_wish(arg, options) is Ok {
        assert(is_level(levels, arg));
        let k = choose|k: int|
            0 <= k < levels.len() && lower(#[trigger] levels[k]) == lower(arg);
        let j = level_comes_from(options, n, k);
        assert(options[j]->values.contains(levels[k]));
    }
}

proof fn lemma_levels_hold(options: Seq<OptionView>, n: int, i: int, level: Seq<char>)
    requires
        0 <= i < n <= options.len(),
        options[i] is Effort,
        options[i]->values.contains(level),
    ensures
        effort_levels(options, n).contains(level),
    decreases n,
{
    if i == n - 1 {
        let before = effort_levels(options, n - 1);
        let k = choose|k: int| 0 <= k < options[i]->values.len() && options[i]->values[k] == level;
        assert(effort_levels(options, n)[before.len() + k] == level);
    } else {
        lemma_levels_hold(options, n - 1, i, level);
        let before = effort_levels(options, n - 1);
        let k = choose|k: int| 0 <= k < before.len() && before[k] == level;
        assert(effort_levels(options, n)[k] == level);
    }
}

proof fn level_comes_from(options: Seq<OptionView>, n: int, k: int) -> (j: int)
    requires
        0 <= n <= options.len(),
        0 <= k < effort_levels(options, n).len(),
    ensures
        0 <= j < n,
        options[j] is Effort,
        options[j]->values.contains(effort_levels(options, n)[k]),
    decreases n,
{
    let before = effort_levels(options, n - 1);
    if k < before.len() {
        assert(effort_levels(options, n)[k] == before[k]);
        level_comes_from(options, n - 1, k)
    } else {
        let values = options[n - 1]->values;
        assert(effort_levels(options, n) == before + values);
        assert(values[k - before.len()] == effort_levels(options, n)[k]);
        n - 1
    }
}

/// A wish is told in words part by part: whether reasoning is on, the level and the budget, and
/// each of them is told whatever the others are.
pub proof fn every_part_of_a_wish_is_told(p: PrefView)
    ensures
        p.enabled == Some(true) ==> pref_parts(p).contains("on"@),
        p.enabled == Some(false) ==> pref_parts(p).contains("off"@),
        p.effort matches Some(e) ==> pref_parts(p).contains("effort="@ + e),
        p.budget_tokens matches Some(n) ==> pref_parts(p).contains("budget="@ + decimal(n as nat)),
        pref_parts(p).len() == (p.enabled is Some) as int + (p.effort is Some) as int + (
        p.budget_tokens is Some) as int,
        pref_text(None) == pref_text(Some(no_pref())),
        pref_parts(p).len() == 1 ==> pref_text(Some(p)) == pref_parts(p)[0],
{
    let parts = pref_parts(p);
    let a: int = (p.enabled is Some) as int;
    let b: int = a + (p.effort is Some) as int;
    if p.enabled is Some {
        assert(parts[0] == if p.enabled->0 {
            "on"@
        } else {
            "off"@
        });
    }
    if p.effort is Some {
        assert(parts[a] == "effort="@ + p.effort->0);
    }
    if p.budget_tokens is Some {
        assert(parts[b] == "budget="@ + decimal(p.budget_tokens->0 as nat));
    }
}

/// Everything that an agent can do is listed: each tool, each handoff and each command, built in
/// or defined by users, on a line of its own.
pub proof fn every_capability_is_listed(
    kind: AgentKind,
    tools: Seq<Seq<char>>,
    handoffs: Seq<Seq<char>>,
    commands: Seq<Seq<char>>,
    custom: Seq<Seq<char>>,
    i: int,
)
    requires
        0 <= i,
    ensures
        ({
            let r = capability_texts(kind, tools, handoffs, commands, custom);
            &&& r.len() > 0 && r[0] == "Capabilities - "@ + kind.name() + " agent"@
            &&& i < tools.len() ==> r.contains("    "@ + tools[i])
            &&& i < handoffs.len() ==> r.contains("    "@ + handoffs[i])
            &&& i < commands.len() ==> r.contains("    /"@ + commands[i])
            &&& i < custom.len() ==> r.contains("    /"@ + custom[i])
        }),
{
    let r = capability_texts(kind, tools, handoffs, commands, custom);
    let n = tools.len() as int;
    let h = handoffs.len() as int;
    let base: int = if h == 0 {
        2 + n
    } else {
        3 + n + h
    };
    if i < n {
        assert(r[2 + i] == "    "@ + tools[i]);
    }
    if i < h {
        assert(r[3 + n + i] == "    "@ + handoffs[i]);
    }
    if i < commands.len() {
        assert(r[base + 1 + i] == "    /"@ + commands[i]);
    }
    if i < custom.len() {
        let d: int = if commands.len() > 0 {
            1
        } else {
            0
        };
        assert(r[base + 1 + commands.len() + d + i] == "    /"@ + custom[i]);
    }
}

/// A command is described by the first line of its template that is not blank: whole where it is
/// short, and its start, marked as cut, where it is long.
pub proof fn descriptions_are_first_lines(template: Seq<char>, i: int)
    requires
        0 <= i < lines(template).len(),
        !is_blank(lines(template)[i]),
        forall|k: int| 0 <= k < i ==> is_blank(#[trigger] lines(template)[k]),
    ensures
        utf8_len(trim(lines(template)[i])) <= 60 ==> description_text(template) == trim(
            lines(template)[i],
        ),
        utf8_len(trim(lines(template)[i])) > 60 ==> description_text(template).len() > 0
            && description_text(template).last() == '…' && description_text(template).drop_last()
            == start_until(trim(lines(template)[i]), 60),
{
    lemma_first_line(lines(template), 0, i);
    assert(start_until(trim(lines(template)[i]), 60).push('…').drop_last() =~= start_until(
        trim(lines(template)[i]),
        60,
    ));
}

proof fn lemma_first_line(ls: Seq<Seq<char>>, k: int, i: int)
    requires
        0 <= k <= i < ls.len(),
        !is_blank(ls[i]),
        forall|j: int| k <= j < i ==> is_blank(#[trigger] ls[j]),
    ensures
        first_line_from(ls, k) == Some(trim(ls[i])),
    decreases i - k,
{
    if k < i {
        lemma_first_line(ls, k + 1, i);
    }
}

/// What the user types that is no command goes to the agent, and what is typed as a command goes
/// where its name says.
pub proof fn typed_lines_go_where_they_say(
    line: &str,
    current: AgentKind,
    r: ChatRoute,
    name: Seq<char>,
    args: Seq<char>,
)
    requires
        call_ensures(handle_chat_input, (line, current), r),
        name.len() > 0,
        forall|i: int| 0 <= i < name.len() ==> !is_space(#[trigger] name[i]),
    ensures
        is_blank(line@) || trim(line@)[0] != '/' ==> r is Turn,
        line@ == "/"@ + name + " "@ + args || trim(line@) == "/"@ + name + " "@ + args ==> r@
            == command_route(name, trim(args), current),
        line@ == "/"@ + name ==> r@ == command_route(name, Seq::empty(), current),
{
    only_plain_lines_are_turns(line@, current);
    typed_commands_are_routed(line@, name, args, current);
}

/// A command that a user defined becomes a turn with its template and its arguments, whatever its
/// name; any other command is a built-in one.
pub proof fn defined_commands_become_turns(
    name: &str,
    args: &str,
    template: Option<&str>,
    memory_wired: bool,
    r: OtherCommand,
)
    requires
        call_ensures(resolve_other, (name, args, template, memory_wired), r),
    ensures
        template matches Some(t) ==> (r matches OtherCommand::Template(text) && text@ == rendered(
            t@,
            args@,
        ) && (args@.len() > 0 ==> contains(text@, args@))),
        template is None ==> r is BuiltIn,
        template is None && memory_wired && name@ == "new"@ ==> r == (OtherCommand::BuiltIn {
            distill_first: true,
        }),
        !memory_wired ==> r != (OtherCommand::BuiltIn { distill_first: true }),
{
    if template is Some {
        arguments_reach_the_prompt((template->0)@, args@);
    }
}

/// A review without instructions is given the changes, whole, unless there are none or they are
/// longer than thirty thousand bytes; then the user is asked.
pub proof fn reviews_are_given_the_changes(diff: &str, r: Option<String>)
    requires
        call_ensures(default_review_instruction, (diff,), r),
    ensures
        !is_blank(diff@) && utf8_len(diff@) <= 30_000 ==> (r matches Some(t) && t@
            == "Review the following git changes:\n\n"@ + diff@),
        is_blank(diff@) || utf8_len(diff@) > 30_000 ==> r is None,
{
}

/// `/model` with a provider, a slash and a model, with white space around them or not, switches to
/// them; without a slash nothing is switched, and with nothing the model in use is told.
pub proof fn typed_models_are_switched_to(
    args: &str,
    current: &str,
    provider: Seq<char>,
    model: Seq<char>,
    r: ModelRequest,
)
    requires
        call_ensures(handle_model_command, (args, current), r),
        forall|i: int| 0 <= i < provider.len() ==> #[trigger] provider[i] != '/',
    ensures
        trim(args@) == provider + "/"@ + model ==> (r matches ModelRequest::Switch {
            provider: p,
            model: m,
        } && p@ == provider && m@ == model),
        is_blank(args@) ==> (r matches ModelRequest::Say(line) && line@ == "Current model: "@
            + current@),
        !contains(trim(args@), "/"@) ==> r is Say,
{
    lemma_named_by_provider(provider, model);
    reveal_strlit("/");
}

/// `/provider` with an id and a key connects a provider that is known, with that key; one that is
/// not known is refused; `--remove` and an id disconnects; and with nothing a provider is picked.
pub proof fn typed_providers_are_connected(
    args: &str,
    catalog: Catalog,
    config: ShirlConfig,
    id: Seq<char>,
    key: Seq<char>,
    r: ProviderRequest,
)
    requires
        call_ensures(handle_provider_command, (args, &catalog, &config), r),
        forall|i: int| 0 <= i < id.len() ==> #[trigger] id[i] != ' ' && id[i] != '-',
    ensures
        is_blank(args@) ==> r is Interactive,
        id.len() > 0 && trim(args@) == id + " "@ + key && is_known(id, catalog, config) ==> (
        r matches ProviderRequest::Connect { provider, key: k, .. } && provider@ == id && k@ == key),
        id.len() > 0 && trim(args@) == id + " "@ + key && !is_known(id, catalog, config) ==> r
            is Say,
        trim(args@) == "--remove "@ + key ==> (r matches ProviderRequest::Remove { provider, .. }
            && provider@ == trim(key)),
{
    reveal_strlit(" ");
    reveal_strlit("--remove ");
    let s = id + " "@ + key;
    let n = id.len() as int;
    assert(s.subrange(n, n + 1) =~= " "@);
    assert forall|k: int| 0 <= k < n implies !stands_at(s, " "@, k) by {
        if stands_at(s, " "@, k) {
            assert(s.subrange(k, k + 1)[0] == s[k]);
            assert(s[k] == id[k]);
        }
    }
    lemma_find_is(s, " "@, 0, n);
    assert(s.take(n) =~= id);
    assert(s.skip(n + 1) =~= key);
    if n > 0 {
        assert(s[0] == id[0]);
        if starts_with(s, "--remove "@) {
            assert(s.take("--remove "@.len() as int)[0] == s[0]);
        }
    }
    let t = "--remove "@ + key;
    assert(t.take("--remove "@.len() as int) =~= "--remove "@);
    assert(t.skip("--remove "@.len() as int) =~= key);
}

/// `/reasoning` keeps a wish that fits the model and that can be granted, and changes nothing
/// else: a wish that does not fit is refused, and with nothing the user is told how things are.
pub proof fn fitting_wishes_are_kept(
    args: &str,
    provider: &str,
    model: &str,
    current: Option<&ReasoningPref>,
    protocol: Option<Protocol>,
    options: Vec<ReasoningOption>,
    r: ReasoningRequest,
)
    requires
        call_ensures(
            handle_reasoning_command,
            (args, provider, model, current, protocol, &options),
            r,
        ),
    ensures
        is_blank(args@) ==> r is Say,
        !is_blank(args@) && reasoning_wish(trim(args@), option_views(options@)) is Err ==> r is Say,
        r matches ReasoningRequest::Keep { pref, .. } ==> (reasoning_wish(
            trim(args@),
            option_views(options@),
        ) matches Ok(p) && wish_is(Ok(pref), Ok(p))),
        !is_blank(args@) ==> (reasoning_wish(trim(args@), option_views(options@)) matches Ok(p)
            ==> (!turns_off(p) || protocol is None || can_disable(
            protocol->0,
            option_views(options@),
        ) ==> r is Keep)),
        lower(trim(args@)) == "on"@ ==> r is Keep,
{
    reveal_strlit("on");
    lowering_maps_capitals_only(trim(args@), ' ');
    plain_wishes_are_always_accepted(trim(args@), option_views(options@));
}

/// The model picker opens exactly where a provider is connected.
pub proof fn the_model_picker_needs_a_provider(connected: usize, current: &str, r: (String, bool))
    requires
        call_ensures(open_model_picker, (connected, current), r),
    ensures
        r.1 == (connected > 0),
        connected > 0 ==> r.0@ == "Current model: "@ + current@,
{
}

/// What an agent can do is listed line by line: each of its tools, its handoffs and the commands.
pub proof fn capabilities_are_listed_line_by_line(
    kind: AgentKind,
    tools: Vec<String>,
    handoffs: Vec<String>,
    commands: Vec<String>,
    custom: Vec<String>,
    r: Vec<String>,
    i: int,
)
    requires
        call_ensures(capability_lines, (kind, tools, handoffs, commands, custom), r),
        0 <= i,
    ensures
        i < tools@.len() ==> texts(r@).contains("    "@ + tools@[i]@),
        i < handoffs@.len() ==> texts(r@).contains("    "@ + handoffs@[i]@),
        i < commands@.len() ==> texts(r@).contains("    /"@ + commands@[i]@),
        i < custom@.len() ==> texts(r@).contains("    /"@ + custom@[i]@),
{
    let (t, h, c, u) = choose|t: Seq<String>, h: Seq<String>, c: Seq<String>, u: Seq<String>|
        #![trigger is_sorted_of(t, tools@), is_sorted_of(h, handoffs@), is_sorted_of(c, commands@), is_sorted_of(u, custom@)]
        is_sorted_of(t, tools@) && is_sorted_of(h, handoffs@) && is_sorted_of(c, commands@)
            && is_sorted_of(u, custom@) && texts(r@) == capability_texts(
            kind,
            texts(t),
            texts(h),
            texts(c),
            texts(u),
        );
    if i < tools@.len() {
        let j = sorted_place(t, tools@, i);
        every_capability_is_listed(kind, texts(t), texts(h), texts(c), texts(u), j);
    }
    if i < handoffs@.len() {
        let j = sorted_place(h, handoffs@, i);
        every_capability_is_listed(kind, texts(t), texts(h), texts(c), texts(u), j);
    }
    if i < commands@.len() {
        let j = sorted_place(c, commands@, i);
        every_capability_is_listed(kind, texts(t), texts(h), texts(c), texts(u), j);
    }
    if i < custom@.len() {
        let j = sorted_place(u, custom@, i);
        every_capability_is_listed(kind, texts(t), texts(h), texts(c), texts(u), j);
    }
}

proof fn sorted_place(s: Seq<String>, v: Seq<String>, i: int) -> (j: int)
    requires
        is_sorted_of(s, v),
        0 <= i < v.len(),
    ensures
        0 <= j < s.len(),
        texts(s)[j] == v[i]@,
{
    sorting_keeps_every_value(s, v);
    assert(v.contains(v[i]));
    let j = choose|j: int| 0 <= j < s.len() && s[j] == v[i];
    j
}

/// A session counts as reset where it is another one than before, and where it is empty.
pub proof fn resets_are_seen(before: &str, after: &str, items: usize, r: bool)
    requires
        call_ensures(session_was_reset, (before, after, items), r),
    ensures
        before@ != after@ ==> r,
        items == 0 ==> r,
        before@ == after@ && items > 0 ==> !r,
{
}

} // verus!
