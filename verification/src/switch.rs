//! Switching between agents and between models.
use crate::agents::{AgentKind, ModeSwitch, agents_are_found_by_name};
use crate::config::{
    ReasoningPref, ShirlConfig, agent_model_set, agents_fall_back_to_the_default, default_set,
    reasoning_set, switching_a_model_changes_nothing_else,
    telling_an_agent_to_reason_changes_nothing_else,
};
use crate::text::{contains, copy, copy_opt, opt_text, starts_with};
use crate::tracker::SourceKind;
use crate::tracking::{
    directive, instructions_are_kept, report_directive, reports_are_named_by_their_path,
    resolve_handover,
};
use vstd::prelude::*;

verus! {

/// A report to be kept before the main agent takes over.
#[derive(Debug, PartialEq, Eq)]
pub struct ReportToSave {
    pub kind: SourceKind,
    pub report: String,
    pub instruction: Option<String>,
}

/// Whether a switch hands a report over: from planning or reviewing to the main agent, with
/// something to say to it.
pub open spec fn hands_over(active: AgentKind, target: AgentKind, step_with: Option<String>) -> bool {
    target == AgentKind::Main && active != AgentKind::Main && step_with is Some
}

/// The report that a switch hands over, where there is a tracker to keep it. `reply` is the
/// last text of the outgoing agent.
pub fn report_to_save(
    active: AgentKind,
    target: AgentKind,
    step_with: &Option<String>,
    has_tracker: bool,
    reply: Option<String>,
) -> (r: Option<ReportToSave>)
    ensures
        (r is Some) == (hands_over(active, target, *step_with) && has_tracker),
        r matches Some(s) ==> {
            &&& s.kind == if active == AgentKind::Plan {
                SourceKind::Plan
            } else {
                SourceKind::Review
            }
            &&& match reply {
                Some(report) => s.report == report && s.instruction == *step_with,
                None => Some(s.report) == *step_with && s.instruction is None,
            }
        },
{
    if target != AgentKind::Main || active == AgentKind::Main || step_with.is_none() || !has_tracker {
        return None;
    }
    match resolve_handover(reply, copy_opt(step_with)) {
        Some(h) => {
            let kind = if active == AgentKind::Plan {
                SourceKind::Plan
            } else {
                SourceKind::Review
            };
            Some(ReportToSave { kind, report: h.report, instruction: h.instruction })
        },
        None => None,
    }
}

/// What the new agent is told: where a report was kept, where it lies; else what was to be
/// said anyway.
pub fn step_after_save(
    active: AgentKind,
    step_with: Option<String>,
    instruction: &Option<String>,
    saved_to: Option<&str>,
) -> (r: Option<String>)
    ensures
        match saved_to {
            Some(path) => opt_text(r) == Some(directive(active, path@, opt_text(*instruction))),
            None => r == step_with,
        },
{
    match saved_to {
        Some(path) => {
            let said = match instruction {
                Some(i) => Some(i.as_str()),
                None => None,
            };
            Some(report_directive(active, path, said))
        },
        None => step_with,
    }
}

/// What the user is shown of a mode: nothing of the main one.
pub open spec fn label_of_mode(target: AgentKind) -> Option<Seq<char>> {
    match target {
        AgentKind::Main => None,
        _ => Some(target.name()),
    }
}

/// What shows that the mode was switched: the mode, and a line.
pub fn mode_switched(target: AgentKind) -> (r: (Option<String>, String))
    ensures
        opt_text(r.0) == label_of_mode(target),
        r.1@ == "-> switched to "@ + target.name() + " mode"@,
{
    let label = match target {
        AgentKind::Main => None,
        AgentKind::Plan => Some(copy("plan")),
        AgentKind::Review => Some(copy("review")),
    };
    let mut line = copy("-> switched to ");
    line.append(target.display_name());
    line.append(" mode");
    (label, line)
}

/// What a mode switch needs and does, step by step, once whatever ran was stopped: the model
/// of the target, the report to keep, and after it is kept what is said first.
pub struct ModeSwitchPlan {
    pub target: AgentKind,
    pub save: Option<ReportToSave>,
    pub step_with: Option<String>,
}

/// The plan of a mode switch. There is none where the target has no model.
pub fn apply_mode_switch(
    switch: ModeSwitch,
    active: AgentKind,
    has_model: bool,
    has_tracker: bool,
    reply: Option<String>,
) -> (r: Result<ModeSwitchPlan, String>)
    ensures
        match r {
            Err(e) => !has_model && e@ == "no model configured for this agent"@,
            Ok(p) => {
                &&& has_model
                &&& p.target == switch.target
                &&& p.step_with == switch.step_with
                &&& (p.save is Some) == (hands_over(active, switch.target, switch.step_with)
                    && has_tracker)
                &&& p.save matches Some(s) ==> {
                    &&& s.kind == if active == AgentKind::Plan {
                        SourceKind::Plan
                    } else {
                        SourceKind::Review
                    }
                    &&& match reply {
                        Some(report) => s.report == report && s.instruction == switch.step_with,
                        None => Some(s.report) == switch.step_with && s.instruction is None,
                    }
                }
            },
        },
{
    if !has_model {
        return Err(copy("no model configured for this agent"));
    }
    let save = report_to_save(active, switch.target, &switch.step_with, has_tracker, reply);
    Ok(ModeSwitchPlan { target: switch.target, save, step_with: switch.step_with })
}

/// Whether an agent is given the todo list and its reminder: only the main one is, where there
/// is a tracker.
pub fn gets_tracker(kind: AgentKind, has_tracker: bool) -> (r: bool)
    ensures
        r == (kind == AgentKind::Main && has_tracker),
{
    kind == AgentKind::Main && has_tracker
}

/// Gives an agent another model in the configuration: for the main agent that is the default.
/// Says what the user is told.
pub fn apply_model_switch(
    config: &mut ShirlConfig,
    kind: AgentKind,
    provider: &str,
    model: &str,
) -> (r: String)
    ensures
        if kind == AgentKind::Main {
            default_set(*old(config), *final(config), provider@, model@)
        } else {
            agent_model_set(*old(config), *final(config), kind.name(), provider@, model@)
        },
        r@ == "⏺ Switched to "@ + provider@ + "/"@ + model@,
{
    match kind {
        AgentKind::Main => config.set_default(provider, model),
        AgentKind::Plan => config.set_agent_model("plan", provider, model),
        AgentKind::Review => config.set_agent_model("review", provider, model),
    }
    let mut line = copy("⏺ Switched to ");
    line.append(provider);
    line.append("/");
    line.append(model);
    line
}

/// Tells an agent how to reason in the configuration. Gives the provider and the model that it
/// uses, which are then set up anew.
pub fn apply_reasoning_switch(
    config: &mut ShirlConfig,
    kind: AgentKind,
    pref: Option<ReasoningPref>,
) -> (r: (String, String))
    ensures
        reasoning_set(*old(config), *final(config), kind.name(), pref),
        r.0@ == old(config).provider_of(kind.name()),
        r.1@ == old(config).model_of(kind.name()),
{
    let ghost before = *config;
    config.set_reasoning(kind.display_name(), pref);
    proof {
        telling_an_agent_to_reason_changes_nothing_else(
            before,
            *config,
            kind.name(),
            pref,
            kind.name(),
        );
    }
    let provider = copy(config.provider_for(kind.display_name()));
    let model = copy(config.model_for(kind.display_name()));
    (provider, model)
}

/// After a switch of its model an agent uses that model, unless it is the main agent and the
/// configuration has an entry of its own for it.
pub proof fn switched_models_are_used(
    old: ShirlConfig,
    new: ShirlConfig,
    kind: AgentKind,
    provider: Seq<char>,
    model: Seq<char>,
)
    requires
        if kind == AgentKind::Main {
            default_set(old, new, provider, model) && old.own_entry(kind.name()) is None
        } else {
            agent_model_set(old, new, kind.name(), provider, model)
        },
    ensures
        new.provider_of(kind.name()) == provider,
        new.model_of(kind.name()) == model,
{
    if kind == AgentKind::Main {
        agents_fall_back_to_the_default(old, new, provider, model, kind.name());
    } else {
        switching_a_model_changes_nothing_else(
            old,
            new,
            kind.name(),
            provider,
            model,
            kind.name(),
        );
    }
}

/// A mode is switched wherever the target has a model, to that target and with what was to be
/// said. A plan or a review that is handed to the main agent is kept, with what the user said of
/// it, where there is a tracker.
pub proof fn switches_keep_what_is_handed_over(
    switch: ModeSwitch,
    active: AgentKind,
    has_model: bool,
    has_tracker: bool,
    reply: Option<String>,
    r: Result<ModeSwitchPlan, String>,
)
    requires
        call_ensures(apply_mode_switch, (switch, active, has_model, has_tracker, reply), r),
    ensures
        (r is Ok) == has_model,
        r matches Ok(p) ==> {
            &&& p.target == switch.target
            &&& p.step_with == switch.step_with
            &&& (p.save is Some) == (has_tracker && switch.target == AgentKind::Main && active
                != AgentKind::Main && switch.step_with is Some)
            &&& p.save matches Some(s) ==> {
                &&& active == AgentKind::Plan ==> s.kind == SourceKind::Plan
                &&& active == AgentKind::Review ==> s.kind == SourceKind::Review
                &&& reply matches Some(report) ==> s.report == report && s.instruction
                    == switch.step_with
                &&& reply is None ==> Some(s.report) == switch.step_with && s.instruction is None
            }
        },
{
}

/// Once a report is kept, the main agent is told where it lies and what the user said of it; where
/// none was kept it is told what was to be said.
pub proof fn handed_over_reports_are_told(
    active: AgentKind,
    step_with: Option<String>,
    instruction: Option<String>,
    path: &str,
    kept: Option<String>,
    unkept: Option<String>,
)
    requires
        call_ensures(step_after_save, (active, step_with, &instruction, Some(path)), kept),
        call_ensures(step_after_save, (active, step_with, &instruction, None::<&str>), unkept),
    ensures
        kept matches Some(t) && contains(t@, path@),
        instruction matches Some(i) ==> (kept matches Some(t) && starts_with(t@, i@)),
        unkept == step_with,
{
    reports_are_named_by_their_path(active, path@, opt_text(instruction));
    if instruction is Some {
        instructions_are_kept(active, path@, (instruction->0)@);
    }
}

/// The main agent, and no other, keeps a todo list.
pub proof fn the_main_agent_keeps_todos(kind: AgentKind, has_tracker: bool, r: bool)
    requires
        call_ensures(gets_tracker, (kind, has_tracker), r),
    ensures
        r == (has_tracker && kind == AgentKind::Main),
{
}

/// The user sees which mode is on, by its name; the main mode goes without.
pub proof fn modes_are_shown_by_name(target: AgentKind, r: (Option<String>, String))
    requires
        call_ensures(mode_switched, (target,), r),
    ensures
        (r.0 is None) == (target == AgentKind::Main),
        target != AgentKind::Main ==> opt_text(r.0) == Some(target.name()),
{
}

/// An agent that is given another model uses it from then on, and the others keep theirs; telling
/// it how to reason leaves its model alone.
pub proof fn given_models_are_used(
    config: &mut ShirlConfig,
    told: &mut ShirlConfig,
    kind: AgentKind,
    other: AgentKind,
    provider: &str,
    model: &str,
    line: String,
    pref: Option<ReasoningPref>,
    used: (String, String),
)
    requires
        call_ensures(apply_model_switch, (config, kind, provider, model), line),
        call_ensures(apply_reasoning_switch, (told, kind, pref), used),
        old(config).own_entry(AgentKind::Main.name()) is None,
    ensures
        final(config).provider_of(kind.name()) == provider@,
        final(config).model_of(kind.name()) == model@,
        kind != AgentKind::Main && other != kind ==> final(config).model_of(other.name())
            == old(config).model_of(other.name()),
        line@ == "⏺ Switched to "@ + provider@ + "/"@ + model@,
        used.0@ == old(told).provider_of(kind.name()),
        used.1@ == old(told).model_of(kind.name()),
        final(told).model_of(other.name()) == old(told).model_of(other.name()),
        final(told).provider_of(other.name()) == old(told).provider_of(other.name()),
{
    switched_models_are_used(*old(config), *final(config), kind, provider@, model@);
    agents_are_found_by_name(kind, other.name());
    agents_are_found_by_name(other, kind.name());
    if kind != AgentKind::Main {
        switching_a_model_changes_nothing_else(
            *old(config),
            *final(config),
            kind.name(),
            provider@,
            model@,
            other.name(),
        );
    }
    telling_an_agent_to_reason_changes_nothing_else(
        *old(told),
        *final(told),
        kind.name(),
        pref,
        other.name(),
    );
}

} // verus!
