use shirl::agents::{
    agent_handoffs, agent_subagents, agent_tools, memory_policy, read_only_tools,
    resolve_mode_command, with_web_search, AgentKind, Handoff, ModeCommand, ModeSwitch,
    SubagentKind, ToolKind,
};
use shirl::args::ArgValue;
use shirl::prompts::{agent_instructions, WorkerKind, ORCHESTRATOR_PROMPT};
use shirl::tracker::SourceKind;
use shirl::worker::{
    diagnose_prompt, explain_prompt, leaf_result, missing_parent_model, testgen_prompt,
    worker_result, TurnOutcome,
};

fn switch(cmd: ModeCommand) -> ModeSwitch {
    match cmd {
        ModeCommand::Switch(s) => s,
        ModeCommand::Invalid(msg) => panic!("expected Switch, got Invalid({msg})"),
        ModeCommand::NotModeCommand => panic!("expected Switch, got NotModeCommand"),
    }
}

fn invalid(cmd: ModeCommand) -> String {
    match cmd {
        ModeCommand::Invalid(msg) => msg,
        ModeCommand::Switch(_) => panic!("expected Invalid, got Switch"),
        ModeCommand::NotModeCommand => panic!("expected Invalid, got NotModeCommand"),
    }
}

#[test]
fn plan_from_main_with_args_targets_plan_and_passes_args() {
    let s = switch(resolve_mode_command("plan", "build feature X", AgentKind::Main));
    assert_eq!(s.target, AgentKind::Plan);
    assert_eq!(s.step_with.as_deref(), Some("build feature X"));
}

#[test]
fn plan_from_main_with_empty_args_just_switches() {
    let s = switch(resolve_mode_command("plan", "   ", AgentKind::Main));
    assert_eq!(s.target, AgentKind::Plan);
    assert!(s.step_with.is_none());
}

#[test]
fn plan_from_non_main_is_invalid() {
    for kind in [AgentKind::Plan, AgentKind::Review] {
        let msg = invalid(resolve_mode_command("plan", "x", kind));
        assert!(msg.contains("main mode"), "{msg}");
    }
}

#[test]
fn review_from_main_targets_review() {
    let s = switch(resolve_mode_command("review", "check auth", AgentKind::Main));
    assert_eq!(s.target, AgentKind::Review);
    assert_eq!(s.step_with.as_deref(), Some("check auth"));
}

#[test]
fn review_from_non_main_is_invalid() {
    let msg = invalid(resolve_mode_command("review", "", AgentKind::Plan));
    assert!(msg.contains("main mode"));
}

#[test]
fn approve_from_plan_targets_main_with_implement_step() {
    let s = switch(resolve_mode_command("approve", "", AgentKind::Plan));
    assert_eq!(s.target, AgentKind::Main);
    assert!(s.step_with.unwrap().contains("approved"));
}

#[test]
fn approve_from_non_plan_is_invalid() {
    for kind in [AgentKind::Main, AgentKind::Review] {
        let msg = invalid(resolve_mode_command("approve", "", kind));
        assert!(msg.contains("plan mode"), "{msg}");
    }
}

#[test]
fn fix_from_review_targets_main_with_review_items() {
    let s = switch(resolve_mode_command("fix", "item 1, item 2", AgentKind::Review));
    assert_eq!(s.target, AgentKind::Main);
    let step = s.step_with.unwrap();
    assert!(step.contains("item 1, item 2"), "{step}");
}

#[test]
fn fix_from_review_with_empty_args_uses_default() {
    let s = switch(resolve_mode_command("fix", "", AgentKind::Review));
    assert_eq!(s.target, AgentKind::Main);
    assert!(s.step_with.unwrap().contains("review"));
}

#[test]
fn fix_from_non_review_is_invalid() {
    for kind in [AgentKind::Main, AgentKind::Plan] {
        let msg = invalid(resolve_mode_command("fix", "", kind));
        assert!(msg.contains("review mode"), "{msg}");
    }
}

#[test]
fn back_from_plan_or_review_targets_main_without_step() {
    for kind in [AgentKind::Plan, AgentKind::Review] {
        let s = switch(resolve_mode_command("back", "", kind));
        assert_eq!(s.target, AgentKind::Main);
        assert!(s.step_with.is_none());
    }
}

#[test]
fn back_from_main_is_invalid() {
    let msg = invalid(resolve_mode_command("back", "", AgentKind::Main));
    assert!(msg.contains("plan or review"));
}

#[test]
fn unknown_name_is_not_mode_command() {
    assert!(matches!(
        resolve_mode_command("clear", "", AgentKind::Main),
        ModeCommand::NotModeCommand
    ));
}

#[test]
fn refusals_name_the_current_mode() {
    assert_eq!(
        invalid(resolve_mode_command("plan", "x", AgentKind::Review)),
        "/plan is only available in main mode (currently in review mode)"
    );
    assert_eq!(
        invalid(resolve_mode_command("fix", "x", AgentKind::Main)),
        "/fix is only available in review mode (currently in main mode)"
    );
}

#[test]
fn agents_are_found_by_their_names() {
    for kind in [AgentKind::Main, AgentKind::Plan, AgentKind::Review] {
        assert_eq!(AgentKind::from_target(kind.display_name()), Some(kind));
    }
    assert_eq!(AgentKind::from_target("Main"), None);
    assert_eq!(AgentKind::from_target(""), None);
}

#[test]
fn handoffs_pass_the_text_of_their_argument() {
    let args = ArgValue::Object(vec![
        ("other".to_string(), ArgValue::Other),
        ("content".to_string(), ArgValue::Text("approved plan".to_string())),
    ]);
    let (target, payload) = Handoff::ToMain.invoke(&args);
    assert_eq!(target, "main");
    assert_eq!(payload.as_deref(), Some("approved plan"));

    let empty = ArgValue::Object(vec![("task".to_string(), ArgValue::Text(String::new()))]);
    assert_eq!(Handoff::ToPlan.invoke(&empty), ("plan", None));
    let flag = ArgValue::Object(vec![("focus".to_string(), ArgValue::Flag(true))]);
    assert_eq!(Handoff::ToReview.invoke(&flag), ("review", None));
    assert_eq!(Handoff::ToReview.invoke(&ArgValue::Other), ("review", None));
}

#[test]
fn handoffs_have_names_and_arguments() {
    assert_eq!(Handoff::ToPlan.tool_name(), "transfer_to_plan");
    assert_eq!(Handoff::ToReview.tool_name(), "transfer_to_review");
    assert_eq!(Handoff::ToMain.tool_name(), "transfer_to_main");
    assert!(Handoff::ToPlan.field_is_required());
    assert!(!Handoff::ToReview.field_is_required());
    assert!(Handoff::ToMain.description().starts_with("Return to the main coding agent."));
    assert_eq!(agent_handoffs(AgentKind::Main), vec![Handoff::ToPlan, Handoff::ToReview]);
    assert_eq!(agent_handoffs(AgentKind::Review), vec![Handoff::ToMain]);
}

#[test]
fn planning_and_reviewing_agents_only_look() {
    let looking = read_only_tools();
    assert_eq!(looking.len(), 9);
    for kind in [AgentKind::Plan, AgentKind::Review] {
        let tools = agent_tools(kind, false);
        assert_eq!(tools.len(), 10);
        assert!(!tools.contains(&ToolKind::WriteFile));
        assert!(!tools.contains(&ToolKind::Bash));
        assert_eq!(agent_tools(kind, true).last(), Some(&ToolKind::WebSearch));
    }
    assert!(agent_tools(AgentKind::Main, false).contains(&ToolKind::Bash));
    assert_eq!(with_web_search(vec![], true), vec![ToolKind::WebSearch]);
    assert_eq!(agent_subagents(AgentKind::Main).len(), 5);
    assert!(agent_subagents(AgentKind::Review).is_empty());
    assert_eq!(
        agent_subagents(AgentKind::Plan),
        vec![SubagentKind::Explore, SubagentKind::WebResearch]
    );
}

fn memory_tool_names(kind: AgentKind, wired: bool, distiller: bool) -> Vec<ToolKind> {
    memory_policy(kind, wired, distiller).tools
}

#[test]
fn main_gets_all_memory_tools() {
    let tools = memory_tool_names(AgentKind::Main, true, true);
    for tool in [
        ToolKind::MemorySave,
        ToolKind::MemorySearch,
        ToolKind::MemoryUpdate,
        ToolKind::MemoryDelete,
    ] {
        assert!(tools.contains(&tool), "missing {tool:?}");
    }
    assert!(memory_policy(AgentKind::Main, true, true).distill);
    assert!(!memory_policy(AgentKind::Main, true, false).distill);
}

#[test]
fn plan_gets_search_only() {
    let tools = memory_tool_names(AgentKind::Plan, true, false);
    assert!(tools.contains(&ToolKind::MemorySearch));
    assert!(!tools.contains(&ToolKind::MemorySave));
    assert!(!tools.contains(&ToolKind::MemoryUpdate));
    assert!(!tools.contains(&ToolKind::MemoryDelete));
}

#[test]
fn review_gets_no_memory_tools() {
    assert!(memory_tool_names(AgentKind::Review, true, false).is_empty());
    assert!(memory_policy(AgentKind::Review, true, false).recall);
}

#[test]
fn none_wiring_is_a_noop() {
    let policy = memory_policy(AgentKind::Main, false, true);
    assert!(policy.tools.is_empty());
    assert!(!policy.recall);
    assert!(!policy.distill);
}

#[test]
fn diagnose_spec_round_trips_through_toolspec() {
    assert_eq!(SubagentKind::Diagnose.name(), "diagnose");
    assert_eq!(
        diagnose_prompt("boom", Some("after the merge")),
        "Diagnose this error:\n\nboom\n\nAdditional context: after the merge"
    );
    assert_eq!(diagnose_prompt("boom", None), "Diagnose this error:\n\nboom");
}

#[test]
fn explain_spec_round_trips_through_toolspec() {
    assert_eq!(SubagentKind::Explain.name(), "explain");
    assert_eq!(explain_prompt("src/a.rs:3"), "Explain the following code:\n\nsrc/a.rs:3");
}

#[test]
fn explore_spec_round_trips_through_toolspec() {
    assert_eq!(SubagentKind::Explore.name(), "explore");
    assert!(SubagentKind::Explore.description(false).contains("Explore the codebase"));
}

#[test]
fn testgen_spec_round_trips_through_toolspec() {
    assert_eq!(SubagentKind::Testgen.name(), "testgen");
    assert_eq!(testgen_prompt("parse"), "Generate tests for: parse");
}

#[test]
fn fetch_only_spec_round_trips() {
    assert_eq!(SubagentKind::WebResearch.name(), "web_research");
    assert!(SubagentKind::WebResearch
        .description(false)
        .contains("cannot search the open web"));
    assert_eq!(SubagentKind::WebResearch.tools(false), vec![ToolKind::HttpFetch]);
}

#[test]
fn with_search_spec_round_trips() {
    assert_eq!(SubagentKind::WebResearch.name(), "web_research");
    assert!(SubagentKind::WebResearch.description(true).contains("Search the web"));
    assert_eq!(
        SubagentKind::WebResearch.tools(true),
        vec![ToolKind::HttpFetch, ToolKind::WebSearch]
    );
    assert!(SubagentKind::WebResearch.instructions(true).contains("web_search"));
}

#[test]
fn subagents_get_their_tools_in_order() {
    assert_eq!(SubagentKind::Explore.tools(false)[0], ToolKind::ReadFile);
    assert_eq!(SubagentKind::Diagnose.tools(false)[0], ToolKind::Glob);
    assert_eq!(SubagentKind::Explain.tools(false).len(), 6);
    assert_eq!(SubagentKind::Testgen.tools(false).len(), 5);
}

#[test]
fn run_leaf_errors_without_parent_model() {
    let rendered = missing_parent_model("explore");
    assert!(rendered.contains("explore"));
    assert!(rendered.contains("shared parent model"));
}

#[test]
fn leaf_turns_give_text_or_errors() {
    assert_eq!(
        leaf_result("explore", TurnOutcome::Message("found".to_string())),
        Ok("found".to_string())
    );
    assert_eq!(
        leaf_result("explore", TurnOutcome::Failed("timeout".to_string())),
        Err("timeout".to_string())
    );
    assert_eq!(
        leaf_result(
            "explore",
            TurnOutcome::Handoff { target: "main".to_string(), payload: None }
        ),
        Err("unexpected handoff from explore".to_string())
    );
}

#[test]
fn run_worker_turn_returns_assistant_message_content() {
    let result = worker_result(TurnOutcome::Message("worker reply".to_string())).unwrap();
    assert_eq!(result, "worker reply");
}

#[test]
fn run_worker_turn_surfaces_handoff_as_descriptive_error() {
    let msg = worker_result(TurnOutcome::Handoff {
        target: "main".to_string(),
        payload: Some("approved plan".to_string()),
    })
    .unwrap_err();
    assert!(msg.contains("handoffs not supported"), "got: {msg}");
    assert!(msg.contains("main"), "got: {msg}");
    assert!(msg.contains("approved plan"), "got: {msg}");
    assert_eq!(
        worker_result(TurnOutcome::Handoff { target: "main".to_string(), payload: None }),
        Err("handoffs not supported in headless subagents (target: main)".to_string())
    );
    assert_eq!(
        worker_result(TurnOutcome::Failed("no key".to_string())),
        Err("no key".to_string())
    );
}

#[test]
fn workers_are_agents_with_reports() {
    assert_eq!(WorkerKind::Implement.agent(), AgentKind::Main);
    assert_eq!(WorkerKind::Plan.agent(), AgentKind::Plan);
    assert_eq!(WorkerKind::Implement.saves(), None);
    assert_eq!(WorkerKind::Plan.saves(), Some(SourceKind::Plan));
    assert_eq!(WorkerKind::Review.saves(), Some(SourceKind::Review));
    assert_eq!(WorkerKind::Review.name(), "review");
    assert!(WorkerKind::Implement.description().starts_with("Write code"));
    assert!(agent_instructions(AgentKind::Main).starts_with("You are Shirl, a coding assistant."));
    assert!(agent_instructions(AgentKind::Plan).contains("/approve"));
    assert!(agent_instructions(AgentKind::Review).contains("/fix"));
    assert!(ORCHESTRATOR_PROMPT.contains("orchestrate"));
}
