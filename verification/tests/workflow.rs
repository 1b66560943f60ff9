use shirl::agents::{AgentKind, ModeSwitch};
use shirl::catalog::{Catalog, CatalogModel, CatalogProvider, Protocol, CATALOG_SCHEMA_VERSION};
use shirl::auth::AuthStore;
use shirl::cli::PermissionMode;
use shirl::compaction::apply_summary;
use shirl::config::{ReasoningPref, ShirlConfig};
use shirl::file_path::path_ancestors;
use shirl::mcp::{connection_status, plan_connection, Connection, Transport};
use shirl::memory_cmd::{
    background_line, build_embedder_from_spec, build_wiring, deleted_line, distill_command_lines,
    distill_result_lines, distill_summary, forget_step, handle_memory_command, hit_lines,
    invalid_id_line, memory_disabled_warning, memory_help, project_scope, run_subcommand,
    saved_line, scopes_meant, user_scope, DistillOutcome, DistillReport, ForgetStep, MemoryRecord,
    MemoryRequest, MemoryScope, RunScopes, WhichScopes, Wipe,
};
use shirl::message::{ContentBlock, MemoryItem, Message};
use shirl::switch::{
    apply_mode_switch, apply_model_switch, apply_reasoning_switch, gets_tracker, mode_switched,
    report_to_save, step_after_save,
};
use shirl::tracker::{
    report_filename, report_filename_at, slug, PlanTracker, ReportRef, SourceKind, TodoArg,
    TodoItem, TodoStatus, TrackerState,
};
use shirl::tracking::{
    ancestor_cargo_dirs, cargo_home_from, existing_dirs, report_directive, resolve_handover,
    sandbox_read_roots, sandbox_write_roots,
};
use shirl::turn::{
    attachment_check, cycle_permission_mode, finish_reason_warning, turn_warning, FinishReason,
};

// The tracker ------------------------------------------------------------------

fn todos(items: &[(&str, TodoStatus)]) -> Vec<TodoArg> {
    items.iter().map(|(t, s)| TodoArg { text: t.to_string(), status: *s }).collect()
}

#[test]
fn render_is_none_when_empty() {
    let tracker = PlanTracker::load("/s/1", None);
    assert_eq!(tracker.render(), None);
}

#[test]
fn save_plan_writes_file_and_sets_source() {
    let mut tracker = PlanTracker::load("/s/1", None);
    let name = report_filename("# Add auth\n\n1. do x");
    let path = tracker.save_plan(&name);
    assert!(path.starts_with("/s/1/plans/"));
    assert!(name.contains("add-auth"));
    assert!(path.ends_with(&name));

    let rendered = tracker.render().unwrap();
    assert!(rendered.contains("## Active plan"));
    assert!(rendered.contains(&path));
}

#[test]
fn save_review_replaces_plan_as_source() {
    let mut tracker = PlanTracker::load("/s/1", None);
    tracker.save_plan(&report_filename("# Plan"));
    tracker.save_review(&report_filename("# Review findings"));
    assert_eq!(tracker.state.source.as_ref().unwrap().kind, SourceKind::Review);
}

#[test]
fn todos_render_with_status_markers() {
    let mut tracker = PlanTracker::load("/s/1", None);
    let told = tracker.write_todos(&todos(&[
        ("done item", TodoStatus::Done),
        ("current", TodoStatus::InProgress),
        ("later", TodoStatus::Pending),
    ]));
    let rendered = tracker.render().unwrap();
    assert!(rendered.contains("[x] 1. done item"));
    assert!(rendered.contains("[~] 2. current"));
    assert!(rendered.contains("[ ] 3. later"));
    assert_eq!(told, rendered);
    assert_eq!(tracker.write_todos(&vec![]), "Todo list cleared.");
}

#[test]
fn load_restores_persisted_state() {
    let mut tracker = PlanTracker::load("/s/1", None);
    tracker.save_plan(&report_filename("# Resume me"));
    tracker.write_todos(&todos(&[("item", TodoStatus::InProgress)]));
    let kept = TrackerState {
        source: tracker
            .state
            .source
            .as_ref()
            .map(|s| ReportRef { kind: s.kind, path: s.path.clone() }),
        todos: tracker
            .state
            .todos
            .iter()
            .map(|t| TodoItem { id: t.id, text: t.text.clone(), status: t.status })
            .collect(),
    };
    let reloaded = PlanTracker::load("/s/1", Some(kept));
    let rendered = reloaded.render().unwrap();
    assert!(rendered.contains("## Active plan"));
    assert!(rendered.contains("[~] 1. item"));
    assert_eq!(reloaded.tracker_path(), "/s/1/tracker.json");
}

#[test]
fn render_combines_active_source_and_todos() {
    let mut tracker = PlanTracker::load("/s/1", None);
    let path = tracker.save_plan(&report_filename("# Refactor X\n\nDetails here"));
    tracker.write_todos(&todos(&[
        ("done item", TodoStatus::Done),
        ("remaining", TodoStatus::Pending),
    ]));
    let rendered = tracker.render().unwrap();
    assert!(rendered.starts_with("## Active plan\nSource file: "));
    assert!(rendered.contains(&path));
    assert!(rendered.contains("\n\n## Todo list"));
    assert!(rendered.contains("[x] 1. done item"));
    assert!(rendered.contains("[ ] 2. remaining"));
    let src_pos = rendered.find("## Active plan").unwrap();
    let todo_pos = rendered.find("## Todo list").unwrap();
    assert!(src_pos < todo_pos);
}

#[test]
fn reminder_survives_session_being_cleared() {
    let mut tracker = PlanTracker::load("/s/1", None);
    tracker.save_plan(&report_filename("# Build feature\n\n1. step one"));
    tracker.write_todos(&todos(&[("step one", TodoStatus::InProgress)]));
    let mut items = vec![
        MemoryItem::Message(Message::user("hi")),
        MemoryItem::Message(Message::assistant("a")),
    ];
    let upto = items.len();
    apply_summary(&mut items, upto, "summary", None);
    let text = tracker.render().unwrap();
    assert!(text.contains("## Active plan"), "got: {text}");
    assert!(text.contains("[~] 1. step one"), "got: {text}");
}

#[test]
fn slug_falls_back_when_no_title() {
    assert_eq!(slug(""), "report");
    assert_eq!(slug("\n\n  "), "report");
    assert_eq!(slug("# Fix the Bug!"), "fix-the-bug");
}

#[test]
fn slugs_are_short_and_plain() {
    assert_eq!(slug("## Über -- Größe"), "ber-gr-e");
    assert_eq!(slug("a - - b--c"), "a-b-c");
    assert_eq!(slug(&"word ".repeat(20)), "word-word-word-word-word-word-word-word");
    assert_eq!(report_filename_at("20260102-030405", "# A b"), "20260102-030405-a-b.md");
}

#[test]
fn report_names_start_with_the_time() {
    let name = report_filename("# A b");
    let stamp = name.strip_suffix("-a-b.md").unwrap();
    assert_eq!(stamp.len(), "YYYYMMDD-HHMMSS".len());
    assert!(stamp.bytes().enumerate().all(|(i, b)| if i == 8 {
        b == b'-'
    } else {
        b.is_ascii_digit()
    }));
}

// What the agent may touch -------------------------------------------------------

#[test]
fn directive_with_instruction_makes_the_selection_authoritative() {
    let directive = report_directive(
        AgentKind::Review,
        "/s/reviews/r.md",
        Some("Address these review items: only item 3"),
    );
    assert!(directive.starts_with("Address these review items: only item 3"));
    assert!(directive.contains("authoritative about WHICH"));
    assert!(directive.contains("/s/reviews/r.md"));
}

#[test]
fn directive_without_instruction_lets_the_model_choose() {
    let directive = report_directive(AgentKind::Plan, "/s/plans/p.md", None);
    assert!(directive.contains("Decide which items to act on"));
    assert!(!directive.contains("authoritative about WHICH"));
    assert!(directive.contains("/s/plans/p.md"));
}

#[test]
fn handover_with_assistant_text_keeps_step_with_as_the_selection() {
    let h = resolve_handover(
        Some("# Plan\n\n1. a\n2. b\n3. c".to_string()),
        Some("only item 3".to_string()),
    )
    .unwrap();
    assert!(h.report.starts_with("# Plan"));
    assert_eq!(h.instruction.as_deref(), Some("only item 3"));
}

#[test]
fn handover_without_assistant_text_treats_step_with_as_the_report() {
    let h = resolve_handover(None, Some("the whole plan".to_string())).unwrap();
    assert_eq!(h.report, "the whole plan");
    assert!(h.instruction.is_none());
}

#[test]
fn handover_with_nothing_to_persist_is_none() {
    assert!(resolve_handover(None, None).is_none());
}

fn cargo_dirs(cwd: &str, present: &[&str]) -> Vec<String> {
    let flags = path_ancestors(cwd)
        .iter()
        .map(|dir| present.contains(&format!("{dir}/.cargo").as_str()))
        .collect();
    ancestor_cargo_dirs(cwd, &flags)
}

#[test]
fn ancestor_cargo_dirs_finds_ancestor_and_skips_cwd() {
    let dirs = cargo_dirs("/root/a/b", &["/root/.cargo", "/root/a/b/.cargo"]);
    assert!(dirs.contains(&"/root/.cargo".to_string()), "{dirs:?}");
    assert!(!dirs.contains(&"/root/a/b/.cargo".to_string()), "{dirs:?}");
}

#[test]
fn ancestor_cargo_dirs_empty_without_ancestor_config() {
    assert!(cargo_dirs("/root/x/y/z", &[]).is_empty());
}

#[test]
fn cargo_home_prefers_env_over_default() {
    let env = b"/custom/cargo".to_vec();
    let home = b"/home/user".to_vec();
    assert_eq!(cargo_home_from(Some(env.clone()), Some(home)), Some(env));
}

#[test]
fn cargo_home_falls_back_to_dot_cargo_under_home() {
    let home = b"/home/user".to_vec();
    assert_eq!(cargo_home_from(None, Some(home)), Some(b"/home/user/.cargo".to_vec()));
}

#[test]
fn cargo_home_none_without_env_or_home() {
    assert_eq!(cargo_home_from(None, None), None);
}

#[test]
fn cargo_home_ignores_empty_env() {
    let home = b"/home/user".to_vec();
    assert_eq!(
        cargo_home_from(Some(Vec::new()), Some(home)),
        Some(b"/home/user/.cargo".to_vec())
    );
}

#[test]
fn existing_dirs_keeps_a_real_directory() {
    let dir = "/tmp/x".to_string();
    assert_eq!(existing_dirs(Some(dir.clone()), true), vec![dir]);
}

#[test]
fn existing_dirs_drops_a_missing_path() {
    assert!(existing_dirs(Some("/tmp/does-not-exist".to_string()), false).is_empty());
}

#[test]
fn existing_dirs_drops_none() {
    assert!(existing_dirs(None::<String>, true).is_empty());
}

#[test]
fn sandbox_roots() {
    assert_eq!(
        sandbox_read_roots(Some("/s"), vec!["/a/.cargo"]),
        vec!["/s", "/a/.cargo"]
    );
    assert_eq!(sandbox_read_roots(None, vec!["/a/.cargo"]), vec!["/a/.cargo"]);
    let home = || Some(b"/h\xff".to_vec());
    assert_eq!(sandbox_write_roots(None, home(), true), vec![b"/h\xff/.cargo".to_vec()]);
    assert!(sandbox_write_roots(None, home(), false).is_empty());
}

// Switching ------------------------------------------------------------------------

#[test]
fn plans_are_handed_over() {
    let switch = |step: Option<&str>| ModeSwitch {
        target: AgentKind::Main,
        step_with: step.map(|s| s.to_string()),
    };
    let plan = apply_mode_switch(
        switch(Some("only item 3")),
        AgentKind::Plan,
        true,
        true,
        Some("# Plan".into()),
    )
    .ok()
    .unwrap();
    let save = plan.save.unwrap();
    assert_eq!(save.kind, SourceKind::Plan);
    assert_eq!(save.report, "# Plan");
    let step =
        step_after_save(AgentKind::Plan, plan.step_with, &save.instruction, Some("/s/plans/p.md"));
    assert!(step.unwrap().starts_with("only item 3\n\nThe full plan is saved to /s/plans/p.md."));

    let plan =
        apply_mode_switch(switch(None), AgentKind::Plan, true, true, None).ok().unwrap();
    assert!(plan.save.is_none());
    assert_eq!(
        apply_mode_switch(switch(None), AgentKind::Plan, false, true, None).err().unwrap(),
        "no model configured for this agent"
    );
    assert_eq!(
        step_after_save(AgentKind::Plan, Some("go".into()), &None, None),
        Some("go".into())
    );
    let some = Some("x".to_string());
    assert!(report_to_save(AgentKind::Review, AgentKind::Main, &some, false, None).is_none());
    assert!(report_to_save(AgentKind::Main, AgentKind::Main, &some, true, None).is_none());
    let r = report_to_save(AgentKind::Review, AgentKind::Main, &some, true, None).unwrap();
    assert_eq!((r.kind, r.report.as_str(), r.instruction), (SourceKind::Review, "x", None));
    assert_eq!(mode_switched(AgentKind::Main), (None, "-> switched to main mode".into()));
    assert_eq!(
        mode_switched(AgentKind::Plan),
        (Some("plan".into()), "-> switched to plan mode".into())
    );
    assert!(gets_tracker(AgentKind::Main, true));
    assert!(!gets_tracker(AgentKind::Plan, true));
}

#[test]
fn switched_models_are_kept() {
    let mut config = ShirlConfig::default();
    assert_eq!(
        apply_model_switch(&mut config, AgentKind::Main, "openai", "gpt-4o"),
        "⏺ Switched to openai/gpt-4o"
    );
    assert_eq!(config.model_for("main"), "gpt-4o");
    assert_eq!(config.model_for("plan"), "gpt-4o");
    apply_model_switch(&mut config, AgentKind::Plan, "groq", "llama");
    assert_eq!(config.provider_for("plan"), "groq");
    assert_eq!(config.model_for("plan"), "llama");
    assert_eq!(config.model_for("review"), "gpt-4o");
    let pref = ReasoningPref { enabled: Some(true), effort: None, budget_tokens: None };
    assert_eq!(
        apply_reasoning_switch(&mut config, AgentKind::Plan, Some(pref)),
        ("groq".into(), "llama".into())
    );
    assert_eq!(config.reasoning_for("plan").unwrap().enabled, Some(true));
    assert!(config.reasoning_for("main").is_none());
}

// Turns ----------------------------------------------------------------------------

fn blind_catalog() -> Catalog {
    Catalog {
        providers: vec![CatalogProvider {
            id: "p".into(),
            name: "P".into(),
            base_url: "https://x".into(),
            protocol: Protocol::OpenAI,
            env: vec![],
            models: vec![CatalogModel {
                id: "m/1".into(),
                name: "M".into(),
                context_window: None,
                max_output_tokens: None,
                reasoning: false,
                vision: false,
                reasoning_options: vec![],
            }],
        }],
        fetched_at: 0,
        schema_version: CATALOG_SCHEMA_VERSION,
    }
}

#[test]
fn images_need_a_model_that_sees() {
    let catalog = blind_catalog();
    let image = || ContentBlock::Image { data: vec![1], media_type: "image/png".into() };
    let file = || ContentBlock::File {
        data: vec![1],
        media_type: "application/pdf".into(),
        filename: "a.pdf".into(),
    };
    let warning = turn_warning(&vec![image()], Some("p/m/1"), &catalog).unwrap();
    assert_eq!(
        warning,
        "⚠ Model p/m/1 does not support image input - attachments may be ignored"
    );
    assert!(turn_warning(&vec![file()], Some("p/m/1"), &catalog).is_none());
    assert!(turn_warning(&vec![image()], Some("p/other"), &catalog).is_none());
    assert!(turn_warning(&vec![image()], None, &catalog).is_none());
    assert!(attachment_check(Some("nothing"), &catalog, true).is_none());
}

#[test]
fn stopping_early_is_said() {
    assert!(finish_reason_warning(&FinishReason::Stop).is_none());
    assert!(finish_reason_warning(&FinishReason::ToolCalls).is_none());
    assert!(finish_reason_warning(&FinishReason::Other("x".into())).is_none());
    assert!(finish_reason_warning(&FinishReason::Length).unwrap().contains("cut off"));
    assert!(finish_reason_warning(&FinishReason::ContentFilter).unwrap().contains("filter"));
    assert!(finish_reason_warning(&FinishReason::Refusal).unwrap().contains("declined"));
}

#[test]
fn full_auto_is_warned_of_once() {
    let mut warned = false;
    assert_eq!(
        cycle_permission_mode(PermissionMode::AutoEdit, false, &mut warned),
        vec!["Permission mode: accept edits"]
    );
    assert!(!warned);
    assert_eq!(cycle_permission_mode(PermissionMode::FullAuto, true, &mut warned).len(), 1);
    assert!(!warned);
    assert_eq!(cycle_permission_mode(PermissionMode::FullAuto, false, &mut warned).len(), 3);
    assert!(warned);
    assert_eq!(cycle_permission_mode(PermissionMode::FullAuto, false, &mut warned).len(), 1);
    assert_eq!(PermissionMode::Normal.label(), "normal");
}

#[test]
fn servers_are_reached_by_command_or_address() {
    assert_eq!(plan_connection("x", true, false), (Some(Transport::Stdio), None));
    assert_eq!(plan_connection("x", false, true), (Some(Transport::Http), None));
    assert_eq!(
        plan_connection("x", true, true),
        (
            Some(Transport::Stdio),
            Some("MCP: 'x' sets both `command` and `url`; using stdio".into())
        )
    );
    assert_eq!(
        plan_connection("x", false, false),
        (None, Some("MCP: skipping 'x' - no `command` or `url`".into()))
    );
    assert_eq!(
        connection_status("x", &Connection::Connected(12)),
        "MCP: connected to 'x' (12 tools)"
    );
    assert_eq!(
        connection_status("x", &Connection::Failed("e".into())),
        "MCP: failed to connect to 'x': e"
    );
    assert_eq!(
        connection_status("x", &Connection::TimedOut),
        "MCP: skipping 'x' - connection timed out after 15s"
    );
}

// Memories ---------------------------------------------------------------------------

fn scopes() -> RunScopes {
    RunScopes { user: user_scope(), project: project_scope("/repo") }
}

fn record(id: &str, scope: MemoryScope, content: &str) -> MemoryRecord {
    MemoryRecord { id: id.into(), scope, content: content.into(), tags: vec![] }
}

#[test]
fn distill_summary_is_silent_when_nothing_written() {
    assert_eq!(distill_summary(&DistillReport { saved: vec![], updated: 0 }), None);
    let report = DistillReport {
        saved: vec![record("1", project_scope("/repo"), "a fact")],
        updated: 2,
    };
    assert_eq!(distill_summary(&report).unwrap(), "✦ long-term memory: 1 saved, 2 updated");
}

#[test]
fn distill_result_lines_show_saved_facts() {
    let lines = distill_result_lines(&DistillReport { saved: vec![], updated: 0 });
    assert_eq!(lines, vec!["Nothing qualified for long-term memory."]);

    let report = DistillReport {
        saved: vec![record("1", project_scope("/repo"), "user prefers rebase")],
        updated: 1,
    };
    let lines = distill_result_lines(&report);
    assert_eq!(lines.len(), 2);
    assert!(lines[0].contains("user prefers rebase"));
    assert!(lines[1].contains("1 existing updated"));
}

/// A store of memories for the length of a test.
struct Store {
    kept: Vec<MemoryRecord>,
    next: u32,
}

impl Store {
    fn new() -> Store {
        Store { kept: vec![], next: 1 }
    }

    fn save(&mut self, scope: MemoryScope, content: &str) -> String {
        let id = format!("id-{}", self.next);
        self.next += 1;
        self.kept.push(record(&id, scope, content));
        id
    }

    fn found(&self, within: &[MemoryScope], text: &str) -> Vec<MemoryRecord> {
        self.kept
            .iter()
            .filter(|m| within.contains(&m.scope) && m.content.contains(text))
            .map(|m| record(&m.id, m.scope.copied(), &m.content))
            .collect()
    }

    /// Does what a subcommand asks for.
    fn run(&mut self, args: &str) -> Vec<String> {
        let scopes = scopes();
        match run_subcommand(args, true) {
            MemoryRequest::Say(lines) => lines,
            MemoryRequest::Save(text) => {
                let id = self.save(project_scope("/repo"), &text);
                vec![saved_line(&Ok(id))]
            }
            MemoryRequest::List(which) => {
                hit_lines(&Ok(self.found(&scopes_meant(which, &scopes), "")), &scopes, false)
            }
            MemoryRequest::Search(q) => {
                hit_lines(&Ok(self.found(&scopes.searchable_scopes(), &q)), &scopes, true)
            }
            MemoryRequest::Forget(id) => {
                let found = self.kept.iter().find(|m| m.id == id).map(|m| m.scope.copied());
                match forget_step(&id, &Ok(found), &scopes) {
                    ForgetStep::Say(line) => vec![line],
                    ForgetStep::Delete => {
                        self.kept.retain(|m| m.id != id);
                        vec![deleted_line(&id, &Ok(()))]
                    }
                }
            }
            MemoryRequest::ForgetAll(which) => {
                let mut wipe = Wipe::new(which == WhichScopes::User);
                loop {
                    let batch = self.found(&scopes_meant(which, &scopes), "");
                    if let Some(line) = wipe.batch(&Ok(batch.len())) {
                        return vec![line];
                    }
                    for m in &batch {
                        self.kept.retain(|k| k.id != m.id);
                        assert!(wipe.one(&m.id, &Ok(true)).is_none());
                    }
                    assert!(wipe.batch_done().is_none());
                }
            }
            MemoryRequest::Distill => vec![],
        }
    }
}

#[test]
fn add_list_search_forget_roundtrip() {
    let mut s = Store::new();

    let lines = s.run("add prefers rebase over merge");
    assert!(lines[0].starts_with("Saved memory ("));

    let lines = s.run("list");
    assert_eq!(lines.len(), 1);
    assert!(lines[0].contains("prefers rebase over merge"));
    assert!(lines[0].contains("[project]"));

    let lines = s.run("search rebase");
    assert!(lines[0].contains("prefers rebase"));

    let id = lines[0]
        .trim_start()
        .trim_start_matches('(')
        .split(')')
        .next()
        .unwrap()
        .to_string();
    let lines = s.run(&format!("forget {id}"));
    assert!(lines[0].starts_with("Deleted memory"));

    let lines = s.run("list");
    assert_eq!(lines, vec!["No memories saved yet.".to_string()]);
}

#[test]
fn list_filters_by_scope() {
    let mut s = Store::new();
    s.save(user_scope(), "user fact");
    s.save(project_scope("/repo"), "project fact");

    let lines = s.run("list user");
    assert_eq!(lines.len(), 1);
    assert!(lines[0].contains("user fact"));

    let lines = s.run("list project");
    assert_eq!(lines.len(), 1);
    assert!(lines[0].contains("project fact"));
}

#[test]
fn forget_refuses_out_of_scope_ids() {
    let mut s = Store::new();
    let foreign = s.save(project_scope("/elsewhere"), "x");
    let lines = s.run(&format!("forget {foreign}"));
    assert!(lines[0].starts_with("No memory with id"));
    assert_eq!(s.kept.len(), 1);
}

#[test]
fn unknown_subcommand_shows_usage() {
    let lines = Store::new().run("bogus");
    assert!(lines[0].contains("Usage:"));
}

#[test]
fn forget_all_requires_an_explicit_scope() {
    let mut s = Store::new();
    s.save(project_scope("/repo"), "keep me");
    let lines = s.run("forget all");
    assert!(lines[0].contains("Specify which scope"), "got: {lines:?}");
    assert_eq!(s.kept.len(), 1);
}

#[test]
fn forget_all_wipes_only_the_named_scope() {
    let mut s = Store::new();
    for text in ["project fact one", "project fact two"] {
        s.save(project_scope("/repo"), text);
    }
    s.save(user_scope(), "user fact");

    let lines = s.run("forget all project");
    assert_eq!(lines, vec!["Deleted 2 memories from the project scope."]);

    assert_eq!(s.kept.len(), 1);
    assert_eq!(s.kept[0].content, "user fact");

    let lines = s.run("forget all project");
    assert_eq!(lines, vec!["No memories in the project scope."]);
}

#[test]
fn help_lists_every_subcommand() {
    let lines = Store::new().run("help");
    assert!(lines[0].starts_with("Usage:"));
    let text = lines.join("\n");
    for sub in ["list", "add", "search", "forget", "distill", "help"] {
        assert!(text.contains(sub), "missing {sub}");
    }
    assert!(memory_help(true).len() > memory_help(false).len());
}

#[test]
fn release_builds_do_not_wipe() {
    assert_eq!(
        run_subcommand("forget all user", false),
        MemoryRequest::Forget("all user".into())
    );
    assert_eq!(
        run_subcommand("forget all user", true),
        MemoryRequest::ForgetAll(WhichScopes::User)
    );
    assert!(matches!(handle_memory_command("list", false, true), MemoryRequest::Say(_)));
    assert_eq!(
        handle_memory_command("list", true, true),
        MemoryRequest::List(WhichScopes::Both)
    );
    assert_eq!(handle_memory_command("distill", true, true), MemoryRequest::Distill);
}

#[test]
fn errors_of_the_store_are_shown() {
    let e = || "disk full".to_string();
    assert_eq!(saved_line(&Err(e())), "Error saving memory: disk full");
    assert_eq!(hit_lines(&Err(e()), &scopes(), true), vec!["Error searching memories: disk full"]);
    assert_eq!(hit_lines(&Err(e()), &scopes(), false), vec!["Error listing memories: disk full"]);
    assert_eq!(hit_lines(&Ok(vec![]), &scopes(), true), vec!["No matching memories."]);
    assert_eq!(deleted_line("1", &Err(e())), "Error deleting memory: disk full");
    assert_eq!(
        forget_step("1", &Err(e()), &scopes()),
        ForgetStep::Say("Error looking up memory: disk full".into())
    );
    assert!(invalid_id_line("??").contains("??"));
    let mut wipe = Wipe::new(true);
    assert_eq!(
        wipe.batch(&Err(e())),
        Some("Error listing memories: disk full (0 deleted)".into())
    );
    let mut wipe = Wipe::new(true);
    assert!(wipe.batch(&Ok(2)).is_none());
    assert!(wipe.one("1", &Ok(false)).is_none());
    assert_eq!(
        wipe.one("2", &Err(e())),
        Some("Error deleting memory (2): disk full (0 deleted)".into())
    );
    assert_eq!(
        wipe.batch_done(),
        Some("Stopped: store kept returning undeletable memories (0 deleted).".into())
    );
    assert!(memory_disabled_warning("x").contains("x"));
}

#[test]
fn hits_show_their_tags() {
    let mut m = record("7", user_scope(), "likes tea");
    m.tags = vec!["a".into(), "b".into()];
    assert_eq!(
        hit_lines(&Ok(vec![m]), &scopes(), false),
        vec!["  (7) [user] [a, b] likes tea"]
    );
}

#[test]
fn distilling_is_reported() {
    assert_eq!(background_line(&DistillOutcome::NothingNew), None);
    assert_eq!(
        background_line(&DistillOutcome::Failed("x".into())),
        Some("⚠ memory distillation failed: x".into())
    );
    assert_eq!(
        background_line(&DistillOutcome::TimedOut),
        Some("⚠ memory distillation timed out".into())
    );
    assert_eq!(
        distill_command_lines(false, &DistillOutcome::NothingNew),
        vec!["Nothing new to distill."]
    );
    assert_eq!(
        distill_command_lines(true, &DistillOutcome::NothingNew),
        vec!["Background distill pass finished; nothing further."]
    );
    assert_eq!(
        distill_command_lines(true, &DistillOutcome::TimedOut),
        vec!["Error: distillation timed out."]
    );
}

#[test]
fn embedders_are_named_with_their_provider() {
    let catalog = blind_catalog();
    let config = ShirlConfig::default();
    let mut auth = AuthStore::default();
    auth.set("p", "key");
    let (plan, key) =
        build_embedder_from_spec("p/embed", &config, &auth, &catalog).ok().unwrap();
    assert_eq!(plan.model_id, "embed");
    assert_eq!(key, "key");
    assert!(build_embedder_from_spec("embed", &config, &auth, &catalog).is_err());
    assert!(build_embedder_from_spec("q/embed", &config, &auth, &catalog).is_err());
    let start = build_wiring(&config, &auth, &catalog);
    assert!(start.enabled);
    assert!(start.embedder.is_none());
    assert!(start.warning.is_none());
}
