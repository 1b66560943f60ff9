use shirl::agents::AgentKind;
use shirl::approval::{
    apply_edit, approval_outcome, approval_step, compute_preview, preview_path, ApprovalDecision,
    ApprovalOutcome, ApprovalStep, Preview,
};
use shirl::args::ArgValue;
use shirl::auth::AuthStore;
use shirl::catalog::{
    Catalog, CatalogModel, CatalogProvider, Protocol, ReasoningOption, CATALOG_SCHEMA_VERSION,
};
use shirl::command::{move_within, Command};
use shirl::config::{CustomProviderEntry, ModelExtension, ShirlConfig};
use shirl::event_loop::{
    catalog_failed_line, config_after_setup, idle_action, next_phase, pending_action,
    running_action, sandbox_failed_lines, starting_models, turn_action, usable_config, LoopAction,
    LoopState, Phase, Round, Shown, TurnAction,
};
use shirl::file_picker::{
    dispatch, filename_match_score, filter_entries, matches_filter, walk_files, FileEntry,
    FileListCache, FilePickerStep, PickerAction,
};
use shirl::picker::{
    connected_line, connected_providers, fuzzy_match, has_in_order, loading_picker_state,
    model_picker_render, offered_models, populate_model_picker, provider_display_name,
    reasoning_hint, save_provider_key, setup_after_key, setup_after_model, setup_after_provider,
    setup_start, ApiKeyPrompt, KeyStep, PickerState, PickerStep, ProviderPicker, SetupStage,
};
use shirl::text_map::TextMap;
use shirl::worker::TurnOutcome;

fn entry(path: &str) -> FileEntry {
    FileEntry { path: path.to_string(), is_dir: false }
}

#[test]
fn matches_filter_basic() {
    assert!(matches_filter("src/main.rs", "main"));
    assert!(matches_filter("src/main.rs", ""));
    assert!(!matches_filter("src/main.rs", "zzz"));
}

#[test]
fn matches_filter_case_insensitive() {
    assert!(matches_filter("src/Main.rs", "main"));
    assert!(matches_filter("src/main.rs", "MAIN"));
}

#[test]
fn filename_match_scoring() {
    assert_eq!(filename_match_score("src/main.rs", "main.rs"), 3);
    assert_eq!(filename_match_score("src/main.rs", "main"), 2);
    assert_eq!(filename_match_score("src/main.rs", "ai"), 1);
    assert_eq!(filename_match_score("src/main.rs", "xyz"), 0);
}

#[test]
fn filter_entries_prefers_filename_match() {
    let entries = vec![entry("contains_foo/bar.rs"), entry("foo.rs"), entry("src/foo/mod.rs")];
    let result = filter_entries(&entries, "foo", 10);
    assert_eq!(result[0].path, "foo.rs");
}

#[test]
fn filter_entries_keeps_best_match_under_limit() {
    let mut entries: Vec<FileEntry> =
        (0..20).map(|i| entry(&format!("noise/contains_foo_{i}.txt"))).collect();
    entries.push(entry("deep/path/foo"));
    let result = filter_entries(&entries, "foo", 5);
    assert_eq!(result.len(), 5);
    assert_eq!(result[0].path, "deep/path/foo");
}

#[test]
fn files_are_listed_below_the_root() {
    let found = vec![
        ("".to_string(), true),
        ("src/b.rs".to_string(), false),
        ("src".to_string(), true),
        ("a.rs".to_string(), false),
    ];
    let files = walk_files(&found);
    assert!(files.iter().all(|f| !f.path.is_empty()));
    assert_eq!(files.len(), 3);
    let mut cache = FileListCache::new();
    assert!(cache.get("/w").is_none());
    cache.put("/w", files);
    assert_eq!(cache.get("/w").unwrap().len(), 3);
    assert!(cache.get("/other").is_none());
}

#[test]
fn a_file_is_picked() {
    let all = vec![entry("a.rs"), entry("b.rs")];
    let mut picker = None;
    let filter = Command::FilePickerFilter("b".into());
    assert_eq!(dispatch(&mut picker, &all, &filter), FilePickerStep::Redraw);
    assert_eq!(picker.as_ref().unwrap().entries, vec![entry("b.rs")]);
    assert_eq!(dispatch(&mut picker, &all, &Command::SelectMove(1)), FilePickerStep::Move(1));
    let step = dispatch(&mut picker, &all, &Command::FilePickerAccept);
    assert_eq!(step, FilePickerStep::Insert("b.rs".into()));
    assert_eq!(step.action(), Some(PickerAction::Accepted));
    assert!(picker.is_none());
    let step = dispatch(&mut picker, &all, &Command::FilePickerAccept);
    assert_eq!(step.action(), Some(PickerAction::Cancelled));
    let step = dispatch(&mut picker, &all, &Command::FilePickerClose);
    assert_eq!(step, FilePickerStep::Ignore);
}

#[test]
fn selections_stay_within_bounds() {
    assert_eq!(move_within(2, 1, 5), 3);
    assert_eq!(move_within(2, -5, 5), 0);
    assert_eq!(move_within(2, 100, 5), 5);
    assert_eq!(move_within(2, i32::MIN, 5), 0);
    assert_eq!(move_within(0, i32::MAX, 0), 0);
}

// Models and providers -------------------------------------------------------------

fn model(id: &str, name: &str, window: Option<u32>) -> CatalogModel {
    CatalogModel {
        id: id.into(),
        name: name.into(),
        context_window: window.map(|n| n as usize),
        max_output_tokens: None,
        reasoning: true,
        vision: false,
        reasoning_options: vec![ReasoningOption::Toggle],
    }
}

fn catalog() -> Catalog {
    Catalog {
        providers: vec![
            CatalogProvider {
                id: "groq".into(),
                name: "Groq".into(),
                base_url: "https://x".into(),
                protocol: Protocol::OpenAI,
                env: vec![],
                models: vec![
                    model("llama-70b", "Llama 70B", Some(128_000)),
                    model("qwen", "Qwen", None),
                ],
            },
            CatalogProvider {
                id: "xai".into(),
                name: "xAI".into(),
                base_url: "https://y".into(),
                protocol: Protocol::OpenAI,
                env: vec![],
                models: vec![model("grok", "Grok", None)],
            },
        ],
        fetched_at: 0,
        schema_version: CATALOG_SCHEMA_VERSION,
    }
}

#[test]
fn searching_ignores_letter_case() {
    assert!(fuzzy_match("Llama 70B", "lm7"));
    assert!(fuzzy_match("ÉCLAIR", "éa"));
    assert!(fuzzy_match("straße", "STRAß"));
    assert!(!fuzzy_match("Llama", "lb"));
    assert!(fuzzy_match("anything", ""));
    assert!(has_in_order("abc", "ac"));
    assert!(!has_in_order("abc", "ca"));
    assert!(!has_in_order("ABC", "a"));
}

#[test]
fn hints_name_the_controls() {
    assert_eq!(reasoning_hint(&vec![]), "");
    assert!(reasoning_hint(&vec![ReasoningOption::Toggle]).contains("on/off"));
}

#[test]
fn providers_have_names() {
    let catalog = catalog();
    let mut config = ShirlConfig::default();
    config.providers.insert(
        "mine".into(),
        CustomProviderEntry {
            base_url: "http://x".into(),
            protocol: "openai".into(),
            display_name: Some("Mine".into()),
        },
    );
    assert_eq!(provider_display_name("groq", &catalog, &config), "Groq");
    assert_eq!(provider_display_name("mine", &catalog, &config), "Mine");
    assert_eq!(provider_display_name("unknown", &catalog, &config), "unknown");
    assert_eq!(connected_line("Groq", "groq"), "Connected: Groq (groq)");
}

#[test]
fn models_are_searched_and_picked() {
    let catalog = catalog();
    let config = ShirlConfig::default();
    let mut state =
        PickerState::new(vec!["groq".into(), "xai".into()], "groq/qwen".into());
    assert!(state.loading);
    assert_eq!(loading_picker_state().hint, "Loading models...");
    populate_model_picker(&mut state, &catalog, &config, 60);
    assert!(!state.loading);
    let ids: Vec<&str> = state.displayed.iter().map(|e| e.id.as_str()).collect();
    assert_eq!(ids, vec!["groq/llama-70b", "groq/qwen", "xai/grok"]);
    assert!(state.displayed[1].is_current);
    assert!(state.displayed[0].display.contains("128k"));

    let r = state.step(Some(Command::SelectMove(9)), &catalog, &config, 60);
    assert!(matches!(r, PickerStep::Redraw));
    assert_eq!(state.selected_index, 2);
    let r = state.step(Some(Command::Partial("LLAMA".into())), &catalog, &config, 60);
    assert!(matches!(r, PickerStep::Redraw));
    assert_eq!(state.selected_index, 0);
    assert_eq!(state.displayed.len(), 1);
    let shown = model_picker_render(&state, &catalog, &config, 60);
    assert_eq!(shown.sections.len(), 1);
    assert_eq!(shown.sections[0].header.as_deref(), Some("Groq"));
    match state.step(Some(Command::Submit("".into())), &catalog, &config, 60) {
        PickerStep::Done(Some((p, m))) => {
            assert_eq!((p.as_str(), m.as_str()), ("groq", "llama-70b"));
        }
        _ => panic!("nothing picked"),
    }
    let r = state.step(Some(Command::Cancel), &catalog, &config, 60);
    assert!(matches!(r, PickerStep::Done(None)));
    assert!(matches!(state.step(None, &catalog, &config, 60), PickerStep::Closed));
    assert!(matches!(
        state.step(Some(Command::CycleMode), &catalog, &config, 60),
        PickerStep::Ignore
    ));
}

#[test]
fn users_add_models() {
    let catalog = catalog();
    let mut config = ShirlConfig::default();
    let mut models = TextMap::new();
    models.insert(
        "new-model".to_string(),
        ModelExtension { display_name: Some("New".into()), context_window: Some(9) },
    );
    config.models.insert("xai".into(), models);
    let offered = offered_models("xai", &catalog, &config);
    let ids: Vec<&str> = offered.iter().map(|m| m.id.as_str()).collect();
    assert!(ids.contains(&"grok"));
    assert!(ids.contains(&"new-model"));
}

#[test]
fn a_provider_is_connected() {
    let catalog = catalog();
    let config = ShirlConfig::default();
    let mut auth = AuthStore::default();
    let mut picker = ProviderPicker::new(&catalog, &config, &auth, 40);
    assert_eq!(picker.render().sections[0].entries.len(), 2);
    picker.step(Some(Command::Partial("XA".into())), &catalog, &config, &auth, 40);
    assert_eq!(picker.filter, "xa");
    let id = match picker.step(Some(Command::Submit("".into())), &catalog, &config, &auth, 40) {
        PickerStep::Done(Some(id)) => id,
        _ => panic!("nothing picked"),
    };
    assert_eq!(id, "xai");
    assert_eq!(setup_start(false), SetupStage::Provider);
    assert_eq!(setup_after_provider(Some(id)), SetupStage::Key("xai".into()));
    assert_eq!(setup_after_provider(None), SetupStage::Cancelled);

    let mut prompt = ApiKeyPrompt::new("xai", &catalog, &config);
    assert_eq!(prompt.render(false).title, "Enter API key for xAI");
    assert!(matches!(prompt.step(Some(Command::Partial("  ".into()))), KeyStep::Redraw));
    assert!(matches!(prompt.step(Some(Command::Submit("".into()))), KeyStep::Empty));
    assert_eq!(prompt.render(true).title, "Enter API key for xAI (cannot be empty)");
    prompt.step(Some(Command::Partial(" sk ".into())));
    let key = match prompt.step(Some(Command::Submit("".into()))) {
        KeyStep::Done(Some(k)) => k,
        _ => panic!("no key"),
    };
    assert_eq!(key, "sk");
    assert_eq!(
        setup_after_key("xai".into(), Some(key)),
        SetupStage::Connect { provider: "xai".into(), key: "sk".into() }
    );
    assert_eq!(setup_after_key("xai".into(), None), SetupStage::Provider);
    save_provider_key(&mut auth, "xai", "sk");
    assert_eq!(auth.get("xai"), Some("sk"));
    assert_eq!(connected_providers(&catalog, &auth), vec!["xai"]);
    assert_eq!(setup_start(true), SetupStage::Model);
    assert_eq!(setup_after_model(None), SetupStage::Cancelled);
    assert_eq!(
        setup_after_model(Some(("xai".into(), "grok".into()))),
        SetupStage::Chosen { provider: "xai".into(), model: "grok".into() }
    );
}

// Approvals ------------------------------------------------------------------------

#[test]
fn keys_decide() {
    let key = |c| approval_step(Some(Command::ApprovalKey(c)));
    assert_eq!(key('y'), ApprovalStep::Answer(ApprovalDecision::Allow));
    assert_eq!(key('A'), ApprovalStep::Answer(ApprovalDecision::AllowSession));
    assert_eq!(key('N'), ApprovalStep::Answer(ApprovalDecision::Deny));
    assert_eq!(key('x'), ApprovalStep::Ignore);
    assert_eq!(approval_step(Some(Command::Cancel)), ApprovalStep::CancelTurn);
    assert_eq!(approval_step(Some(Command::Exit)), ApprovalStep::CancelTurn);
    assert_eq!(approval_step(None), ApprovalStep::CancelTurn);
    assert_eq!(
        approval_step(Some(Command::Submit("y".into()))),
        ApprovalStep::Stash("y".into())
    );
    assert_eq!(approval_step(Some(Command::CycleMode)), ApprovalStep::Ignore);
    assert_eq!(approval_outcome(Some(ApprovalDecision::Deny)), ApprovalOutcome::Answered);
    assert_eq!(approval_outcome(None), ApprovalOutcome::Cancelled);
}

fn object(fields: Vec<(&str, ArgValue)>) -> ArgValue {
    ArgValue::Object(fields.into_iter().map(|(k, v)| (k.to_string(), v)).collect())
}

fn word(s: &str) -> ArgValue {
    ArgValue::Text(s.to_string())
}

#[test]
fn edits_are_previewed() {
    let args = object(vec![
        ("path", word("a.rs")),
        ("old_string", word("one")),
        ("new_string", word("two")),
    ]);
    assert_eq!(preview_path("edit_file", &args).as_deref(), Some("a.rs"));
    assert_eq!(preview_path("bash", &args), None);
    assert_eq!(
        compute_preview("edit_file", &args, Some("x one y")),
        Preview::Change { path: "a.rs".into(), old: "x one y".into(), new: "x two y".into() }
    );
    assert_eq!(compute_preview("edit_file", &args, Some("one one")), Preview::Nothing);
    assert_eq!(
        compute_preview("edit_file", &args, Some("none")),
        Preview::Change { path: "a.rs".into(), old: "none".into(), new: "ntwo".into() }
    );
    assert_eq!(compute_preview("edit_file", &args, None), Preview::Nothing);
    assert_eq!(compute_preview("bash", &args, Some("one")), Preview::Nothing);
}

#[test]
fn edits_replace_every_occurrence_on_demand() {
    let args = object(vec![
        ("path", word("a.rs")),
        ("old_string", word("aa")),
        ("new_string", word("b")),
        ("replace_all", ArgValue::Flag(true)),
    ]);
    assert_eq!(apply_edit(&args, "aaa aa").as_deref(), Some("ba b"));
    assert_eq!(apply_edit(&args, "x"), None);
    let empty = object(vec![
        ("new_string", word("-")),
        ("replace_all", ArgValue::Flag(true)),
    ]);
    assert_eq!(apply_edit(&empty, "ab"), Some("ab".replace("", "-")));
}

#[test]
fn listed_edits_follow_each_other() {
    let edit = |old: &str, new: &str| {
        object(vec![("old_text", word(old)), ("new_text", word(new))])
    };
    let args = object(vec![("edits", ArgValue::List(vec![edit("a", "b"), edit("bb", "c")]))]);
    assert_eq!(apply_edit(&args, "ab").as_deref(), Some("c"));
    assert_eq!(apply_edit(&args, "aab"), None);
    assert_eq!(apply_edit(&args, "a"), None);
    let broken = object(vec![("edits", ArgValue::List(vec![object(vec![])]))]);
    assert_eq!(apply_edit(&broken, "a"), None);
}

#[test]
fn written_files_are_previewed() {
    let args = object(vec![("path", word("a.rs")), ("content", word("new"))]);
    assert_eq!(
        compute_preview("write_file", &args, None),
        Preview::NewFile { path: "a.rs".into(), content: "new".into() }
    );
    assert_eq!(
        compute_preview("write_file", &args, Some("old")),
        Preview::Change { path: "a.rs".into(), old: "old".into(), new: "new".into() }
    );
    assert_eq!(compute_preview("write_file", &word("x"), None), Preview::Nothing);
}

// The loop -------------------------------------------------------------------------

const BARE: Shown = Shown { file_picker: false, transcript: false };
const TRANSCRIPT: Shown = Shown { file_picker: false, transcript: true };
const BOTH: Shown = Shown { file_picker: true, transcript: true };

#[test]
fn commands_are_routed() {
    let submit = || Command::Submit("hi".into());
    assert_eq!(idle_action(Some(submit()), BARE), LoopAction::Keep(submit()));
    assert_eq!(running_action(Some(submit()), BARE), LoopAction::Keep(submit()));
    assert_eq!(pending_action(submit(), BARE), LoopAction::Chat("hi".into()));
    assert_eq!(pending_action(Command::Cancel, BARE), LoopAction::CancelTurn);
    assert_eq!(
        pending_action(Command::SelectMove(2), BOTH),
        LoopAction::MovePicker(2)
    );
    assert_eq!(
        running_action(Some(Command::SelectMove(2)), TRANSCRIPT),
        LoopAction::ScrollTranscript(2)
    );
    assert_eq!(idle_action(Some(Command::SelectMove(2)), BARE), LoopAction::Nothing);
    assert_eq!(
        idle_action(Some(Command::ToggleTranscript), BARE),
        LoopAction::OpenTranscript
    );
    assert_eq!(
        idle_action(Some(Command::ToggleTranscript), TRANSCRIPT),
        LoopAction::CloseTranscript
    );
    assert_eq!(
        running_action(Some(Command::ToggleTranscript), BARE),
        LoopAction::Nothing
    );
    assert_eq!(
        running_action(Some(Command::Exit), BARE),
        LoopAction::Exit { close_transcript: true }
    );
    assert_eq!(idle_action(None, BARE), LoopAction::Exit { close_transcript: false });
    assert_eq!(running_action(None, BARE), LoopAction::Nothing);
    assert_eq!(
        idle_action(Some(Command::FilePickerClose), BARE),
        LoopAction::FilePicker(Command::FilePickerClose)
    );
    assert_eq!(running_action(Some(Command::CycleMode), BARE), LoopAction::CycleMode);
}

#[test]
fn pending_commands_go_first() {
    assert_eq!(next_phase(Some(Command::Cancel), true), Phase::Pending(Command::Cancel));
    assert_eq!(next_phase(None, true), Phase::Running);
    assert_eq!(next_phase(None, false), Phase::Idle);
}

#[test]
fn a_session_runs_through_the_loop() {
    let mut s = LoopState::new();
    assert_eq!(s.active, AgentKind::Main);
    assert_eq!(s.round(false), Round::AwaitCommand);
    assert_eq!(s.command(Some(Command::Submit("hi".into())), false), LoopAction::Nothing);
    assert_eq!(s.round(false), Round::Act(LoopAction::Chat("hi".into())));
    s.turn_started();
    assert_eq!(s.round(false), Round::AwaitTurn);
    assert_eq!(s.command(Some(Command::ToggleTranscript), false), LoopAction::Nothing);
    assert!(!s.approval_asked());
    assert!(!s.approval_ended(ApprovalOutcome::Answered, Some("later".into())));
    assert!(s.running);
    assert_eq!(s.round(false), Round::Act(LoopAction::Chat("later".into())));
    let ok = || TurnOutcome::Message("ok".into());
    assert_eq!(s.turn_ended(ok(), "s1".into()), TurnAction::MakeTitle);
    assert!(!s.running);
    s.turn_started();
    assert_eq!(s.turn_ended(ok(), "s1".into()), TurnAction::Nothing);
    s.command_done(false);
    assert_eq!(s.titled.as_deref(), Some("s1"));
    s.command_done(true);
    assert_eq!(s.turn_ended(ok(), "s1".into()), TurnAction::MakeTitle);
    s.mode_switched(AgentKind::Plan);
    assert_eq!(s.turn_ended(ok(), "s2".into()), TurnAction::Nothing);
    assert_eq!(s.command(Some(Command::ToggleTranscript), false), LoopAction::OpenTranscript);
    s.turn_started();
    assert!(s.approval_asked());
    assert!(!s.transcript);
    assert!(s.approval_ended(ApprovalOutcome::Cancelled, None));
    assert!(!s.running);
    s.turn_started();
    assert_eq!(s.command(Some(Command::Cancel), false), LoopAction::Nothing);
    assert!(s.running);
    assert_eq!(s.round(false), Round::Act(LoopAction::CancelTurn));
    assert!(!s.running);
    assert_eq!(
        s.command(Some(Command::Exit), false),
        LoopAction::Exit { close_transcript: true }
    );
    assert!(s.done);
}

#[test]
fn finished_turns_lead_on() {
    let said = || TurnOutcome::Message("ok".into());
    let titled = Some("s1".to_string());
    assert_eq!(turn_action(said(), AgentKind::Main, &None, "s1"), TurnAction::MakeTitle);
    assert_eq!(turn_action(said(), AgentKind::Main, &titled, "s1"), TurnAction::Nothing);
    assert_eq!(turn_action(said(), AgentKind::Main, &titled, "s2"), TurnAction::MakeTitle);
    assert_eq!(turn_action(said(), AgentKind::Plan, &None, "s1"), TurnAction::Nothing);
    let handoff = |target: &str| TurnOutcome::Handoff {
        target: target.into(),
        payload: Some("go".into()),
    };
    match turn_action(handoff("plan"), AgentKind::Main, &None, "s1") {
        TurnAction::Switch(s) => {
            assert_eq!(s.target, AgentKind::Plan);
            assert_eq!(s.step_with.as_deref(), Some("go"));
        }
        _ => panic!("no switch"),
    }
    assert_eq!(
        turn_action(handoff("nobody"), AgentKind::Main, &None, "s1"),
        TurnAction::Say("Error: handoff requested unknown agent `nobody`".into())
    );
    assert_eq!(
        turn_action(TurnOutcome::Failed("x".into()), AgentKind::Main, &None, "s1"),
        TurnAction::Reply("Error: x".into())
    );
}

#[test]
fn the_first_start_sets_up() {
    assert!(usable_config(None).is_none());
    assert!(usable_config(Some(ShirlConfig::default())).is_none());
    let config = config_after_setup("groq", "qwen");
    assert_eq!(config.model_for("main"), "qwen");
    assert!(config.memory.enabled && config.memory.auto_distill);
    assert_eq!(config.memory.embedder, None);
    assert_eq!(config.memory.recall_limit, 5);
    let mut config = usable_config(Some(config)).unwrap();
    config.set_agent_model("plan", "xai", "grok");
    let models = starting_models(&config);
    assert_eq!(models[0], (AgentKind::Main, "groq".into(), "qwen".into()));
    assert_eq!(models[1], (AgentKind::Plan, "xai".into(), "grok".into()));
    assert_eq!(models[2], (AgentKind::Review, "groq".into(), "qwen".into()));
    assert_eq!(sandbox_failed_lines("e")[0], "⚠ Failed to create sandbox: e");
    assert!(catalog_failed_line("e").contains("(e)"));
}
