use shirl::agents::AgentKind;
use shirl::catalog::{Catalog, CatalogProvider, Protocol, ReasoningOption, CATALOG_SCHEMA_VERSION};
use shirl::chat::{
    capability_lines, default_review_instruction, describe_reasoning_pref, describe_template,
    handle_chat_input, handle_model_command, handle_provider_command, handle_reasoning_command,
    help_lines, open_model_picker, parse_reasoning_arg, resolve_other, review_waits,
    session_was_reset, ChatRoute, ModelRequest, OtherCommand, ProviderRequest, ReasoningRequest,
    MAX_REVIEW_DIFF_BYTES,
};
use shirl::cli::{
    help_text, most_recent, parse_argv, prompt_with_stdin, reserved_commands, resolve_resume,
    ArgvOutcome, ParsedArgs, PermissionMode, SandboxPolicy,
};
use shirl::config::{CustomProviderEntry, ReasoningPref, ShirlConfig};
use shirl::headless::{
    git_files_touched, git_text, headless_config, headless_reply, run_headless, tool_call_line,
    tool_result_lines, truncate, CallArguments, HeadlessOutput, OutputFormat,
    EXIT_CONFIG_INCOMPLETE, EXIT_ERROR, EXIT_SUCCESS, EXIT_USAGE,
};
use shirl::picker;
use shirl::worker::TurnOutcome;

const SESSION: &str = "0198f3a2-5f6b-7c3d-9e1f-0a2b4c6d8e0f";

fn looks_like_an_id(s: &str) -> bool {
    s.len() == 36 && s.chars().all(|c| c == '-' || c.is_ascii_hexdigit())
}

fn outcome(args: &[&str]) -> ArgvOutcome {
    let argv: Vec<String> = args.iter().map(|s| s.to_string()).collect();
    let valid: Vec<bool> = args.iter().map(|s| looks_like_an_id(s)).collect();
    parse_argv(&argv, &valid)
}

fn parsed(args: &[&str]) -> ParsedArgs {
    match outcome(args) {
        ArgvOutcome::Parsed(p) => p,
        other => panic!("not accepted: {other:?}"),
    }
}

fn refused(args: &[&str]) -> String {
    match outcome(args) {
        ArgvOutcome::Error(e) => e,
        other => panic!("not refused: {other:?}"),
    }
}

#[test]
fn parse_argv_defaults_to_interactive_normal_mode() {
    let parsed = parsed(&[]);
    assert!(!parsed.headless);
    assert!(parsed.prompt.is_none());
    assert!(!parsed.json && !parsed.diff);
    assert!(!parsed.continue_recent);
    assert!(parsed.resume.is_none());
    assert!(matches!(parsed.sandbox_policy, SandboxPolicy::Off));
    assert!(matches!(parsed.permission_mode, PermissionMode::Normal));
}

#[test]
fn parse_argv_p_with_inline_prompt_sets_headless_and_full_auto() {
    let parsed = parsed(&["-p", "do thing"]);
    assert!(parsed.headless);
    assert_eq!(parsed.prompt.as_deref(), Some("do thing"));
    assert!(matches!(parsed.permission_mode, PermissionMode::FullAuto));
}

#[test]
fn parse_argv_p_without_prompt_leaves_prompt_unset_for_stdin() {
    let parsed = parsed(&["-p", "--json"]);
    assert!(parsed.headless);
    assert!(parsed.prompt.is_none());
    assert!(parsed.json);
}

#[test]
fn parse_argv_long_print_form_works() {
    let parsed = parsed(&["--print", "x"]);
    assert!(parsed.headless);
    assert_eq!(parsed.prompt.as_deref(), Some("x"));
}

#[test]
fn parse_argv_json_without_p_errors() {
    assert!(refused(&["--json"]).contains("--json requires -p"));
}

#[test]
fn parse_argv_diff_without_p_errors() {
    assert!(refused(&["--diff"]).contains("--diff requires -p"));
}

#[test]
fn parse_argv_continue_and_resume_are_mutually_exclusive() {
    let err = refused(&["--resume", SESSION, "-c"]);
    assert!(err.contains("cannot use both --continue and --resume"));
}

#[test]
fn parse_argv_auto_and_accept_edits_are_mutually_exclusive() {
    let err = refused(&["--auto", "--accept-edits"]);
    assert!(err.contains("cannot use both --auto and --accept-edits"));
}

#[test]
fn parse_argv_sandbox_flag_enables_sandbox() {
    assert!(matches!(parsed(&["--sandbox"]).sandbox_policy, SandboxPolicy::Sandbox));
}

#[test]
fn parse_argv_sandbox_with_restrict_network_accepted() {
    let parsed = parsed(&["--sandbox", "--restrict-network"]);
    assert!(matches!(parsed.sandbox_policy, SandboxPolicy::Restricted));
}

#[test]
fn parse_argv_restrict_network_implies_sandbox() {
    let parsed = parsed(&["--restrict-network"]);
    assert!(matches!(parsed.sandbox_policy, SandboxPolicy::Restricted));
}

#[test]
fn parse_argv_accept_edits_maps_to_auto_edit() {
    let parsed = parsed(&["--accept-edits"]);
    assert!(matches!(parsed.permission_mode, PermissionMode::AutoEdit));
}

#[test]
fn parse_argv_restrict_network_sets_restricted_policy() {
    let parsed = parsed(&["--sandbox", "--restrict-network"]);
    assert!(matches!(parsed.sandbox_policy, SandboxPolicy::Restricted));
}

#[test]
fn parse_argv_resume_parses_session_id() {
    let parsed = parsed(&["--resume", SESSION]);
    assert_eq!(parsed.resume.as_deref(), Some(SESSION));
}

#[test]
fn parse_argv_resume_rejects_invalid_id() {
    let err = refused(&["--resume", "not-a-uuid"]);
    assert!(err.contains("invalid session id"));
    assert_eq!(err, "invalid session id `not-a-uuid`");
}

#[test]
fn parse_argv_resume_errors_when_missing_value() {
    assert!(refused(&["--resume"]).contains("missing session id"));
}

#[test]
fn parse_argv_unknown_flag_errors() {
    let err = refused(&["--nope"]);
    assert!(err.contains("unrecognized argument"));
    assert_eq!(err, "unrecognized argument `--nope`\nRun `shirl --help` for usage.");
}

#[test]
fn parse_argv_continue_short_form_sets_flag() {
    assert!(parsed(&["-c"]).continue_recent);
}

#[test]
fn help_and_version_stop_the_reading() {
    assert_eq!(outcome(&["--help", "--nope"]), ArgvOutcome::Help);
    assert_eq!(outcome(&["-h"]), ArgvOutcome::Help);
    assert_eq!(outcome(&["-V"]), ArgvOutcome::Version);
    assert_eq!(outcome(&["--version"]), ArgvOutcome::Version);
    assert!(help_text("1.2.3").contains("1.2.3"));
}

#[test]
fn auto_is_full_auto() {
    assert!(matches!(parsed(&["--auto"]).permission_mode, PermissionMode::FullAuto));
    let both = parsed(&["-p", "x", "--accept-edits", "--json", "--diff"]);
    assert!(both.json && both.diff);
    assert!(both.headless);
}

#[test]
fn users_cannot_define_what_is_reserved() {
    let names = reserved_commands();
    for name in ["model", "provider", "help", "plan", "review", "new", "clear", "compact"] {
        assert!(names.contains(&name), "{name}");
    }
    assert!(!names.contains(&"deploy"));
}

#[test]
fn the_last_changed_session_is_continued() {
    let entries = vec![
        ("a".to_string(), 3u128),
        ("b".to_string(), 9),
        ("c".to_string(), 9),
        ("d".to_string(), 1),
    ];
    assert_eq!(most_recent(&entries).as_deref(), Some("b"));
    assert_eq!(most_recent(&vec![]), None);
    assert_eq!(resolve_resume(None, true, "/s", &entries), Ok(Some("b".to_string())));
    assert_eq!(
        resolve_resume(None, true, "/s", &vec![]),
        Err("no sessions found in /s".to_string())
    );
    assert_eq!(resolve_resume(Some("x".into()), false, "/s", &entries), Ok(Some("x".into())));
    assert_eq!(resolve_resume(None, false, "/s", &entries), Ok(None));
}

#[test]
fn piped_input_follows_the_prompt() {
    let some = |s: &str| Some(s.to_string());
    assert_eq!(prompt_with_stdin(true, some("fix"), some(" log \n")), some("fix\n\nlog"));
    assert_eq!(prompt_with_stdin(true, None, some(" log \n")), some(" log \n"));
    assert_eq!(prompt_with_stdin(true, some("fix"), some(" \n")), some("fix"));
    assert_eq!(prompt_with_stdin(false, some("fix"), some("log")), some("fix"));
    assert_eq!(prompt_with_stdin(true, None, None), None);
}

#[test]
fn truncate_str_zero_max_returns_empty() {
    assert_eq!(picker::truncate_str("hello", 0), "");
}

#[test]
fn truncate_str_one_max_is_ellipsis_when_truncated() {
    assert_eq!(picker::truncate_str("hello", 1), "…");
}

#[test]
fn truncate_str_passes_through_when_shorter_than_max() {
    assert_eq!(picker::truncate_str("abc", 10), "abc");
    assert_eq!(picker::truncate_str("", 5), "");
}

#[test]
fn truncate_str_passes_through_at_exact_length() {
    assert_eq!(picker::truncate_str("abcde", 5), "abcde");
}

#[test]
fn truncate_str_truncates_with_ellipsis() {
    assert_eq!(picker::truncate_str("abcdefgh", 5), "abcd…");
    assert_eq!(picker::truncate_str("hello world", 8), "hello w…");
}

#[test]
fn truncate_str_handles_multibyte_chars_by_char_count() {
    assert_eq!(picker::truncate_str("αβγδε", 5), "αβγδε");
    assert_eq!(picker::truncate_str("αβγδεζ", 5), "αβγδ…");
}

// One run without a conversation ----------------------------------------------

#[test]
fn truncate_short_string_unchanged() {
    assert_eq!(truncate("hello", 10), "hello");
}

#[test]
fn truncate_exact_length_unchanged() {
    assert_eq!(truncate("hello", 5), "hello");
}

#[test]
fn truncate_long_string_gets_ellipsis() {
    assert_eq!(truncate("hello world", 8), "hello w…");
}

#[test]
fn truncate_respects_char_boundaries() {
    let s = "éééééééé";
    assert_eq!(truncate(s, 4), "ééé…");
}

#[test]
fn truncate_zero_max_is_empty() {
    assert_eq!(truncate("anything", 0), "");
}

#[test]
fn calls_and_results_are_shown_cut() {
    assert_eq!(tool_call_line("bash", &CallArguments::Text("ls".into())), "· bash(ls)");
    let long = "x".repeat(100);
    assert_eq!(
        tool_call_line("bash", &CallArguments::Json(long.clone())),
        format!("· bash({}…)", "x".repeat(79))
    );
    assert_eq!(
        tool_call_line("bash", &CallArguments::Text(long.clone())),
        format!("· bash({long})")
    );
    assert_eq!(tool_result_lines("a\nb\nc\nd"), vec!["  ↳ a", "  ↳ b", "  ↳ c"]);
    assert!(tool_result_lines("").is_empty());
}

#[test]
fn output_of_git_is_used_where_there_is_any() {
    assert_eq!(git_text(true, "x\n".into()), Some("x\n".into()));
    assert_eq!(git_text(true, " \n".into()), None);
    assert_eq!(git_text(false, "x".into()), None);
    assert_eq!(git_files_touched(&Some("a.rs\nb.rs\n".into())), vec!["a.rs", "b.rs"]);
    assert!(git_files_touched(&None).is_empty());
}

#[test]
fn a_run_ends_with_a_report() {
    let run = |outcome, format, include_diff| {
        run_headless(
            outcome,
            format,
            include_diff,
            "s1",
            Some(" a.rs | 2 +-\n".into()),
            Some("-old\n+new\n".into()),
            Some("a.rs\n".into()),
        )
    };
    let done = || TurnOutcome::Message("done".into());
    let r = run(done(), OutputFormat::Text, false);
    assert_eq!(r.exit_code, EXIT_SUCCESS);
    assert_eq!(r.note, "session: s1");
    match r.output {
        Some(HeadlessOutput::Text(t)) => {
            assert_eq!(t, "done\n\n── changes ──\n a.rs | 2 +-\n");
        }
        _ => panic!("no text"),
    }
    match run(done(), OutputFormat::Text, true).output {
        Some(HeadlessOutput::Text(t)) => assert!(t.ends_with("+-\n-old\n+new\n\n")),
        _ => panic!("no text"),
    }
    match run(done(), OutputFormat::Json, true).output {
        Some(HeadlessOutput::Json(j)) => {
            assert_eq!(j.session_id, "s1");
            assert_eq!(j.result, "done");
            assert_eq!(j.files_touched, vec!["a.rs"]);
            assert_eq!(j.diff_stat.as_deref(), Some(" a.rs | 2 +-"));
            assert_eq!(j.diff.as_deref(), Some("-old\n+new\n"));
        }
        _ => panic!("no report"),
    }
    let r = run(TurnOutcome::Failed("no network".into()), OutputFormat::Json, true);
    assert!(r.output.is_none());
    assert_eq!(r.exit_code, EXIT_ERROR);
    assert_eq!(r.note, "Error: no network");
    let handoff = TurnOutcome::Handoff { target: "plan".into(), payload: None };
    assert_eq!(
        headless_reply(handoff),
        Err((EXIT_ERROR, "Error: unexpected handoff in headless mode".into()))
    );
    assert_eq!(EXIT_USAGE, 2);
}

#[test]
fn a_run_needs_a_default_model() {
    let mut config = ShirlConfig::default();
    assert_eq!(headless_config(Some(config)).err().unwrap().0, EXIT_CONFIG_INCOMPLETE);
    assert_eq!(headless_config(None).err().unwrap().0, EXIT_CONFIG_INCOMPLETE);
    config = ShirlConfig::default();
    config.default.provider = "openai".into();
    config.default.model = "gpt-4o".into();
    assert!(headless_config(Some(config)).is_ok());
}

// What a line means ------------------------------------------------------------

#[test]
fn lines_are_routed() {
    let main = AgentKind::Main;
    assert_eq!(handle_chat_input("hello /model", main), ChatRoute::Turn);
    assert_eq!(handle_chat_input("", main), ChatRoute::Turn);
    assert_eq!(handle_chat_input(" / ", main), ChatRoute::Nothing);
    assert_eq!(handle_chat_input("/model", main), ChatRoute::PickModel);
    assert_eq!(handle_chat_input("/model a/b", main), ChatRoute::Model("a/b".into()));
    assert_eq!(handle_chat_input("/provider", main), ChatRoute::Provider("".into()));
    assert_eq!(handle_chat_input("/reasoning on", main), ChatRoute::Reasoning("on".into()));
    assert_eq!(handle_chat_input("/capabilities", main), ChatRoute::Capabilities);
    assert_eq!(handle_chat_input("/memory list", main), ChatRoute::Memory("list".into()));
    assert_eq!(handle_chat_input("/help", main), ChatRoute::Help);
    assert_eq!(
        handle_chat_input("/review", main),
        ChatRoute::Switch { target: AgentKind::Review, step_with: None, wants_diff: true }
    );
    assert_eq!(
        handle_chat_input("/plan a wall", main),
        ChatRoute::Switch {
            target: AgentKind::Plan,
            step_with: Some("a wall".into()),
            wants_diff: false
        }
    );
    assert!(matches!(handle_chat_input("/approve", main), ChatRoute::Refused(_)));
    assert_eq!(
        handle_chat_input("/deploy now", main),
        ChatRoute::Other { name: "deploy".into(), args: "now".into() }
    );
}

#[test]
fn other_commands_are_templates_or_built_in() {
    assert_eq!(
        resolve_other("pr", "now", Some("Open a PR: $ARGUMENTS"), true),
        OtherCommand::Template("Open a PR: now".into())
    );
    assert_eq!(
        resolve_other("new", "", None, true),
        OtherCommand::BuiltIn { distill_first: true }
    );
    assert_eq!(
        resolve_other("new", "", None, false),
        OtherCommand::BuiltIn { distill_first: false }
    );
    assert_eq!(
        resolve_other("clear", "", None, true),
        OtherCommand::BuiltIn { distill_first: false }
    );
    assert!(session_was_reset("a", "b", 3));
    assert!(session_was_reset("a", "a", 0));
    assert!(!session_was_reset("a", "a", 3));
    assert_eq!(help_lines().len(), 5);
}

#[test]
fn default_review_instruction_returns_none_outside_git_repo() {
    assert!(git_text(false, "fatal: not a git repository".into())
        .and_then(|diff| default_review_instruction(&diff))
        .is_none());
}

#[test]
fn default_review_instruction_returns_none_for_empty_diff() {
    assert!(default_review_instruction("").is_none());
    assert!(default_review_instruction(" \n").is_none());
}

#[test]
fn default_review_instruction_returns_some_for_nonempty_diff() {
    let prompt = default_review_instruction("-original\n+modified\n").unwrap();
    assert!(prompt.contains("Review the following git changes"));
    assert!(prompt.contains("modified"));
}

#[test]
fn default_review_instruction_includes_staged_changes() {
    let prompt = default_review_instruction("-original\n+staged change\n").unwrap();
    assert!(prompt.contains("staged change"));
}

#[test]
fn long_diffs_are_not_reviewed_by_default() {
    let two = "é".repeat(MAX_REVIEW_DIFF_BYTES / 2);
    assert!(default_review_instruction(&two).is_some());
    assert!(default_review_instruction(&format!("{two}x")).is_none());
    assert!(review_waits(&None).unwrap().contains("waiting"));
    assert!(review_waits(&Some("x".into())).is_none());
}

fn names(v: &[&str]) -> Vec<String> {
    v.iter().map(|s| s.to_string()).collect()
}

#[test]
fn capability_lines_merged_commands_with_divider() {
    let lines = capability_lines(
        AgentKind::Main,
        vec![],
        vec![],
        names(&["clear"]),
        names(&["check", "pr"]),
    );
    let joined = lines.join("\n");
    assert!(joined.contains("  commands (3):"));
    assert!(joined.contains("    /clear"));
    assert!(joined.contains("    ── custom ──"));
    assert!(joined.contains("    /check"));
    assert!(joined.contains("    /pr"));
    assert!(!joined.contains("custom commands"));
}

#[test]
fn capability_lines_no_divider_when_only_builtins() {
    let lines = capability_lines(AgentKind::Main, vec![], vec![], names(&["new"]), vec![]);
    let joined = lines.join("\n");
    assert!(joined.contains("  commands (1):"));
    assert!(joined.contains("    /new"));
    assert!(!joined.contains("── custom ──"));
}

#[test]
fn capability_lines_no_divider_when_only_custom() {
    let lines = capability_lines(AgentKind::Main, vec![], vec![], vec![], names(&["deploy"]));
    let joined = lines.join("\n");
    assert!(joined.contains("  commands (1):"));
    assert!(joined.contains("    /deploy"));
    assert!(!joined.contains("── custom ──"));
}

#[test]
fn capability_lines_no_commands_heading_when_empty() {
    let lines = capability_lines(AgentKind::Main, vec![], vec![], vec![], vec![]);
    let joined = lines.join("\n");
    assert!(!joined.contains("commands"));
}

#[test]
fn capabilities_are_listed_in_order() {
    let lines = capability_lines(
        AgentKind::Plan,
        names(&["write", "bash"]),
        names(&["back"]),
        vec![],
        vec![],
    );
    assert_eq!(lines[0], format!("Capabilities - {} agent", AgentKind::Plan.display_name()));
    assert_eq!(
        lines[1..],
        ["  tools (2):", "    bash", "    write", "  handoffs (1):", "    back"]
    );
}

#[test]
fn templates_are_described_by_their_first_line() {
    assert_eq!(describe_template("\n  Run checks \nthen"), "Run checks");
    assert_eq!(describe_template(" \n"), "custom command");
    assert_eq!(describe_template(&"a".repeat(61)), format!("{}…", "a".repeat(60)));
    assert_eq!(describe_template(&"a".repeat(60)), "a".repeat(60));
    assert_eq!(describe_template(&"é".repeat(31)), format!("{}…", "é".repeat(30)));
    let odd = format!("a{}", "é".repeat(30));
    assert_eq!(odd.len(), 61);
    assert_eq!(describe_template(&odd), format!("a{}…", "é".repeat(30)));
}

fn effort(values: &[&str]) -> ReasoningOption {
    ReasoningOption::Effort { values: names(values) }
}

fn wish(enabled: Option<bool>, effort: Option<&str>, budget: Option<u32>) -> ReasoningPref {
    ReasoningPref { enabled, effort: effort.map(|s| s.to_string()), budget_tokens: budget }
}

#[test]
fn parse_reasoning_clear_and_toggle() {
    assert_eq!(parse_reasoning_arg("default", &vec![]), Ok(None));
    assert_eq!(parse_reasoning_arg("reset", &vec![]), Ok(None));
    assert_eq!(parse_reasoning_arg("on", &vec![]), Ok(Some(wish(Some(true), None, None))));
    assert_eq!(parse_reasoning_arg("off", &vec![]), Ok(Some(wish(Some(false), None, None))));
}

#[test]
fn parse_reasoning_budget_validates_bounds() {
    let opts = vec![ReasoningOption::BudgetTokens { min: Some(1024), max: Some(32000) }];
    assert_eq!(parse_reasoning_arg("4096", &opts), Ok(Some(wish(None, None, Some(4096)))));
    assert!(parse_reasoning_arg("10", &opts).unwrap_err().contains("minimum of 1024"));
    assert!(parse_reasoning_arg("99999", &opts).unwrap_err().contains("maximum of 32000"));
}

#[test]
fn parse_reasoning_budget_unbounded_and_unsupported() {
    let unbounded = vec![ReasoningOption::BudgetTokens { min: None, max: None }];
    assert_eq!(parse_reasoning_arg("1", &unbounded), Ok(Some(wish(None, None, Some(1)))));
    assert!(parse_reasoning_arg("2048", &vec![effort(&["low", "high"])])
        .unwrap_err()
        .contains("does not support a thinking budget"));
}

#[test]
fn parse_reasoning_effort_validated_against_values() {
    let opts = vec![effort(&["low", "high"])];
    assert_eq!(parse_reasoning_arg("HIGH", &opts), Ok(Some(wish(None, Some("high"), None))));
    assert!(parse_reasoning_arg("medium", &opts)
        .unwrap_err()
        .contains("not a valid effort level"));
    assert_eq!(
        parse_reasoning_arg("x", &vec![]),
        Err("unknown reasoning option 'x'".to_string())
    );
}

#[test]
fn wishes_are_put_in_words() {
    assert_eq!(describe_reasoning_pref(None), "default (catalog)");
    assert_eq!(describe_reasoning_pref(Some(&wish(None, None, None))), "default (catalog)");
    assert_eq!(
        describe_reasoning_pref(Some(&wish(Some(true), Some("low"), Some(10)))),
        "on, effort=low, budget=10"
    );
}

#[test]
fn what_cannot_be_turned_off_stays_on() {
    let opts = vec![effort(&["low", "high"])];
    let ask = |args: &str, protocol| {
        handle_reasoning_command(args, "openai", "o3", None, protocol, &opts)
    };
    match ask(" ", None) {
        ReasoningRequest::Say(lines) => {
            assert_eq!(lines[0], "Reasoning for openai/o3: default (catalog)");
            assert_eq!(lines[1], "Supported: effort[low/high]");
            assert_eq!(lines.len(), 3);
        }
        _ => panic!("changed"),
    }
    match ask("off", Some(Protocol::OpenAI)) {
        ReasoningRequest::Say(lines) => assert!(lines[0].contains("no off-switch")),
        _ => panic!("changed"),
    }
    match ask("off", Some(Protocol::Anthropic)) {
        ReasoningRequest::Keep { pref, done } => {
            assert_eq!(pref, Some(wish(Some(false), None, None)));
            assert_eq!(done, "⏺ Reasoning set to off for openai/o3");
        }
        _ => panic!("refused"),
    }
    match ask("medium", Some(Protocol::OpenAI)) {
        ReasoningRequest::Say(lines) => assert!(lines[0].starts_with("Error: 'medium'")),
        _ => panic!("changed"),
    }
}

#[test]
fn models_are_named_with_their_provider() {
    assert_eq!(
        handle_model_command("", "a/b"),
        ModelRequest::Say("Current model: a/b".into())
    );
    assert_eq!(
        handle_model_command(" openrouter/x/y ", "a/b"),
        ModelRequest::Switch { provider: "openrouter".into(), model: "x/y".into() }
    );
    match handle_model_command("gpt", "a/b") {
        ModelRequest::Say(line) => assert_eq!(
            line,
            "Ambiguous model 'gpt'. Use provider/model_id (e.g. openai/gpt-4o)"
        ),
        _ => panic!("switched"),
    }
    assert_eq!(open_model_picker(1, "a/b"), ("Current model: a/b".into(), true));
    assert!(!open_model_picker(0, "a/b").1);
}

#[test]
fn known_providers_can_be_connected() {
    let catalog = Catalog {
        providers: vec![CatalogProvider {
            id: "groq".into(),
            name: "Groq".into(),
            base_url: "https://x".into(),
            protocol: Protocol::OpenAI,
            env: vec![],
            models: vec![],
        }],
        fetched_at: 0,
        schema_version: CATALOG_SCHEMA_VERSION,
    };
    let mut config = ShirlConfig::default();
    config.providers.insert(
        "mine".into(),
        CustomProviderEntry {
            base_url: "http://x".into(),
            protocol: "openai".into(),
            display_name: None,
        },
    );
    let ask = |args: &str| handle_provider_command(args, &catalog, &config);
    assert_eq!(ask(" "), ProviderRequest::Interactive);
    assert_eq!(
        ask("--remove  groq"),
        ProviderRequest::Remove {
            provider: "groq".into(),
            done: "Disconnected provider: groq".into()
        }
    );
    assert_eq!(
        ask("groq k 1"),
        ProviderRequest::Connect {
            provider: "groq".into(),
            key: "k 1".into(),
            done: "Connected provider: Groq (groq)".into()
        }
    );
    assert!(matches!(ask("mine k"), ProviderRequest::Connect { .. }));
    match ask("other k") {
        ProviderRequest::Say(lines) => {
            assert!(lines[0].starts_with("Unknown provider: other."));
            assert!(lines[0].ends_with("[providers.other]"));
        }
        _ => panic!("connected"),
    }
    match ask("groq") {
        ProviderRequest::Say(lines) => assert_eq!(lines.len(), 2),
        _ => panic!("connected"),
    }
}
