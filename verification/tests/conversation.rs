use shirl::compaction::{
    adjusted_preserve_count, apply_summary, auto_compact, build_compaction_prompt,
    clear_old_tool_results, compaction_pair, compaction_user_content, plan_compaction,
    DEFAULT_PRESERVE_RECENT,
};
use shirl::message::{MemoryItem, Message, Role, ToolCall};
use shirl::tracking::last_assistant_text;
use shirl::transcript::transcript_items;
use shirl::worker::{child_session_from_snapshot, child_sources, strip_metadata};

fn item(m: Message) -> MemoryItem {
    MemoryItem::Message(m)
}

fn calling(text: &str, id: &str, name: &str) -> Message {
    let mut m = Message::assistant(text);
    m.tool_calls = vec![ToolCall {
        id: id.to_string(),
        name: name.to_string(),
        arguments: "{}".to_string(),
    }];
    m
}

#[test]
fn no_adjustment_when_no_split() {
    let items = vec![
        item(Message::user("hello")),
        item(Message::assistant("world")),
        item(Message::user("keep")),
        item(Message::assistant("this")),
    ];
    assert_eq!(adjusted_preserve_count(&items, 2), 2);
}

#[test]
fn nudges_past_tool_result_at_boundary() {
    let items = vec![
        item(Message::user("hello")),
        item(calling("thinking", "c1", "read")),
        item(Message::tool_result("c1", "result")),
        item(Message::user("keep")),
    ];
    assert_eq!(adjusted_preserve_count(&items, 2), 3);
}

#[test]
fn nudges_past_assistant_with_tool_calls() {
    let items = vec![
        item(Message::user("hello")),
        item(calling("thinking", "c1", "read")),
        item(Message::tool_result("c1", "result")),
        item(Message::user("keep")),
    ];
    assert_eq!(adjusted_preserve_count(&items, 2), 3);
}

#[test]
fn no_adjustment_when_preserve_equals_len() {
    let items = vec![item(Message::user("only"))];
    assert_eq!(adjusted_preserve_count(&items, 1), 1);
}

#[test]
fn preserving_can_take_in_everything() {
    let items = vec![
        item(Message::tool_result("a", "1")),
        item(Message::tool_result("b", "2")),
        item(Message::tool_result("c", "3")),
    ];
    assert_eq!(adjusted_preserve_count(&items, 1), 3);
    assert_eq!(adjusted_preserve_count(&items, 0), 0);
    assert_eq!(adjusted_preserve_count(&items, 7), 7);
}

#[test]
fn compaction_pair_marks_compacted() {
    let pair = compaction_pair("Summary text", None);
    assert_eq!(pair.len(), 2);
    let user = pair[0].message();
    assert_eq!(user.role, Role::User);
    assert!(user.compacted);
    assert!(user.text_content().contains("compaction summary"));
    let assistant = pair[1].message();
    assert_eq!(assistant.role, Role::Assistant);
    assert!(assistant.compacted);
    assert_eq!(assistant.text_content(), "Summary text");
}

#[test]
fn compaction_pair_includes_hint() {
    let pair = compaction_pair("Summary", Some("focus on auth"));
    assert!(pair[0].message().text_content().contains("focus on auth"));
    assert_eq!(
        compaction_user_content(Some("x")),
        "[System: This is a compaction summary of the preceding conversation.]\nUser hint: x"
    );
}

#[test]
fn compaction_pair_no_hint_omits_hint_line() {
    let pair = compaction_pair("Summary", None);
    assert!(!pair[0].message().text_content().contains("User hint:"));
}

#[test]
fn build_compaction_prompt_includes_history() {
    let items = vec![item(Message::user("hello")), item(Message::assistant("world"))];
    let text = build_compaction_prompt(&items, 2, None).text_content();
    assert!(text.contains("hello"));
    assert!(text.contains("world"));
    assert!(text.contains("Summarize"));
    assert!(text.ends_with("\n\nUser: hello\nAssistant: world\n"));
    assert!(!build_compaction_prompt(&items, 1, None).text_content().contains("world"));
}

#[test]
fn build_compaction_prompt_with_hint() {
    let items = vec![item(Message::user("fix bug"))];
    let text = build_compaction_prompt(&items, 1, Some("keep file paths")).text_content();
    assert!(text.contains("keep file paths"));
    assert!(text.ends_with("\nAdditional context from user: keep file paths"));
}

#[test]
fn default_preserve_count() {
    assert_eq!(DEFAULT_PRESERVE_RECENT, 6);
}

#[test]
fn compact_command_uses_command_context() {
    let mut items: Vec<MemoryItem> = Vec::new();
    for i in 1..=4 {
        items.push(item(Message::user(&format!("u{i}"))));
        items.push(item(Message::assistant(&format!("a{i}"))));
    }
    assert_eq!(items.len(), 8);
    let plan =
        plan_compaction(&items, DEFAULT_PRESERVE_RECENT, Some("keep architecture notes")).unwrap();
    assert_eq!(plan.replaced, 2);
    assert!(plan.prompt.text_content().contains("keep architecture notes"));
    apply_summary(&mut items, plan.replaced, "summary", Some("keep architecture notes"));
    assert_eq!(items.len(), 8);
    assert!(items[0].message().compacted);
    assert!(items[1].message().compacted);
    assert_eq!(items[2].message().text_content(), "u2");
}

#[test]
fn short_sessions_are_not_compacted() {
    let items = vec![item(Message::user("a")), item(Message::assistant("b"))];
    assert!(plan_compaction(&items, 2, None).is_none());
    assert!(plan_compaction(&items, 6, None).is_none());
}

#[test]
fn auto_compaction_runs_as_before_model_procedure() {
    let mut items = vec![
        item(Message::user("old user message")),
        item(Message::assistant("old assistant message")),
        item(Message::user("newer user message")),
        item(Message::assistant("newer assistant message")),
        item(Message::user("current request")),
    ];
    let plan = auto_compact(&mut items, 40, 0, 2).unwrap();
    assert_eq!(plan.replaced, 3);
    apply_summary(&mut items, plan.replaced, "summary", None);
    assert_eq!(items.len(), 4);
    assert!(items[0].message().compacted);
    assert_eq!(items[0].message().role, Role::User);
    assert!(items[1].message().compacted);
    assert_eq!(items[1].message().role, Role::Assistant);
    assert_eq!(items[1].message().text_content(), "summary");
}

#[test]
fn clearing_tool_results_can_skip_summarization() {
    let mut items = vec![
        item(Message::user("u0")),
        item(Message::tool_result("call-1", &"x".repeat(800))),
        item(Message::user("u2")),
        item(Message::assistant("a3")),
    ];
    // 800 characters are 200 tokens, less ten for the placeholder.
    assert!(auto_compact(&mut items, 205, 50, 2).is_none());
    let cleared = items[1].message();
    assert!(cleared.text_content().starts_with("[Result cleared"));
    assert!(cleared.compacted);
    assert_eq!(cleared.role, Role::Tool);
    assert_eq!(cleared.tool_call_id.as_deref(), Some("call-1"));
    assert_eq!(items[0].message().text_content(), "u0");
}

#[test]
fn nothing_happens_within_the_limit() {
    let mut items = vec![item(Message::tool_result("c", &"x".repeat(800))), item(Message::user("u"))];
    assert!(auto_compact(&mut items, 50, 50, 1).is_none());
    assert_eq!(items[0].message().text_content().len(), 800);
}

#[test]
fn recent_tool_results_stay() {
    let mut items = vec![
        item(Message::tool_result("old", &"x".repeat(84))),
        item(Message::tool_result("new", "fresh")),
    ];
    assert_eq!(clear_old_tool_results(&mut items, 1), 11);
    assert!(items[0].message().compacted);
    assert_eq!(items[1].message().text_content(), "fresh");
    let again = clear_old_tool_results(&mut items, 1);
    assert_eq!(again, 0);
}

#[test]
fn snapshot_filter_strips_tool_calls_and_inlines_reports() {
    let snapshot = vec![
        Message::user("do task"),
        calling("", "call_1", "plan"),
        Message::tool_result("call_1", "plan output"),
    ];
    let msgs = child_session_from_snapshot(&snapshot);
    assert_eq!(msgs.len(), 2);
    assert_eq!(msgs[0].role, Role::User);
    assert_eq!(msgs[0].text_content(), "do task");
    assert!(msgs[0].tool_calls.is_empty());
    assert_eq!(msgs[1].role, Role::Assistant);
    assert!(msgs[1].text_content().contains("[Prior `plan` report]"));
    assert!(msgs[1].text_content().contains("plan output"));
    assert!(msgs[1].tool_calls.is_empty());
    assert!(msgs[1].tool_call_id.is_none());
}

#[test]
fn snapshot_filter_preserves_assistant_text_alongside_tool_calls() {
    let msgs = child_session_from_snapshot(&vec![calling("thinking out loud", "c", "implement")]);
    assert_eq!(msgs.len(), 1);
    assert_eq!(msgs[0].text_content(), "thinking out loud");
    assert!(msgs[0].tool_calls.is_empty());
}

#[test]
fn snapshot_filter_uses_fallback_name_for_orphan_tool_result() {
    let msgs = child_session_from_snapshot(&vec![Message::tool_result("missing", "result")]);
    assert_eq!(msgs.len(), 1);
    assert!(msgs[0].text_content().contains("[Prior `worker` report]"));
}

#[test]
fn the_last_call_of_an_id_names_its_result() {
    let msgs = child_session_from_snapshot(&vec![
        calling("", "c", "plan"),
        calling("", "c", "review"),
        Message::tool_result("c", "done"),
    ]);
    assert_eq!(msgs.len(), 1);
    assert_eq!(msgs[0].text_content(), "[Prior `review` report]\ndone");
}

#[test]
fn metadata_is_stripped() {
    let mut m = calling("t", "c", "plan");
    m.token_count = Some(4);
    m.context_tokens = Some(9);
    m.compacted = true;
    m.tool_call_id = Some("x".to_string());
    assert_eq!(strip_metadata(&m), Message::assistant("t"));
}

#[test]
fn transcript_shows_archived_originals_and_hides_summaries() {
    let mut summary = Message::user("summary of the start");
    summary.compacted = true;
    let full = vec![
        (item(Message::user("first question")), true),
        (item(Message::user("first answer")), true),
        (item(summary), false),
        (item(Message::user("second question")), false),
    ];
    let shown: Vec<String> = transcript_items(Some(&full), &vec![])
        .iter()
        .map(|i| i.message().text_content())
        .collect();
    assert_eq!(shown, ["first question", "first answer", "second question"]);
}

#[test]
fn transcript_falls_back_to_live_view_for_plain_sessions() {
    let live = vec![item(Message::user("hello"))];
    let shown = transcript_items(None, &live);
    assert_eq!(shown.len(), 1);
    assert_eq!(shown, live);
}

#[test]
fn the_last_reply_is_the_report() {
    let messages = vec![
        Message::assistant("early"),
        Message::assistant("the report"),
        calling("", "c", "x"),
        Message::user("ok"),
    ];
    assert_eq!(last_assistant_text(&messages).as_deref(), Some("the report"));
    assert_eq!(last_assistant_text(&vec![Message::user("x")]), None);
}

#[test]
fn messages_copy_whole() {
    let m = calling("t", "c", "plan");
    assert_eq!(m.copied(), m);
    assert_eq!(Role::System.label(), "System");
    assert_eq!(Role::Tool.label(), "Tool");
}

#[test]
fn compaction_keeps_what_is_recent() {
    let mut items: Vec<MemoryItem> =
        (0..6).map(|i| item(Message::user(&format!("message {i}")))).collect();
    let request = plan_compaction(&items, 2, None).unwrap();
    assert_eq!(request.replaced, 4);
    apply_summary(&mut items, request.replaced, "what was said", None);
    assert_eq!(items.len(), 4);
    assert!(items[0].message().compacted && items[1].message().compacted);
    assert_eq!(items[1].message().text_content(), "what was said");
    assert_eq!(items[2].message().text_content(), "message 4");
    assert_eq!(items[3].message().text_content(), "message 5");
    assert!(!items[3].message().compacted);
}

#[test]
fn every_report_reaches_the_workers() {
    let snapshot = vec![
        calling("", "a", "plan"),
        Message::tool_result("a", "first report"),
        calling("on it", "b", "implement"),
        Message::tool_result("b", "second report"),
        Message::tool_result("lost", "third report"),
    ];
    let shown: Vec<String> =
        child_session_from_snapshot(&snapshot).iter().map(|m| m.text_content()).collect();
    assert_eq!(
        shown,
        vec![
            "[Prior `plan` report]\nfirst report",
            "on it",
            "[Prior `implement` report]\nsecond report",
            "[Prior `worker` report]\nthird report",
        ]
    );
    assert_eq!(child_sources(&snapshot), vec![1, 2, 3, 4]);
}
