//! Subagents: what a worker of the headless orchestrator is shown of the conversation, what
//! each subagent is asked, and what its turn comes to.
use crate::message::{
    Message, MessageView, Role, ToolCall, ToolCallView, call_views, copy_blocks, lemma_plain_text,
    message_views, plain,
};
use crate::sort::positions;
use crate::text::{contains, copy, lemma_contains, opt_text, same};
use vstd::prelude::*;

verus! {

// ---------------------------------------------------------------------------
// The worker's session
// ---------------------------------------------------------------------------
/// A message without tool calls and without what belongs to the calls of another session.
pub open spec fn without_metadata(m: MessageView) -> MessageView {
    MessageView {
        tool_calls: Seq::empty(),
        tool_call_id: None,
        token_count: None,
        context_tokens: None,
        compacted: false,
        ..m
    }
}

/// The calls that the assistant made in `messages`.
pub open spec fn calls_in(messages: Seq<MessageView>) -> Seq<ToolCallView>
    decreases messages.len(),
{
    if messages.len() == 0 {
        Seq::empty()
    } else {
        let m = messages.last();
        calls_in(messages.drop_last()) + if m.role == Role::Assistant {
            m.tool_calls
        } else {
            Seq::empty()
        }
    }
}

/// The name of the tool that the call `id` is of: the last one counts.
pub open spec fn call_name(calls: Seq<ToolCallView>, id: Seq<char>) -> Option<Seq<char>>
    decreases calls.len(),
{
    if calls.len() == 0 {
        None
    } else if calls.last().id == id {
        Some(calls.last().name)
    } else {
        call_name(calls.drop_last(), id)
    }
}

/// The tool that the result `m` is of, after the calls `calls`.
pub open spec fn reporter(m: MessageView, calls: Seq<ToolCallView>) -> Seq<char> {
    match m.tool_call_id {
        Some(id) => match call_name(calls, id) {
            Some(name) => name,
            None => "worker"@,
        },
        None => "worker"@,
    }
}

/// The report of a worker as a message of the assistant.
pub open spec fn report_message(m: MessageView, calls: Seq<ToolCallView>) -> MessageView {
    plain(Role::Assistant, "[Prior `"@ + reporter(m, calls) + "` report]\n"@ + m.text())
}

/// What the worker is shown of the message `m`, after the calls `calls`.
pub open spec fn shown(m: MessageView, calls: Seq<ToolCallView>) -> Seq<MessageView> {
    if m.role == Role::Tool {
        seq![report_message(m, calls)]
    } else if m.role == Role::Assistant && m.tool_calls.len() > 0 && m.text().len() == 0 {
        Seq::empty()
    } else {
        seq![without_metadata(m)]
    }
}

/// What a worker is shown of a conversation.
pub open spec fn child_messages(messages: Seq<MessageView>) -> Seq<MessageView>
    decreases messages.len(),
{
    if messages.len() == 0 {
        Seq::empty()
    } else {
        let before = messages.drop_last();
        child_messages(before) + shown(messages.last(), calls_in(before))
    }
}

/// Which messages a worker is shown something of: all but the silent calls, in order.
pub open spec fn shown_places(messages: Seq<MessageView>) -> Seq<int>
    decreases messages.len(),
{
    if messages.len() == 0 {
        Seq::empty()
    } else {
        let before = messages.drop_last();
        if shown(messages.last(), calls_in(before)).len() > 0 {
            shown_places(before).push(before.len() as int)
        } else {
            shown_places(before)
        }
    }
}

/// A message without tool calls and without what belongs to the calls of another session.
pub fn strip_metadata(msg: &Message) -> (r: Message)
    ensures
        r@ == without_metadata(msg@),
{
    let r = Message {
        role: msg.role,
        content: copy_blocks(&msg.content),
        tool_calls: Vec::new(),
        tool_call_id: None,
        token_count: None,
        context_tokens: None,
        compacted: false,
    };
    assert(r@.tool_calls =~= Seq::empty());
    r
}

fn name_of_call(calls: &Vec<ToolCall>, id: &str) -> (r: Option<String>)
    ensures
        opt_text(r) == call_name(call_views(calls@), id@),
{
    let ghost views = call_views(calls@);
    let mut k: usize = calls.len();
    assert(views.take(k as int) =~= views);
    while k > 0
        invariant
            k <= calls@.len(),
            views == call_views(calls@),
            call_name(views.take(k as int), id@) == call_name(views, id@),
        decreases k,
    {
        proof {
            assert(views.take(k as int).drop_last() =~= views.take(k - 1));
            assert(views.take(k as int).last() == calls@[k - 1]@);
        }
        if same(calls[k - 1].id.as_str(), id) {
            return Some(calls[k - 1].name.clone());
        }
        k -= 1;
    }
    assert(views.take(0) =~= Seq::empty());
    None
}

/// What a worker is shown of the orchestrator's conversation: no tool calls, which the worker
/// could not satisfy; the reports of earlier workers as messages of the assistant.
pub fn child_session_from_snapshot(messages: &Vec<Message>) -> (r: Vec<Message>)
    ensures
        message_views(r@) == child_messages(message_views(messages@)),
{
    let ghost views = message_views(messages@);
    let mut r: Vec<Message> = Vec::new();
    let mut calls: Vec<ToolCall> = Vec::new();
    let mut i: usize = 0;
    assert(views.take(0) =~= Seq::empty());
    assert(message_views(r@) =~= Seq::empty());
    assert(call_views(calls@) =~= Seq::empty());
    while i < messages.len()
        invariant
            i <= messages@.len(),
            views == message_views(messages@),
            message_views(r@) == child_messages(views.take(i as int)),
            call_views(calls@) == calls_in(views.take(i as int)),
        decreases messages@.len() - i,
    {
        let m = &messages[i];
        let ghost r0 = message_views(r@);
        let ghost calls0 = call_views(calls@);
        proof {
            let t = views.take(i + 1);
            assert(t.drop_last() =~= views.take(i as int));
            assert(t.last() == m@);
        }
        if m.role == Role::Tool {
            let known = match &m.tool_call_id {
                Some(id) => name_of_call(&calls, id.as_str()),
                None => None,
            };
            let name = match known {
                Some(name) => name,
                None => copy("worker"),
            };
            let mut text = copy("[Prior `");
            text.append(name.as_str());
            text.append("` report]\n");
            let content = m.text_content();
            text.append(content.as_str());
            let report = Message::assistant(text.as_str());
            assert(report@ == report_message(m@, calls0));
            r.push(report);
            assert(message_views(r@) =~= r0 + shown(m@, calls0));
            assert(calls0 + Seq::empty() =~= calls0);
        } else {
            let silent = m.role == Role::Assistant && m.tool_calls.len() > 0
                && m.text_content().as_str().is_empty();
            if m.role == Role::Assistant {
                let mut k: usize = 0;
                assert(call_views(calls@) =~= calls0 + m@.tool_calls.take(0));
                while k < m.tool_calls.len()
                    invariant
                        k <= m.tool_calls@.len(),
                        call_views(calls@) == calls0 + m@.tool_calls.take(k as int),
                    decreases m.tool_calls@.len() - k,
                {
                    let call = &m.tool_calls[k];
                    let ghost c0 = call_views(calls@);
                    calls.push(
                        ToolCall {
                            id: call.id.clone(),
                            name: call.name.clone(),
                            arguments: call.arguments.clone(),
                        },
                    );
                    assert(call_views(calls@) =~= c0.push(call@));
                    k += 1;
                    assert(call_views(calls@) =~= calls0 + m@.tool_calls.take(k as int));
                }
                assert(m@.tool_calls.take(k as int) =~= m@.tool_calls);
            } else {
                assert(calls0 + Seq::empty() =~= calls0);
            }
            if silent {
                assert(r0 + Seq::empty() =~= r0);
            } else {
                r.push(strip_metadata(m));
                assert(message_views(r@) =~= r0 + shown(m@, calls0));
            }
        }
        i += 1;
    }
    assert(views.take(i as int) =~= views);
    r
}

/// Nothing that a worker is shown calls a tool, answers a call or carries the counts of
/// another session.
pub proof fn workers_see_no_tool_calls(messages: Seq<MessageView>)
    ensures
        forall|i: int|
            0 <= i < child_messages(messages).len() ==> {
                let m = #[trigger] child_messages(messages)[i];
                m.role != Role::Tool && m.tool_calls.len() == 0 && m.tool_call_id is None
                    && m.token_count is None && m.context_tokens is None && !m.compacted
            },
    decreases messages.len(),
{
    if messages.len() > 0 {
        workers_see_no_tool_calls(messages.drop_last());
    }
}

/// Every message with something to say is shown: only calls without text are left out.
pub proof fn workers_miss_only_silent_calls(messages: Seq<MessageView>)
    requires
        forall|i: int|
            0 <= i < messages.len() ==> !((#[trigger] messages[i]).role == Role::Assistant
                && messages[i].tool_calls.len() > 0 && messages[i].text().len() == 0),
    ensures
        child_messages(messages).len() == messages.len(),
    decreases messages.len(),
{
    if messages.len() > 0 {
        let before = messages.drop_last();
        assert forall|i: int| 0 <= i < before.len() implies !((#[trigger] before[i]).role
            == Role::Assistant && before[i].tool_calls.len() > 0 && before[i].text().len()
            == 0) by {
            assert(before[i] == messages[i]);
        }
        workers_miss_only_silent_calls(before);
        assert(messages[messages.len() - 1] == messages.last());
    }
}

/// A worker is shown every report: for each result of a tool there is a message that holds its
/// text whole.
pub proof fn workers_see_every_report(messages: Seq<MessageView>, i: int)
    requires
        0 <= i < messages.len(),
        messages[i].role == Role::Tool,
    ensures
        child_messages(messages).contains(
            report_message(messages[i], calls_in(messages.take(i))),
        ),
    decreases messages.len(),
{
    let before = messages.drop_last();
    let report = report_message(messages[i], calls_in(messages.take(i)));
    let all = child_messages(messages);
    if i < before.len() {
        workers_see_every_report(before, i);
        assert(before.take(i) =~= messages.take(i));
        let k = choose|k: int|
            0 <= k < child_messages(before).len() && child_messages(before)[k] == report;
        assert(all[k] == report);
    } else {
        assert(messages.take(i) =~= before);
        assert(all.last() == report);
        assert(all[all.len() - 1] == report);
    }
}

/// Which messages of a conversation a worker is shown something of: what it is shown in place
/// `k` comes from the message at the `k`-th of these positions.
pub fn child_sources(messages: &Vec<Message>) -> (r: Vec<usize>)
    ensures
        r@.len() == child_messages(message_views(messages@)).len(),
        positions(r@) == shown_places(message_views(messages@)),
{
    let ghost views = message_views(messages@);
    let mut r: Vec<usize> = Vec::new();
    let mut i: usize = 0;
    assert(views.take(0) =~= Seq::empty());
    assert(positions(r@) =~= Seq::empty());
    while i < messages.len()
        invariant
            i <= messages@.len(),
            views == message_views(messages@),
            r@.len() == child_messages(views.take(i as int)).len(),
            positions(r@) == shown_places(views.take(i as int)),
        decreases messages@.len() - i,
    {
        let m = &messages[i];
        let ghost r0 = positions(r@);
        proof {
            let t = views.take(i + 1);
            assert(t.drop_last() =~= views.take(i as int));
            assert(t.last() == m@);
        }
        let silent = m.role == Role::Assistant && m.tool_calls.len() > 0
            && m.text_content().as_str().is_empty();
        if !silent {
            r.push(i);
            assert(positions(r@) =~= r0.push(i as int));
        }
        i += 1;
    }
    assert(views.take(i as int) =~= views);
    r
}

// ---------------------------------------------------------------------------
// Turns
// ---------------------------------------------------------------------------
/// How a turn of a subagent ended.
pub enum TurnOutcome {
    Message(String),
    Handoff { target: String, payload: Option<String> },
    Failed(String),
}

/// What the turn of a headless worker comes to. A handoff has no meaning there and is an
/// error that names its target and payload.
pub fn worker_result(outcome: TurnOutcome) -> (r: Result<String, String>)
    ensures
        match outcome {
            TurnOutcome::Message(t) => r matches Ok(s) && s@ == t@,
            TurnOutcome::Failed(e) => r matches Err(s) && s@ == e@,
            TurnOutcome::Handoff { target, payload } => r matches Err(s) && s@
                == "handoffs not supported in headless subagents (target: "@ + target@ + (
            match payload {
                Some(p) => ", payload: "@ + p@,
                None => ""@,
            }) + ")"@,
        },
{
    match outcome {
        TurnOutcome::Message(t) => Ok(t),
        TurnOutcome::Failed(e) => Err(e),
        TurnOutcome::Handoff { target, payload } => {
            let detail = match &payload {
                Some(p) => {
                    let mut d = copy(", payload: ");
                    d.append(p.as_str());
                    d
                },
                None => copy(""),
            };
            let mut s = copy("handoffs not supported in headless subagents (target: ");
            s.append(target.as_str());
            s.append(detail.as_str());
            s.append(")");
            Err(s)
        },
    }
}

/// What the turn of a leaf subagent comes to: its text, or an error.
pub fn leaf_result(name: &str, outcome: TurnOutcome) -> (r: Result<String, String>)
    ensures
        match outcome {
            TurnOutcome::Message(t) => r matches Ok(s) && s@ == t@,
            TurnOutcome::Failed(e) => r matches Err(s) && s@ == e@,
            TurnOutcome::Handoff { .. } => r matches Err(s) && s@ == "unexpected handoff from "@
                + name@,
        },
{
    match outcome {
        TurnOutcome::Message(t) => Ok(t),
        TurnOutcome::Failed(e) => Err(e),
        TurnOutcome::Handoff { .. } => {
            let mut s = copy("unexpected handoff from ");
            s.append(name);
            Err(s)
        },
    }
}

/// The refusal of a leaf subagent whose parent does not share its model.
pub fn missing_parent_model(name: &str) -> (r: String)
    ensures
        r@ == name@
            + " subagent requires a shared parent model (parent must use Agent::new_shared)"@,
{
    let mut s = copy(name);
    s.append(" subagent requires a shared parent model (parent must use Agent::new_shared)");
    s
}

/// What the debugging subagent is asked.
pub fn diagnose_prompt(error: &str, context: Option<&str>) -> (r: String)
    ensures
        r@ == (match context {
            Some(extra) => "Diagnose this error:\n\n"@ + error@ + "\n\nAdditional context: "@
                + extra@,
            None => "Diagnose this error:\n\n"@ + error@,
        }),
{
    let mut s = copy("Diagnose this error:\n\n");
    s.append(error);
    match context {
        Some(extra) => {
            s.append("\n\nAdditional context: ");
            s.append(extra);
        },
        None => {},
    }
    s
}

/// What the explaining subagent is asked.
pub fn explain_prompt(target: &str) -> (r: String)
    ensures
        r@ == "Explain the following code:\n\n"@ + target@,
{
    let mut s = copy("Explain the following code:\n\n");
    s.append(target);
    s
}

/// What the test-writing subagent is asked.
pub fn testgen_prompt(target: &str) -> (r: String)
    ensures
        r@ == "Generate tests for: "@ + target@,
{
    let mut s = copy("Generate tests for: ");
    s.append(target);
    s
}

/// What was said reaches a worker in order and whole: one more message of the user, the system
/// or the assistant, unless it only calls tools, is one more at the end, with the same role and
/// the same content.
pub proof fn workers_see_what_was_said(messages: Seq<MessageView>, m: MessageView)
    requires
        m.role != Role::Tool,
        !(m.role == Role::Assistant && m.tool_calls.len() > 0 && m.text().len() == 0),
    ensures
        child_messages(messages.push(m)).len() == child_messages(messages).len() + 1,
        child_messages(messages.push(m)).drop_last() == child_messages(messages),
        child_messages(messages.push(m)).last().role == m.role,
        child_messages(messages.push(m)).last().content == m.content,
{
    assert(messages.push(m).drop_last() =~= messages);
    assert(child_messages(messages.push(m)).drop_last() =~= child_messages(messages));
}

/// One more result of a tool reaches a worker as one more message of the assistant, which names
/// the tool by the last call that it answers and holds the result whole.
pub proof fn workers_see_who_reported(messages: Seq<MessageView>, m: MessageView, name: Seq<char>)
    requires
        m.role == Role::Tool,
    ensures
        child_messages(messages.push(m)).len() == child_messages(messages).len() + 1,
        child_messages(messages.push(m)).drop_last() == child_messages(messages),
        child_messages(messages.push(m)).last().role == Role::Assistant,
        m.tool_call_id is Some && call_name(calls_in(messages), m.tool_call_id->0) == Some(name)
            ==> child_messages(messages.push(m)).last().text() == "[Prior `"@ + name
            + "` report]\n"@ + m.text(),
        m.tool_call_id is None ==> child_messages(messages.push(m)).last().text()
            == "[Prior `worker` report]\n"@ + m.text(),
{
    assert(messages.push(m).drop_last() =~= messages);
    assert(child_messages(messages.push(m)).drop_last() =~= child_messages(messages));
    let text = "[Prior `"@ + reporter(m, calls_in(messages)) + "` report]\n"@ + m.text();
    lemma_plain_text(Role::Assistant, text);
    reveal_strlit("[Prior `");
    reveal_strlit("worker");
    reveal_strlit("` report]\n");
    reveal_strlit("[Prior `worker` report]\n");
    assert("[Prior `"@ + "worker"@ + "` report]\n"@ =~= "[Prior `worker` report]\n"@);
}

/// The calls of the assistant are gone through in order, and of those with one id the last
/// counts.
pub proof fn the_last_call_counts(
    messages: Seq<MessageView>,
    m: MessageView,
    calls: Seq<ToolCallView>,
    call: ToolCallView,
    id: Seq<char>,
)
    ensures
        m.role == Role::Assistant ==> calls_in(messages.push(m)) == calls_in(messages)
            + m.tool_calls,
        m.role != Role::Assistant ==> calls_in(messages.push(m)) == calls_in(messages),
        call_name(calls.push(call), call.id) == Some(call.name),
        id != call.id ==> call_name(calls.push(call), id) == call_name(calls, id),
        call_name(Seq::empty(), id) is None,
{
    assert(messages.push(m).drop_last() =~= messages);
    assert(calls.push(call).drop_last() =~= calls);
    assert(calls_in(messages) + Seq::empty() =~= calls_in(messages));
}

/// Each message that a worker is shown comes from its own place in the conversation, and later
/// ones from later places.
pub proof fn workers_see_things_in_order(messages: Seq<MessageView>, i: int, j: int)
    ensures
        0 <= i < j < shown_places(messages).len() ==> shown_places(messages)[i] < shown_places(
            messages,
        )[j],
        0 <= j < shown_places(messages).len() ==> 0 <= shown_places(messages)[j] < messages.len(),
    decreases messages.len(),
{
    if messages.len() > 0 {
        let before = messages.drop_last();
        workers_see_things_in_order(before, i, j);
        if 0 <= i < shown_places(before).len() {
            workers_see_things_in_order(before, i, i);
        }
    }
}

/// The reply of a worker or a subagent is handed on whole, and what went wrong is an error: a
/// failure whole, and a handoff as one that is not possible.
pub proof fn replies_are_handed_on(
    name: &str,
    outcome: TurnOutcome,
    worker: Result<String, String>,
    leaf: Result<String, String>,
)
    requires
        call_ensures(worker_result, (outcome,), worker),
        call_ensures(leaf_result, (name, outcome), leaf),
    ensures
        outcome matches TurnOutcome::Message(t) ==> (worker matches Ok(s) && s@ == t@) && (
        leaf matches Ok(s) && s@ == t@),
        outcome matches TurnOutcome::Failed(e) ==> (worker matches Err(s) && s@ == e@) && (
        leaf matches Err(s) && s@ == e@),
        outcome is Handoff ==> worker is Err && leaf is Err,
{
}

/// What a subagent is asked ends with what it is asked about, whole.
pub proof fn subagents_are_asked_the_whole_question(
    error: &str,
    context: Option<&str>,
    target: &str,
    diagnose: String,
    explain: String,
    testgen: String,
)
    requires
        call_ensures(diagnose_prompt, (error, context), diagnose),
        call_ensures(explain_prompt, (target,), explain),
        call_ensures(testgen_prompt, (target,), testgen),
    ensures
        contains(diagnose@, error@),
        context matches Some(c) ==> diagnose@.len() >= c@.len() && diagnose@.skip(
            diagnose@.len() - c@.len(),
        ) == c@,
        explain@.len() >= target@.len() && explain@.skip(explain@.len() - target@.len()) == target@,
        testgen@.len() >= target@.len() && testgen@.skip(testgen@.len() - target@.len()) == target@,
{
    let n = "Diagnose this error:\n\n"@.len() as int;
    assert(diagnose@.subrange(n, n + error@.len()) =~= error@);
    lemma_contains(diagnose@, error@, n);
    if context is Some {
        let c = (context->0)@;
        assert(diagnose@.skip(diagnose@.len() - c.len()) =~= c);
    }
    assert(explain@.skip(explain@.len() - target@.len()) =~= target@);
    assert(testgen@.skip(testgen@.len() - target@.len()) =~= target@);
}

} // verus!
