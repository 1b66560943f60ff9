//! Compaction: keeping a session within the model's context window by putting a summary in the
//! place of its older messages.
use crate::message::{MemoryItem, Message, MessageView, Role, item_views, lemma_plain_text, plain};
use crate::text::{chars_of, copy, opt_str, starts_with};
use vstd::prelude::*;

verus! {

/// How many recent items are kept as they are, unless configured otherwise.
pub const DEFAULT_PRESERVE_RECENT: usize = 6;

// ---------------------------------------------------------------------------
// The boundary
// ---------------------------------------------------------------------------
/// Whether the boundary before item `b` would part a tool's result from the message that
/// called the tool.
pub open spec fn splits(items: Seq<MessageView>, b: int) -> bool {
    0 < b < items.len() && ((items[b - 1].role == Role::Assistant && items[b - 1].tool_calls.len()
        > 0) || items[b].role == Role::Tool)
}

/// The least count from `p` on whose boundary splits nothing.
pub open spec fn unsplit_count(items: Seq<MessageView>, p: int) -> int
    decreases items.len() - p,
{
    if 0 <= p < items.len() && splits(items, items.len() - p) {
        unsplit_count(items, p + 1)
    } else {
        p
    }
}

/// How many recent items are kept where `preserve` are asked for.
pub open spec fn preserve_count(items: Seq<MessageView>, preserve: int) -> int {
    if preserve >= items.len() || preserve == 0 {
        preserve
    } else {
        unsplit_count(items, preserve)
    }
}

proof fn lemma_unsplit_count(items: Seq<MessageView>, p: int)
    requires
        0 <= p <= items.len(),
    ensures
        p <= unsplit_count(items, p) <= items.len(),
        !splits(items, items.len() - unsplit_count(items, p)),
        forall|q: int| p <= q < unsplit_count(items, p) ==> #[trigger] splits(items, items.len() - q),
    decreases items.len() - p,
{
    if p < items.len() && splits(items, items.len() - p) {
        lemma_unsplit_count(items, p + 1);
        assert forall|q: int| p <= q < unsplit_count(items, p) implies #[trigger] splits(
            items,
            items.len() - q,
        ) by {
            if q > p {
                assert(p + 1 <= q);
            }
        }
    }
}

/// What is kept is at least what was asked for and no more than there is, the boundary parts
/// no tool result from its call, and no smaller count would do.
pub proof fn compaction_never_splits_a_tool_pair(items: Seq<MessageView>, preserve: int)
    requires
        0 < preserve <= items.len(),
    ensures
        preserve <= preserve_count(items, preserve) <= items.len(),
        !splits(items, items.len() - preserve_count(items, preserve)),
        forall|q: int|
            preserve <= q < preserve_count(items, preserve) ==> #[trigger] splits(
                items,
                items.len() - q,
            ),
{
    lemma_unsplit_count(items, preserve);
}

/// How many recent items to keep, so that the boundary does not part a tool's result from its
/// call: at least `preserve_recent`.
pub fn adjusted_preserve_count(items: &Vec<MemoryItem>, preserve_recent: usize) -> (r: usize)
    ensures
        r == preserve_count(item_views(items@), preserve_recent as int),
        preserve_recent <= r,
        preserve_recent <= items@.len() ==> r <= items@.len(),
{
    let len = items.len();
    if preserve_recent >= len || preserve_recent == 0 {
        return preserve_recent;
    }
    let ghost views = item_views(items@);
    let mut preserve: usize = preserve_recent;
    while preserve < len
        invariant
            preserve_recent <= preserve <= len,
            len == items@.len(),
            views == item_views(items@),
            unsplit_count(views, preserve as int) == unsplit_count(views, preserve_recent as int),
            0 < preserve_recent < len,
        decreases len - preserve,
    {
        let boundary: usize = len - preserve;
        let before = items[boundary - 1].message();
        let after = items[boundary].message();
        assert(before@ == views[boundary - 1]);
        assert(after@ == views[boundary as int]);
        let split = (before.role == Role::Assistant && before.tool_calls.len() > 0) || after.role
            == Role::Tool;
        if !split {
            return preserve;
        }
        preserve += 1;
    }
    preserve
}

// ---------------------------------------------------------------------------
// The summary
// ---------------------------------------------------------------------------
/// The text under which a summary stands.
pub open spec fn summary_heading(hint: Option<Seq<char>>) -> Seq<char> {
    let head = "[System: This is a compaction summary of the preceding conversation.]"@;
    match hint {
        Some(h) => head + "\nUser hint: "@ + h,
        None => head,
    }
}

/// The two messages that take the place of what was compacted.
pub open spec fn summary_pair(summary: Seq<char>, hint: Option<Seq<char>>) -> Seq<MessageView> {
    seq![
        MessageView { compacted: true, ..plain(Role::User, summary_heading(hint)) },
        MessageView { compacted: true, ..plain(Role::Assistant, summary) },
    ]
}

/// The text under which a summary stands.
pub fn compaction_user_content(hint: Option<&str>) -> (r: String)
    ensures
        r@ == summary_heading(opt_str(hint)),
{
    let mut s = copy("[System: This is a compaction summary of the preceding conversation.]");
    match hint {
        Some(h) => {
            s.append("\nUser hint: ");
            s.append(h);
        },
        None => {},
    }
    s
}

/// The two messages, marked as compacted, that take the place of what was compacted.
pub fn compaction_pair(summary: &str, hint: Option<&str>) -> (r: Vec<MemoryItem>)
    ensures
        item_views(r@) == summary_pair(summary@, opt_str(hint)),
{
    let heading = compaction_user_content(hint);
    let mut user = Message::user(heading.as_str());
    user.compacted = true;
    let mut assistant = Message::assistant(summary);
    assistant.compacted = true;
    let mut r: Vec<MemoryItem> = Vec::new();
    r.push(MemoryItem::Message(user));
    r.push(MemoryItem::Message(assistant));
    assert(item_views(r@) =~= summary_pair(summary@, opt_str(hint)));
    r
}

/// The history as the summarizing model is shown it: a line for each message.
pub open spec fn history_text(items: Seq<MessageView>) -> Seq<char>
    decreases items.len(),
{
    if items.len() == 0 {
        Seq::empty()
    } else {
        let m = items.last();
        history_text(items.drop_last()) + m.role.name() + ": "@ + m.text() + "\n"@
    }
}

/// What the summarizing model is asked.
pub open spec fn summary_question(items: Seq<MessageView>, hint: Option<Seq<char>>) -> Seq<char> {
    let text = summary_instructions() + history_text(items);
    match hint {
        Some(h) => text + "\nAdditional context from user: "@ + h,
        None => text,
    }
}

pub open spec fn summary_instructions() -> Seq<char> {
    "Summarize the following conversation history concisely. Follow these guidelines:\n- Preserve: architectural decisions, unresolved bugs, key facts, file paths discussed, tool results that informed decisions\n- Drop: redundant tool outputs, repeated explorations, intermediate reasoning\n- Keep: the most recent exchange verbatim if possible\n- Format: write a coherent narrative, not a bullet list\n\n"@
}

/// The message that asks the model for a summary of the first `upto` items.
pub fn build_compaction_prompt(items: &Vec<MemoryItem>, upto: usize, hint: Option<&str>) -> (r:
    Message)
    requires
        upto <= items@.len(),
    ensures
        r@ == plain(
            Role::User,
            summary_question(item_views(items@).take(upto as int), opt_str(hint)),
        ),
{
    let ghost views = item_views(items@);
    let mut text = copy(
        "Summarize the following conversation history concisely. Follow these guidelines:\n- Preserve: architectural decisions, unresolved bugs, key facts, file paths discussed, tool results that informed decisions\n- Drop: redundant tool outputs, repeated explorations, intermediate reasoning\n- Keep: the most recent exchange verbatim if possible\n- Format: write a coherent narrative, not a bullet list\n\n",
    );
    let mut i: usize = 0;
    assert(views.take(0) =~= Seq::empty());
    assert(text@ =~= summary_instructions() + history_text(views.take(0)));
    while i < upto
        invariant
            i <= upto <= items@.len(),
            views == item_views(items@),
            text@ == summary_instructions() + history_text(views.take(i as int)),
        decreases upto - i,
    {
        let m = items[i].message();
        text.append(m.role.label());
        text.append(": ");
        let content = m.text_content();
        text.append(content.as_str());
        text.append("\n");
        proof {
            let t = views.take(i + 1);
            assert(t.drop_last() =~= views.take(i as int));
            assert(t.last() == m@);
            assert(text@ =~= summary_instructions() + history_text(t));
        }
        i += 1;
    }
    match hint {
        Some(h) => {
            text.append("\nAdditional context from user: ");
            text.append(h);
        },
        None => {},
    }
    Message::user(text.as_str())
}

/// A summary to ask for: how many items from the start it is to replace, and the message that
/// asks for it.
pub struct SummaryRequest {
    pub replaced: usize,
    pub prompt: Message,
}

/// What compacting a session of `items` starts with. There is nothing to do where no more
/// items are there than are to be kept.
pub fn plan_compaction(items: &Vec<MemoryItem>, preserve_recent: usize, hint: Option<&str>) -> (r:
    Option<SummaryRequest>)
    ensures
        (r is Some) == (items@.len() > preserve_recent),
        r matches Some(q) ==> {
            &&& q.replaced == items@.len() - preserve_count(
                item_views(items@),
                preserve_recent as int,
            )
            &&& q.replaced <= items@.len() - preserve_recent
            &&& q.prompt@ == plain(
                Role::User,
                summary_question(item_views(items@).take(q.replaced as int), opt_str(hint)),
            )
        },
{
    if items.len() <= preserve_recent {
        return None;
    }
    let preserve = adjusted_preserve_count(items, preserve_recent);
    let replaced: usize = items.len() - preserve;
    let prompt = build_compaction_prompt(items, replaced, hint);
    Some(SummaryRequest { replaced, prompt })
}

/// Puts the summary in the place of the first `replaced` items.
pub fn apply_summary(
    items: &mut Vec<MemoryItem>,
    replaced: usize,
    summary: &str,
    hint: Option<&str>,
)
    requires
        replaced <= old(items)@.len(),
    ensures
        item_views(final(items)@) == summary_pair(summary@, opt_str(hint)) + item_views(
            old(items)@,
        ).skip(replaced as int),
{
    let ghost views = item_views(items@);
    let mut tail = items.split_off(replaced);
    let mut pair = compaction_pair(summary, hint);
    let ghost p = item_views(pair@);
    let ghost t = item_views(tail@);
    assert(t =~= views.skip(replaced as int));
    pair.append(&mut tail);
    assert(item_views(pair@) =~= p + t);
    *items = pair;
}

// ---------------------------------------------------------------------------
// Old tool results
// ---------------------------------------------------------------------------
pub open spec fn cleared_text() -> Seq<char> {
    "[Result cleared - re-run tool if needed]"@
}

/// What a tool's result is replaced by: it answers the same call, and is marked as compacted.
pub open spec fn cleared_result(m: MessageView) -> MessageView {
    MessageView {
        compacted: true,
        tool_call_id: Some(
            match m.tool_call_id {
                Some(id) => id,
                None => Seq::empty(),
            },
        ),
        ..plain(Role::Tool, cleared_text())
    }
}

/// The session with the tool results among its first `cutoff` items cleared.
pub open spec fn cleared(items: Seq<MessageView>, cutoff: int) -> Seq<MessageView> {
    Seq::new(
        items.len(),
        |i: int|
            if i < cutoff && items[i].role == Role::Tool {
                cleared_result(items[i])
            } else {
                items[i]
            },
    )
}

/// How many tokens clearing a result frees: a quarter of the characters, less what the
/// placeholder takes.
pub open spec fn tokens_freed(m: MessageView) -> nat {
    if m.role == Role::Tool && m.text().len() / 4 > cleared_text().len() / 4 {
        (m.text().len() / 4 - cleared_text().len() / 4) as nat
    } else {
        0
    }
}

/// How many tokens clearing the tool results among the first `n` items frees.
pub open spec fn total_freed(items: Seq<MessageView>, n: int) -> nat
    decreases n,
{
    if n <= 0 || n > items.len() {
        0
    } else {
        total_freed(items, n - 1) + tokens_freed(items[n - 1])
    }
}

/// Where the recent items start.
pub open spec fn cutoff(len: nat, preserve_recent: int) -> int {
    if len > preserve_recent {
        len - preserve_recent
    } else {
        0
    }
}

fn text_length(m: &Message) -> (r: usize)
    ensures
        r == m@.text().len(),
{
    let t = m.text_content();
    let v = chars_of(t.as_str());
    v.len()
}

/// Clears the results of tools that are older than the recent items, and says how many tokens
/// that frees by estimate, as far as the number can be told.
pub fn clear_old_tool_results(items: &mut Vec<MemoryItem>, preserve_recent: usize) -> (freed: usize)
    ensures
        item_views(final(items)@) == cleared(
            item_views(old(items)@),
            cutoff(old(items)@.len(), preserve_recent as int),
        ),
        ({
            let total = total_freed(
                item_views(old(items)@),
                cutoff(old(items)@.len(), preserve_recent as int),
            );
            freed == if total <= usize::MAX {
                total as int
            } else {
                usize::MAX as int
            }
        }),
{
    let ghost views = item_views(items@);
    let len = items.len();
    let cut: usize = if len > preserve_recent {
        len - preserve_recent
    } else {
        0
    };
    let mut freed: usize = 0;
    let mut i: usize = 0;
    assert(item_views(items@) =~= cleared(views, 0));
    while i < cut
        invariant
            i <= cut <= len,
            len == items@.len(),
            views == item_views(old(items)@),
            views.len() == len,
            item_views(items@) == cleared(views, i as int),
            freed == if total_freed(views, i as int) <= usize::MAX {
                total_freed(views, i as int) as int
            } else {
                usize::MAX as int
            },
        decreases cut - i,
    {
        let ghost before = item_views(items@);
        assert(before[i as int] == views[i as int]);
        proof {
            reveal_strlit("[Result cleared - re-run tool if needed]");
        }
        let m = items[i].message();
        if m.role == Role::Tool {
            let quarter: usize = text_length(m) / 4;
            let gain: usize = if quarter > 10 {
                quarter - 10
            } else {
                0
            };
            freed = if gain > usize::MAX - freed {
                usize::MAX
            } else {
                freed + gain
            };
            let id = match &m.tool_call_id {
                Some(id) => id.clone(),
                None => String::new(),
            };
            let mut placeholder = Message::tool_result(
                id.as_str(),
                "[Result cleared - re-run tool if needed]",
            );
            placeholder.compacted = true;
            assert(placeholder@ == cleared_result(views[i as int])) by {
                assert(id@ =~= match views[i as int].tool_call_id {
                    Some(id) => id,
                    None => Seq::empty(),
                });
            }
            items.set(i, MemoryItem::Message(placeholder));
        }
        i += 1;
        assert forall|k: int| 0 <= k < len implies item_views(items@)[k] == cleared(
            views,
            i as int,
        )[k] by {
            assert(before[k] == cleared(views, i - 1)[k]);
        }
        assert(item_views(items@) =~= cleared(views, i as int));
    }
    freed
}

/// Automatic compaction before a model call. Nothing happens while no more than `limit` tokens
/// are `used`. Over it, old tool results are cleared; where that does not free enough, a
/// summary is to be asked for.
pub fn auto_compact(
    items: &mut Vec<MemoryItem>,
    used: usize,
    limit: usize,
    preserve_recent: usize,
) -> (r: Option<SummaryRequest>)
    ensures
        ({
            let views = item_views(old(items)@);
            let cut = cutoff(old(items)@.len(), preserve_recent as int);
            let after = item_views(final(items)@);
            &&& used <= limit ==> *final(items) == *old(items)
            &&& used > limit ==> after == cleared(views, cut)
            &&& (r is Some) == (used > limit && used - total_freed(views, cut) > limit
                && views.len() > preserve_recent)
            &&& r matches Some(q) ==> q.replaced == views.len() - preserve_count(
                after,
                preserve_recent as int,
            ) && q.replaced <= views.len() && q.prompt@ == plain(
                Role::User,
                summary_question(after.take(q.replaced as int), None),
            )
        }),
{
    if used <= limit {
        return None;
    }
    let freed = clear_old_tool_results(items, preserve_recent);
    assert(item_views(items@).len() == items@.len());
    let left: usize = if freed > used {
        0
    } else {
        used - freed
    };
    if left > limit {
        plan_compaction(items, preserve_recent, None)
    } else {
        None
    }
}

/// Clearing tool results parts no tool result from its call: it keeps every item's place, role
/// and calls.
pub proof fn clearing_keeps_the_boundaries(items: Seq<MessageView>, cut: int, b: int)
    ensures
        cleared(items, cut).len() == items.len(),
        splits(items, b) ==> splits(cleared(items, cut), b),
        splits(cleared(items, cut), b) ==> splits(items, b),
{
}

/// Clearing tool results a second time changes nothing.
pub proof fn clearing_twice_is_clearing_once(items: Seq<MessageView>, cut: int)
    ensures
        cleared(cleared(items, cut), cut) == cleared(items, cut),
{
    assert(cleared(cleared(items, cut), cut) =~= cleared(items, cut));
}

/// Clearing touches nothing but old results of tools: the recent items, and every message that
/// is no such result, stay as they are.
pub proof fn clearing_touches_only_old_results(items: Seq<MessageView>, preserve: int, i: int)
    requires
        0 <= preserve,
        0 <= i < items.len(),
        items[i].role != Role::Tool || i + preserve >= items.len(),
    ensures
        cleared(items, cutoff(items.len(), preserve))[i] == items[i],
{
}

/// Compacting keeps the recent items: what is left behind the summary ends with them, in their
/// order, and nothing of them is changed.
pub proof fn recent_items_survive_compaction(
    items: Seq<MessageView>,
    preserve: int,
    summary: Seq<char>,
    hint: Option<Seq<char>>,
)
    requires
        0 <= preserve < items.len(),
    ensures
        ({
            let replaced = items.len() - preserve_count(items, preserve);
            let after = summary_pair(summary, hint) + items.skip(replaced);
            &&& 0 <= replaced <= items.len() - preserve
            &&& after.skip(after.len() - preserve) == items.skip(items.len() - preserve)
            &&& after.skip(2) == items.skip(replaced)
        }),
{
    if preserve > 0 {
        lemma_unsplit_count(items, preserve);
    }
    let replaced = items.len() - preserve_count(items, preserve);
    let after = summary_pair(summary, hint) + items.skip(replaced);
    assert(after.skip(2) =~= items.skip(replaced));
    assert(after.skip(after.len() - preserve) =~= items.skip(items.len() - preserve));
}

/// Every message that a summary is to replace reaches the summarizing model: one more message
/// is one more line at the end of the question, with its role and its whole text, whatever the
/// role.
pub proof fn each_message_adds_its_line_to_the_question(items: Seq<MessageView>, m: MessageView)
    ensures
        summary_question(items.push(m), None) == summary_question(items, None) + m.role.name()
            + ": "@ + m.text() + "\n"@,
{
    assert(items.push(m).drop_last() =~= items);
    assert(summary_question(items.push(m), None) =~= summary_question(items, None) + m.role.name()
        + ": "@ + m.text() + "\n"@);
}

proof fn lemma_history_text_splits(items: Seq<MessageView>, n: int)
    requires
        0 <= n <= items.len(),
    ensures
        history_text(items) == history_text(items.take(n)) + history_text(items.skip(n)),
    decreases items.len(),
{
    if n == items.len() {
        assert(items.take(n) =~= items);
        assert(items.skip(n) =~= Seq::empty());
        assert(history_text(items) =~= history_text(items) + history_text(items.skip(n)));
    } else {
        lemma_history_text_splits(items.drop_last(), n);
        assert(items.drop_last().take(n) =~= items.take(n));
        assert(items.skip(n).drop_last() =~= items.drop_last().skip(n));
        assert(history_text(items) =~= history_text(items.take(n)) + history_text(items.skip(n)));
    }
}

proof fn lemma_history_text_at(items: Seq<MessageView>, i: int)
    requires
        0 <= i < items.len(),
    ensures
        history_text(items) == history_text(items.take(i)) + (items[i].role.name() + ": "@
            + items[i].text() + "\n"@) + history_text(items.skip(i + 1)),
        history_text(items.remove(i)) == history_text(items.take(i)) + history_text(
            items.skip(i + 1),
        ),
{
    lemma_history_text_splits(items, i + 1);
    lemma_history_text_splits(items.remove(i), i);
    assert(items.take(i + 1).drop_last() =~= items.take(i));
    assert(items.take(i + 1).last() == items[i]);
    assert(items.remove(i).take(i) =~= items.take(i));
    assert(items.remove(i).skip(i) =~= items.skip(i + 1));
    assert(history_text(items.take(i + 1)) =~= history_text(items.take(i)) + (items[i].role.name()
        + ": "@ + items[i].text() + "\n"@));
}

/// Wherever a message stands among those to be replaced, the question holds its role and its
/// whole text as a line of its own, behind what it says of the messages before. Without the
/// message, the rest of the question is the same.
pub proof fn each_replaced_message_is_shown(
    items: Seq<MessageView>,
    i: int,
    hint: Option<Seq<char>>,
) -> (behind: Seq<char>)
    requires
        0 <= i < items.len(),
    ensures
        summary_question(items, hint) == summary_question(items.take(i), None)
            + (items[i].role.name() + ": "@ + items[i].text() + "\n"@) + behind,
        summary_question(items.remove(i), hint) == summary_question(items.take(i), None) + behind,
{
    lemma_history_text_at(items, i);
    let before = history_text(items.take(i));
    let line = items[i].role.name() + ": "@ + items[i].text() + "\n"@;
    let after = history_text(items.skip(i + 1));
    let end = match hint {
        Some(h) => "\nAdditional context from user: "@ + h,
        None => Seq::empty(),
    };
    lemma_question_end(items, hint);
    lemma_question_end(items.remove(i), hint);
    lemma_regrouped(summary_instructions(), before, line, after, end);
    after + end
}

proof fn lemma_question_end(items: Seq<MessageView>, hint: Option<Seq<char>>)
    ensures
        summary_question(items, hint) == summary_instructions() + history_text(items) + (match hint {
            Some(h) => "\nAdditional context from user: "@ + h,
            None => Seq::empty(),
        }),
{
    let text = summary_instructions() + history_text(items);
    match hint {
        Some(h) => {
            let label = "\nAdditional context from user: "@;
            assert(text + label + h =~= text + (label + h));
        },
        None => {
            assert(text + Seq::empty() =~= text);
        },
    }
}

proof fn lemma_regrouped(
    start: Seq<char>,
    before: Seq<char>,
    line: Seq<char>,
    after: Seq<char>,
    end: Seq<char>,
)
    ensures
        start + (before + line + after) + end == start + before + line + (after + end),
        start + (before + after) + end == start + before + (after + end),
{
    assert(start + (before + line + after) + end =~= start + before + line + (after + end));
    assert(start + (before + after) + end =~= start + before + (after + end));
}

/// A hint changes nothing of what is shown of the messages: it follows behind them, whole.
pub proof fn hints_follow_the_messages(items: Seq<MessageView>, hint: Seq<char>)
    ensures
        summary_question(items, Some(hint)) == summary_question(items, None)
            + "\nAdditional context from user: "@ + hint,
{
}

/// What stands for the replaced messages: the summary itself, whole, as an answer of the
/// assistant, behind a message that says that it is one and holds the hint. Both are marked as
/// compacted and neither calls a tool nor answers a call.
pub proof fn summaries_stand_whole(summary: Seq<char>, hint: Option<Seq<char>>, i: int)
    requires
        0 <= i < summary_pair(summary, hint).len(),
    ensures
        summary_pair(summary, hint).len() == 2,
        summary_pair(summary, hint)[1].role == Role::Assistant,
        summary_pair(summary, hint)[1].text() == summary,
        summary_pair(summary, hint)[0].role == Role::User,
        hint matches Some(h) ==> summary_pair(summary, hint)[0].text() == summary_pair(
            summary,
            None,
        )[0].text() + "\nUser hint: "@ + h,
        summary_pair(summary, hint)[i].compacted,
        summary_pair(summary, hint)[i].tool_calls.len() == 0,
        summary_pair(summary, hint)[i].tool_call_id is None,
{
    lemma_plain_text(Role::Assistant, summary);
    lemma_plain_text(Role::User, summary_heading(hint));
    lemma_plain_text(Role::User, summary_heading(None));
    assert(summary_pair(summary, hint)[1].content == plain(Role::Assistant, summary).content);
    assert(summary_pair(summary, hint)[0].content == plain(
        Role::User,
        summary_heading(hint),
    ).content);
    assert(summary_pair(summary, None)[0].content == plain(
        Role::User,
        summary_heading(None),
    ).content);
}

/// No boundary that is chosen leaves a call on the one side and its result on the other: the
/// item before it, where there is one and one behind it, calls no tool, and the item behind it
/// is no result of one.
pub proof fn the_boundary_keeps_calls_with_results(items: Seq<MessageView>, preserve: int)
    requires
        0 < preserve <= items.len(),
        0 < items.len() - preserve_count(items, preserve),
    ensures
        ({
            let b = items.len() - preserve_count(items, preserve);
            &&& items[b].role != Role::Tool
            &&& items[b - 1].role == Role::Assistant ==> items[b - 1].tool_calls.len() == 0
        }),
{
    lemma_unsplit_count(items, preserve);
}

/// An old result of a tool is cleared: its text makes place for a note, and it still answers
/// the same call as a result of a tool, marked as compacted.
pub proof fn old_results_are_cleared(items: Seq<MessageView>, preserve: int, i: int)
    requires
        0 <= preserve,
        0 <= i < items.len() - preserve,
        items[i].role == Role::Tool,
    ensures
        ({
            let m = cleared(items, cutoff(items.len(), preserve))[i];
            &&& m.text() == "[Result cleared - re-run tool if needed]"@
            &&& m.role == Role::Tool
            &&& m.compacted
            &&& m.tool_calls.len() == 0
            &&& items[i].tool_call_id is Some ==> m.tool_call_id == items[i].tool_call_id
        }),
{
    lemma_plain_text(Role::Tool, cleared_text());
    let m = cleared(items, cutoff(items.len(), preserve))[i];
    assert(m.content == plain(Role::Tool, cleared_text()).content);
}

/// Each result that is cleared frees a quarter of its characters, less the ten that the note
/// takes, and nothing else frees anything.
pub proof fn each_result_frees_its_share(items: Seq<MessageView>, m: MessageView, n: int)
    requires
        n == items.len(),
    ensures
        total_freed(items.push(m), n + 1) == total_freed(items, n) + if m.role == Role::Tool
            && m.text().len() / 4 > 10 {
            m.text().len() / 4 - 10
        } else {
            0
        },
{
    reveal_strlit("[Result cleared - re-run tool if needed]");
    lemma_freed_agrees(items, items.push(m), n);
}

proof fn lemma_freed_agrees(a: Seq<MessageView>, b: Seq<MessageView>, n: int)
    requires
        0 <= n <= a.len(),
        n <= b.len(),
        forall|i: int| 0 <= i < n ==> a[i] == b[i],
    ensures
        total_freed(a, n) == total_freed(b, n),
    decreases n,
{
    if n > 0 {
        lemma_freed_agrees(a, b, n - 1);
    }
}

/// The prompt that is built is a message of the user, and each message that is to be replaced is
/// in it with its role and its whole text, behind those before it.
pub proof fn built_prompts_show_each_message(
    items: Vec<MemoryItem>,
    upto: usize,
    hint: Option<&str>,
    r: Message,
    i: int,
) -> (behind: Seq<char>)
    requires
        upto <= items@.len(),
        call_ensures(build_compaction_prompt, (&items, upto, hint), r),
        0 <= i < upto,
    ensures
        r@.role == Role::User,
        r@.text() == summary_question(item_views(items@).take(i), None) + (
        items@[i]@.role.name() + ": "@ + items@[i]@.text() + "\n"@) + behind,
{
    let shown = item_views(items@).take(upto as int);
    lemma_plain_text(Role::User, summary_question(shown, opt_str(hint)));
    assert(shown.take(i) =~= item_views(items@).take(i));
    assert(shown[i] == items@[i]@);
    each_replaced_message_is_shown(shown, i, opt_str(hint))
}

/// A summary is asked for exactly where more items are there than are to be kept. What it is to
/// replace ends where no call is parted from its result, and all of that is in the prompt.
pub proof fn planned_summaries_part_nothing(
    items: Vec<MemoryItem>,
    preserve_recent: usize,
    hint: Option<&str>,
    r: Option<SummaryRequest>,
)
    requires
        call_ensures(plan_compaction, (&items, preserve_recent, hint), r),
    ensures
        (r is Some) == (items@.len() > preserve_recent),
        r matches Some(q) ==> {
            &&& q.replaced <= items@.len() - preserve_recent
            &&& q.prompt@.text() == summary_question(
                item_views(items@).take(q.replaced as int),
                opt_str(hint),
            )
            &&& 0 < q.replaced && preserve_recent > 0 ==> items@[q.replaced as int]@.role
                != Role::Tool && (items@[q.replaced - 1]@.role == Role::Assistant
                ==> items@[q.replaced - 1]@.tool_calls.len() == 0)
        },
{
    if r is Some {
        let q = r->0;
        let views = item_views(items@);
        lemma_plain_text(Role::User, summary_question(views.take(q.replaced as int), opt_str(hint)));
        if 0 < q.replaced && preserve_recent > 0 {
            the_boundary_keeps_calls_with_results(views, preserve_recent as int);
            assert(views[q.replaced as int] == items@[q.replaced as int]@);
            assert(views[q.replaced - 1] == items@[q.replaced - 1]@);
        }
    }
}

/// A summary takes the place of what it replaces and of nothing else: it stands in front, whole,
/// and everything behind what was replaced follows as it was.
pub proof fn summaries_replace_only_what_they_sum_up(
    items: &mut Vec<MemoryItem>,
    replaced: usize,
    summary: &str,
    hint: Option<&str>,
    i: int,
)
    requires
        replaced <= old(items)@.len(),
        call_ensures(apply_summary, (items, replaced, summary, hint), ()),
        replaced <= i < old(items)@.len(),
    ensures
        final(items)@.len() == old(items)@.len() - replaced + 2,
        final(items)@[1]@.text() == summary@,
        final(items)@[1]@.role == Role::Assistant,
        final(items)@[0]@.role == Role::User,
        final(items)@[i - replaced + 2]@ == old(items)@[i]@,
{
    let after = item_views(final(items)@);
    let pair = summary_pair(summary@, opt_str(hint));
    summaries_stand_whole(summary@, opt_str(hint), 1);
    assert(after.len() == final(items)@.len());
    assert(after[1] == pair[1] && after[0] == pair[0]);
    assert(after[1] == final(items)@[1]@ && after[0] == final(items)@[0]@);
    assert(after[i - replaced + 2] == item_views(old(items)@).skip(replaced as int)[i - replaced]);
}

/// Clearing leaves every item in its place; only results of tools before the recent items change,
/// and they still answer their calls.
pub proof fn clearing_changes_old_results_only(
    items: &mut Vec<MemoryItem>,
    preserve_recent: usize,
    freed: usize,
    i: int,
)
    requires
        call_ensures(clear_old_tool_results, (items, preserve_recent), freed),
        0 <= i < old(items)@.len(),
    ensures
        final(items)@.len() == old(items)@.len(),
        ({
            let before = old(items)@[i]@;
            let after = final(items)@[i]@;
            if before.role != Role::Tool || i + preserve_recent >= old(items)@.len() {
                after == before
            } else {
                &&& after.text() == "[Result cleared - re-run tool if needed]"@
                &&& after.role == Role::Tool
                &&& before.tool_call_id is Some ==> after.tool_call_id == before.tool_call_id
            }
        }),
{
    let before = item_views(old(items)@);
    let after = item_views(final(items)@);
    assert(after.len() == final(items)@.len());
    assert(after[i] == final(items)@[i]@);
    assert(before[i] == old(items)@[i]@);
    if before[i].role != Role::Tool || i + preserve_recent >= before.len() {
        clearing_touches_only_old_results(before, preserve_recent as int, i);
    } else {
        old_results_are_cleared(before, preserve_recent as int, i);
    }
}

/// Nothing is compacted by itself while the session fits. Where it does not, old results are
/// cleared, and a summary is asked for exactly where that is not enough and there is more than the
/// recent items.
pub proof fn sessions_that_fit_are_left_alone(
    items: &mut Vec<MemoryItem>,
    used: usize,
    limit: usize,
    preserve_recent: usize,
    r: Option<SummaryRequest>,
)
    requires
        call_ensures(auto_compact, (items, used, limit, preserve_recent), r),
    ensures
        used <= limit ==> *final(items) == *old(items) && r is None,
        r is Some ==> used > limit && old(items)@.len() > preserve_recent,
        used > limit && old(items)@.len() > preserve_recent && used - total_freed(
            item_views(old(items)@),
            old(items)@.len() - preserve_recent,
        ) > limit ==> r is Some,
        used > limit && old(items)@.len() > preserve_recent && used - total_freed(
            item_views(old(items)@),
            old(items)@.len() - preserve_recent,
        ) <= limit ==> r is None,
        final(items)@.len() == old(items)@.len(),
{
    if used > limit {
        assert(item_views(final(items)@).len() == final(items)@.len());
    }
}

/// However many messages there are and whatever the hint is, the question starts in the same way:
/// it asks for a summary.
pub proof fn every_question_asks_for_a_summary(items: Seq<MessageView>, hint: Option<Seq<char>>)
    ensures
        starts_with(summary_question(items, hint), summary_question(Seq::empty(), None)),
        starts_with(summary_question(Seq::empty(), None), "Summarize the following conversation"@),
{
    let start = summary_question(Seq::empty(), None);
    lemma_question_end(items, hint);
    lemma_question_end(Seq::empty(), None);
    assert(start =~= summary_instructions());
    assert(summary_question(items, hint).take(start.len() as int) =~= start);
    reveal_strlit("Summarize the following conversation");
    reveal_strlit(
        "Summarize the following conversation history concisely. Follow these guidelines:\n- Preserve: architectural decisions, unresolved bugs, key facts, file paths discussed, tool results that informed decisions\n- Drop: redundant tool outputs, repeated explorations, intermediate reasoning\n- Keep: the most recent exchange verbatim if possible\n- Format: write a coherent narrative, not a bullet list\n\n",
    );
    let head = "Summarize the following conversation"@;
    assert(start.take(head.len() as int) =~= head);
}

} // verus!
