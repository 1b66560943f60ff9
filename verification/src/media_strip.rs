//! After a turn, images and files in the session give way to short text placeholders.
use crate::message::{
    BlockView, ContentBlock, MemoryItem, Message, MessageView, block_views, item_views,
};
use crate::text::texts;
use vstd::prelude::*;

verus! {

/// How many of the first `n` blocks are images or files.
pub open spec fn attachments_before(content: Seq<BlockView>, n: int) -> nat
    decreases n,
{
    if n <= 0 || n > content.len() {
        0
    } else {
        attachments_before(content, n - 1) + if content[n - 1].is_attachment() {
            1nat
        } else {
            0
        }
    }
}

pub open spec fn attachment_count(content: Seq<BlockView>) -> nat {
    attachments_before(content, content.len() as int)
}

/// The content with each image or file replaced by its placeholder, the first by the first.
pub open spec fn stripped(content: Seq<BlockView>, placeholders: Seq<Seq<char>>) -> Seq<BlockView> {
    Seq::new(
        content.len(),
        |i: int|
            if content[i].is_attachment() {
                BlockView::Text(placeholders[attachments_before(content, i) as int])
            } else {
                content[i]
            },
    )
}

/// The message with its content stripped.
pub open spec fn stripped_message(m: MessageView, placeholders: Seq<Seq<char>>) -> MessageView {
    MessageView { content: stripped(m.content, placeholders), ..m }
}

proof fn lemma_attachments_grow(content: Seq<BlockView>, n: int, m: int)
    requires
        0 <= n <= m <= content.len(),
    ensures
        attachments_before(content, n) <= attachments_before(content, m) <= m,
    decreases m,
{
    if n < m {
        lemma_attachments_grow(content, n, m - 1);
    } else if m > 0 {
        lemma_attachments_grow(content, m - 1, m - 1);
    }
}

/// How many images and files a message holds.
pub fn count_attachments(msg: &Message) -> (r: usize)
    ensures
        r == attachment_count(msg@.content),
{
    let mut n: usize = 0;
    let mut i: usize = 0;
    while i < msg.content.len()
        invariant
            i <= msg.content@.len(),
            n <= i,
            n == attachments_before(msg@.content, i as int),
        decreases msg.content@.len() - i,
    {
        if msg.content[i].is_attachment() {
            n += 1;
        }
        i += 1;
    }
    n
}

/// The message with each image or file replaced by its placeholder, and how many were
/// replaced.
pub fn strip_media_from_message(msg: &Message, placeholders: &Vec<String>) -> (r: (Message, usize))
    requires
        placeholders@.len() >= attachment_count(msg@.content),
    ensures
        r.0@ == stripped_message(msg@, texts(placeholders@)),
        r.1 == attachment_count(msg@.content),
{
    let mut out = msg.copied();
    let mut content: Vec<ContentBlock> = Vec::new();
    let mut n: usize = 0;
    let mut i: usize = 0;
    let ghost views = msg@.content;
    let ghost want = stripped(views, texts(placeholders@));
    while i < msg.content.len()
        invariant
            i <= msg.content@.len(),
            n <= i,
            n == attachments_before(views, i as int),
            views == msg@.content,
            want == stripped(views, texts(placeholders@)),
            placeholders@.len() >= attachment_count(views),
            block_views(content@) == want.take(i as int),
        decreases msg.content@.len() - i,
    {
        let ghost c0 = block_views(content@);
        proof {
            lemma_attachments_grow(views, i + 1, views.len() as int);
        }
        if msg.content[i].is_attachment() {
            content.push(ContentBlock::text(placeholders[n].as_str()));
            n += 1;
        } else {
            content.push(msg.content[i].copied());
        }
        assert(block_views(content@) =~= c0.push(want[i as int]));
        i += 1;
        assert(block_views(content@) =~= want.take(i as int));
    }
    assert(want.take(i as int) =~= want);
    out.content = content;
    (out, n)
}

/// Strips the messages of a session that hold images or files; `placeholders` has a row of
/// placeholders for each item. Says how many blocks were replaced, as far as the number can be
/// told.
pub fn strip_media_from_session(items: &mut Vec<MemoryItem>, placeholders: &Vec<Vec<String>>) -> (r:
    usize)
    requires
        placeholders@.len() == old(items)@.len(),
        forall|i: int|
            0 <= i < old(items)@.len() ==> (#[trigger] placeholders@[i])@.len()
                >= attachment_count(old(items)@[i]@.content),
    ensures
        final(items)@.len() == old(items)@.len(),
        forall|i: int|
            0 <= i < old(items)@.len() ==> (#[trigger] final(items)@[i])@
                == stripped_message(old(items)@[i]@, texts(placeholders@[i]@)),
        r == session_attachments(item_views(old(items)@), old(items)@.len() as int) || (r
            == usize::MAX && session_attachments(item_views(old(items)@), old(items)@.len() as int)
            > usize::MAX),
{
    let ghost before = items@;
    let ghost views = item_views(items@);
    let mut count: usize = 0;
    let mut i: usize = 0;
    while i < items.len()
        invariant
            i <= items@.len(),
            before == old(items)@,
            views == item_views(before),
            items@.len() == before.len(),
            placeholders@.len() == before.len(),
            forall|k: int|
                0 <= k < before.len() ==> (#[trigger] placeholders@[k])@.len() >= attachment_count(
                    before[k]@.content,
                ),
            forall|k: int|
                0 <= k < i ==> (#[trigger] items@[k])@ == stripped_message(
                    before[k]@,
                    texts(placeholders@[k]@),
                ),
            forall|k: int| i <= k < before.len() ==> items@[k] == before[k],
            count == session_attachments(views, i as int) || (count == usize::MAX
                && session_attachments(views, i as int) > usize::MAX),
        decreases items@.len() - i,
    {
        assert(placeholders@[i as int]@.len() >= attachment_count(before[i as int]@.content));
        assert(views[i as int] == before[i as int]@);
        if items[i].message().has_attachments() {
            let (stripped, n) = strip_media_from_message(items[i].message(), &placeholders[i]);
            count = if n > usize::MAX - count {
                usize::MAX
            } else {
                count + n
            };
            items.set(i, MemoryItem::Message(stripped));
        } else {
            proof {
                text_only_messages_stay(before[i as int]@, texts(placeholders@[i as int]@));
            }
        }
        i += 1;
    }
    count
}

/// How many images and files the first `n` items hold.
pub open spec fn session_attachments(items: Seq<MessageView>, n: int) -> nat
    decreases n,
{
    if n <= 0 || n > items.len() {
        0
    } else {
        session_attachments(items, n - 1) + attachment_count(items[n - 1].content)
    }
}

proof fn lemma_no_attachments(content: Seq<BlockView>, n: int)
    requires
        0 <= n <= content.len(),
        forall|i: int| 0 <= i < content.len() ==> !(#[trigger] content[i]).is_attachment(),
    ensures
        attachments_before(content, n) == 0,
    decreases n,
{
    if n > 0 {
        lemma_no_attachments(content, n - 1);
    }
}

/// A message without images or files is left as it is.
pub proof fn text_only_messages_stay(m: MessageView, placeholders: Seq<Seq<char>>)
    requires
        !m.has_attachments(),
    ensures
        stripped_message(m, placeholders) == m,
        attachment_count(m.content) == 0,
{
    assert(stripped(m.content, placeholders) =~= m.content);
    lemma_no_attachments(m.content, m.content.len() as int);
}

/// A stripped message holds no images and no files, and stripping changes nothing but the
/// content.
pub proof fn stripped_messages_hold_text_only(m: MessageView, placeholders: Seq<Seq<char>>)
    ensures
        !stripped_message(m, placeholders).has_attachments(),
        stripped_message(m, placeholders).role == m.role,
        stripped_message(m, placeholders).tool_calls == m.tool_calls,
        stripped_message(m, placeholders).content.len() == m.content.len(),
{
}

/// Stripping goes block by block: an image or a file gives way to the next placeholder, in its
/// place, and text stays as it is.
pub proof fn stripping_goes_block_by_block(
    content: Seq<BlockView>,
    block: BlockView,
    placeholders: Seq<Seq<char>>,
)
    ensures
        stripped(content.push(block), placeholders) == stripped(content, placeholders).push(
            match block {
                BlockView::Text(t) => BlockView::Text(t),
                _ => BlockView::Text(placeholders[attachment_count(content) as int]),
            },
        ),
        attachment_count(content.push(block)) == attachment_count(content) + if block is Text {
            0int
        } else {
            1
        },
        attachment_count(Seq::empty()) == 0,
{
    let more = content.push(block);
    assert forall|n: int| 0 <= n <= content.len() implies #[trigger] attachments_before(more, n)
        == attachments_before(content, n) by {
        lemma_same_attachments(content, more, n);
    }
    let n = content.len() as int;
    assert(more[n] == block);
    assert(attachments_before(more, n) == attachments_before(content, n));
    assert(attachments_before(more, n + 1) == attachments_before(more, n) + if block is Text {
        0int
    } else {
        1
    });
    assert(stripped(more, placeholders) =~= stripped(content, placeholders).push(
        match block {
            BlockView::Text(t) => BlockView::Text(t),
            _ => BlockView::Text(placeholders[attachment_count(content) as int]),
        },
    ));
}

proof fn lemma_same_attachments(a: Seq<BlockView>, b: Seq<BlockView>, n: int)
    requires
        0 <= n <= a.len(),
        n <= b.len(),
        forall|i: int| 0 <= i < n ==> a[i] == b[i],
    ensures
        attachments_before(a, n) == attachments_before(b, n),
    decreases n,
{
    if n > 0 {
        lemma_same_attachments(a, b, n - 1);
    }
}

/// Stripping a session leaves no image and no file in it; every message keeps its place, its role
/// and its text blocks.
pub proof fn stripped_sessions_hold_text_only(
    items: &mut Vec<MemoryItem>,
    placeholders: Vec<Vec<String>>,
    r: usize,
    i: int,
    k: int,
)
    requires
        call_ensures(strip_media_from_session, (items, &placeholders), r),
        0 <= i < old(items)@.len(),
    ensures
        final(items)@.len() == old(items)@.len(),
        !final(items)@[i]@.has_attachments(),
        final(items)@[i]@.role == old(items)@[i]@.role,
        final(items)@[i]@.tool_calls == old(items)@[i]@.tool_calls,
        0 <= k < old(items)@[i]@.content.len() && old(items)@[i]@.content[k] is Text
            ==> final(items)@[i]@.content[k] == old(items)@[i]@.content[k],
{
    stripped_messages_hold_text_only(old(items)@[i]@, texts(placeholders@[i]@));
    assert(final(items)@[i]@ == stripped_message(old(items)@[i]@, texts(placeholders@[i]@)));
}

/// The attachments of a session are those of its messages together.
pub proof fn session_attachments_add_up(items: Seq<MessageView>, m: MessageView)
    ensures
        session_attachments(items.push(m), (items.len() + 1) as int) == session_attachments(
            items,
            items.len() as int,
        ) + attachment_count(m.content),
{
    lemma_same_counts(items, items.push(m), items.len() as int);
}

proof fn lemma_same_counts(a: Seq<MessageView>, b: Seq<MessageView>, n: int)
    requires
        0 <= n <= a.len(),
        n <= b.len(),
        forall|i: int| 0 <= i < n ==> a[i] == b[i],
    ensures
        session_attachments(a, n) == session_attachments(b, n),
    decreases n,
{
    if n > 0 {
        lemma_same_counts(a, b, n - 1);
    }
}

} // verus!
