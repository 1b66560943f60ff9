//! Messages of a conversation: the parts of them that the library reads and writes.
use crate::text::{copy, copy_opt, opt_text};
use vstd::prelude::*;

verus! {

/// One block of a message's content.
#[derive(Debug, PartialEq, Eq)]
pub enum ContentBlock {
    Text(String),
    Image { data: Vec<u8>, media_type: String },
    File { data: Vec<u8>, media_type: String, filename: String },
}

/// What a content block holds.
pub enum BlockView {
    Text(Seq<char>),
    Image { data: Seq<u8>, media_type: Seq<char> },
    File { data: Seq<u8>, media_type: Seq<char>, filename: Seq<char> },
}

impl View for ContentBlock {
    type V = BlockView;

    open spec fn view(&self) -> BlockView {
        match *self {
            ContentBlock::Text(t) => BlockView::Text(t@),
            ContentBlock::Image { data, media_type } => BlockView::Image {
                data: data@,
                media_type: media_type@,
            },
            ContentBlock::File { data, media_type, filename } => BlockView::File {
                data: data@,
                media_type: media_type@,
                filename: filename@,
            },
        }
    }
}

pub open spec fn block_views(s: Seq<ContentBlock>) -> Seq<BlockView> {
    Seq::new(s.len(), |i: int| s[i]@)
}

impl BlockView {
    /// Whether the block is an image or a file.
    pub open spec fn is_attachment(self) -> bool {
        !(self is Text)
    }
}

/// The text of a row of blocks: that of its text blocks, one after the other.
pub open spec fn blocks_text(s: Seq<BlockView>) -> Seq<char>
    decreases s.len(),
{
    if s.len() == 0 {
        Seq::empty()
    } else {
        match s.last() {
            BlockView::Text(t) => blocks_text(s.drop_last()) + t,
            _ => blocks_text(s.drop_last()),
        }
    }
}

pub fn copy_bytes(v: &Vec<u8>) -> (r: Vec<u8>)
    ensures
        r@ == v@,
{
    let mut r: Vec<u8> = Vec::new();
    let mut i: usize = 0;
    while i < v.len()
        invariant
            i <= v@.len(),
            r@ == v@.take(i as int),
        decreases v@.len() - i,
    {
        r.push(v[i]);
        i += 1;
        assert(v@.take(i as int) =~= v@.take(i - 1).push(v@[i - 1]));
    }
    assert(v@.take(v@.len() as int) =~= v@);
    r
}

impl ContentBlock {
    /// A text block.
    pub fn text(text: &str) -> (r: ContentBlock)
        ensures
            r@ == BlockView::Text(text@),
    {
        ContentBlock::Text(copy(text))
    }

    /// The text of a text block.
    pub fn as_text(&self) -> (r: Option<&str>)
        ensures
            (r is Some) == (self@ is Text),
            r matches Some(t) ==> self@ == BlockView::Text(t@),
    {
        match self {
            ContentBlock::Text(t) => Some(t.as_str()),
            _ => None,
        }
    }

    pub fn is_attachment(&self) -> (r: bool)
        ensures
            r == self@.is_attachment(),
    {
        match self {
            ContentBlock::Text(_) => false,
            _ => true,
        }
    }

    pub fn copied(&self) -> (r: ContentBlock)
        ensures
            r@ == self@,
    {
        match self {
            ContentBlock::Text(t) => ContentBlock::Text(t.clone()),
            ContentBlock::Image { data, media_type } => ContentBlock::Image {
                data: copy_bytes(data),
                media_type: media_type.clone(),
            },
            ContentBlock::File { data, media_type, filename } => ContentBlock::File {
                data: copy_bytes(data),
                media_type: media_type.clone(),
                filename: filename.clone(),
            },
        }
    }
}

pub fn copy_blocks(v: &Vec<ContentBlock>) -> (r: Vec<ContentBlock>)
    ensures
        block_views(r@) == block_views(v@),
{
    let mut r: Vec<ContentBlock> = Vec::new();
    let mut i: usize = 0;
    while i < v.len()
        invariant
            i <= v@.len(),
            block_views(r@) =~= block_views(v@).take(i as int),
        decreases v@.len() - i,
    {
        let ghost r0 = block_views(r@);
        r.push(v[i].copied());
        assert(block_views(r@) =~= r0.push(v@[i as int]@));
        i += 1;
    }
    assert(block_views(r@) =~= block_views(v@));
    r
}

/// Who a message is from.
#[derive(Clone, Copy, Debug, PartialEq, Eq, Structural)]
pub enum Role {
    System,
    User,
    Assistant,
    Tool,
}

impl Role {
    pub open spec fn name(self) -> Seq<char> {
        match self {
            Role::System => "System"@,
            Role::User => "User"@,
            Role::Assistant => "Assistant"@,
            Role::Tool => "Tool"@,
        }
    }

    /// The role's name.
    pub fn label(&self) -> (r: &'static str)
        ensures
            r@ == self.name(),
    {
        match self {
            Role::System => "System",
            Role::User => "User",
            Role::Assistant => "Assistant",
            Role::Tool => "Tool",
        }
    }
}

/// A tool that a message of the assistant calls. The arguments are JSON text.
#[derive(Debug, PartialEq, Eq)]
pub struct ToolCall {
    pub id: String,
    pub name: String,
    pub arguments: String,
}

pub struct ToolCallView {
    pub id: Seq<char>,
    pub name: Seq<char>,
    pub arguments: Seq<char>,
}

impl View for ToolCall {
    type V = ToolCallView;

    open spec fn view(&self) -> ToolCallView {
        ToolCallView { id: self.id@, name: self.name@, arguments: self.arguments@ }
    }
}

pub open spec fn call_views(s: Seq<ToolCall>) -> Seq<ToolCallView> {
    Seq::new(s.len(), |i: int| s[i]@)
}

/// One message.
#[derive(Debug, PartialEq, Eq)]
pub struct Message {
    pub role: Role,
    pub content: Vec<ContentBlock>,
    pub tool_calls: Vec<ToolCall>,
    /// For a tool's result: the call that it answers.
    pub tool_call_id: Option<String>,
    pub token_count: Option<usize>,
    pub context_tokens: Option<usize>,
    /// Set on what compaction put in the place of other messages.
    pub compacted: bool,
}

pub struct MessageView {
    pub role: Role,
    pub content: Seq<BlockView>,
    pub tool_calls: Seq<ToolCallView>,
    pub tool_call_id: Option<Seq<char>>,
    pub token_count: Option<usize>,
    pub context_tokens: Option<usize>,
    pub compacted: bool,
}

impl View for Message {
    type V = MessageView;

    open spec fn view(&self) -> MessageView {
        MessageView {
            role: self.role,
            content: block_views(self.content@),
            tool_calls: call_views(self.tool_calls@),
            tool_call_id: opt_text(self.tool_call_id),
            token_count: self.token_count,
            context_tokens: self.context_tokens,
            compacted: self.compacted,
        }
    }
}

/// A message that holds one text block and nothing else.
pub open spec fn plain(role: Role, text: Seq<char>) -> MessageView {
    MessageView {
        role,
        content: seq![BlockView::Text(text)],
        tool_calls: Seq::empty(),
        tool_call_id: None,
        token_count: None,
        context_tokens: None,
        compacted: false,
    }
}

impl MessageView {
    pub open spec fn text(self) -> Seq<char> {
        blocks_text(self.content)
    }

    pub open spec fn has_attachments(self) -> bool {
        exists|i: int| 0 <= i < self.content.len() && (#[trigger] self.content[i]).is_attachment()
    }
}

impl Message {
    fn plain(role: Role, text: &str) -> (r: Message)
        ensures
            r@ == plain(role, text@),
    {
        let mut content: Vec<ContentBlock> = Vec::new();
        content.push(ContentBlock::text(text));
        let r = Message {
            role,
            content,
            tool_calls: Vec::new(),
            tool_call_id: None,
            token_count: None,
            context_tokens: None,
            compacted: false,
        };
        assert(r@.content =~= seq![BlockView::Text(text@)]);
        assert(r@.tool_calls =~= Seq::empty());
        r
    }

    pub fn user(text: &str) -> (r: Message)
        ensures
            r@ == plain(Role::User, text@),
    {
        Message::plain(Role::User, text)
    }

    pub fn assistant(text: &str) -> (r: Message)
        ensures
            r@ == plain(Role::Assistant, text@),
    {
        Message::plain(Role::Assistant, text)
    }

    /// The result of the tool call `id`.
    pub fn tool_result(id: &str, text: &str) -> (r: Message)
        ensures
            r@ == (MessageView { tool_call_id: Some(id@), ..plain(Role::Tool, text@) }),
    {
        let mut r = Message::plain(Role::Tool, text);
        r.tool_call_id = Some(copy(id));
        r
    }

    /// A message of the user made of `content`.
    pub fn user_blocks(content: Vec<ContentBlock>) -> (r: Message)
        ensures
            r@ == (MessageView {
                content: block_views(content@),
                ..plain(Role::User, Seq::empty())
            }),
    {
        let r = Message {
            role: Role::User,
            content,
            tool_calls: Vec::new(),
            tool_call_id: None,
            token_count: None,
            context_tokens: None,
            compacted: false,
        };
        assert(r@.tool_calls =~= Seq::empty());
        r
    }

    /// The text of the message's text blocks, one after the other.
    pub fn text_content(&self) -> (r: String)
        ensures
            r@ == self@.text(),
    {
        let mut r = String::new();
        let mut i: usize = 0;
        while i < self.content.len()
            invariant
                i <= self.content@.len(),
                r@ == blocks_text(block_views(self.content@).take(i as int)),
            decreases self.content@.len() - i,
        {
            let ghost upto = block_views(self.content@).take(i + 1);
            assert(upto.drop_last() =~= block_views(self.content@).take(i as int));
            assert(upto.last() == self.content@[i as int]@);
            match &self.content[i] {
                ContentBlock::Text(t) => {
                    r.append(t.as_str());
                },
                _ => {},
            }
            i += 1;
        }
        assert(block_views(self.content@).take(i as int) =~= self@.content);
        r
    }

    /// Whether the message holds an image or a file.
    pub fn has_attachments(&self) -> (r: bool)
        ensures
            r == self@.has_attachments(),
    {
        let mut i: usize = 0;
        while i < self.content.len()
            invariant
                i <= self.content@.len(),
                forall|k: int| 0 <= k < i ==> !(#[trigger] self@.content[k]).is_attachment(),
            decreases self.content@.len() - i,
        {
            if self.content[i].is_attachment() {
                assert(self@.content[i as int].is_attachment());
                return true;
            }
            i += 1;
        }
        false
    }

    pub fn copied(&self) -> (r: Message)
        ensures
            r@ == self@,
    {
        let mut tool_calls: Vec<ToolCall> = Vec::new();
        let mut i: usize = 0;
        while i < self.tool_calls.len()
            invariant
                i <= self.tool_calls@.len(),
                call_views(tool_calls@) =~= call_views(self.tool_calls@).take(i as int),
            decreases self.tool_calls@.len() - i,
        {
            let call = &self.tool_calls[i];
            let ghost calls = call_views(tool_calls@);
            tool_calls.push(
                ToolCall {
                    id: call.id.clone(),
                    name: call.name.clone(),
                    arguments: call.arguments.clone(),
                },
            );
            assert(call_views(tool_calls@) =~= calls.push(call@));
            i += 1;
        }
        assert(call_views(tool_calls@) =~= call_views(self.tool_calls@));
        Message {
            role: self.role,
            content: copy_blocks(&self.content),
            tool_calls,
            tool_call_id: copy_opt(&self.tool_call_id),
            token_count: self.token_count,
            context_tokens: self.context_tokens,
            compacted: self.compacted,
        }
    }
}

/// One entry of a session.
#[derive(Debug, PartialEq, Eq)]
pub enum MemoryItem {
    Message(Message),
}

impl View for MemoryItem {
    type V = MessageView;

    open spec fn view(&self) -> MessageView {
        match *self {
            MemoryItem::Message(m) => m@,
        }
    }
}

impl MemoryItem {
    pub fn message(&self) -> (r: &Message)
        ensures
            r@ == self@,
    {
        match self {
            MemoryItem::Message(m) => m,
        }
    }
}

/// What a session holds.
pub open spec fn item_views(s: Seq<MemoryItem>) -> Seq<MessageView> {
    Seq::new(s.len(), |i: int| s[i]@)
}

pub open spec fn message_views(s: Seq<Message>) -> Seq<MessageView> {
    Seq::new(s.len(), |i: int| s[i]@)
}

proof fn lemma_blocks_text_splits(s: Seq<BlockView>, n: int)
    requires
        0 <= n <= s.len(),
    ensures
        blocks_text(s) == blocks_text(s.take(n)) + blocks_text(s.skip(n)),
    decreases s.len(),
{
    if n == s.len() {
        assert(s.take(n) =~= s);
        assert(s.skip(n) =~= Seq::empty());
        assert(blocks_text(s) =~= blocks_text(s) + blocks_text(s.skip(n)));
    } else {
        lemma_blocks_text_splits(s.drop_last(), n);
        assert(s.drop_last().take(n) =~= s.take(n));
        assert(s.skip(n).drop_last() =~= s.drop_last().skip(n));
        assert(blocks_text(s) =~= blocks_text(s.take(n)) + blocks_text(s.skip(n)));
    }
}

/// The text of a message made of one text is that text.
pub proof fn lemma_plain_text(role: Role, text: Seq<char>)
    ensures
        plain(role, text).text() == text,
        plain(role, text).role == role,
        plain(role, text).tool_calls.len() == 0,
        plain(role, text).tool_call_id is None,
        !plain(role, text).compacted,
        !plain(role, text).has_attachments(),
{
    reveal_with_fuel(blocks_text, 2);
    let c = plain(role, text).content;
    assert(c.drop_last() =~= Seq::empty());
    assert(blocks_text(c) =~= text);
}

/// The text of a message is that of its parts: two rows of blocks have the text of the first
/// and then of the second, a text block adds its text, and an image or a file adds none.
pub proof fn texts_are_joined(a: Seq<BlockView>, b: Seq<BlockView>, block: BlockView)
    ensures
        blocks_text(a + b) == blocks_text(a) + blocks_text(b),
        block matches BlockView::Text(t) ==> blocks_text(seq![block]) == t,
        !(block is Text) ==> blocks_text(seq![block]).len() == 0,
{
    lemma_blocks_text_splits(a + b, a.len() as int);
    assert((a + b).take(a.len() as int) =~= a);
    assert((a + b).skip(a.len() as int) =~= b);
    reveal_with_fuel(blocks_text, 2);
    let one = seq![block];
    assert(one.drop_last() =~= Seq::empty());
    if block is Text {
        assert(blocks_text(one) =~= block->Text_0);
    }
}

/// No two roles have the same name.
pub proof fn roles_are_told_apart(a: Role, b: Role)
    ensures
        a.name() == b.name() ==> a == b,
{
    reveal_strlit("System");
    reveal_strlit("User");
    reveal_strlit("Assistant");
    reveal_strlit("Tool");
    assert("System"@.len() == 6 && "Assistant"@.len() == 9);
    assert("User"@.len() == 4 && "Tool"@.len() == 4);
    assert("User"@[0] == 'U');
    assert("Tool"@[0] == 'T');
}

/// A message holds the text that it is made of and is from whom it is said to be; a result names
/// the call that it answers; and a message made of blocks holds their text.
pub proof fn messages_hold_what_is_said(
    text: &str,
    id: &str,
    content: Vec<ContentBlock>,
    user: Message,
    assistant: Message,
    result: Message,
    blocks: Message,
)
    requires
        call_ensures(Message::user, (text,), user),
        call_ensures(Message::assistant, (text,), assistant),
        call_ensures(Message::tool_result, (id, text), result),
        call_ensures(Message::user_blocks, (content,), blocks),
    ensures
        user@.role == Role::User && user@.text() == text@,
        assistant@.role == Role::Assistant && assistant@.text() == text@,
        result@.role == Role::Tool && result@.text() == text@ && result@.tool_call_id == Some(id@),
        blocks@.role == Role::User && blocks@.text() == blocks_text(block_views(content@)),
{
    lemma_plain_text(Role::User, text@);
    lemma_plain_text(Role::Assistant, text@);
    lemma_plain_text(Role::Tool, text@);
    assert(result@.content == plain(Role::Tool, text@).content);
}

/// A message has attachments exactly where one of its blocks is an image or a file.
pub proof fn attachments_are_images_and_files(m: Message, r: bool, i: int)
    requires
        call_ensures(Message::has_attachments, (&m,), r),
    ensures
        0 <= i < m.content@.len() && !(m.content@[i]@ is Text) ==> r,
        (forall|k: int| 0 <= k < m.content@.len() ==> (#[trigger] m.content@[k])@ is Text) ==> !r,
{
    let v = block_views(m.content@);
    if 0 <= i < m.content@.len() {
        assert(v[i] == m.content@[i]@);
        assert(m@.content[i] == v[i]);
    }
    if r {
        let k = choose|k: int| 0 <= k < v.len() && (#[trigger] v[k]).is_attachment();
        assert(v[k] == m.content@[k]@);
    }
}

/// A session holds its messages in their places, each as it is.
pub proof fn sessions_keep_their_places(items: Seq<MemoryItem>, messages: Seq<Message>, i: int)
    ensures
        item_views(items).len() == items.len(),
        message_views(messages).len() == messages.len(),
        0 <= i < items.len() ==> item_views(items)[i] == items[i]@,
        0 <= i < messages.len() ==> message_views(messages)[i] == messages[i]@ && messages[i]@.role
            == messages[i].role && messages[i]@.content.len() == messages[i].content@.len()
            && messages[i]@.compacted == messages[i].compacted,
{
}

} // verus!
