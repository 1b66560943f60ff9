//! The agents a user talks to, the commands that switch between them, and what each of them
//! may use.
use crate::args::{ArgValue, text_field};
use crate::text::{blank, copy, is_blank, opt_text, same};
use vstd::prelude::*;

verus! {

/// The three agents of the interactive mode.
#[derive(Clone, Copy, Debug, PartialEq, Eq, Hash, Structural)]
pub enum AgentKind {
    Main,
    Plan,
    Review,
}

impl AgentKind {
    pub open spec fn name(self) -> Seq<char> {
        match self {
            AgentKind::Main => "main"@,
            AgentKind::Plan => "plan"@,
            AgentKind::Review => "review"@,
        }
    }

    /// The agent of that name.
    pub fn from_target(target: &str) -> (r: Option<AgentKind>)
        ensures
            r == agent_named(target@),
    {
        if same(target, "main") {
            Some(AgentKind::Main)
        } else if same(target, "plan") {
            Some(AgentKind::Plan)
        } else if same(target, "review") {
            Some(AgentKind::Review)
        } else {
            None
        }
    }

    /// The agent's name.
    pub fn display_name(&self) -> (r: &'static str)
        ensures
            r@ == self.name(),
    {
        match self {
            AgentKind::Main => "main",
            AgentKind::Plan => "plan",
            AgentKind::Review => "review",
        }
    }
}

pub open spec fn agent_named(target: Seq<char>) -> Option<AgentKind> {
    if target == "main"@ {
        Some(AgentKind::Main)
    } else if target == "plan"@ {
        Some(AgentKind::Plan)
    } else if target == "review"@ {
        Some(AgentKind::Review)
    } else {
        None
    }
}

/// An agent is found by its name, and a name finds the agent that bears it.
pub proof fn agents_are_found_by_name(kind: AgentKind, target: Seq<char>)
    ensures
        agent_named(kind.name()) == Some(kind),
        agent_named(target) matches Some(k) ==> k.name() == target,
{
    reveal_strlit("main");
    reveal_strlit("plan");
    reveal_strlit("review");
    assert("main"@[0] == 'm');
    assert("plan"@[0] == 'p');
    assert("review"@[0] == 'r');
}

/// A switch to another agent, and what to say to it first.
#[derive(Debug, PartialEq, Eq)]
pub struct ModeSwitch {
    pub target: AgentKind,
    pub step_with: Option<String>,
}

/// What a slash command means for the mode.
#[derive(Debug, PartialEq, Eq)]
pub enum ModeCommand {
    Switch(ModeSwitch),
    Invalid(String),
    NotModeCommand,
}

pub enum ModeView {
    Switch { target: AgentKind, step_with: Option<Seq<char>> },
    Invalid(Seq<char>),
    NotModeCommand,
}

impl View for ModeCommand {
    type V = ModeView;

    open spec fn view(&self) -> ModeView {
        match *self {
            ModeCommand::Switch(s) => ModeView::Switch {
                target: s.target,
                step_with: opt_text(s.step_with),
            },
            ModeCommand::Invalid(m) => ModeView::Invalid(m@),
            ModeCommand::NotModeCommand => ModeView::NotModeCommand,
        }
    }
}

/// The refusal of a command outside its mode.
pub open spec fn wrong_mode(before: Seq<char>, current: AgentKind) -> Seq<char> {
    before + current.name() + " mode)"@
}

/// The arguments, unless they are blank.
pub open spec fn given(args: Seq<char>) -> Option<Seq<char>> {
    if is_blank(args) {
        None
    } else {
        Some(args)
    }
}

/// What `/name args` means in the mode `current`.
pub open spec fn mode_command(name: Seq<char>, args: Seq<char>, current: AgentKind) -> ModeView {
    if name == "plan"@ {
        if current == AgentKind::Main {
            ModeView::Switch { target: AgentKind::Plan, step_with: given(args) }
        } else {
            ModeView::Invalid(
                wrong_mode("/plan is only available in main mode (currently in "@, current),
            )
        }
    } else if name == "review"@ {
        if current == AgentKind::Main {
            ModeView::Switch { target: AgentKind::Review, step_with: given(args) }
        } else {
            ModeView::Invalid(
                wrong_mode("/review is only available in main mode (currently in "@, current),
            )
        }
    } else if name == "approve"@ {
        if current == AgentKind::Plan {
            ModeView::Switch {
                target: AgentKind::Main,
                step_with: Some("The user approved the plan above. Implement it."@),
            }
        } else {
            ModeView::Invalid(
                wrong_mode("/approve is only available in plan mode (currently in "@, current),
            )
        }
    } else if name == "fix"@ {
        if current == AgentKind::Review {
            ModeView::Switch {
                target: AgentKind::Main,
                step_with: Some(
                    if is_blank(args) {
                        "Address all review items."@
                    } else {
                        "Address these review items: "@ + args
                    },
                ),
            }
        } else {
            ModeView::Invalid(
                wrong_mode("/fix is only available in review mode (currently in "@, current),
            )
        }
    } else if name == "back"@ {
        if current == AgentKind::Main {
            ModeView::Invalid("/back is only available in plan or review mode"@)
        } else {
            ModeView::Switch { target: AgentKind::Main, step_with: None }
        }
    } else {
        ModeView::NotModeCommand
    }
}

fn refuse(before: &str, current: AgentKind) -> (r: ModeCommand)
    ensures
        r@ == ModeView::Invalid(wrong_mode(before@, current)),
{
    let mut m = copy(before);
    m.append(current.display_name());
    m.append(" mode)");
    ModeCommand::Invalid(m)
}

fn given_args(args: &str) -> (r: Option<String>)
    ensures
        opt_text(r) == given(args@),
{
    if blank(args) {
        None
    } else {
        Some(copy(args))
    }
}

/// What `/name args` means in the mode `current`.
pub fn resolve_mode_command(name: &str, args: &str, current: AgentKind) -> (r: ModeCommand)
    ensures
        r@ == mode_command(name@, args@, current),
{
    if same(name, "plan") {
        if current != AgentKind::Main {
            return refuse("/plan is only available in main mode (currently in ", current);
        }
        ModeCommand::Switch(ModeSwitch { target: AgentKind::Plan, step_with: given_args(args) })
    } else if same(name, "review") {
        if current != AgentKind::Main {
            return refuse("/review is only available in main mode (currently in ", current);
        }
        ModeCommand::Switch(ModeSwitch { target: AgentKind::Review, step_with: given_args(args) })
    } else if same(name, "approve") {
        if current != AgentKind::Plan {
            return refuse("/approve is only available in plan mode (currently in ", current);
        }
        let step = copy("The user approved the plan above. Implement it.");
        ModeCommand::Switch(ModeSwitch { target: AgentKind::Main, step_with: Some(step) })
    } else if same(name, "fix") {
        if current != AgentKind::Review {
            return refuse("/fix is only available in review mode (currently in ", current);
        }
        let step = if blank(args) {
            copy("Address all review items.")
        } else {
            let mut s = copy("Address these review items: ");
            s.append(args);
            s
        };
        ModeCommand::Switch(ModeSwitch { target: AgentKind::Main, step_with: Some(step) })
    } else if same(name, "back") {
        if current == AgentKind::Main {
            return ModeCommand::Invalid(copy("/back is only available in plan or review mode"));
        }
        ModeCommand::Switch(ModeSwitch { target: AgentKind::Main, step_with: None })
    } else {
        ModeCommand::NotModeCommand
    }
}

/// Every switch leads from the main mode to another or from another to the main mode.
pub proof fn every_switch_passes_through_main(
    name: Seq<char>,
    args: Seq<char>,
    current: AgentKind,
)
    ensures
        mode_command(name, args, current) matches ModeView::Switch { target, .. } ==> (current
            == AgentKind::Main) != (target == AgentKind::Main),
{
}

/// Whether a command is one of the modes' is settled by its name: neither the arguments nor
/// the current mode matter.
pub proof fn mode_commands_go_by_name(
    name: Seq<char>,
    args1: Seq<char>,
    args2: Seq<char>,
    current1: AgentKind,
    current2: AgentKind,
)
    ensures
        (mode_command(name, args1, current1) is NotModeCommand) == (mode_command(
            name,
            args2,
            current2,
        ) is NotModeCommand),
{
}

// ---------------------------------------------------------------------------
// Handoffs
// ---------------------------------------------------------------------------
/// A tool by which one agent hands over to another: the agent, and the argument that holds
/// what it is told.
#[derive(Clone, Copy, Debug, PartialEq, Eq, Structural)]
pub enum Handoff {
    ToPlan,
    ToReview,
    ToMain,
}

impl Handoff {
    pub open spec fn destination(self) -> AgentKind {
        match self {
            Handoff::ToPlan => AgentKind::Plan,
            Handoff::ToReview => AgentKind::Review,
            Handoff::ToMain => AgentKind::Main,
        }
    }

    pub open spec fn field_name(self) -> Seq<char> {
        match self {
            Handoff::ToPlan => "task"@,
            Handoff::ToReview => "focus"@,
            Handoff::ToMain => "content"@,
        }
    }

    pub fn target(&self) -> (r: AgentKind)
        ensures
            r == self.destination(),
    {
        match self {
            Handoff::ToPlan => AgentKind::Plan,
            Handoff::ToReview => AgentKind::Review,
            Handoff::ToMain => AgentKind::Main,
        }
    }

    /// The name of the argument that holds what the other agent is told.
    pub fn field(&self) -> (r: &'static str)
        ensures
            r@ == self.field_name(),
    {
        match self {
            Handoff::ToPlan => "task",
            Handoff::ToReview => "focus",
            Handoff::ToMain => "content",
        }
    }

    /// Whether the argument has to be there.
    pub fn field_is_required(&self) -> (r: bool)
        ensures
            r == (*self != Handoff::ToReview),
    {
        match self {
            Handoff::ToReview => false,
            _ => true,
        }
    }

    pub fn tool_name(&self) -> (r: &'static str)
        ensures
            r@ == (match *self {
                Handoff::ToPlan => "transfer_to_plan"@,
                Handoff::ToReview => "transfer_to_review"@,
                Handoff::ToMain => "transfer_to_main"@,
            }),
    {
        match self {
            Handoff::ToPlan => "transfer_to_plan",
            Handoff::ToReview => "transfer_to_review",
            Handoff::ToMain => "transfer_to_main",
        }
    }

    /// Whom a call of the tool hands over to, and what that agent is told: the text of the
    /// argument, unless there is none or it is empty.
    pub fn invoke(&self, args: &ArgValue) -> (r: (&'static str, Option<String>))
        ensures
            r.0@ == self.destination().name(),
            opt_text(r.1) == (match text_field(*args, self.field_name()) {
                Some(t) if t.len() > 0 => Some(t),
                _ => None,
            }),
    {
        let payload = match args.text_at(self.field()) {
            Some(t) => if t.is_empty() {
                None
            } else {
                Some(copy(t))
            },
            None => None,
        };
        (self.target().display_name(), payload)
    }
}

/// A handoff's target is the name of an agent, and of the one that it leads to.
pub proof fn handoffs_lead_to_agents(h: Handoff)
    ensures
        agent_named(h.destination().name()) == Some(h.destination()),
{
    agents_are_found_by_name(h.destination(), h.destination().name());
}

// ---------------------------------------------------------------------------
// What each agent may use
// ---------------------------------------------------------------------------
#[derive(Clone, Copy, Debug, PartialEq, Eq, Structural)]
pub enum ToolKind {
    ReadFile,
    WriteFile,
    EditFile,
    Glob,
    Grep,
    Bash,
    Patch,
    MoveFile,
    CreateDirectory,
    DirectoryTree,
    GetFileInfo,
    DirectorySize,
    HeadFile,
    TailFile,
    ListDirectory,
    Calculator,
    HttpFetch,
    WebSearch,
    MemorySave,
    MemorySearch,
    MemoryUpdate,
    MemoryDelete,
}

#[derive(Clone, Copy, Debug, PartialEq, Eq, Structural)]
pub enum SubagentKind {
    Explore,
    WebResearch,
    Diagnose,
    Explain,
    Testgen,
}

impl ToolKind {
    /// Whether the tool can change files or run commands.
    pub open spec fn changes_files(self) -> bool {
        match self {
            ToolKind::WriteFile => true,
            ToolKind::EditFile => true,
            ToolKind::Bash => true,
            ToolKind::Patch => true,
            ToolKind::MoveFile => true,
            ToolKind::CreateDirectory => true,
            _ => false,
        }
    }

    /// Whether the tool can change what is remembered.
    pub open spec fn changes_memory(self) -> bool {
        self == ToolKind::MemorySave || self == ToolKind::MemoryUpdate || self
            == ToolKind::MemoryDelete
    }
}

/// The tools that only look.
pub open spec fn looking_tools() -> Seq<ToolKind> {
    seq![
        ToolKind::ReadFile,
        ToolKind::Glob,
        ToolKind::Grep,
        ToolKind::DirectoryTree,
        ToolKind::ListDirectory,
        ToolKind::GetFileInfo,
        ToolKind::DirectorySize,
        ToolKind::HeadFile,
        ToolKind::TailFile,
    ]
}

/// The tools of the main agent before web search.
pub open spec fn coding_tools() -> Seq<ToolKind> {
    seq![
        ToolKind::ReadFile,
        ToolKind::WriteFile,
        ToolKind::EditFile,
        ToolKind::Glob,
        ToolKind::Grep,
        ToolKind::Bash,
        ToolKind::Patch,
        ToolKind::MoveFile,
        ToolKind::CreateDirectory,
        ToolKind::DirectoryTree,
        ToolKind::GetFileInfo,
        ToolKind::DirectorySize,
        ToolKind::HeadFile,
        ToolKind::TailFile,
        ToolKind::ListDirectory,
        ToolKind::Calculator,
        ToolKind::HttpFetch,
    ]
}

/// `tools` with web search behind them, where there is a backend for it.
pub open spec fn and_web_search(tools: Seq<ToolKind>, backend: bool) -> Seq<ToolKind> {
    if backend {
        tools.push(ToolKind::WebSearch)
    } else {
        tools
    }
}

/// The tools of an agent.
pub open spec fn tools_of(kind: AgentKind, backend: bool) -> Seq<ToolKind> {
    match kind {
        AgentKind::Main => and_web_search(coding_tools(), backend),
        _ => and_web_search(looking_tools().push(ToolKind::HttpFetch), backend),
    }
}

/// The tools that only look.
pub fn read_only_tools() -> (r: Vec<ToolKind>)
    ensures
        r@ == looking_tools(),
{
    let r = vec![
        ToolKind::ReadFile,
        ToolKind::Glob,
        ToolKind::Grep,
        ToolKind::DirectoryTree,
        ToolKind::ListDirectory,
        ToolKind::GetFileInfo,
        ToolKind::DirectorySize,
        ToolKind::HeadFile,
        ToolKind::TailFile,
    ];
    assert(r@ =~= looking_tools());
    r
}

/// `tools` with web search behind them, where there is a backend for it.
pub fn with_web_search(tools: Vec<ToolKind>, backend: bool) -> (r: Vec<ToolKind>)
    ensures
        r@ == and_web_search(tools@, backend),
{
    let mut r = tools;
    if backend {
        r.push(ToolKind::WebSearch);
    }
    r
}

/// The tools of an agent, in the order in which it is given them.
pub fn agent_tools(kind: AgentKind, backend: bool) -> (r: Vec<ToolKind>)
    ensures
        r@ == tools_of(kind, backend),
{
    match kind {
        AgentKind::Main => {
            let tools = vec![
                ToolKind::ReadFile,
                ToolKind::WriteFile,
                ToolKind::EditFile,
                ToolKind::Glob,
                ToolKind::Grep,
                ToolKind::Bash,
                ToolKind::Patch,
                ToolKind::MoveFile,
                ToolKind::CreateDirectory,
                ToolKind::DirectoryTree,
                ToolKind::GetFileInfo,
                ToolKind::DirectorySize,
                ToolKind::HeadFile,
                ToolKind::TailFile,
                ToolKind::ListDirectory,
                ToolKind::Calculator,
                ToolKind::HttpFetch,
            ];
            assert(tools@ =~= coding_tools());
            with_web_search(tools, backend)
        },
        _ => {
            let mut tools = read_only_tools();
            tools.push(ToolKind::HttpFetch);
            with_web_search(tools, backend)
        },
    }
}

pub open spec fn subagents_of(kind: AgentKind) -> Seq<SubagentKind> {
    match kind {
        AgentKind::Main => seq![
            SubagentKind::Explore,
            SubagentKind::WebResearch,
            SubagentKind::Diagnose,
            SubagentKind::Explain,
            SubagentKind::Testgen,
        ],
        AgentKind::Plan => seq![SubagentKind::Explore, SubagentKind::WebResearch],
        AgentKind::Review => Seq::empty(),
    }
}

/// The subagents that an agent can call.
pub fn agent_subagents(kind: AgentKind) -> (r: Vec<SubagentKind>)
    ensures
        r@ == subagents_of(kind),
{
    let r: Vec<SubagentKind> = match kind {
        AgentKind::Main => vec![
            SubagentKind::Explore,
            SubagentKind::WebResearch,
            SubagentKind::Diagnose,
            SubagentKind::Explain,
            SubagentKind::Testgen,
        ],
        AgentKind::Plan => vec![SubagentKind::Explore, SubagentKind::WebResearch],
        AgentKind::Review => Vec::new(),
    };
    assert(r@ =~= subagents_of(kind));
    r
}

pub open spec fn handoffs_of(kind: AgentKind) -> Seq<Handoff> {
    match kind {
        AgentKind::Main => seq![Handoff::ToPlan, Handoff::ToReview],
        _ => seq![Handoff::ToMain],
    }
}

/// The handoffs that an agent can make.
pub fn agent_handoffs(kind: AgentKind) -> (r: Vec<Handoff>)
    ensures
        r@ == handoffs_of(kind),
{
    let r = match kind {
        AgentKind::Main => vec![Handoff::ToPlan, Handoff::ToReview],
        _ => vec![Handoff::ToMain],
    };
    assert(r@ =~= handoffs_of(kind));
    r
}

/// An agent's handoffs lead where the mode commands lead: from main to the others, and from
/// them to main.
pub proof fn handoffs_pass_through_main(kind: AgentKind, i: int)
    requires
        0 <= i < handoffs_of(kind).len(),
    ensures
        (kind == AgentKind::Main) != (handoffs_of(kind)[i].destination() == AgentKind::Main),
{
}

/// The agents for planning and for reviewing cannot change files.
pub proof fn only_main_changes_files(kind: AgentKind, backend: bool)
    requires
        kind != AgentKind::Main,
    ensures
        forall|i: int|
            0 <= i < tools_of(kind, backend).len() ==> !(#[trigger] tools_of(
                kind,
                backend,
            )[i]).changes_files(),
{
}

// ---------------------------------------------------------------------------
// Long-term memory
// ---------------------------------------------------------------------------
/// What an agent gets of long-term memory: whether memories are recalled for it, its tools,
/// and whether what is said is distilled into memories.
pub struct MemoryPolicy {
    pub recall: bool,
    pub tools: Vec<ToolKind>,
    pub distill: bool,
}

pub open spec fn memory_tools_of(kind: AgentKind, wired: bool) -> Seq<ToolKind> {
    if !wired {
        Seq::empty()
    } else {
        match kind {
            AgentKind::Main => seq![
                ToolKind::MemorySave,
                ToolKind::MemorySearch,
                ToolKind::MemoryUpdate,
                ToolKind::MemoryDelete,
            ],
            AgentKind::Plan => seq![ToolKind::MemorySearch],
            AgentKind::Review => Seq::empty(),
        }
    }
}

/// What an agent gets of long-term memory: nothing where memory is off (`wired` is false), and
/// distillation only where there is a distiller.
pub fn memory_policy(kind: AgentKind, wired: bool, distiller: bool) -> (r: MemoryPolicy)
    ensures
        r.recall == wired,
        r.tools@ == memory_tools_of(kind, wired),
        r.distill == (wired && distiller && kind == AgentKind::Main),
{
    let tools: Vec<ToolKind> = if !wired {
        Vec::new()
    } else {
        match kind {
            AgentKind::Main => vec![
                ToolKind::MemorySave,
                ToolKind::MemorySearch,
                ToolKind::MemoryUpdate,
                ToolKind::MemoryDelete,
            ],
            AgentKind::Plan => vec![ToolKind::MemorySearch],
            AgentKind::Review => Vec::new(),
        }
    };
    assert(tools@ =~= memory_tools_of(kind, wired));
    MemoryPolicy { recall: wired, tools, distill: wired && distiller && kind == AgentKind::Main }
}

/// Only the main agent can change what is remembered.
pub proof fn only_main_changes_memory(kind: AgentKind, wired: bool)
    requires
        kind != AgentKind::Main,
    ensures
        forall|i: int|
            0 <= i < memory_tools_of(kind, wired).len() ==> !(#[trigger] memory_tools_of(
                kind,
                wired,
            )[i]).changes_memory(),
{
}

/// The main agent can do everything: it has every tool that changes files or runs commands,
/// and every tool that any agent has.
pub proof fn the_main_agent_can_do_everything(kind: AgentKind, backend: bool, tool: ToolKind)
    ensures
        tools_of(AgentKind::Main, backend).contains(ToolKind::WriteFile),
        tools_of(AgentKind::Main, backend).contains(ToolKind::EditFile),
        tools_of(AgentKind::Main, backend).contains(ToolKind::Bash),
        tools_of(AgentKind::Main, backend).contains(ToolKind::Patch),
        tools_of(AgentKind::Main, backend).contains(ToolKind::MoveFile),
        tools_of(AgentKind::Main, backend).contains(ToolKind::CreateDirectory),
        tools_of(AgentKind::Main, backend).contains(ToolKind::Calculator),
        tool.changes_files() ==> tools_of(AgentKind::Main, backend).contains(tool),
        tools_of(kind, backend).contains(tool) ==> tools_of(AgentKind::Main, backend).contains(
            tool,
        ),
{
    lemma_tools_of_main(backend, tool);
    lemma_tools_of_main(backend, ToolKind::WriteFile);
    lemma_tools_of_main(backend, ToolKind::EditFile);
    lemma_tools_of_main(backend, ToolKind::Bash);
    lemma_tools_of_main(backend, ToolKind::Patch);
    lemma_tools_of_main(backend, ToolKind::MoveFile);
    lemma_tools_of_main(backend, ToolKind::CreateDirectory);
    lemma_tools_of_main(backend, ToolKind::Calculator);
    lemma_tools_of_lookers(kind, backend, tool);
}

proof fn lemma_tools_of_main(backend: bool, tool: ToolKind)
    ensures
        tools_of(AgentKind::Main, backend).contains(tool) == (match tool {
            ToolKind::WebSearch => backend,
            ToolKind::MemorySave => false,
            ToolKind::MemorySearch => false,
            ToolKind::MemoryUpdate => false,
            ToolKind::MemoryDelete => false,
            _ => true,
        }),
{
    let s = tools_of(AgentKind::Main, backend);
    let c = coding_tools();
    assert(c.len() == 17);
    assert(forall|i: int| 0 <= i < 17 ==> s[i] == c[i]);
    assert(s[0] == ToolKind::ReadFile && s[1] == ToolKind::WriteFile && s[2] == ToolKind::EditFile
        && s[3] == ToolKind::Glob && s[4] == ToolKind::Grep && s[5] == ToolKind::Bash && s[6]
        == ToolKind::Patch && s[7] == ToolKind::MoveFile && s[8] == ToolKind::CreateDirectory);
    assert(s[9] == ToolKind::DirectoryTree && s[10] == ToolKind::GetFileInfo && s[11]
        == ToolKind::DirectorySize && s[12] == ToolKind::HeadFile && s[13] == ToolKind::TailFile
        && s[14] == ToolKind::ListDirectory && s[15] == ToolKind::Calculator && s[16]
        == ToolKind::HttpFetch);
    if backend {
        assert(s[17] == ToolKind::WebSearch);
    }
}

proof fn lemma_tools_of_lookers(kind: AgentKind, backend: bool, tool: ToolKind)
    ensures
        kind != AgentKind::Main ==> tools_of(kind, backend).contains(tool) == (match tool {
            ToolKind::WebSearch => backend,
            ToolKind::ReadFile => true,
            ToolKind::Glob => true,
            ToolKind::Grep => true,
            ToolKind::DirectoryTree => true,
            ToolKind::ListDirectory => true,
            ToolKind::GetFileInfo => true,
            ToolKind::DirectorySize => true,
            ToolKind::HeadFile => true,
            ToolKind::TailFile => true,
            ToolKind::HttpFetch => true,
            _ => false,
        }),
{
    if kind != AgentKind::Main {
        let s = tools_of(kind, backend);
        let c = looking_tools();
        assert(c.len() == 9);
        assert(forall|i: int| 0 <= i < 9 ==> s[i] == c[i]);
        assert(s[0] == ToolKind::ReadFile && s[1] == ToolKind::Glob && s[2] == ToolKind::Grep
            && s[3] == ToolKind::DirectoryTree && s[4] == ToolKind::ListDirectory && s[5]
            == ToolKind::GetFileInfo && s[6] == ToolKind::DirectorySize && s[7]
            == ToolKind::HeadFile && s[8] == ToolKind::TailFile && s[9] == ToolKind::HttpFetch);
        if backend {
            assert(s[10] == ToolKind::WebSearch);
        }
    }
}

/// The planning and the reviewing agent can look at everything: they have each tool of the main
/// agent but those that change files or run commands and the calculator.
pub proof fn every_agent_can_look(kind: AgentKind, backend: bool, tool: ToolKind)
    requires
        kind != AgentKind::Main,
    ensures
        tools_of(kind, backend).contains(tool) == (tools_of(AgentKind::Main, backend).contains(tool)
            && tool != ToolKind::WriteFile && tool != ToolKind::EditFile && tool != ToolKind::Bash
            && tool != ToolKind::Patch && tool != ToolKind::MoveFile && tool
            != ToolKind::CreateDirectory && tool != ToolKind::Calculator),
        tools_of(kind, backend).contains(ToolKind::ReadFile),
        tools_of(kind, backend).contains(ToolKind::Glob),
        tools_of(kind, backend).contains(ToolKind::Grep),
        tools_of(kind, backend).contains(ToolKind::DirectoryTree),
        tools_of(kind, backend).contains(ToolKind::ListDirectory),
        tools_of(kind, backend).contains(ToolKind::GetFileInfo),
        tools_of(kind, backend).contains(ToolKind::DirectorySize),
        tools_of(kind, backend).contains(ToolKind::HeadFile),
        tools_of(kind, backend).contains(ToolKind::TailFile),
        tools_of(kind, backend).contains(ToolKind::HttpFetch),
{
    lemma_tools_of_main(backend, tool);
    lemma_tools_of_lookers(kind, backend, tool);
    lemma_tools_of_lookers(kind, backend, ToolKind::ReadFile);
    lemma_tools_of_lookers(kind, backend, ToolKind::Glob);
    lemma_tools_of_lookers(kind, backend, ToolKind::Grep);
    lemma_tools_of_lookers(kind, backend, ToolKind::DirectoryTree);
    lemma_tools_of_lookers(kind, backend, ToolKind::ListDirectory);
    lemma_tools_of_lookers(kind, backend, ToolKind::GetFileInfo);
    lemma_tools_of_lookers(kind, backend, ToolKind::DirectorySize);
    lemma_tools_of_lookers(kind, backend, ToolKind::HeadFile);
    lemma_tools_of_lookers(kind, backend, ToolKind::TailFile);
    lemma_tools_of_lookers(kind, backend, ToolKind::HttpFetch);
}

/// A backend for web search adds that tool to every agent and takes none away; without one no
/// agent has it. No agent is given a tool twice.
pub proof fn a_backend_adds_web_search(kind: AgentKind, backend: bool)
    ensures
        tools_of(kind, true) == tools_of(kind, false).push(ToolKind::WebSearch),
        !tools_of(kind, false).contains(ToolKind::WebSearch),
        tools_of(kind, backend).no_duplicates(),
{
    lemma_tools_of_main(false, ToolKind::WebSearch);
    lemma_tools_of_lookers(kind, false, ToolKind::WebSearch);
}

/// The main agent can call every subagent, the planning agent those that explore the project
/// and the web, and the reviewing agent none.
pub proof fn subagents_help_main_and_plan(kind: AgentKind, s: SubagentKind)
    ensures
        subagents_of(kind).contains(s) == (match kind {
            AgentKind::Main => true,
            AgentKind::Plan => s == SubagentKind::Explore || s == SubagentKind::WebResearch,
            AgentKind::Review => false,
        }),
{
    let m = subagents_of(AgentKind::Main);
    assert(m[0] == SubagentKind::Explore && m[1] == SubagentKind::WebResearch && m[2]
        == SubagentKind::Diagnose && m[3] == SubagentKind::Explain && m[4]
        == SubagentKind::Testgen);
    let p = subagents_of(AgentKind::Plan);
    assert(p[0] == SubagentKind::Explore && p[1] == SubagentKind::WebResearch);
}

/// Every agent can hand over: the main agent to each of the others, and each of the others to
/// the main agent.
pub proof fn every_agent_can_hand_over(from: AgentKind, to: AgentKind)
    ensures
        (exists|i: int|
            0 <= i < handoffs_of(from).len() && (#[trigger] handoffs_of(from)[i]).destination()
                == to) == ((from == AgentKind::Main) != (to == AgentKind::Main)),
{
    let h = handoffs_of(from);
    assert(h[0].destination() == h[0].destination());
    if from == AgentKind::Main {
        assert(h[0].destination() == AgentKind::Plan);
        assert(h[1].destination() == AgentKind::Review);
    } else {
        assert(h[0].destination() == AgentKind::Main);
    }
}

/// With memory on, the main agent can save, find, change and delete memories, and the planning
/// agent can find them. With memory off, no agent has anything of it.
pub proof fn memory_tools_follow_the_agent(kind: AgentKind, tool: ToolKind)
    ensures
        memory_tools_of(AgentKind::Main, true).contains(ToolKind::MemorySave),
        memory_tools_of(AgentKind::Main, true).contains(ToolKind::MemorySearch),
        memory_tools_of(AgentKind::Main, true).contains(ToolKind::MemoryUpdate),
        memory_tools_of(AgentKind::Main, true).contains(ToolKind::MemoryDelete),
        memory_tools_of(AgentKind::Plan, true).contains(ToolKind::MemorySearch),
        !memory_tools_of(kind, false).contains(tool),
        memory_tools_of(AgentKind::Review, true).len() == 0,
{
    let m = memory_tools_of(AgentKind::Main, true);
    assert(m[0] == ToolKind::MemorySave && m[1] == ToolKind::MemorySearch && m[2]
        == ToolKind::MemoryUpdate && m[3] == ToolKind::MemoryDelete);
    assert(memory_tools_of(AgentKind::Plan, true)[0] == ToolKind::MemorySearch);
}

proof fn lemma_mode_names()
    ensures
        "plan"@ != "review"@,
        "plan"@ != "approve"@,
        "plan"@ != "fix"@,
        "plan"@ != "back"@,
        "review"@ != "approve"@,
        "review"@ != "fix"@,
        "review"@ != "back"@,
        "approve"@ != "fix"@,
        "approve"@ != "back"@,
        "fix"@ != "back"@,
{
    reveal_strlit("plan");
    reveal_strlit("review");
    reveal_strlit("approve");
    reveal_strlit("fix");
    reveal_strlit("back");
    assert("plan"@[0] == 'p');
    assert("back"@[0] == 'b');
    assert("plan"@.len() == 4 && "review"@.len() == 6 && "approve"@.len() == 7 && "fix"@.len()
        == 3);
}

/// From the main mode a command leads into each other mode, with what was typed behind it as
/// the first thing said there, and from either of them `/back` leads back and says nothing.
pub proof fn every_mode_is_entered_and_left(args: Seq<char>, other: AgentKind)
    requires
        other != AgentKind::Main,
    ensures
        mode_command(other.name(), args, AgentKind::Main) == (ModeView::Switch {
            target: other,
            step_with: if is_blank(args) {
                None
            } else {
                Some(args)
            },
        }),
        mode_command("back"@, args, other) == (ModeView::Switch {
            target: AgentKind::Main,
            step_with: None,
        }),
{
    lemma_mode_names();
}

/// Leaving a mode with its own command tells the main agent what to do: a plan is approved only
/// from planning, whatever stands behind the command, and review items are fixed only from
/// reviewing, those named or, where none is, all of them.
pub proof fn results_are_handed_to_main(args: Seq<char>, current: AgentKind)
    ensures
        (mode_command("approve"@, args, current) is Switch) == (current == AgentKind::Plan),
        (mode_command("fix"@, args, current) is Switch) == (current == AgentKind::Review),
        mode_command("approve"@, args, AgentKind::Plan) == (ModeView::Switch {
            target: AgentKind::Main,
            step_with: Some("The user approved the plan above. Implement it."@),
        }),
        is_blank(args) ==> mode_command("fix"@, args, AgentKind::Review) == (ModeView::Switch {
            target: AgentKind::Main,
            step_with: Some("Address all review items."@),
        }),
        !is_blank(args) ==> mode_command("fix"@, args, AgentKind::Review) == (ModeView::Switch {
            target: AgentKind::Main,
            step_with: Some("Address these review items: "@ + args),
        }),
{
    lemma_mode_names();
}

/// A mode command where it cannot be used is refused: it neither switches nor passes for
/// another command. Nothing but the mode commands is taken for one.
pub proof fn misplaced_mode_commands_are_refused(
    name: Seq<char>,
    args: Seq<char>,
    current: AgentKind,
)
    ensures
        (mode_command(name, args, current) is NotModeCommand) == (name != "plan"@ && name
            != "review"@ && name != "approve"@ && name != "fix"@ && name != "back"@),
        current != AgentKind::Main && (name == "plan"@ || name == "review"@) ==> mode_command(
            name,
            args,
            current,
        ) is Invalid,
        current == AgentKind::Main && name == "back"@ ==> mode_command(
            name,
            args,
            current,
        ) is Invalid,
{
    lemma_mode_names();
}

/// The tools that an agent is given: the main agent can write, edit and run, every agent can read
/// and search, and no other agent can change a file.
pub proof fn given_tools_fit_the_agent(kind: AgentKind, backend: bool, r: Vec<ToolKind>)
    requires
        call_ensures(agent_tools, (kind, backend), r),
    ensures
        kind == AgentKind::Main ==> {
            &&& r@.contains(ToolKind::WriteFile) && r@.contains(ToolKind::EditFile)
            &&& r@.contains(ToolKind::Bash) && r@.contains(ToolKind::Patch)
            &&& r@.contains(ToolKind::MoveFile) && r@.contains(ToolKind::CreateDirectory)
        },
        kind != AgentKind::Main ==> forall|i: int|
            0 <= i < r@.len() ==> !(#[trigger] r@[i]).changes_files(),
        kind != AgentKind::Main ==> r@.contains(ToolKind::ReadFile) && r@.contains(ToolKind::Grep)
            && r@.contains(ToolKind::Glob),
        r@.contains(ToolKind::WebSearch) == backend,
{
    the_main_agent_can_do_everything(kind, backend, ToolKind::WebSearch);
    lemma_tools_of_main(backend, ToolKind::WebSearch);
    lemma_tools_of_lookers(kind, backend, ToolKind::WebSearch);
    if kind != AgentKind::Main {
        every_agent_can_look(kind, backend, ToolKind::ReadFile);
        only_main_changes_files(kind, backend);
    }
}

/// With memory on every agent recalls memories; only the main agent distills them, where there is
/// a distiller. With memory off nothing of it is there.
pub proof fn memory_is_shared_out(kind: AgentKind, wired: bool, distiller: bool, r: MemoryPolicy)
    requires
        call_ensures(memory_policy, (kind, wired, distiller), r),
    ensures
        r.recall == wired,
        wired && distiller && kind == AgentKind::Main ==> r.distill,
        r.distill ==> wired && distiller && kind == AgentKind::Main,
        !wired ==> r.tools@.len() == 0,
        wired && kind == AgentKind::Main ==> r.tools@.contains(ToolKind::MemorySave)
            && r.tools@.contains(ToolKind::MemorySearch) && r.tools@.contains(
            ToolKind::MemoryUpdate,
        ) && r.tools@.contains(ToolKind::MemoryDelete),
        wired && kind == AgentKind::Plan ==> r.tools@.contains(ToolKind::MemorySearch),
{
    memory_tools_follow_the_agent(kind, ToolKind::MemorySave);
}

/// A handoff names the agent that it leads to, and what is told to that agent is the text of the
/// call, whole, where there is any.
pub proof fn handoffs_tell_what_they_are_told(
    h: Handoff,
    args: ArgValue,
    text: Seq<char>,
    r: (&'static str, Option<String>),
)
    requires
        call_ensures(Handoff::invoke, (&h, &args), r),
    ensures
        agent_named(r.0@) == Some(h.destination()),
        text_field(args, h.field_name()) == Some(text) && text.len() > 0 ==> opt_text(r.1) == Some(
            text,
        ),
        text_field(args, h.field_name()) is None ==> r.1 is None,
{
    agents_are_found_by_name(h.destination(), h.destination().name());
}

/// Each handoff has a tool and an agent of its own, and says what it hands over, but for a review,
/// which can do without.
pub proof fn handoffs_are_told_apart(
    a: Handoff,
    b: Handoff,
    name_a: &'static str,
    name_b: &'static str,
    required: bool,
)
    requires
        call_ensures(Handoff::tool_name, (&a,), name_a),
        call_ensures(Handoff::tool_name, (&b,), name_b),
        call_ensures(Handoff::field_is_required, (&a,), required),
    ensures
        name_a@ == name_b@ ==> a == b,
        a.destination() == b.destination() ==> a == b,
        required == (a.destination() != AgentKind::Review),
        a.field_name() == b.field_name() ==> a == b,
{
    reveal_strlit("transfer_to_plan");
    reveal_strlit("transfer_to_review");
    reveal_strlit("transfer_to_main");
    reveal_strlit("task");
    reveal_strlit("focus");
    reveal_strlit("content");
    assert("transfer_to_plan"@.len() == 16 && "transfer_to_review"@.len() == 18
        && "transfer_to_main"@.len() == 16);
    assert("transfer_to_plan"@[12] == 'p' && "transfer_to_main"@[12] == 'm');
    assert("task"@.len() == 4 && "focus"@.len() == 5 && "content"@.len() == 7);
}

/// The tools that only look change nothing, and each of them is the main agent's as well.
pub proof fn looking_tools_only_look(r: Vec<ToolKind>, i: int, backend: bool)
    requires
        call_ensures(read_only_tools, (), r),
        0 <= i < r@.len(),
    ensures
        !r@[i].changes_files(),
        tools_of(AgentKind::Main, backend).contains(r@[i]),
        r@.contains(ToolKind::ReadFile) && r@.contains(ToolKind::Grep) && r@.contains(
            ToolKind::Glob,
        ),
{
    lemma_tools_of_main(backend, r@[i]);
    assert(r@[0] == ToolKind::ReadFile && r@[1] == ToolKind::Glob && r@[2] == ToolKind::Grep);
}

} // verus!
