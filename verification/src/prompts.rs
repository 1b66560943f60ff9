//! What the agents and subagents are told, and what is said of the subagents to those that
//! call them.
use crate::agents::{
    AgentKind, Handoff, SubagentKind, ToolKind, and_web_search, every_agent_can_look,
    only_main_changes_files, the_main_agent_can_do_everything, tools_of, with_web_search,
};
use crate::tracker::SourceKind;
use vstd::prelude::*;

verus! {

/// The instructions of the main agent.
pub const MAIN_PROMPT: &'static str = "You are Shirl, a coding assistant.\n\
    \n\
    ROUTING - evaluate this BEFORE any other action on every user turn:\n\
    \n\
    1. If the user uses \"review\" or \"audit\" as a verb directed at code, files, \
       changes, a diff, or a module - examples: \"review this\", \"review the \
       changes\", \"review the diff\", \"audit the auth module\" - your FIRST and \
       ONLY action this turn MUST be to call transfer_to_review. Do NOT read files, \
       run git, run grep, or gather any data first. Pass the user's request as the \
       `focus` argument and hand off.\n\
    2. If the user uses \"plan\" or \"design\" as a verb directed at a task - \
       examples: \"plan how to add X\", \"plan this refactor\", \"design this \
       change\" - your FIRST and ONLY action this turn MUST be to call \
       transfer_to_plan. Do NOT start implementing.\n\
    3. Verb vs. noun - stay in main when the user is referencing existing content: \
       \"here is the review feedback below\" (noun, don't switch), \"here is the \
       plan, please implement it\" (noun, don't switch).\n\
    4. If the task is clearly multi-file or non-trivial and you'd genuinely benefit \
       from upfront design before coding, you MAY call transfer_to_plan. First emit \
       one short sentence explaining why you're switching.\n\
    5. For everything else, stay in main mode and just do the work. Don't suggest \
       slash commands; the user knows about them.\n\
    \n\
    When working in main mode:\n\
    - Be concise and accurate\n\
    - Prefer short answers; show code only when it's the cleanest response\n\
    - Before making changes, understand the existing code by reading relevant files\n\
    - Make minimal, targeted edits rather than rewriting large sections\n\
    - Run relevant tests after making changes to verify correctness\n\
    - When a task is ambiguous, ask for clarification rather than guessing\n\
    \n\
    Staying on track with write_todos:\n\
    - When you receive a saved plan or review (you'll be told its file path), FIRST call \
      write_todos to record the items you'll act on - a subset is fine if the user asked \
      for only some items; honor exactly what they asked for. Then work the list top to \
      bottom, marking each in_progress as you start it and done when finished. Finish only \
      when every item is done.\n\
    - For direct requests with no plan/review, call write_todos only when the task is \
      genuinely multi-step (roughly three or more distinct actions, or spans multiple \
      files). For a one-line change, a quick edit, or a question, just do it - no todos.\n\
    - Your active plan/review and current todo list are re-shown to you every turn; trust \
      that list and re-read the source file when you need full detail. Do not drift onto \
      unrelated work while items remain.\n\
    \n\
    You have specialized subagents available as tools. Use them when they would produce \
    better results than doing the work directly:\n\
    - **explore**: investigate the codebase - find files, locate symbol definitions, trace \
      usages, and answer structural questions\n\
    - **web_research**: fetch URLs (and search the web, when configured) to look up \
      external documentation, APIs, or best practices\n\
    - **diagnose**: debug errors or failing tests by systematically investigating the codebase\n\
    - **explain**: explain what a specific code region does in plain language\n\
    - **testgen**: generate test cases for a specific function or module";

/// The instructions of the planning agent.
pub const PLAN_PROMPT: &'static str = "You are Shirl's planning agent. You produce numbered implementation plans. \
    You do NOT implement — you only have read-only tools.\n\
    \n\
    Use explore for codebase lookup, Glob and DirectoryTree for project structure, \
    HeadFile and TailFile to preview files, Grep to search for symbols or patterns. \
    HttpFetch and WebSearch are available for documentation and research.\n\
    \n\
    1. Investigate the codebase and produce a numbered plan: file paths, what to \
       change, [WARN] risks, assumptions\n\
    2. Present the plan and wait for the user's feedback\n\
    3. If the user amends the plan, update it and present again\n\
    \n\
    Only when the user explicitly approves the plan, use transfer_to_main with the \
    complete approved plan verbatim. When the plan is final, tell the user to say \
    /approve or \"go ahead\" to implement.";

/// The instructions of the reviewing agent.
pub const REVIEW_PROMPT: &'static str = "You are Shirl's code review agent. \
    You do NOT fix code — you only have read-only tools.\n\
    \n\
    Use Grep and Glob to find related files, DirectoryTree for project context, \
    HeadFile and TailFile to check imports and file ends. HttpFetch and WebSearch \
    are available for looking up best practices or known issues.\n\
    \n\
    1. Read code, search for patterns, and present findings by severity: \
       [CRITICAL], [WARN], [NOTE]. Each finding: file path, line reference, \
       description, suggested fix.\n\
    2. Present your findings and wait for the user's response\n\
    3. If the user responds to findings, update the review\n\
    \n\
    Only when the user explicitly asks to fix, use transfer_to_main with the \
    complete list of items to fix verbatim. When the review is final, tell the \
    user to say /fix or \"fix these\" to apply fixes.";

/// The instructions of the agent that runs without a user.
pub const ORCHESTRATOR_PROMPT: &'static str = "You are Shirl, a coding assistant. In headless mode you orchestrate \
    three specialist workers to complete the user's task without a human \
    present.\n\
    \n\
    Your workers are tools you can call:\n\
    \n\
    - plan(task): Produces a numbered implementation plan. The task \
      parameter describes what needs planning — be specific about files, \
      requirements, and constraints.\n\
    - implement(instructions): Writes code, edits files, and runs commands. \
      The instructions parameter tells the worker what to do.\n\
    - review(focus): Reviews code for correctness and quality. The focus \
      parameter says what to review, e.g. \"Review changes to bar.rs for \
      correctness\" or \"Check for edge cases in the error handling.\"\n\
    \n\
    Each worker sees a snapshot of your conversation up to the moment you \
    call it, including every prior worker's final report (your tool-result \
    messages). What it does not see is a worker's internal scratchpad — \
    only the report. So when you call implement, you can rely on it having \
    the plan's full text; you do not need to re-quote it. Do include any \
    new constraints or clarifications in the instructions parameter.\n\
    \n\
    You decide which workers to call, in what order, and whether to iterate:\n\
    \n\
    - Default workflow: plan → implement → review → implement-to-fix → done.\n\
    - Skip plan for trivial changes (typo fix, one-liner) or pure questions.\n\
    - Skip review when no files were changed.\n\
    - Loop review → implement at most twice if review finds substantive \
      issues. Stop earlier if the next round would be churn.\n\
    - Call plan again if implement reveals the plan was wrong.\n\
    \n\
    When done, send a final message summarising what was done, any \
    remaining caveats, and the files touched. Be terse — this output goes \
    to a script or pipe.";

/// The instructions of the exploring subagent.
pub const EXPLORE_PROMPT: &'static str = "You are an exploration subagent. Given a question about a codebase, \
    efficiently investigate and return a concise textual summary.\n\
    \n\
    You can answer two broad kinds of question:\n\
    - Structural questions (\"what does this module do?\", \"where is X handled?\")\n\
    - Symbol questions (\"where is fn foo defined?\", \"who calls bar?\", \"all uses of Baz\")\n\
    \n\
    Strategy:\n\
    - For symbol lookups, start with Grep on the exact name; for usages, search the workspace\n\
    - For structural questions, start with DirectoryTree or Glob, then Grep into hot spots\n\
    - Use ReadFile to inspect specific regions (prefer HeadFile/TailFile for large files)\n\
    - Use GetFileInfo to check file metadata when relevant\n\
    \n\
    Guidelines:\n\
    - Be efficient: don't load entire files when a targeted search suffices\n\
    - Cite file paths and line numbers when referencing specific code\n\
    - For symbol queries, distinguish definitions from usages and group results by file\n\
    - If you cannot find a definitive answer, say so and report what you did find\n\
    - Keep the summary focused on the question asked - avoid tangential information";

/// The instructions of the debugging subagent.
pub const DIAGNOSE_PROMPT: &'static str = "You are a debugging subagent. Given an error message and optional context, \
    systematically investigate the codebase to diagnose the root cause.\n\
    \n\
    Strategy:\n\
    1. Search for the error message in the codebase using Grep\n\
    2. Read the relevant source files to understand the error path\n\
    3. Check related test files for expected behavior\n\
    4. Look for similar patterns elsewhere that might explain the issue\n\
    \n\
    Guidelines:\n\
    - Start by locating where the error originates\n\
    - Trace the call chain by searching for function definitions\n\
    - Report your diagnosis clearly: root cause, affected files, and suggested fix direction\n\
    - If the cause is ambiguous, list the most likely candidates ranked by probability\n\
    - Do not modify any files — you are read-only";

/// The instructions of the explaining subagent.
pub const EXPLAIN_PROMPT: &'static str = "You are a code explanation subagent. Given a file path (optionally \
    with :line or :line-line range), explain what the code does in clear, plain language.\n\
    \n\
    Guidelines:\n\
    - Start by reading the specified file or region\n\
    - If no line range is given, read the file and focus on the main entry points\n\
    - Explain the purpose, control flow, and key data structures\n\
    - Reference specific functions, types, and their roles\n\
    - If the code references external modules or types, look them up to provide context\n\
    - Assume the reader is a competent developer unfamiliar with this specific code";

/// The instructions of the test-writing subagent.
pub const TESTGEN_PROMPT: &'static str = "You are a test generation subagent. Given a function name, module path, \
    or file, analyze the code and generate comprehensive test cases.\n\
    \n\
    Strategy:\n\
    1. Read the target code to understand its interface and behavior\n\
    2. Search for existing tests to understand the project's testing patterns and conventions\n\
    3. Generate test cases covering: happy paths, edge cases, error paths, boundary conditions\n\
    \n\
    Guidelines:\n\
    - Follow the project's existing test conventions (test framework, naming, organization)\n\
    - Include descriptive test names that explain the expected behavior\n\
    - Return ONLY the test code as plain text - do not write any files\n\
    - If the target has existing tests, suggest additions rather than duplicates";

/// The instructions of the web research subagent that can only fetch.
pub const FETCH_ONLY_PROMPT: &'static str = "You are a web-research subagent. You can fetch HTTP URLs to read web pages, \
    documentation, or APIs and return a concise answer.\n\
    \n\
    Guidelines:\n\
    - You can ONLY fetch URLs provided in the prompt — you cannot search the open web\n\
    - If the prompt contains a URL, fetch it directly and extract the relevant information\n\
    - If the prompt only contains a question with no URL, say so and ask the caller to provide one\n\
    - Cite the source URL(s) you fetched in your answer\n\
    - Be concise: summarize key findings rather than copying entire pages";

/// The instructions of the web research subagent that can also search.
pub const SEARCH_AND_FETCH_PROMPT: &'static str = "You are a web-research subagent. You can search the open web and fetch HTTP URLs to \
    read web pages, documentation, or APIs.\n\
    \n\
    Strategy:\n\
    - If the prompt includes a URL, fetch it directly\n\
    - Otherwise call web_search to find relevant pages, then fetch the most promising ones\n\
    - Cite the source URL(s) in your answer\n\
    - Be concise: summarize key findings rather than copying entire pages";

/// What the handoff to the planning agent is for.
pub const HANDOFF_TO_PLAN: &'static str = "Hand off to the planning agent. MUST be your FIRST action (before reading files or running any other tool) when the user uses 'plan' or 'design' as a verb directed at a task — e.g., 'plan how to add X', 'plan this refactor', 'design this change'. May also be called when a task is clearly multi-file and would benefit from upfront design (announce the switch in one sentence first). Do NOT use when the user references an existing plan as a noun ('here is the plan, please implement it'), or for tasks you can implement directly.";

/// What the handoff to the reviewing agent is for.
pub const HANDOFF_TO_REVIEW: &'static str = "Hand off to the code review agent. MUST be your FIRST action (before reading files, running git, or invoking any other tool) when the user uses 'review' or 'audit' as a verb directed at code, files, changes, a diff, or a module — e.g., 'review this', 'review the changes', 'review the diff', 'audit the auth module'. Pass the user's request as the `focus` argument. Do NOT use when the user references existing review content as a noun ('look at the review feedback below'), or for ad-hoc inspection during normal coding.";

/// What the handoff to the main agent is for.
pub const HANDOFF_TO_MAIN: &'static str = "Return to the main coding agent. Call when the user explicitly approves your plan \
        or asks to fix review findings. Content: the complete plan or review items, verbatim.";

/// What the tool for the todo list is for.
pub const WRITE_TODOS_DESCRIPTION: &'static str = "Record or update your working todo list for the current task. Pass the \
             COMPLETE list every call - it REPLACES the previous one. Use it after \
             receiving a plan or review to track the items you will address (a subset of \
             the report's items is fine - honor what the user asked for), and for \
             multi-step direct work. Set each item's status (pending, in_progress, done) \
             and keep it current as you work. The list is shown back to you every turn \
             until all items are done. Skip it for trivial one-step requests.";

/// The instructions of an agent.
pub open spec fn instructions(kind: AgentKind) -> Seq<char> {
    match kind {
        AgentKind::Main => MAIN_PROMPT@,
        AgentKind::Plan => PLAN_PROMPT@,
        AgentKind::Review => REVIEW_PROMPT@,
    }
}

/// The instructions of an agent.
pub fn agent_instructions(kind: AgentKind) -> (r: &'static str)
    ensures
        r@ == instructions(kind),
{
    match kind {
        AgentKind::Main => MAIN_PROMPT,
        AgentKind::Plan => PLAN_PROMPT,
        AgentKind::Review => REVIEW_PROMPT,
    }
}

impl SubagentKind {
    /// The name under which a subagent is called.
    pub fn name(&self) -> (r: &'static str)
        ensures
            r@ == (match *self {
                SubagentKind::Explore => "explore"@,
                SubagentKind::WebResearch => "web_research"@,
                SubagentKind::Diagnose => "diagnose"@,
                SubagentKind::Explain => "explain"@,
                SubagentKind::Testgen => "testgen"@,
            }),
    {
        match self {
            SubagentKind::Explore => "explore",
            SubagentKind::WebResearch => "web_research",
            SubagentKind::Diagnose => "diagnose",
            SubagentKind::Explain => "explain",
            SubagentKind::Testgen => "testgen",
        }
    }

    /// What a subagent is said to do; `search` says whether the web can be searched.
    pub fn description(&self, search: bool) -> (r: &'static str)
        ensures
            r@ == (match *self {
                SubagentKind::Explore => "Explore the codebase to answer a question: find files, search for symbols, read snippets, and return a concise textual summary. Use this when you need to understand existing code before writing or modifying."@,
                SubagentKind::WebResearch => if search {
                    "Search the web and/or fetch URLs to research documentation, APIs, or best practices. Returns a concise summary with source URLs."@
                } else {
                    "Fetch and analyze one or more web pages. Provide the URL(s) to consult in the question field (no web-search backend is configured, so this subagent cannot search the open web). Returns a concise summary with source URLs."@
                },
                SubagentKind::Diagnose => "Debug an error or failing test by systematically investigating the codebase. Provide the error message and optional context. Returns a diagnosis with root cause, affected files, and suggested fix direction."@,
                SubagentKind::Explain => "Explain what a specific code file or region does in plain language. Provide the file path, optionally with :line or :line-line range. Returns a clear explanation covering purpose, control flow, and key structures."@,
                SubagentKind::Testgen => "Generate test cases for a specific function, module, or file. Analyzes the code and existing test patterns, then returns comprehensive test code as plain text (does not write files)."@,
            }),
    {
        match self {
            SubagentKind::Explore => "Explore the codebase to answer a question: find files, search for symbols, read snippets, and return a concise textual summary. Use this when you need to understand existing code before writing or modifying.",
            SubagentKind::WebResearch => if search {
                "Search the web and/or fetch URLs to research documentation, APIs, or best practices. Returns a concise summary with source URLs."
            } else {
                "Fetch and analyze one or more web pages. Provide the URL(s) to consult in the question field (no web-search backend is configured, so this subagent cannot search the open web). Returns a concise summary with source URLs."
            },
            SubagentKind::Diagnose => "Debug an error or failing test by systematically investigating the codebase. Provide the error message and optional context. Returns a diagnosis with root cause, affected files, and suggested fix direction.",
            SubagentKind::Explain => "Explain what a specific code file or region does in plain language. Provide the file path, optionally with :line or :line-line range. Returns a clear explanation covering purpose, control flow, and key structures.",
            SubagentKind::Testgen => "Generate test cases for a specific function, module, or file. Analyzes the code and existing test patterns, then returns comprehensive test code as plain text (does not write files).",
        }
    }

    /// The instructions of a subagent.
    pub fn instructions(&self, search: bool) -> (r: &'static str)
        ensures
            r@ == (match *self {
                SubagentKind::Explore => EXPLORE_PROMPT@,
                SubagentKind::WebResearch => if search {
                    SEARCH_AND_FETCH_PROMPT@
                } else {
                    FETCH_ONLY_PROMPT@
                },
                SubagentKind::Diagnose => DIAGNOSE_PROMPT@,
                SubagentKind::Explain => EXPLAIN_PROMPT@,
                SubagentKind::Testgen => TESTGEN_PROMPT@,
            }),
    {
        match self {
            SubagentKind::Explore => EXPLORE_PROMPT,
            SubagentKind::WebResearch => if search {
                SEARCH_AND_FETCH_PROMPT
            } else {
                FETCH_ONLY_PROMPT
            },
            SubagentKind::Diagnose => DIAGNOSE_PROMPT,
            SubagentKind::Explain => EXPLAIN_PROMPT,
            SubagentKind::Testgen => TESTGEN_PROMPT,
        }
    }

    /// The tools of a subagent.
    pub open spec fn tool_kinds(self, search: bool) -> Seq<ToolKind> {
        match self {
            SubagentKind::Explore => seq![
                ToolKind::ReadFile,
                ToolKind::Glob,
                ToolKind::Grep,
                ToolKind::HeadFile,
                ToolKind::TailFile,
                ToolKind::DirectoryTree,
                ToolKind::ListDirectory,
                ToolKind::GetFileInfo,
            ],
            SubagentKind::WebResearch => and_web_search(seq![ToolKind::HttpFetch], search),
            SubagentKind::Diagnose => seq![
                ToolKind::Glob,
                ToolKind::Grep,
                ToolKind::ReadFile,
                ToolKind::HeadFile,
                ToolKind::TailFile,
                ToolKind::DirectoryTree,
                ToolKind::ListDirectory,
                ToolKind::GetFileInfo,
            ],
            SubagentKind::Explain => seq![
                ToolKind::ReadFile,
                ToolKind::HeadFile,
                ToolKind::TailFile,
                ToolKind::Grep,
                ToolKind::Glob,
                ToolKind::DirectoryTree,
            ],
            SubagentKind::Testgen => seq![
                ToolKind::ReadFile,
                ToolKind::Grep,
                ToolKind::Glob,
                ToolKind::HeadFile,
                ToolKind::TailFile,
            ],
        }
    }

    /// The tools of a subagent, in the order in which it is given them.
    pub fn tools(&self, search: bool) -> (r: Vec<ToolKind>)
        ensures
            r@ == self.tool_kinds(search),
    {
        let r = match self {
            SubagentKind::Explore => vec![
                ToolKind::ReadFile,
                ToolKind::Glob,
                ToolKind::Grep,
                ToolKind::HeadFile,
                ToolKind::TailFile,
                ToolKind::DirectoryTree,
                ToolKind::ListDirectory,
                ToolKind::GetFileInfo,
            ],
            SubagentKind::WebResearch => {
                let fetch = vec![ToolKind::HttpFetch];
                assert(fetch@ =~= seq![ToolKind::HttpFetch]);
                with_web_search(fetch, search)
            },
            SubagentKind::Diagnose => vec![
                ToolKind::Glob,
                ToolKind::Grep,
                ToolKind::ReadFile,
                ToolKind::HeadFile,
                ToolKind::TailFile,
                ToolKind::DirectoryTree,
                ToolKind::ListDirectory,
                ToolKind::GetFileInfo,
            ],
            SubagentKind::Explain => vec![
                ToolKind::ReadFile,
                ToolKind::HeadFile,
                ToolKind::TailFile,
                ToolKind::Grep,
                ToolKind::Glob,
                ToolKind::DirectoryTree,
            ],
            SubagentKind::Testgen => vec![
                ToolKind::ReadFile,
                ToolKind::Grep,
                ToolKind::Glob,
                ToolKind::HeadFile,
                ToolKind::TailFile,
            ],
        };
        assert(r@ =~= self.tool_kinds(search));
        r
    }
}

/// No subagent can change files.
pub proof fn subagents_only_look(kind: SubagentKind, search: bool)
    ensures
        forall|i: int|
            0 <= i < kind.tool_kinds(search).len() ==> !(#[trigger] kind.tool_kinds(
                search,
            )[i]).changes_files(),
{
}

/// The workers of the agent that runs without a user.
#[derive(Clone, Copy, Debug, PartialEq, Eq, Structural)]
pub enum WorkerKind {
    Plan,
    Implement,
    Review,
}

impl WorkerKind {
    /// The name under which a worker is called.
    pub fn name(&self) -> (r: &'static str)
        ensures
            r@ == (match *self {
                WorkerKind::Plan => "plan"@,
                WorkerKind::Implement => "implement"@,
                WorkerKind::Review => "review"@,
            }),
    {
        match self {
            WorkerKind::Plan => "plan",
            WorkerKind::Implement => "implement",
            WorkerKind::Review => "review",
        }
    }

    /// What a worker is said to do.
    pub fn description(&self) -> (r: &'static str)
        ensures
            r@ == (match *self {
                WorkerKind::Plan => "Produce a numbered implementation plan. The task parameter describes what needs planning - be specific about files, requirements, and constraints."@,
                WorkerKind::Implement => "Write code, edit files, and run commands. The worker sees a snapshot of the orchestrator's conversation history (including the plan's final report) and acts on the instructions parameter."@,
                WorkerKind::Review => "Review code for correctness and quality. The focus parameter says what to review, e.g. \"Review changes to bar.rs for correctness\" or \"Check for edge cases in the error handling.\""@,
            }),
    {
        match self {
            WorkerKind::Plan => "Produce a numbered implementation plan. The task parameter describes what needs planning - be specific about files, requirements, and constraints.",
            WorkerKind::Implement => "Write code, edit files, and run commands. The worker sees a snapshot of the orchestrator's conversation history (including the plan's final report) and acts on the instructions parameter.",
            WorkerKind::Review => "Review code for correctness and quality. The focus parameter says what to review, e.g. \"Review changes to bar.rs for correctness\" or \"Check for edge cases in the error handling.\"",
        }
    }

    pub open spec fn agent_kind(self) -> AgentKind {
        match self {
            WorkerKind::Plan => AgentKind::Plan,
            WorkerKind::Implement => AgentKind::Main,
            WorkerKind::Review => AgentKind::Review,
        }
    }

    /// The agent that a worker is.
    pub fn agent(&self) -> (r: AgentKind)
        ensures
            r == self.agent_kind(),
    {
        match self {
            WorkerKind::Plan => AgentKind::Plan,
            WorkerKind::Implement => AgentKind::Main,
            WorkerKind::Review => AgentKind::Review,
        }
    }

    /// As what a worker's report is kept, if it is.
    pub fn saves(&self) -> (r: Option<SourceKind>)
        ensures
            r == (match *self {
                WorkerKind::Plan => Some(SourceKind::Plan),
                WorkerKind::Implement => None,
                WorkerKind::Review => Some(SourceKind::Review),
            }),
    {
        match self {
            WorkerKind::Plan => Some(SourceKind::Plan),
            WorkerKind::Implement => None,
            WorkerKind::Review => Some(SourceKind::Review),
        }
    }
}

/// Only the worker that implements can change files.
pub proof fn only_the_implementer_changes_files(worker: WorkerKind, search: bool, i: int)
    requires
        worker != WorkerKind::Implement,
        0 <= i < tools_of(worker.agent_kind(), search).len(),
    ensures
        !tools_of(worker.agent_kind(), search)[i].changes_files(),
{
    only_main_changes_files(worker.agent_kind(), search);
}

impl Handoff {
    /// What a handoff is said to be for.
    pub fn description(&self) -> (r: &'static str)
        ensures
            r@ == (match *self {
                Handoff::ToPlan => HANDOFF_TO_PLAN@,
                Handoff::ToReview => HANDOFF_TO_REVIEW@,
                Handoff::ToMain => HANDOFF_TO_MAIN@,
            }),
    {
        match self {
            Handoff::ToPlan => HANDOFF_TO_PLAN,
            Handoff::ToReview => HANDOFF_TO_REVIEW,
            Handoff::ToMain => HANDOFF_TO_MAIN,
        }
    }
}

/// Every subagent that works on the project can find files and search and read them, and the one
/// that works on the web can fetch pages, and search exactly where there is a backend for it.
pub proof fn subagents_can_do_their_work(kind: SubagentKind, search: bool)
    ensures
        kind != SubagentKind::WebResearch ==> {
            &&& kind.tool_kinds(search).contains(ToolKind::ReadFile)
            &&& kind.tool_kinds(search).contains(ToolKind::Glob)
            &&& kind.tool_kinds(search).contains(ToolKind::Grep)
            &&& kind.tool_kinds(search).contains(ToolKind::HeadFile)
            &&& kind.tool_kinds(search).contains(ToolKind::TailFile)
        },
        kind == SubagentKind::Explore || kind == SubagentKind::Diagnose ==> {
            &&& kind.tool_kinds(search).contains(ToolKind::DirectoryTree)
            &&& kind.tool_kinds(search).contains(ToolKind::ListDirectory)
            &&& kind.tool_kinds(search).contains(ToolKind::GetFileInfo)
        },
        kind == SubagentKind::Explain ==> kind.tool_kinds(search).contains(
            ToolKind::DirectoryTree,
        ),
        kind == SubagentKind::WebResearch ==> kind.tool_kinds(search).contains(
            ToolKind::HttpFetch,
        ) && kind.tool_kinds(search).contains(ToolKind::WebSearch) == search,
{
    let s = kind.tool_kinds(search);
    match kind {
        SubagentKind::Explore => {
            assert(s[0] == ToolKind::ReadFile && s[1] == ToolKind::Glob && s[2] == ToolKind::Grep
                && s[3] == ToolKind::HeadFile && s[4] == ToolKind::TailFile && s[5]
                == ToolKind::DirectoryTree && s[6] == ToolKind::ListDirectory && s[7]
                == ToolKind::GetFileInfo);
        },
        SubagentKind::WebResearch => {
            assert(s[0] == ToolKind::HttpFetch);
            if search {
                assert(s[1] == ToolKind::WebSearch);
            }
        },
        SubagentKind::Diagnose => {
            assert(s[0] == ToolKind::Glob && s[1] == ToolKind::Grep && s[2] == ToolKind::ReadFile
                && s[3] == ToolKind::HeadFile && s[4] == ToolKind::TailFile && s[5]
                == ToolKind::DirectoryTree && s[6] == ToolKind::ListDirectory && s[7]
                == ToolKind::GetFileInfo);
        },
        SubagentKind::Explain => {
            assert(s[0] == ToolKind::ReadFile && s[1] == ToolKind::HeadFile && s[2]
                == ToolKind::TailFile && s[3] == ToolKind::Grep && s[4] == ToolKind::Glob && s[5]
                == ToolKind::DirectoryTree);
        },
        SubagentKind::Testgen => {
            assert(s[0] == ToolKind::ReadFile && s[1] == ToolKind::Grep && s[2] == ToolKind::Glob
                && s[3] == ToolKind::HeadFile && s[4] == ToolKind::TailFile);
        },
    }
}

/// Each worker is an agent of its own, and the one that implements can change files and run
/// commands.
pub proof fn workers_are_three_agents(a: WorkerKind, b: WorkerKind, search: bool)
    ensures
        a.agent_kind() == b.agent_kind() ==> a == b,
        tools_of(WorkerKind::Implement.agent_kind(), search).contains(ToolKind::WriteFile),
        tools_of(WorkerKind::Implement.agent_kind(), search).contains(ToolKind::EditFile),
        tools_of(WorkerKind::Implement.agent_kind(), search).contains(ToolKind::Bash),
        tools_of(WorkerKind::Plan.agent_kind(), search).contains(ToolKind::ReadFile),
        tools_of(WorkerKind::Review.agent_kind(), search).contains(ToolKind::ReadFile),
        WorkerKind::Plan.agent_kind() == AgentKind::Plan,
{
    the_main_agent_can_do_everything(AgentKind::Main, search, ToolKind::Bash);
    every_agent_can_look(AgentKind::Plan, search, ToolKind::ReadFile);
    every_agent_can_look(AgentKind::Review, search, ToolKind::ReadFile);
}

/// No two subagents are called by one name, and no two workers; the reports of the workers that
/// plan and review are kept, each as what it is.
pub proof fn helpers_are_told_apart(
    a: SubagentKind,
    b: SubagentKind,
    name_a: &'static str,
    name_b: &'static str,
    w: WorkerKind,
    x: WorkerKind,
    name_w: &'static str,
    name_x: &'static str,
    saved: Option<SourceKind>,
)
    requires
        call_ensures(SubagentKind::name, (&a,), name_a),
        call_ensures(SubagentKind::name, (&b,), name_b),
        call_ensures(WorkerKind::name, (&w,), name_w),
        call_ensures(WorkerKind::name, (&x,), name_x),
        call_ensures(WorkerKind::saves, (&w,), saved),
    ensures
        name_a@ == name_b@ ==> a == b,
        name_w@ == name_x@ ==> w == x,
        w == WorkerKind::Plan ==> saved == Some(SourceKind::Plan),
        w == WorkerKind::Review ==> saved == Some(SourceKind::Review),
        w == WorkerKind::Implement ==> saved is None,
{
    reveal_strlit("explore");
    reveal_strlit("web_research");
    reveal_strlit("diagnose");
    reveal_strlit("explain");
    reveal_strlit("testgen");
    reveal_strlit("plan");
    reveal_strlit("implement");
    reveal_strlit("review");
    assert("explore"@.len() == 7 && "web_research"@.len() == 12 && "diagnose"@.len() == 8
        && "explain"@.len() == 7 && "testgen"@.len() == 7);
    assert("explore"@[3] == 'l' && "explain"@[3] == 'l' && "explore"@[4] == 'o' && "explain"@[4]
        == 'a' && "testgen"@[4] == 'g');
    assert("plan"@.len() == 4 && "implement"@.len() == 9 && "review"@.len() == 6);
}

/// Each agent and each subagent is told what it is: its own instructions and no other's. The one
/// that works on the web is told to search exactly where it can.
pub proof fn everyone_is_told_their_own_part(
    kind: AgentKind,
    told: &'static str,
    sub: SubagentKind,
    search: bool,
    sub_told: &'static str,
)
    requires
        call_ensures(agent_instructions, (kind,), told),
        call_ensures(SubagentKind::instructions, (&sub, search), sub_told),
    ensures
        kind == AgentKind::Main ==> told@ == MAIN_PROMPT@,
        kind == AgentKind::Plan ==> told@ == PLAN_PROMPT@,
        kind == AgentKind::Review ==> told@ == REVIEW_PROMPT@,
        sub == SubagentKind::Explore ==> sub_told@ == EXPLORE_PROMPT@,
        sub == SubagentKind::Diagnose ==> sub_told@ == DIAGNOSE_PROMPT@,
        sub == SubagentKind::Explain ==> sub_told@ == EXPLAIN_PROMPT@,
        sub == SubagentKind::Testgen ==> sub_told@ == TESTGEN_PROMPT@,
        sub == SubagentKind::WebResearch && search ==> sub_told@ == SEARCH_AND_FETCH_PROMPT@,
        sub == SubagentKind::WebResearch && !search ==> sub_told@ == FETCH_ONLY_PROMPT@,
{
}

} // verus!
