//! The command line.
use crate::agents::{AgentKind, mode_command};
use crate::chat::command_route;
use crate::slash::BuiltIn;
use crate::text::{
    blank, chars_of, contains, copy, is_blank, lemma_contains, opt_text, same, stands_at,
    starts_with, strs, texts, trim, trimmed,
};
use vstd::prelude::*;

verus! {

/// What is done without asking the user.
#[derive(Clone, Copy, Debug, PartialEq, Eq, Structural)]
pub enum PermissionMode {
    Normal,
    AutoEdit,
    FullAuto,
}

/// How far tools are shut in.
#[derive(Clone, Copy, Debug, PartialEq, Eq, Structural)]
pub enum SandboxPolicy {
    Off,
    Sandbox,
    Restricted,
}

/// The names of slash commands that a custom command cannot have.
pub open spec fn reserved_names() -> Seq<Seq<char>> {
    seq![
        "new"@,
        "clear"@,
        "compact"@,
        "model"@,
        "provider"@,
        "reasoning"@,
        "capabilities"@,
        "memory"@,
        "help"@,
        "plan"@,
        "review"@,
        "approve"@,
        "fix"@,
        "back"@,
    ]
}

/// The names of slash commands that a custom command cannot have.
pub fn reserved_commands() -> (r: Vec<&'static str>)
    ensures
        strs(r@) == reserved_names(),
{
    let r: Vec<&'static str> = vec![
        "new",
        "clear",
        "compact",
        "model",
        "provider",
        "reasoning",
        "capabilities",
        "memory",
        "help",
        "plan",
        "review",
        "approve",
        "fix",
        "back",
    ];
    assert(strs(r@) =~= reserved_names());
    r
}

/// No custom command can take the place of a built-in one or of one that switches the mode.
pub proof fn built_ins_and_modes_are_reserved(
    b: BuiltIn,
    name: Seq<char>,
    args: Seq<char>,
    current: AgentKind,
)
    ensures
        reserved_names().contains(b.command_name()),
        !(mode_command(name, args, current) is NotModeCommand) ==> reserved_names().contains(name),
{
    let r = reserved_names();
    assert(r[0] == "new"@ && r[1] == "clear"@ && r[2] == "compact"@);
    assert(r[9] == "plan"@ && r[10] == "review"@ && r[11] == "approve"@ && r[12] == "fix"@ && r[13]
        == "back"@);
}

// ---------------------------------------------------------------------------
// Arguments
// ---------------------------------------------------------------------------
/// What the arguments say.
#[derive(Debug, PartialEq, Eq)]
pub struct ParsedArgs {
    pub headless: bool,
    pub prompt: Option<String>,
    pub json: bool,
    pub diff: bool,
    /// The id of a session to go on with.
    pub resume: Option<String>,
    pub continue_recent: bool,
    pub permission_mode: PermissionMode,
    pub sandbox_policy: SandboxPolicy,
}

/// What comes of the arguments.
#[derive(Debug, PartialEq, Eq)]
pub enum ArgvOutcome {
    Parsed(ParsedArgs),
    /// The help is asked for.
    Help,
    /// The version is asked for.
    Version,
    /// The arguments are wrong.
    Error(String),
}

pub struct ParsedView {
    pub headless: bool,
    pub prompt: Option<Seq<char>>,
    pub json: bool,
    pub diff: bool,
    pub resume: Option<Seq<char>>,
    pub continue_recent: bool,
    pub permission_mode: PermissionMode,
    pub sandbox_policy: SandboxPolicy,
}

pub enum ArgvView {
    Parsed(ParsedView),
    Help,
    Version,
    Error(Seq<char>),
}

impl View for ArgvOutcome {
    type V = ArgvView;

    open spec fn view(&self) -> ArgvView {
        match *self {
            ArgvOutcome::Parsed(p) => ArgvView::Parsed(
                ParsedView {
                    headless: p.headless,
                    prompt: opt_text(p.prompt),
                    json: p.json,
                    diff: p.diff,
                    resume: opt_text(p.resume),
                    continue_recent: p.continue_recent,
                    permission_mode: p.permission_mode,
                    sandbox_policy: p.sandbox_policy,
                },
            ),
            ArgvOutcome::Help => ArgvView::Help,
            ArgvOutcome::Version => ArgvView::Version,
            ArgvOutcome::Error(e) => ArgvView::Error(e@),
        }
    }
}

/// The flags seen so far.
pub struct Flags {
    pub headless: bool,
    pub prompt: Option<Seq<char>>,
    pub json: bool,
    pub diff: bool,
    pub resume: Option<Seq<char>>,
    pub continue_recent: bool,
    pub accept_edits: bool,
    pub auto: bool,
    pub sandbox: bool,
    pub restrict_network: bool,
}

pub open spec fn no_flags() -> Flags {
    Flags {
        headless: false,
        prompt: None,
        json: false,
        diff: false,
        resume: None,
        continue_recent: false,
        accept_edits: false,
        auto: false,
        sandbox: false,
        restrict_network: false,
    }
}

/// Whether the argument at `i` is there and is no flag.
pub open spec fn is_value(argv: Seq<Seq<char>>, i: int) -> bool {
    0 <= i < argv.len() && !(argv[i].len() > 0 && argv[i][0] == '-')
}

/// What one argument does: the flags after it, or after it and the argument behind it, or the
/// outcome that it settles.
pub enum ArgStep {
    One(Flags),
    Two(Flags),
    Stop(ArgvView),
}

/// What the argument at `i` does after the flags `f`. `valid` says of each argument whether it
/// is the id of a session.
pub open spec fn arg_step(argv: Seq<Seq<char>>, valid: Seq<bool>, i: int, f: Flags) -> ArgStep {
    let a = argv[i];
    if a == "-p"@ || a == "--print"@ {
        if is_value(argv, i + 1) {
            ArgStep::Two(Flags { headless: true, prompt: Some(argv[i + 1]), ..f })
        } else {
            ArgStep::One(Flags { headless: true, ..f })
        }
    } else if a == "--json"@ {
        ArgStep::One(Flags { json: true, ..f })
    } else if a == "--diff"@ {
        ArgStep::One(Flags { diff: true, ..f })
    } else if a == "--resume"@ {
        if i + 1 >= argv.len() {
            ArgStep::Stop(ArgvView::Error("missing session id after --resume"@))
        } else if !valid[i + 1] {
            ArgStep::Stop(ArgvView::Error("invalid session id `"@ + argv[i + 1] + "`"@))
        } else {
            ArgStep::Two(Flags { resume: Some(argv[i + 1]), ..f })
        }
    } else if a == "-c"@ || a == "--continue"@ {
        ArgStep::One(Flags { continue_recent: true, ..f })
    } else if a == "--accept-edits"@ {
        ArgStep::One(Flags { accept_edits: true, ..f })
    } else if a == "--auto"@ {
        ArgStep::One(Flags { auto: true, ..f })
    } else if a == "--sandbox"@ {
        ArgStep::One(Flags { sandbox: true, ..f })
    } else if a == "--restrict-network"@ {
        ArgStep::One(Flags { restrict_network: true, sandbox: true, ..f })
    } else if a == "-h"@ || a == "--help"@ {
        ArgStep::Stop(ArgvView::Help)
    } else if a == "-V"@ || a == "--version"@ {
        ArgStep::Stop(ArgvView::Version)
    } else {
        ArgStep::Stop(
            ArgvView::Error(
                "unrecognized argument `"@ + a + "`\nRun `shirl --help` for usage."@,
            ),
        )
    }
}

/// What the arguments from `i` on come to, after the flags `f`.
pub open spec fn argv_from(argv: Seq<Seq<char>>, valid: Seq<bool>, i: int, f: Flags) -> ArgvView
    decreases argv.len() + 2 - i,
{
    if i < 0 || i >= argv.len() {
        settle(f)
    } else {
        match arg_step(argv, valid, i, f) {
            ArgStep::One(g) => argv_from(argv, valid, i + 1, g),
            ArgStep::Two(g) => argv_from(argv, valid, i + 2, g),
            ArgStep::Stop(v) => v,
        }
    }
}

/// What flags come to: some need others, and some exclude each other.
pub open spec fn settle(f: Flags) -> ArgvView {
    if f.json && !f.headless {
        ArgvView::Error("--json requires -p"@)
    } else if f.diff && !f.headless {
        ArgvView::Error("--diff requires -p"@)
    } else if f.continue_recent && f.resume is Some {
        ArgvView::Error("cannot use both --continue and --resume"@)
    } else if f.auto && f.accept_edits {
        ArgvView::Error("cannot use both --auto and --accept-edits"@)
    } else {
        ArgvView::Parsed(
            ParsedView {
                headless: f.headless,
                prompt: f.prompt,
                json: f.json,
                diff: f.diff,
                resume: f.resume,
                continue_recent: f.continue_recent,
                permission_mode: if f.auto {
                    PermissionMode::FullAuto
                } else if f.accept_edits {
                    PermissionMode::AutoEdit
                } else if f.headless {
                    PermissionMode::FullAuto
                } else {
                    PermissionMode::Normal
                },
                sandbox_policy: if f.restrict_network {
                    SandboxPolicy::Restricted
                } else if f.sandbox {
                    SandboxPolicy::Sandbox
                } else {
                    SandboxPolicy::Off
                },
            },
        )
    }
}

/// The flags seen so far.
struct SeenFlags {
    headless: bool,
    prompt: Option<String>,
    json: bool,
    diff: bool,
    resume: Option<String>,
    continue_recent: bool,
    accept_edits: bool,
    auto: bool,
    sandbox: bool,
    restrict_network: bool,
}

impl View for SeenFlags {
    type V = Flags;

    closed spec fn view(&self) -> Flags {
        Flags {
            headless: self.headless,
            prompt: opt_text(self.prompt),
            json: self.json,
            diff: self.diff,
            resume: opt_text(self.resume),
            continue_recent: self.continue_recent,
            accept_edits: self.accept_edits,
            auto: self.auto,
            sandbox: self.sandbox,
            restrict_network: self.restrict_network,
        }
    }
}

impl SeenFlags {
    /// Takes in the argument at `i`: says how many arguments were taken, or what came of it.
    fn take(&mut self, argv: &Vec<String>, valid: &Vec<bool>, i: usize) -> (r: Result<
        usize,
        ArgvOutcome,
    >)
        requires
            i < argv.len(),
            valid@.len() == argv@.len(),
        ensures
            match arg_step(texts(argv@), valid@, i as int, old(self)@) {
                ArgStep::One(g) => r == Ok::<usize, ArgvOutcome>(1) && final(self)@ == g,
                ArgStep::Two(g) => r == Ok::<usize, ArgvOutcome>(2) && final(self)@ == g && i + 1
                    < argv@.len(),
                ArgStep::Stop(v) => r matches Err(e) && e@ == v,
            },
    {
        let ghost args = texts(argv@);
        let a = argv[i].as_str();
        assert(args[i as int] == a@);
        assert(i + 1 < argv@.len() ==> args[i + 1] == argv@[i + 1]@);
        if same(a, "-p") || same(a, "--print") {
            self.headless = true;
            if i + 1 < argv.len() {
                let next = chars_of(argv[i + 1].as_str());
                if !(next.len() > 0 && next[0] == '-') {
                    self.prompt = Some(argv[i + 1].clone());
                    return Ok(2);
                }
            }
        } else if same(a, "--json") {
            self.json = true;
        } else if same(a, "--diff") {
            self.diff = true;
        } else if same(a, "--resume") {
            if i + 1 >= argv.len() {
                return Err(ArgvOutcome::Error(copy("missing session id after --resume")));
            }
            if !valid[i + 1] {
                let mut e = copy("invalid session id `");
                e.append(argv[i + 1].as_str());
                e.append("`");
                return Err(ArgvOutcome::Error(e));
            }
            self.resume = Some(argv[i + 1].clone());
            return Ok(2);
        } else if same(a, "-c") || same(a, "--continue") {
            self.continue_recent = true;
        } else if same(a, "--accept-edits") {
            self.accept_edits = true;
        } else if same(a, "--auto") {
            self.auto = true;
        } else if same(a, "--sandbox") {
            self.sandbox = true;
        } else if same(a, "--restrict-network") {
            self.restrict_network = true;
            self.sandbox = true;
        } else if same(a, "-h") || same(a, "--help") {
            return Err(ArgvOutcome::Help);
        } else if same(a, "-V") || same(a, "--version") {
            return Err(ArgvOutcome::Version);
        } else {
            let mut e = copy("unrecognized argument `");
            e.append(a);
            e.append("`\nRun `shirl --help` for usage.");
            return Err(ArgvOutcome::Error(e));
        }
        Ok(1)
    }

    fn settled(self) -> (r: ArgvOutcome)
        ensures
            r@ == settle(self@),
    {
        if self.json && !self.headless {
            return ArgvOutcome::Error(copy("--json requires -p"));
        }
        if self.diff && !self.headless {
            return ArgvOutcome::Error(copy("--diff requires -p"));
        }
        if self.continue_recent && self.resume.is_some() {
            return ArgvOutcome::Error(copy("cannot use both --continue and --resume"));
        }
        if self.auto && self.accept_edits {
            return ArgvOutcome::Error(copy("cannot use both --auto and --accept-edits"));
        }
        let permission_mode = if self.auto {
            PermissionMode::FullAuto
        } else if self.accept_edits {
            PermissionMode::AutoEdit
        } else if self.headless {
            PermissionMode::FullAuto
        } else {
            PermissionMode::Normal
        };
        let sandbox_policy = if self.restrict_network {
            SandboxPolicy::Restricted
        } else if self.sandbox {
            SandboxPolicy::Sandbox
        } else {
            SandboxPolicy::Off
        };
        ArgvOutcome::Parsed(
            ParsedArgs {
                headless: self.headless,
                prompt: self.prompt,
                json: self.json,
                diff: self.diff,
                resume: self.resume,
                continue_recent: self.continue_recent,
                permission_mode,
                sandbox_policy,
            },
        )
    }
}

/// Reads the arguments. `valid` says of each of them whether it is the id of a session.
pub fn parse_argv(argv: &Vec<String>, valid: &Vec<bool>) -> (r: ArgvOutcome)
    requires
        valid@.len() == argv@.len(),
    ensures
        r@ == argv_from(texts(argv@), valid@, 0, no_flags()),
{
    let mut seen = SeenFlags {
        headless: false,
        prompt: None,
        json: false,
        diff: false,
        resume: None,
        continue_recent: false,
        accept_edits: false,
        auto: false,
        sandbox: false,
        restrict_network: false,
    };
    let mut i: usize = 0;
    while i < argv.len()
        invariant
            i <= argv.len(),
            valid@.len() == argv@.len(),
            argv_from(texts(argv@), valid@, i as int, seen@) == argv_from(
                texts(argv@),
                valid@,
                0,
                no_flags(),
            ),
        decreases argv@.len() - i,
    {
        match seen.take(argv, valid, i) {
            Ok(n) => {
                i += n;
            },
            Err(outcome) => {
                return outcome;
            },
        }
    }
    seen.settled()
}

proof fn lemma_argv_from(argv: Seq<Seq<char>>, valid: Seq<bool>, i: int, f: Flags)
    requires
        f.prompt is Some ==> f.headless,
    ensures
        argv_from(argv, valid, i, f) matches ArgvView::Parsed(p) ==> {
            &&& p.json ==> p.headless
            &&& p.diff ==> p.headless
            &&& p.prompt is Some ==> p.headless
            &&& !(p.continue_recent && p.resume is Some)
            &&& p.headless ==> p.permission_mode != PermissionMode::Normal
        },
    decreases argv.len() + 2 - i,
{
    if 0 <= i < argv.len() {
        match arg_step(argv, valid, i, f) {
            ArgStep::One(g) => {
                lemma_argv_from(argv, valid, i + 1, g);
            },
            ArgStep::Two(g) => {
                lemma_argv_from(argv, valid, i + 2, g);
            },
            ArgStep::Stop(_) => {},
        }
    }
}

/// Arguments that are accepted fit together: JSON, a diff and a prompt come with headless runs
/// only, a session is not both named and looked for, and a headless run never asks the user.
pub proof fn accepted_arguments_fit_together(argv: Seq<Seq<char>>, valid: Seq<bool>)
    ensures
        argv_from(argv, valid, 0, no_flags()) matches ArgvView::Parsed(p) ==> {
            &&& p.json ==> p.headless
            &&& p.diff ==> p.headless
            &&& p.prompt is Some ==> p.headless
            &&& !(p.continue_recent && p.resume is Some)
            &&& p.headless ==> p.permission_mode != PermissionMode::Normal
        },
{
    lemma_argv_from(argv, valid, 0, no_flags());
}

// ---------------------------------------------------------------------------
// Sessions and standard input
// ---------------------------------------------------------------------------
/// Whether entry `k` was changed last: none later than it, and those as late come behind it.
pub open spec fn is_most_recent(entries: Seq<(String, u128)>, k: int) -> bool {
    &&& 0 <= k < entries.len()
    &&& forall|i: int| 0 <= i < entries.len() ==> (#[trigger] entries[i]).1 <= entries[k].1
    &&& forall|i: int| 0 <= i < k ==> (#[trigger] entries[i]).1 < entries[k].1
}

/// The session that was changed last, from the sessions and the times of their last change.
pub fn most_recent(entries: &Vec<(String, u128)>) -> (r: Option<String>)
    ensures
        r is None <==> entries@.len() == 0,
        r matches Some(id) ==> exists|k: int|
            #[trigger] is_most_recent(entries@, k) && entries@[k].0 == id,
{
    if entries.len() == 0 {
        return None;
    }
    let mut best: usize = 0;
    let mut i: usize = 1;
    while i < entries.len()
        invariant
            best < i <= entries@.len(),
            forall|j: int| 0 <= j < i ==> (#[trigger] entries@[j]).1 <= entries@[best as int].1,
            forall|j: int| 0 <= j < best ==> (#[trigger] entries@[j]).1 < entries@[best as int].1,
        decreases entries@.len() - i,
    {
        if entries[i].1 > entries[best].1 {
            best = i;
        }
        i += 1;
    }
    assert(is_most_recent(entries@, best as int));
    Some(entries[best].0.clone())
}

/// The session to go on with: the one that was named, or with `continue_recent` the most
/// recent one of the directory `sessions_dir`.
pub fn resolve_resume(
    resume: Option<String>,
    continue_recent: bool,
    sessions_dir: &str,
    entries: &Vec<(String, u128)>,
) -> (r: Result<Option<String>, String>)
    ensures
        !continue_recent ==> r == Ok::<Option<String>, String>(resume),
        continue_recent && entries@.len() == 0 ==> (r matches Err(e) && e@
            == "no sessions found in "@ + sessions_dir@),
        continue_recent && entries@.len() > 0 ==> (r matches Ok(Some(id)) && exists|k: int|
            #[trigger] is_most_recent(entries@, k) && entries@[k].0 == id),
{
    if !continue_recent {
        return Ok(resume);
    }
    match most_recent(entries) {
        Some(id) => Ok(Some(id)),
        None => {
            let mut e = copy("no sessions found in ");
            e.append(sessions_dir);
            Err(e)
        },
    }
}

/// The prompt of a headless run together with what is piped in, which is not blank: alone it
/// is the prompt, and beside a prompt it follows it after a blank line, trimmed.
pub open spec fn full_prompt(
    headless: bool,
    prompt: Option<Seq<char>>,
    piped: Option<Seq<char>>,
) -> Option<Seq<char>> {
    match piped {
        Some(input) => if headless && !is_blank(input) {
            match prompt {
                Some(p) => Some(p + "\n\n"@ + trim(input)),
                None => Some(input),
            }
        } else {
            prompt
        },
        None => prompt,
    }
}

/// The prompt together with what is piped in, where anything is.
pub fn prompt_with_stdin(headless: bool, prompt: Option<String>, piped: Option<String>) -> (r:
    Option<String>)
    ensures
        opt_text(r) == full_prompt(headless, opt_text(prompt), opt_text(piped)),
{
    match piped {
        Some(input) => {
            if headless && !blank(input.as_str()) {
                match prompt {
                    Some(p) => {
                        let mut all = p;
                        all.append("\n\n");
                        let t = trimmed(input.as_str());
                        all.append(t.as_str());
                        Some(all)
                    },
                    None => Some(input),
                }
            } else {
                prompt
            }
        },
        None => prompt,
    }
}

/// The help, for the version `version`.
pub fn help_text(version: &str) -> (r: String)
    ensures
        r@ == "shirl "@ + version@
            + "\n\nUsage: shirl [OPTIONS]\n       shirl -p \"PROMPT\" [OPTIONS]\n\nMode:\n  -p, --print [PROMPT]    Run non-interactively. Reads prompt from stdin\n                          when omitted, or appends piped stdin to PROMPT.\n\nOutput (headless only):\n      --json              Emit one JSON object instead of text.\n      --diff              Append full unified diff of changes.\n\nPermissions:\n      --accept-edits      Auto-approve file edits; ask for bash.\n      --auto              Auto-approve everything.\n\nSandbox:\n      --sandbox            Run with OS-level sandbox.\n      --restrict-network   Block network access for the session.\n                           Implies --sandbox.\n\nSession:\n      --resume <ID>       Resume a prior session by id.\n  -c, --continue          Resume the most recent session.\n\nOther:\n  -h, --help              Print this help and exit.\n  -V, --version           Print version and exit.\n\nExit codes: 0 success · 1 error · 2 usage · 5 config-incomplete\n"@,
{
    let mut r = copy("shirl ");
    r.append(version);
    r.append(
        "\n\nUsage: shirl [OPTIONS]\n       shirl -p \"PROMPT\" [OPTIONS]\n\nMode:\n  -p, --print [PROMPT]    Run non-interactively. Reads prompt from stdin\n                          when omitted, or appends piped stdin to PROMPT.\n\nOutput (headless only):\n      --json              Emit one JSON object instead of text.\n      --diff              Append full unified diff of changes.\n\nPermissions:\n      --accept-edits      Auto-approve file edits; ask for bash.\n      --auto              Auto-approve everything.\n\nSandbox:\n      --sandbox            Run with OS-level sandbox.\n      --restrict-network   Block network access for the session.\n                           Implies --sandbox.\n\nSession:\n      --resume <ID>       Resume a prior session by id.\n  -c, --continue          Resume the most recent session.\n\nOther:\n  -h, --help              Print this help and exit.\n  -V, --version           Print version and exit.\n\nExit codes: 0 success · 1 error · 2 usage · 5 config-incomplete\n",
    );
    r
}

/// The options and what tells them apart.
proof fn lemma_options_differ()
    ensures
        "-p"@.len() == 2 && "-p"@[0] == '-' && "-p"@[1] == 'p',
        "--print"@.len() == 7 && "--print"@[0] == '-',
        "--json"@.len() == 6 && "--json"@[0] == '-' && "--json"@[2] == 'j',
        "--diff"@.len() == 6 && "--diff"@[0] == '-' && "--diff"@[2] == 'd',
        "--resume"@.len() == 8 && "--resume"@[0] == '-',
        "-c"@.len() == 2 && "-c"@[0] == '-' && "-c"@[1] == 'c',
        "--continue"@.len() == 10 && "--continue"@[0] == '-',
        "--accept-edits"@.len() == 14 && "--accept-edits"@[0] == '-',
        "--auto"@.len() == 6 && "--auto"@[0] == '-' && "--auto"@[2] == 'a',
        "--sandbox"@.len() == 9 && "--sandbox"@[0] == '-' && "--sandbox"@[2] == 's',
        "--restrict-network"@.len() == 18 && "--restrict-network"@[0] == '-',
        "-h"@.len() == 2 && "-h"@[0] == '-' && "-h"@[1] == 'h',
        "--help"@.len() == 6 && "--help"@[0] == '-' && "--help"@[2] == 'h',
        "-V"@.len() == 2 && "-V"@[0] == '-' && "-V"@[1] == 'V',
        "--version"@.len() == 9 && "--version"@[0] == '-' && "--version"@[2] == 'v',
{
    reveal_strlit("-p");
    reveal_strlit("--print");
    reveal_strlit("--json");
    reveal_strlit("--diff");
    reveal_strlit("--resume");
    reveal_strlit("-c");
    reveal_strlit("--continue");
    reveal_strlit("--accept-edits");
    reveal_strlit("--auto");
    reveal_strlit("--sandbox");
    reveal_strlit("--restrict-network");
    reveal_strlit("-h");
    reveal_strlit("--help");
    reveal_strlit("-V");
    reveal_strlit("--version");
}

/// Whether one of two options is the short form of the other.
pub open spec fn are_two_forms(short: Seq<char>, long: Seq<char>) -> bool {
    ||| short == "-p"@ && long == "--print"@
    ||| short == "-c"@ && long == "--continue"@
    ||| short == "-h"@ && long == "--help"@
    ||| short == "-V"@ && long == "--version"@
}

proof fn lemma_two_forms(
    argv: Seq<Seq<char>>,
    valid: Seq<bool>,
    k: int,
    f: Flags,
    i: int,
    long: Seq<char>,
)
    requires
        0 <= i < argv.len(),
        are_two_forms(argv[i], long),
        i > 0 ==> argv[i - 1] != "--resume"@,
    ensures
        argv_from(argv.update(i, long), valid, k, f) == argv_from(argv, valid, k, f),
    decreases argv.len() + 2 - k,
{
    lemma_options_differ();
    let other = argv.update(i, long);
    if 0 <= k < argv.len() {
        assert(is_value(other, k + 1) == is_value(argv, k + 1));
        assert(arg_step(other, valid, k, f) == arg_step(argv, valid, k, f)) by {
            if k == i {
                assert(other[k] == long);
            } else {
                assert(other[k] == argv[k]);
                if k + 1 == i {
                    assert(!is_value(argv, i));
                } else if k + 1 < argv.len() {
                    assert(other[k + 1] == argv[k + 1]);
                }
            }
        }
        match arg_step(argv, valid, k, f) {
            ArgStep::One(g) => lemma_two_forms(argv, valid, k + 1, g, i, long),
            ArgStep::Two(g) => lemma_two_forms(argv, valid, k + 2, g, i, long),
            ArgStep::Stop(v) => {},
        }
    }
}

/// A short form means what its long form means: wherever one stands, unless as the id behind
/// `--resume`, the other in its place leaves what comes of the arguments unchanged.
pub proof fn short_and_long_forms_mean_the_same(
    argv: Seq<Seq<char>>,
    valid: Seq<bool>,
    i: int,
    long: Seq<char>,
)
    requires
        0 <= i < argv.len(),
        i > 0 ==> argv[i - 1] != "--resume"@,
        are_two_forms(argv[i], long),
    ensures
        argv_from(argv.update(i, long), valid, 0, no_flags()) == argv_from(
            argv,
            valid,
            0,
            no_flags(),
        ),
{
    lemma_two_forms(argv, valid, 0, no_flags(), i, long);
}

/// The flags at the end of accepted arguments, and that reading more options starts with them.
proof fn flags_before(
    argv: Seq<Seq<char>>,
    valid: Seq<bool>,
    more: Seq<Seq<char>>,
    more_valid: Seq<bool>,
    i: int,
    f: Flags,
) -> (g: Flags)
    requires
        0 <= i <= argv.len(),
        valid.len() == argv.len(),
        more.len() > 0,
        more[0].len() > 0 && more[0][0] == '-',
        argv_from(argv, valid, i, f) is Parsed,
    ensures
        argv_from(argv, valid, i, f) == settle(g),
        argv_from(argv + more, valid + more_valid, i, f) == argv_from(
            argv + more,
            valid + more_valid,
            argv.len() as int,
            g,
        ),
        !f.auto && (forall|k: int| 0 <= k < argv.len() ==> #[trigger] argv[k] != "--auto"@)
            ==> !g.auto,
    decreases argv.len() + 2 - i,
{
    if i == argv.len() {
        f
    } else {
        lemma_options_differ();
        let a = argv + more;
        let v = valid + more_valid;
        assert(a[i] == argv[i]);
        assert(is_value(a, i + 1) == is_value(argv, i + 1)) by {
            if i + 1 == argv.len() {
                assert(a[i + 1] == more[0]);
            } else {
                assert(a[i + 1] == argv[i + 1]);
            }
        }
        if i + 1 < argv.len() {
            assert(a[i + 1] == argv[i + 1]);
            assert(v[i + 1] == valid[i + 1]);
        }
        assert(arg_step(a, v, i, f) == arg_step(argv, valid, i, f));
        match arg_step(argv, valid, i, f) {
            ArgStep::One(g) => flags_before(argv, valid, more, more_valid, i + 1, g),
            ArgStep::Two(g) => flags_before(argv, valid, more, more_valid, i + 2, g),
            ArgStep::Stop(v) => f,
        }
    }
}

/// No arguments start an interactive run that asks the user, outside a sandbox, in a new session.
/// To arguments that are accepted each option of the help can be added, in either form, and says
/// what it says: it changes its part of the outcome and nothing else. One that does not go with
/// what is there already is refused.
pub proof fn each_option_does_its_part(
    argv: Seq<Seq<char>>,
    valid: Seq<bool>,
    p: ParsedView,
    option: Seq<char>,
    is_id: bool,
)
    requires
        valid.len() == argv.len(),
        argv_from(argv, valid, 0, no_flags()) == ArgvView::Parsed(p),
    ensures
        ({
            let r = argv_from(argv.push(option), valid.push(is_id), 0, no_flags());
            &&& option == "--continue"@ || option == "-c"@ ==> if p.resume is None {
                r == ArgvView::Parsed(ParsedView { continue_recent: true, ..p })
            } else {
                r is Error
            }
            &&& option == "--print"@ || option == "-p"@ ==> r == ArgvView::Parsed(
                ParsedView {
                    headless: true,
                    permission_mode: if p.permission_mode == PermissionMode::Normal {
                        PermissionMode::FullAuto
                    } else {
                        p.permission_mode
                    },
                    ..p
                },
            )
            &&& option == "--json"@ ==> if p.headless {
                r == ArgvView::Parsed(ParsedView { json: true, ..p })
            } else {
                r is Error
            }
            &&& option == "--diff"@ ==> if p.headless {
                r == ArgvView::Parsed(ParsedView { diff: true, ..p })
            } else {
                r is Error
            }
            &&& option == "--sandbox"@ ==> r == ArgvView::Parsed(
                ParsedView {
                    sandbox_policy: if p.sandbox_policy == SandboxPolicy::Off {
                        SandboxPolicy::Sandbox
                    } else {
                        p.sandbox_policy
                    },
                    ..p
                },
            )
            &&& option == "--restrict-network"@ ==> r == ArgvView::Parsed(
                ParsedView { sandbox_policy: SandboxPolicy::Restricted, ..p },
            )
            &&& option == "--auto"@ ==> if p.permission_mode == PermissionMode::AutoEdit {
                r is Error
            } else {
                r == ArgvView::Parsed(
                    ParsedView { permission_mode: PermissionMode::FullAuto, ..p },
                )
            }
            &&& option == "--accept-edits"@ && p.permission_mode != PermissionMode::FullAuto ==> r
                == ArgvView::Parsed(ParsedView { permission_mode: PermissionMode::AutoEdit, ..p })
            &&& option == "--accept-edits"@ && p.permission_mode == PermissionMode::FullAuto
                && !p.headless ==> r is Error
            &&& option == "--accept-edits"@ && r is Parsed ==> r == ArgvView::Parsed(
                ParsedView { permission_mode: PermissionMode::AutoEdit, ..p },
            )
            &&& option == "--help"@ || option == "-h"@ ==> r is Help
            &&& option == "--version"@ || option == "-V"@ ==> r is Version
            &&& option == "--resume"@ ==> r is Error
        }),
        argv_from(Seq::empty(), Seq::empty(), 0, no_flags()) == ArgvView::Parsed(
            ParsedView {
                headless: false,
                prompt: None,
                json: false,
                diff: false,
                resume: None,
                continue_recent: false,
                permission_mode: PermissionMode::Normal,
                sandbox_policy: SandboxPolicy::Off,
            },
        ),
{
    lemma_options_differ();
    let more = seq![option];
    let n = argv.len() as int;
    if option.len() > 0 && option[0] == '-' {
        let g = flags_before(argv, valid, more, seq![is_id], 0, no_flags());
        assert(argv + more =~= argv.push(option));
        assert(valid + seq![is_id] =~= valid.push(is_id));
        let a = argv.push(option);
        let v = valid.push(is_id);
        assert(a[n] == option);
        assert(!is_value(a, n + 1));
        match arg_step(a, v, n, g) {
            ArgStep::One(h) => {
                assert(argv_from(a, v, n + 1, h) == settle(h));
            },
            _ => {},
        }
    }
}

/// A value belongs to the option before it: a prompt to `-p`, and the id of a session to
/// `--resume`. What is no id is refused there, and so is an id beside `--continue`.
pub proof fn values_belong_to_their_option(
    argv: Seq<Seq<char>>,
    valid: Seq<bool>,
    p: ParsedView,
    option: Seq<char>,
    is_id: bool,
    value: Seq<char>,
    value_is_id: bool,
)
    requires
        valid.len() == argv.len(),
        argv_from(argv, valid, 0, no_flags()) == ArgvView::Parsed(p),
    ensures
        ({
            let r = argv_from(
                argv.push(option).push(value),
                valid.push(is_id).push(value_is_id),
                0,
                no_flags(),
            );
            &&& (option == "--print"@ || option == "-p"@) && !(value.len() > 0 && value[0] == '-')
                ==> r == ArgvView::Parsed(
                ParsedView {
                    headless: true,
                    prompt: Some(value),
                    permission_mode: if p.permission_mode == PermissionMode::Normal {
                        PermissionMode::FullAuto
                    } else {
                        p.permission_mode
                    },
                    ..p
                },
            )
            &&& option == "--resume"@ && value_is_id && !p.continue_recent ==> r
                == ArgvView::Parsed(ParsedView { resume: Some(value), ..p })
            &&& option == "--resume"@ && (!value_is_id || p.continue_recent) ==> r is Error
        }),
{
    lemma_options_differ();
    let more = seq![option, value];
    let n = argv.len() as int;
    if option.len() > 0 && option[0] == '-' {
        let g = flags_before(argv, valid, more, seq![is_id, value_is_id], 0, no_flags());
        let a = argv.push(option).push(value);
        let v = valid.push(is_id).push(value_is_id);
        assert(argv + more =~= a);
        assert(valid + seq![is_id, value_is_id] =~= v);
        assert(a[n] == option && a[n + 1] == value && v[n + 1] == value_is_id);
        match arg_step(a, v, n, g) {
            ArgStep::Two(h) => {
                assert(argv_from(a, v, n + 2, h) == settle(h));
            },
            _ => {},
        }
    }
}

/// What is neither an option of the help nor the value of one is refused, and named.
pub proof fn unknown_arguments_are_refused(
    argv: Seq<Seq<char>>,
    valid: Seq<bool>,
    p: ParsedView,
    option: Seq<char>,
    is_id: bool,
)
    requires
        valid.len() == argv.len(),
        argv_from(argv, valid, 0, no_flags()) == ArgvView::Parsed(p),
        option.len() > 0 && option[0] == '-',
        option != "-p"@ && option != "--print"@ && option != "--json"@ && option != "--diff"@,
        option != "--resume"@ && option != "-c"@ && option != "--continue"@,
        option != "--accept-edits"@ && option != "--auto"@ && option != "--sandbox"@,
        option != "--restrict-network"@ && option != "-h"@ && option != "--help"@,
        option != "-V"@ && option != "--version"@,
    ensures
        argv_from(argv.push(option), valid.push(is_id), 0, no_flags()) == ArgvView::Error(
            "unrecognized argument `"@ + option + "`\nRun `shirl --help` for usage."@,
        ),
{
    let more = seq![option];
    let g = flags_before(argv, valid, more, seq![is_id], 0, no_flags());
    assert(argv + more =~= argv.push(option));
    assert(valid + seq![is_id] =~= valid.push(is_id));
    assert(argv.push(option)[argv.len() as int] == option);
}

/// A prompt that was given is never lost: what is piped in only follows it. Piped text without
/// a prompt is the prompt, and nothing is taken from a pipe but in headless runs.
pub proof fn prompts_are_never_lost(headless: bool, prompt: Seq<char>, piped: Seq<char>)
    ensures
        full_prompt(headless, Some(prompt), Some(piped)) matches Some(t) && starts_with(t, prompt),
        headless && !is_blank(piped) ==> full_prompt(headless, None, Some(piped)) == Some(piped),
        headless && !is_blank(piped) ==> full_prompt(headless, Some(prompt), Some(piped)) == Some(
            prompt + "\n\n"@ + trim(piped),
        ),
        is_blank(piped) || !headless ==> full_prompt(headless, Some(prompt), Some(piped)) == Some(
            prompt,
        ) && full_prompt(headless, None, Some(piped)) is None,
        full_prompt(headless, Some(prompt), None) == Some(prompt),
        full_prompt(headless, None, None) is None,
{
    let t = full_prompt(headless, Some(prompt), Some(piped))->0;
    assert(t.take(prompt.len() as int) =~= prompt);
}

/// Reading arguments with a short form and with its long form in the same place comes to the
/// same.
pub proof fn both_forms_are_read_alike(
    argv: Vec<String>,
    other: Vec<String>,
    valid: Vec<bool>,
    i: int,
    r: ArgvOutcome,
    s: ArgvOutcome,
)
    requires
        valid@.len() == argv@.len(),
        0 <= i < argv@.len(),
        i > 0 ==> argv@[i - 1]@ != "--resume"@,
        other@.len() == argv@.len(),
        forall|k: int| 0 <= k < argv@.len() && k != i ==> (#[trigger] other@[k])@ == argv@[k]@,
        are_two_forms(argv@[i]@, other@[i]@),
        call_ensures(parse_argv, (&argv, &valid), r),
        call_ensures(parse_argv, (&other, &valid), s),
    ensures
        r@ == s@,
{
    let a = texts(argv@);
    assert(texts(other@) =~= a.update(i, other@[i]@)) by {
        assert forall|k: int| 0 <= k < a.len() implies texts(other@)[k] == a.update(
            i,
            other@[i]@,
        )[k] by {
            if k != i {
                assert(other@[k]@ == argv@[k]@);
            }
        }
    }
    assert(a[i] == argv@[i]@);
    if i > 0 {
        assert(a[i - 1] == argv@[i - 1]@);
    }
    short_and_long_forms_mean_the_same(a, valid@, i, other@[i]@);
}

/// Reading arguments with `--continue` behind those that were accepted goes on with the most
/// recent session and changes nothing else, unless a session is named already.
pub proof fn continuing_can_be_added(
    argv: Vec<String>,
    valid: Vec<bool>,
    more: Vec<String>,
    more_valid: Vec<bool>,
    r: ArgvOutcome,
    s: ArgvOutcome,
)
    requires
        valid@.len() == argv@.len(),
        more_valid@.len() == more@.len(),
        more@.len() == argv@.len() + 1,
        texts(more@).drop_last() == texts(argv@),
        more_valid@.drop_last() == valid@,
        more@.last()@ == "--continue"@ || more@.last()@ == "-c"@,
        call_ensures(parse_argv, (&argv, &valid), r),
        call_ensures(parse_argv, (&more, &more_valid), s),
    ensures
        r@ matches ArgvView::Parsed(p) ==> if p.resume is None {
            s@ == ArgvView::Parsed(ParsedView { continue_recent: true, ..p })
        } else {
            s@ is Error
        },
{
    match r@ {
        ArgvView::Parsed(p) => {
            let last = more@.last()@;
            assert(texts(more@) =~= texts(argv@).push(last)) by {
                assert(texts(more@).last() == last);
            }
            assert(more_valid@ =~= valid@.push(more_valid@.last()));
            each_option_does_its_part(texts(argv@), valid@, p, last, more_valid@.last());
        },
        _ => {},
    }
}

/// The session to go on with is the one that was named; and where the most recent one is asked
/// for, one of those that are there, changed no earlier than any other.
pub proof fn the_right_session_is_resumed(
    resume: Option<String>,
    continue_recent: bool,
    sessions_dir: &str,
    entries: Vec<(String, u128)>,
    r: Result<Option<String>, String>,
    k: int,
)
    requires
        call_ensures(resolve_resume, (resume, continue_recent, sessions_dir, &entries), r),
    ensures
        !continue_recent ==> r == Ok::<Option<String>, String>(resume),
        continue_recent && 0 <= k < entries@.len() ==> (r matches Ok(Some(id)) && exists|i: int|
            0 <= i < entries@.len() && (#[trigger] entries@[i]).0 == id && entries@[k].1
                <= entries@[i].1),
        continue_recent && entries@.len() == 0 ==> r is Err,
{
    if continue_recent && 0 <= k < entries@.len() {
        let id = (r->Ok_0)->0;
        let i = choose|i: int| #[trigger] is_most_recent(entries@, i) && entries@[i].0 == id;
        assert(entries@[i].0 == id && entries@[k].1 <= entries@[i].1);
    }
}

/// A prompt that was given is never lost to what is piped in.
pub proof fn given_prompts_are_kept(
    headless: bool,
    prompt: Option<String>,
    piped: Option<String>,
    r: Option<String>,
)
    requires
        call_ensures(prompt_with_stdin, (headless, prompt, piped), r),
    ensures
        prompt matches Some(p) ==> (r matches Some(t) && starts_with(t@, p@)),
        piped matches Some(i) ==> (prompt is None && headless && !is_blank(i@) ==> (r matches Some(
            t,
        ) && t@ == i@)),
        !headless ==> opt_text(r) == opt_text(prompt),
{
    match (prompt, piped) {
        (Some(p), Some(i)) => prompts_are_never_lost(headless, p@, i@),
        (Some(p), None) => {
            assert(p@.take(p@.len() as int) =~= p@);
        },
        _ => {},
    }
}

/// Edits can be accepted in every run in which not everything is accepted anyway: `--accept-edits`
/// behind accepted arguments without `--auto` says so, headless or not.
pub proof fn edits_can_be_accepted(
    argv: Seq<Seq<char>>,
    valid: Seq<bool>,
    p: ParsedView,
    is_id: bool,
)
    requires
        valid.len() == argv.len(),
        argv_from(argv, valid, 0, no_flags()) == ArgvView::Parsed(p),
        forall|k: int| 0 <= k < argv.len() ==> #[trigger] argv[k] != "--auto"@,
    ensures
        argv_from(argv.push("--accept-edits"@), valid.push(is_id), 0, no_flags())
            == ArgvView::Parsed(ParsedView { permission_mode: PermissionMode::AutoEdit, ..p }),
{
    lemma_options_differ();
    let option = "--accept-edits"@;
    let more = seq![option];
    let n = argv.len() as int;
    let a = argv.push(option);
    let v = valid.push(is_id);
    let g = flags_before(argv, valid, more, seq![is_id], 0, no_flags());
    assert(argv + more =~= a);
    assert(valid + seq![is_id] =~= v);
    assert(a[n] == option);
    match arg_step(a, v, n, g) {
        ArgStep::One(h) => {
            assert(argv_from(a, v, n + 1, h) == settle(h));
        },
        _ => {},
    }
}

/// A value that belongs to no option is refused, wherever it stands.
pub proof fn stray_values_are_refused(
    argv: Seq<Seq<char>>,
    valid: Seq<bool>,
    i: int,
    f: Flags,
)
    requires
        0 <= i < argv.len(),
        argv[i].len() == 0 || argv[i][0] != '-',
    ensures
        argv_from(argv, valid, i, f) is Error,
{
    lemma_options_differ();
}

/// No custom command can take the place of a command that the program itself answers.
pub proof fn answered_commands_are_reserved(name: Seq<char>, args: Seq<char>, current: AgentKind)
    ensures
        !(command_route(name, args, current) is Other) ==> reserved_names().contains(name),
{
    let r = reserved_names();
    assert(r[3] == "model"@ && r[4] == "provider"@ && r[5] == "reasoning"@ && r[6]
        == "capabilities"@ && r[7] == "memory"@ && r[8] == "help"@);
    built_ins_and_modes_are_reserved(BuiltIn::New, name, args, current);
}

/// The most recent session is one of those that are there, and none was changed later.
pub proof fn the_most_recent_was_changed_last(
    entries: Vec<(String, u128)>,
    r: Option<String>,
    k: int,
)
    requires
        call_ensures(most_recent, (&entries,), r),
        0 <= k < entries@.len(),
    ensures
        r matches Some(id) && exists|i: int|
            0 <= i < entries@.len() && (#[trigger] entries@[i]).0 == id && entries@[k].1
                <= entries@[i].1,
{
    let id = r->0;
    let i = choose|i: int| #[trigger] is_most_recent(entries@, i) && entries@[i].0 == id;
    assert(entries@[i].0 == id && entries@[k].1 <= entries@[i].1);
}

/// The help names every option that is accepted, in both forms where there are two.
#[verifier::rlimit(40)]
pub proof fn every_option_is_in_the_help(version: &str, r: String)
    requires
        call_ensures(help_text, (version,), r),
    ensures
        contains(r@, "-p, --print"@),
        contains(r@, "--json"@),
        contains(r@, "--diff"@),
        contains(r@, "--resume <ID>"@),
        contains(r@, "-c, --continue"@),
        contains(r@, "--accept-edits"@),
        contains(r@, "--auto "@),
        contains(r@, "--sandbox"@),
        contains(r@, "--restrict-network"@),
        contains(r@, "-h, --help"@),
        contains(r@, "-V, --version"@),
{
    let rest = "\n\nUsage: shirl [OPTIONS]\n       shirl -p \"PROMPT\" [OPTIONS]\n\nMode:\n  -p, --print [PROMPT]    Run non-interactively. Reads prompt from stdin\n                          when omitted, or appends piped stdin to PROMPT.\n\nOutput (headless only):\n      --json              Emit one JSON object instead of text.\n      --diff              Append full unified diff of changes.\n\nPermissions:\n      --accept-edits      Auto-approve file edits; ask for bash.\n      --auto              Auto-approve everything.\n\nSandbox:\n      --sandbox            Run with OS-level sandbox.\n      --restrict-network   Block network access for the session.\n                           Implies --sandbox.\n\nSession:\n      --resume <ID>       Resume a prior session by id.\n  -c, --continue          Resume the most recent session.\n\nOther:\n  -h, --help              Print this help and exit.\n  -V, --version           Print version and exit.\n\nExit codes: 0 success · 1 error · 2 usage · 5 config-incomplete\n"@;
    let head = "shirl "@ + version@;
    reveal_strlit(
        "\n\nUsage: shirl [OPTIONS]\n       shirl -p \"PROMPT\" [OPTIONS]\n\nMode:\n  -p, --print [PROMPT]    Run non-interactively. Reads prompt from stdin\n                          when omitted, or appends piped stdin to PROMPT.\n\nOutput (headless only):\n      --json              Emit one JSON object instead of text.\n      --diff              Append full unified diff of changes.\n\nPermissions:\n      --accept-edits      Auto-approve file edits; ask for bash.\n      --auto              Auto-approve everything.\n\nSandbox:\n      --sandbox            Run with OS-level sandbox.\n      --restrict-network   Block network access for the session.\n                           Implies --sandbox.\n\nSession:\n      --resume <ID>       Resume a prior session by id.\n  -c, --continue          Resume the most recent session.\n\nOther:\n  -h, --help              Print this help and exit.\n  -V, --version           Print version and exit.\n\nExit codes: 0 success · 1 error · 2 usage · 5 config-incomplete\n",
    );
    reveal_strlit("-p, --print");
    assert(rest.subrange(69, 80) =~= "-p, --print"@);
    lemma_help_holds(head, rest, "-p, --print"@, 69);
    reveal_strlit("--json");
    assert(rest.subrange(245, 251) =~= "--json"@);
    lemma_help_holds(head, rest, "--json"@, 245);
    reveal_strlit("--diff");
    assert(rest.subrange(309, 315) =~= "--diff"@);
    lemma_help_holds(head, rest, "--diff"@, 309);
    reveal_strlit("--resume <ID>");
    assert(rest.subrange(687, 700) =~= "--resume <ID>"@);
    lemma_help_holds(head, rest, "--resume <ID>"@, 687);
    reveal_strlit("-c, --continue");
    assert(rest.subrange(739, 753) =~= "-c, --continue"@);
    lemma_help_holds(head, rest, "-c, --continue"@, 739);
    reveal_strlit("--accept-edits");
    assert(rest.subrange(386, 400) =~= "--accept-edits"@);
    lemma_help_holds(head, rest, "--accept-edits"@, 386);
    reveal_strlit("--auto ");
    assert(rest.subrange(451, 458) =~= "--auto "@);
    lemma_help_holds(head, rest, "--auto "@, 451);
    reveal_strlit("--sandbox");
    assert(rest.subrange(512, 521) =~= "--sandbox"@);
    lemma_help_holds(head, rest, "--sandbox"@, 512);
    reveal_strlit("--restrict-network");
    assert(rest.subrange(566, 584) =~= "--restrict-network"@);
    lemma_help_holds(head, rest, "--restrict-network"@, 566);
    reveal_strlit("-h, --help");
    assert(rest.subrange(805, 815) =~= "-h, --help"@);
    lemma_help_holds(head, rest, "-h, --help"@, 805);
    reveal_strlit("-V, --version");
    assert(rest.subrange(857, 870) =~= "-V, --version"@);
    lemma_help_holds(head, rest, "-V, --version"@, 857);
}

proof fn lemma_help_holds(head: Seq<char>, rest: Seq<char>, p: Seq<char>, k: int)
    requires
        stands_at(rest, p, k),
    ensures
        contains(head + rest, p),
{
    let s = head + rest;
    let at = head.len() + k;
    assert(s.subrange(at, at + p.len()) =~= rest.subrange(k, k + p.len()));
    lemma_contains(s, p, at);
}

} // verus!
