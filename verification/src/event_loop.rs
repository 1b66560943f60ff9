//! The interactive loop: what each command and each finished turn leads to.
//!
//! A command is kept pending while it waits to be looked at. A pending command goes first; else
//! the loop waits for the turn that runs, if one does, or for the next command.
use crate::agents::{
    AgentKind, Handoff, ModeSwitch, agent_named, agents_are_found_by_name, handoffs_lead_to_agents,
};
use crate::approval::ApprovalOutcome;
use crate::command::Command;
use crate::config::{AgentModelConfig, CustomProviderEntry, ModelExtension, ShirlConfig};
use crate::text::{copy, opt_text, same, texts};
use crate::text_map::TextMap;
use crate::worker::TurnOutcome;
use vstd::prelude::*;

verus! {

/// What is done next.
#[derive(Debug, PartialEq, Eq)]
pub enum LoopAction {
    Nothing,
    /// The line is taken as input.
    Chat(String),
    /// The command is kept pending.
    Keep(Command),
    /// The selection of the file picker moves.
    MovePicker(i32),
    /// The transcript scrolls.
    ScrollTranscript(i32),
    /// The turn that runs, if one does, is cancelled.
    CancelTurn,
    /// The permission mode changes.
    CycleMode,
    OpenTranscript,
    CloseTranscript,
    /// The command is for the file picker.
    FilePicker(Command),
    /// The loop ends. Where `close_transcript`, the transcript is closed first.
    Exit { close_transcript: bool },
}

/// What is shown: whether the file picker is open, and the transcript.
#[derive(Clone, Copy, Debug, PartialEq, Eq, Structural)]
pub struct Shown {
    pub file_picker: bool,
    pub transcript: bool,
}

/// Where a move of the selection goes: to the file picker, or else to the transcript.
pub open spec fn move_effect(delta: i32, shown: Shown) -> LoopAction {
    if shown.file_picker {
        LoopAction::MovePicker(delta)
    } else if shown.transcript {
        LoopAction::ScrollTranscript(delta)
    } else {
        LoopAction::Nothing
    }
}

pub open spec fn toggle_effect(shown: Shown) -> LoopAction {
    if shown.transcript {
        LoopAction::CloseTranscript
    } else {
        LoopAction::OpenTranscript
    }
}

/// Where a move of the selection goes.
pub fn route_select_move(delta: i32, shown: Shown) -> (r: LoopAction)
    ensures
        r == move_effect(delta, shown),
{
    if shown.file_picker {
        LoopAction::MovePicker(delta)
    } else if shown.transcript {
        LoopAction::ScrollTranscript(delta)
    } else {
        LoopAction::Nothing
    }
}

fn toggle(shown: Shown) -> (r: LoopAction)
    ensures
        r == toggle_effect(shown),
{
    if shown.transcript {
        LoopAction::CloseTranscript
    } else {
        LoopAction::OpenTranscript
    }
}

/// What a pending command leads to.
pub open spec fn pending_effect(command: Command, shown: Shown) -> LoopAction {
    match command {
        Command::Submit(line) => LoopAction::Chat(line),
        Command::SelectMove(delta) => move_effect(delta, shown),
        Command::Partial(_) => LoopAction::Nothing,
        Command::Resize => LoopAction::Nothing,
        Command::ApprovalKey(_) => LoopAction::Nothing,
        Command::Cancel => LoopAction::CancelTurn,
        Command::Exit => LoopAction::Exit { close_transcript: true },
        Command::CycleMode => LoopAction::CycleMode,
        Command::ToggleTranscript => toggle_effect(shown),
        Command::FilePickerFilter(f) => LoopAction::FilePicker(Command::FilePickerFilter(f)),
        Command::FilePickerAccept => LoopAction::FilePicker(Command::FilePickerAccept),
        Command::FilePickerClose => LoopAction::FilePicker(Command::FilePickerClose),
    }
}

/// What a pending command leads to.
pub fn pending_action(command: Command, shown: Shown) -> (r: LoopAction)
    ensures
        r == pending_effect(command, shown),
{
    match command {
        Command::Submit(line) => LoopAction::Chat(line),
        Command::SelectMove(delta) => route_select_move(delta, shown),
        Command::Partial(_) => LoopAction::Nothing,
        Command::Resize => LoopAction::Nothing,
        Command::ApprovalKey(_) => LoopAction::Nothing,
        Command::Cancel => LoopAction::CancelTurn,
        Command::Exit => LoopAction::Exit { close_transcript: true },
        Command::CycleMode => LoopAction::CycleMode,
        Command::ToggleTranscript => toggle(shown),
        Command::FilePickerFilter(f) => LoopAction::FilePicker(Command::FilePickerFilter(f)),
        Command::FilePickerAccept => LoopAction::FilePicker(Command::FilePickerAccept),
        Command::FilePickerClose => LoopAction::FilePicker(Command::FilePickerClose),
    }
}

/// What a command leads to while a turn runs; without one, no more will come. The transcript
/// does not open then, nor does the file picker.
pub open spec fn running_effect(command: Option<Command>, shown: Shown) -> LoopAction {
    match command {
        Some(Command::Submit(line)) => LoopAction::Keep(Command::Submit(line)),
        Some(Command::Cancel) => LoopAction::Keep(Command::Cancel),
        Some(Command::SelectMove(delta)) => move_effect(delta, shown),
        Some(Command::Exit) => LoopAction::Exit { close_transcript: true },
        Some(Command::CycleMode) => LoopAction::CycleMode,
        _ => LoopAction::Nothing,
    }
}

/// What a command leads to while a turn runs.
pub fn running_action(command: Option<Command>, shown: Shown) -> (r: LoopAction)
    ensures
        r == running_effect(command, shown),
{
    match command {
        Some(Command::Submit(line)) => LoopAction::Keep(Command::Submit(line)),
        Some(Command::Cancel) => LoopAction::Keep(Command::Cancel),
        Some(Command::SelectMove(delta)) => route_select_move(delta, shown),
        Some(Command::Exit) => LoopAction::Exit { close_transcript: true },
        Some(Command::CycleMode) => LoopAction::CycleMode,
        _ => LoopAction::Nothing,
    }
}

/// What a command leads to while nothing runs; without one, the loop ends.
pub open spec fn idle_effect(command: Option<Command>, shown: Shown) -> LoopAction {
    match command {
        Some(Command::Submit(line)) => LoopAction::Keep(Command::Submit(line)),
        Some(Command::Cancel) => LoopAction::Keep(Command::Cancel),
        Some(Command::Exit) => LoopAction::Exit { close_transcript: true },
        Some(c) => pending_effect(c, shown),
        None => LoopAction::Exit { close_transcript: false },
    }
}

/// What a command leads to while nothing runs.
pub fn idle_action(command: Option<Command>, shown: Shown) -> (r: LoopAction)
    ensures
        r == idle_effect(command, shown),
{
    match command {
        Some(Command::Submit(line)) => LoopAction::Keep(Command::Submit(line)),
        Some(Command::Cancel) => LoopAction::Keep(Command::Cancel),
        Some(Command::Exit) => LoopAction::Exit { close_transcript: true },
        Some(c) => pending_action(c, shown),
        None => LoopAction::Exit { close_transcript: false },
    }
}

/// What the loop waits for.
#[derive(Debug, PartialEq, Eq)]
pub enum Phase {
    /// A pending command is looked at.
    Pending(Command),
    /// A turn runs.
    Running,
    Idle,
}

/// What the loop does next: a pending command goes before a turn that runs.
pub fn next_phase(pending: Option<Command>, running: bool) -> (r: Phase)
    ensures
        r == (match pending {
            Some(c) => Phase::Pending(c),
            None => if running {
                Phase::Running
            } else {
                Phase::Idle
            },
        }),
{
    match pending {
        Some(c) => Phase::Pending(c),
        None => if running {
            Phase::Running
        } else {
            Phase::Idle
        },
    }
}

/// A line that is entered is never lost, whether a turn runs or not: it is kept, and then taken
/// as input.
pub proof fn entered_lines_are_never_lost(line: String, shown: Shown)
    ensures
        running_effect(Some(Command::Submit(line)), shown) == LoopAction::Keep(
            Command::Submit(line),
        ),
        idle_effect(Some(Command::Submit(line)), shown) == LoopAction::Keep(Command::Submit(line)),
        pending_effect(Command::Submit(line), shown) == LoopAction::Chat(line),
{
}

/// Leaving is possible at every moment, and cancelling reaches the turn that runs.
pub proof fn leaving_and_cancelling_always_work(shown: Shown)
    ensures
        pending_effect(Command::Exit, shown) is Exit,
        running_effect(Some(Command::Exit), shown) is Exit,
        idle_effect(Some(Command::Exit), shown) is Exit,
        running_effect(Some(Command::Cancel), shown) == LoopAction::Keep(Command::Cancel),
        idle_effect(Some(Command::Cancel), shown) == LoopAction::Keep(Command::Cancel),
        pending_effect(Command::Cancel, shown) is CancelTurn,
{
}

/// The transcript does not open while a turn runs.
pub proof fn transcripts_open_only_between_turns(command: Option<Command>, shown: Shown)
    ensures
        !(running_effect(command, shown) is OpenTranscript),
{
}

// ---------------------------------------------------------------------------
// Finished turns
// ---------------------------------------------------------------------------
/// What a finished turn leads to.
#[derive(Debug, PartialEq, Eq)]
pub enum TurnAction {
    Nothing,
    /// The session is given a title.
    MakeTitle,
    /// The mode switches.
    Switch(ModeSwitch),
    /// The user is told something.
    Say(String),
    /// The error is shown as a reply.
    Reply(String),
}

/// Whether a session is given a title: after a turn of the main agent, once.
pub open spec fn needs_title(
    active: AgentKind,
    titled: Option<Seq<char>>,
    session: Seq<char>,
) -> bool {
    active == AgentKind::Main && titled != Some(session)
}

/// What a finished turn of the agent `active` leads to in the session `session`, where `titled`
/// was given a title last.
pub open spec fn is_turn_action(
    r: TurnAction,
    outcome: TurnOutcome,
    active: AgentKind,
    titled: Option<Seq<char>>,
    session: Seq<char>,
) -> bool {
    match outcome {
        TurnOutcome::Message(_) => r == (if needs_title(active, titled, session) {
            TurnAction::MakeTitle
        } else {
            TurnAction::Nothing
        }),
        TurnOutcome::Handoff { target, payload } => match agent_named(target@) {
            Some(kind) => r == TurnAction::Switch(ModeSwitch { target: kind, step_with: payload }),
            None => r matches TurnAction::Say(line) && line@
                == "Error: handoff requested unknown agent `"@ + target@ + "`"@,
        },
        TurnOutcome::Failed(e) => r matches TurnAction::Reply(line) && line@ == "Error: "@ + e@,
    }
}

/// What a finished turn of the agent `active` leads to in the session `session`; `titled` is
/// the session that was given a title last.
pub fn turn_action(
    outcome: TurnOutcome,
    active: AgentKind,
    titled: &Option<String>,
    session: &str,
) -> (r: TurnAction)
    ensures
        is_turn_action(r, outcome, active, opt_text(*titled), session@),
{
    match outcome {
        TurnOutcome::Message(_) => {
            let done = match titled {
                Some(t) => same(t.as_str(), session),
                None => false,
            };
            if active == AgentKind::Main && !done {
                TurnAction::MakeTitle
            } else {
                TurnAction::Nothing
            }
        },
        TurnOutcome::Handoff { target, payload } => match AgentKind::from_target(target.as_str()) {
            Some(kind) => TurnAction::Switch(ModeSwitch { target: kind, step_with: payload }),
            None => {
                let mut line = copy("Error: handoff requested unknown agent `");
                line.append(target.as_str());
                line.append("`");
                TurnAction::Say(line)
            },
        },
        TurnOutcome::Failed(e) => {
            let mut line = copy("Error: ");
            line.append(e.as_str());
            TurnAction::Reply(line)
        },
    }
}

/// A handoff that an agent makes leads to the agent that it names: the loop never calls it
/// unknown.
pub proof fn handoffs_are_followed(h: Handoff)
    ensures
        agent_named(h.destination().name()) == Some(h.destination()),
{
    handoffs_lead_to_agents(h);
}

// ---------------------------------------------------------------------------
// The loop as a whole
// ---------------------------------------------------------------------------
/// How many of a session's first items its title is made from.
pub const TITLE_ITEMS: usize = 8;

/// Where the loop stands.
pub struct LoopState {
    /// The command that is looked at next.
    pub pending: Option<Command>,
    /// Whether a turn runs.
    pub running: bool,
    pub active: AgentKind,
    /// The session that was given a title last.
    pub titled: Option<String>,
    /// Whether the transcript is shown.
    pub transcript: bool,
    /// Whether the loop has ended.
    pub done: bool,
}

/// What the loop does when it comes round.
#[derive(Debug, PartialEq, Eq)]
pub enum Round {
    Act(LoopAction),
    /// It waits for the turn, and for commands and approvals meanwhile.
    AwaitTurn,
    AwaitCommand,
}

/// Where the loop stands after an action.
pub open spec fn after_action(s: LoopState, action: LoopAction) -> LoopState {
    match action {
        LoopAction::Keep(c) => LoopState { pending: Some(c), ..s },
        LoopAction::CancelTurn => LoopState { running: false, ..s },
        LoopAction::OpenTranscript => LoopState { transcript: true, ..s },
        LoopAction::CloseTranscript => LoopState { transcript: false, ..s },
        LoopAction::Exit { close_transcript } => LoopState {
            running: false,
            transcript: s.transcript && !close_transcript,
            done: true,
            ..s
        },
        _ => s,
    }
}

/// What a command leads to.
pub open spec fn command_effect(s: LoopState, command: Option<Command>, file_picker: bool) -> LoopAction {
    let shown = Shown { file_picker, transcript: s.transcript };
    if s.running {
        running_effect(command, shown)
    } else {
        idle_effect(command, shown)
    }
}

/// Where the loop stands after a command.
pub open spec fn after_command(s: LoopState, command: Option<Command>, file_picker: bool) -> LoopState {
    after_action(s, command_effect(s, command, file_picker))
}

/// What the loop does when it comes round, and where it stands then.
pub open spec fn round_of(s: LoopState, file_picker: bool) -> (Round, LoopState) {
    match s.pending {
        Some(c) => {
            let action = pending_effect(c, Shown { file_picker, transcript: s.transcript });
            (Round::Act(action), after_action(LoopState { pending: None, ..s }, action))
        },
        None => (
            if s.running {
                Round::AwaitTurn
            } else {
                Round::AwaitCommand
            },
            s,
        ),
    }
}

/// Where the loop stands after a turn in the session `session` ended.
pub open spec fn after_turn(s: LoopState, outcome: TurnOutcome, session: String) -> LoopState {
    if outcome is Message && needs_title(s.active, opt_text(s.titled), session@) {
        LoopState { running: false, titled: Some(session), ..s }
    } else {
        LoopState { running: false, ..s }
    }
}

impl LoopState {
    /// The loop when it starts: nothing runs, and the main agent is active.
    pub fn new() -> (r: LoopState)
        ensures
            r == (LoopState {
                pending: None,
                running: false,
                active: AgentKind::Main,
                titled: None,
                transcript: false,
                done: false,
            }),
    {
        LoopState {
            pending: None,
            running: false,
            active: AgentKind::Main,
            titled: None,
            transcript: false,
            done: false,
        }
    }

    fn apply(&mut self, action: LoopAction) -> (r: LoopAction)
        ensures
            *final(self) == after_action(*old(self), action),
            match action {
                LoopAction::Keep(_) => r is Nothing,
                _ => r == action,
            },
    {
        match action {
            LoopAction::Keep(c) => {
                self.pending = Some(c);
                LoopAction::Nothing
            },
            LoopAction::CancelTurn => {
                self.running = false;
                LoopAction::CancelTurn
            },
            LoopAction::OpenTranscript => {
                self.transcript = true;
                LoopAction::OpenTranscript
            },
            LoopAction::CloseTranscript => {
                self.transcript = false;
                LoopAction::CloseTranscript
            },
            LoopAction::Exit { close_transcript } => {
                self.running = false;
                self.transcript = self.transcript && !close_transcript;
                self.done = true;
                LoopAction::Exit { close_transcript }
            },
            other => other,
        }
    }

    /// The loop comes round: a pending command is taken and acted on, or else the loop waits.
    /// `file_picker` says whether the file picker is open.
    pub fn round(&mut self, file_picker: bool) -> (r: Round)
        ensures
            (r, *final(self)) == round_of(*old(self), file_picker),
    {
        let shown = Shown { file_picker, transcript: self.transcript };
        match next_phase(self.pending.take(), self.running) {
            Phase::Pending(c) => Round::Act(self.apply(pending_action(c, shown))),
            Phase::Running => Round::AwaitTurn,
            Phase::Idle => Round::AwaitCommand,
        }
    }

    /// A command came, or none will come any more. What is kept for the next round is nothing to
    /// do now.
    pub fn command(&mut self, command: Option<Command>, file_picker: bool) -> (r: LoopAction)
        ensures
            *final(self) == after_command(*old(self), command, file_picker),
            match command_effect(*old(self), command, file_picker) {
                LoopAction::Keep(_) => r is Nothing,
                action => r == action,
            },
    {
        let shown = Shown { file_picker, transcript: self.transcript };
        let action = if self.running {
            running_action(command, shown)
        } else {
            idle_action(command, shown)
        };
        self.apply(action)
    }

    /// A turn was started.
    pub fn turn_started(&mut self)
        ensures
            *final(self) == (LoopState { running: true, ..*old(self) }),
    {
        self.running = true;
    }

    /// The turn that ran in the session `session` ended.
    pub fn turn_ended(&mut self, outcome: TurnOutcome, session: String) -> (r: TurnAction)
        ensures
            *final(self) == after_turn(*old(self), outcome, session),
            is_turn_action(r, outcome, old(self).active, opt_text(old(self).titled), session@),
    {
        self.running = false;
        let action = turn_action(outcome, self.active, &self.titled, session.as_str());
        match action {
            TurnAction::MakeTitle => {
                self.titled = Some(session);
                TurnAction::MakeTitle
            },
            other => other,
        }
    }

    /// An approval is asked for, which the transcript would hide. Says whether the transcript
    /// has to be closed.
    pub fn approval_asked(&mut self) -> (r: bool)
        ensures
            r == old(self).transcript,
            *final(self) == (LoopState { transcript: false, ..*old(self) }),
    {
        let r = self.transcript;
        self.transcript = false;
        r
    }

    /// An approval was answered, or the whole turn is to be cancelled. `stashed` is what the
    /// user entered meanwhile. Says whether the turn has to be cancelled.
    pub fn approval_ended(&mut self, outcome: ApprovalOutcome, stashed: Option<String>) -> (r: bool)
        ensures
            r == (outcome == ApprovalOutcome::Cancelled),
            *final(self) == (LoopState {
                running: old(self).running && outcome != ApprovalOutcome::Cancelled,
                pending: match stashed {
                    Some(line) => Some(Command::Submit(line)),
                    None => old(self).pending,
                },
                ..*old(self)
            }),
    {
        match stashed {
            Some(line) => {
                self.pending = Some(Command::Submit(line));
            },
            None => {},
        }
        if outcome == ApprovalOutcome::Cancelled {
            self.running = false;
            true
        } else {
            false
        }
    }

    /// A command ended in a session that is another one than before, or empty.
    pub fn command_done(&mut self, reset: bool)
        ensures
            *final(self) == (LoopState {
                titled: if reset {
                    None
                } else {
                    old(self).titled
                },
                ..*old(self)
            }),
    {
        if reset {
            self.titled = None;
        }
    }

    /// The mode was switched, after whatever ran was stopped.
    pub fn mode_switched(&mut self, target: AgentKind)
        ensures
            *final(self) == (LoopState { active: target, running: false, ..*old(self) }),
    {
        self.active = target;
        self.running = false;
    }
}

/// Whatever the loop is doing, a line that is entered is taken as input in the next round, and
/// is then no longer pending.
pub proof fn entered_lines_are_taken_next(
    s: LoopState,
    line: String,
    file_picker: bool,
    later_file_picker: bool,
)
    ensures
        ({
            let kept = after_command(s, Some(Command::Submit(line)), file_picker);
            let (round, next) = round_of(kept, later_file_picker);
            &&& round == Round::Act(LoopAction::Chat(line))
            &&& next == (LoopState { pending: None, ..s })
        }),
{
}

/// Whatever the loop is doing, no turn runs any more in the round after a cancel.
pub proof fn cancelling_stops_the_turn(s: LoopState, file_picker: bool, later_file_picker: bool)
    ensures
        ({
            let kept = after_command(s, Some(Command::Cancel), file_picker);
            let (round, next) = round_of(kept, later_file_picker);
            &&& round == Round::Act(LoopAction::CancelTurn)
            &&& next == (LoopState { pending: None, running: false, ..s })
        }),
{
}

/// Leaving ends the loop from every state: nothing runs any more, and the transcript is closed.
pub proof fn leaving_ends_everything(s: LoopState, file_picker: bool)
    ensures
        ({
            let left = after_command(s, Some(Command::Exit), file_picker);
            left.done && !left.running && !left.transcript
        }),
{
}

/// A session is given a title at most once: once a turn led to one, no later turn in that
/// session does, whatever commands, rounds and turns of that session lie between.
pub proof fn titles_are_made_once(
    s: LoopState,
    outcome: TurnOutcome,
    later: TurnOutcome,
    session: String,
    active: AgentKind,
)
    requires
        outcome is Message,
        s.active == AgentKind::Main,
    ensures
        ({
            let titled = after_turn(s, outcome, session);
            &&& opt_text(titled.titled) == Some(session@)
            &&& !needs_title(active, opt_text(titled.titled), session@)
            &&& after_turn(titled, later, session).titled == titled.titled
        }),
        forall|t: LoopState, command: Option<Command>, picker: bool| #[trigger]
            after_command(t, command, picker).titled == t.titled,
        forall|t: LoopState, picker: bool| (#[trigger] round_of(t, picker)).1.titled == t.titled,
{
}

/// A turn runs on through every command but those to leave: what a command comes to while a turn
/// runs is kept for the next round, or touches the turn no more than by ending the loop.
pub proof fn commands_leave_the_turn_alone(s: LoopState, command: Option<Command>, file_picker: bool)
    requires
        s.running,
    ensures
        after_command(s, command, file_picker).running == !(command == Some(Command::Exit)),
        after_command(s, command, file_picker).active == s.active,
{
}

// ---------------------------------------------------------------------------
// Starting
// ---------------------------------------------------------------------------
/// What a start of the interactive mode begins with: the configuration that is there, or else a
/// setup.
pub fn usable_config(config: Option<ShirlConfig>) -> (r: Option<ShirlConfig>)
    ensures
        r == (match config {
            Some(c) => if c.default.provider@.len() > 0 && c.default.model@.len() > 0 {
                Some(c)
            } else {
                None
            },
            None => None,
        }),
{
    match config {
        Some(c) => if c.is_complete() {
            Some(c)
        } else {
            None
        },
        None => None,
    }
}

/// The configuration after a setup.
pub fn config_after_setup(provider: &str, model: &str) -> (r: ShirlConfig)
    ensures
        r.default.provider@ == provider@,
        r.default.model@ == model@,
        r.default.web_search is None,
        r.default.reasoning is None,
        r.default.sampling is None,
        r.memory.enabled && r.memory.embedder is None && r.memory.recall_limit == 5
            && r.memory.auto_distill,
        r.agents@ == Map::<Seq<char>, AgentModelConfig>::empty(),
        r.providers@ == Map::<Seq<char>, CustomProviderEntry>::empty(),
        r.models@ == Map::<Seq<char>, TextMap<ModelExtension>>::empty(),
{
    let mut config = ShirlConfig::default();
    config.set_default(provider, model);
    config
}

/// The provider and the model of each agent when the interactive mode starts.
pub fn starting_models(config: &ShirlConfig) -> (r: Vec<(AgentKind, String, String)>)
    ensures
        r@.len() == 3,
        r@[0].0 == AgentKind::Main && r@[0].1 == config.default.provider && r@[0].2
            == config.default.model,
        r@[1].0 == AgentKind::Plan && r@[1].1@ == config.provider_of("plan"@) && r@[1].2@
            == config.model_of("plan"@),
        r@[2].0 == AgentKind::Review && r@[2].1@ == config.provider_of("review"@) && r@[2].2@
            == config.model_of("review"@),
{
    let mut r: Vec<(AgentKind, String, String)> = Vec::new();
    r.push((AgentKind::Main, config.default.provider.clone(), config.default.model.clone()));
    r.push(
        (AgentKind::Plan, copy(config.provider_for("plan")), copy(config.model_for("plan"))),
    );
    r.push(
        (
            AgentKind::Review,
            copy(config.provider_for("review")),
            copy(config.model_for("review")),
        ),
    );
    r
}

/// What the user is told where the sandbox cannot be made.
pub fn sandbox_failed_lines(error: &str) -> (r: Vec<String>)
    ensures
        texts(r@) == seq![
            "⚠ Failed to create sandbox: "@ + error@,
            "  Falling back to unsandboxed mode. Remove --sandbox to suppress this warning."@,
        ],
{
    let mut r: Vec<String> = Vec::new();
    let mut first = copy("⚠ Failed to create sandbox: ");
    first.append(error);
    r.push(first);
    r.push(
        copy("  Falling back to unsandboxed mode. Remove --sandbox to suppress this warning."),
    );
    assert(texts(r@) =~= seq![
        "⚠ Failed to create sandbox: "@ + error@,
        "  Falling back to unsandboxed mode. Remove --sandbox to suppress this warning."@,
    ]);
    r
}

/// What the user is told where the catalog cannot be loaded.
pub fn catalog_failed_line(error: &str) -> (r: String)
    ensures
        r@ == "Warning: could not load the model catalog ("@ + error@
            + "). Only custom providers defined in config.toml are available."@,
{
    let mut r = copy("Warning: could not load the model catalog (");
    r.append(error);
    r.append("). Only custom providers defined in config.toml are available.");
    r
}

/// The permission mode can be changed and the selection moved whether a turn runs or not. A move
/// is for the file picker where it is open, else for the transcript.
pub proof fn modes_and_moves_always_work(delta: i32, shown: Shown)
    ensures
        pending_effect(Command::CycleMode, shown) is CycleMode,
        running_effect(Some(Command::CycleMode), shown) is CycleMode,
        idle_effect(Some(Command::CycleMode), shown) is CycleMode,
        running_effect(Some(Command::SelectMove(delta)), shown) == idle_effect(
            Some(Command::SelectMove(delta)),
            shown,
        ),
        shown.file_picker ==> idle_effect(Some(Command::SelectMove(delta)), shown)
            == LoopAction::MovePicker(delta),
        !shown.file_picker && shown.transcript ==> idle_effect(
            Some(Command::SelectMove(delta)),
            shown,
        ) == LoopAction::ScrollTranscript(delta),
{
}

/// Between turns the transcript opens and closes in turn: twice the same key leaves things as
/// they were.
pub proof fn toggling_twice_changes_nothing(s: LoopState, file_picker: bool)
    requires
        !s.running,
    ensures
        ({
            let once = after_command(s, Some(Command::ToggleTranscript), file_picker);
            &&& once.transcript == !s.transcript
            &&& after_command(once, Some(Command::ToggleTranscript), file_picker) == s
        }),
{
}

/// Between turns, what the user does in the file picker reaches it.
pub proof fn the_file_picker_is_reached(filter: String, shown: Shown)
    ensures
        idle_effect(Some(Command::FilePickerFilter(filter)), shown) == LoopAction::FilePicker(
            Command::FilePickerFilter(filter),
        ),
        idle_effect(Some(Command::FilePickerAccept), shown) == LoopAction::FilePicker(
            Command::FilePickerAccept,
        ),
        idle_effect(Some(Command::FilePickerClose), shown) == LoopAction::FilePicker(
            Command::FilePickerClose,
        ),
{
}

/// The loop ends by leaving or, between turns, with the end of input, and by nothing else.
pub proof fn only_leaving_ends_the_loop(s: LoopState, command: Option<Command>, file_picker: bool)
    requires
        !s.done,
    ensures
        after_command(s, command, file_picker).done == (command == Some(Command::Exit) || (command
            is None && !s.running)),
{
}

/// How a turn ends for the user: a handoff to an agent that there is leads to that agent with
/// what it is told, an error is shown whole, and a reply leads to a title in a session of the
/// main agent that has none.
pub proof fn turns_end_as_they_say(
    r: TurnAction,
    outcome: TurnOutcome,
    active: AgentKind,
    titled: Option<Seq<char>>,
    session: Seq<char>,
    kind: AgentKind,
)
    requires
        is_turn_action(r, outcome, active, titled, session),
    ensures
        outcome matches TurnOutcome::Handoff { target, payload } ==> (target@ == kind.name() ==> r
            == TurnAction::Switch(ModeSwitch { target: kind, step_with: payload })),
        outcome matches TurnOutcome::Failed(e) ==> (r matches TurnAction::Reply(line) && line@
            == "Error: "@ + e@),
        outcome is Message && active == AgentKind::Main && titled is None ==> r is MakeTitle,
        outcome is Message && active != AgentKind::Main ==> r is Nothing,
        outcome is Message ==> r is MakeTitle || r is Nothing,
{
    agents_are_found_by_name(kind, kind.name());
}

/// A turn that ends leaves nothing running and everything else but the title as it was.
pub proof fn ended_turns_leave_the_rest(s: LoopState, outcome: TurnOutcome, session: String)
    ensures
        ({
            let t = after_turn(s, outcome, session);
            &&& !t.running
            &&& t.pending == s.pending && t.active == s.active && t.transcript == s.transcript
            &&& t.done == s.done
            &&& !(outcome is Message) ==> t.titled == s.titled
        }),
{
}

/// What is pending goes first, then the turn that runs, then the next command.
pub proof fn pending_commands_go_first(pending: Option<Command>, running: bool, r: Phase)
    requires
        call_ensures(next_phase, (pending, running), r),
    ensures
        pending matches Some(c) ==> r == Phase::Pending(c),
        pending is None && running ==> r is Running,
        pending is None && !running ==> r is Idle,
{
}

/// The interactive mode starts with a configuration that names a provider and a model, as it is,
/// and else with a setup, after which the configuration names what was picked.
pub proof fn complete_configurations_are_used(
    config: ShirlConfig,
    r: Option<ShirlConfig>,
    provider: &str,
    model: &str,
    made: ShirlConfig,
)
    requires
        call_ensures(usable_config, (Some(config),), r),
        call_ensures(config_after_setup, (provider, model), made),
    ensures
        config.default.provider@.len() > 0 && config.default.model@.len() > 0 ==> r == Some(config),
        config.default.provider@.len() == 0 || config.default.model@.len() == 0 ==> r is None,
        made.provider_of("main"@) == provider@ && made.model_of("main"@) == model@,
        made.provider_of("plan"@) == provider@ && made.model_of("plan"@) == model@,
        made.memory.enabled,
{
}

/// Each agent starts with the model that the configuration gives it.
pub proof fn agents_start_with_their_models(
    config: ShirlConfig,
    r: Vec<(AgentKind, String, String)>,
    kind: AgentKind,
)
    requires
        call_ensures(starting_models, (&config,), r),
        config.own_entry("main"@) is None,
    ensures
        exists|i: int|
            0 <= i < r@.len() && (#[trigger] r@[i]).0 == kind && r@[i].1@ == config.provider_of(
                kind.name(),
            ) && r@[i].2@ == config.model_of(kind.name()),
{
    let i: int = match kind {
        AgentKind::Main => 0,
        AgentKind::Plan => 1,
        AgentKind::Review => 2,
    };
    assert(r@[i].0 == kind);
}

/// What is entered while an approval is asked for is taken next, and the turn goes on exactly
/// where the approval was answered.
pub proof fn approvals_lose_nothing(
    s: &mut LoopState,
    outcome: ApprovalOutcome,
    line: String,
    cancelled: bool,
    file_picker: bool,
)
    requires
        call_ensures(LoopState::approval_ended, (s, outcome, Some(line)), cancelled),
    ensures
        cancelled == (outcome == ApprovalOutcome::Cancelled),
        final(s).running == (old(s).running && !cancelled),
        round_of(*final(s), file_picker).0 == Round::Act(LoopAction::Chat(line)),
{
}

/// A command has its effect in the loop at once, or is kept for the next round.
pub proof fn commands_have_their_effect(
    s: &mut LoopState,
    command: Option<Command>,
    file_picker: bool,
    r: LoopAction,
)
    requires
        call_ensures(LoopState::command, (s, command, file_picker), r),
    ensures
        *final(s) == after_command(*old(s), command, file_picker),
        command matches Some(Command::Submit(line)) ==> final(s).pending == Some(
            Command::Submit(line),
        ),
        command == Some(Command::Exit) ==> final(s).done && r is Exit,
        command == Some(Command::CycleMode) ==> r is CycleMode,
        final(s).active == old(s).active,
{
}

/// A mode that was switched to is active, and nothing runs in it yet.
pub proof fn switched_modes_are_active(s: &mut LoopState, target: AgentKind)
    requires
        call_ensures(LoopState::mode_switched, (s, target), ()),
    ensures
        final(s).active == target,
        !final(s).running,
        final(s).pending == old(s).pending,
        final(s).titled == old(s).titled,
{
}

/// A turn that was started runs, an approval that is asked for is not hidden by the transcript,
/// and a session that was reset can be given a title again.
pub proof fn the_loop_keeps_track(
    started: &mut LoopState,
    asked: &mut LoopState,
    done: &mut LoopState,
    close: bool,
)
    requires
        call_ensures(LoopState::turn_started, (started,), ()),
        call_ensures(LoopState::approval_asked, (asked,), close),
        call_ensures(LoopState::command_done, (done, true), ()),
    ensures
        final(started).running && final(started).active == old(started).active,
        !final(asked).transcript && close == old(asked).transcript && final(asked).running
            == old(asked).running,
        final(done).titled is None && final(done).active == old(done).active,
{
}

} // verus!
