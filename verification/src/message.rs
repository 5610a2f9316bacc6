//! What the supervisor is told and what it asks for.
//!
//! The caller owns every process, pipe, timer and watcher. It reports what
//! happened as an [`Event`] and carries out each [`Action`] it gets back, in
//! order. Lines travel without their terminator; the caller adds one newline
//! when it writes a line out.

use crate::text::texts;
use vstd::prelude::*;

verus! {

/// Seconds a stopping child gets between the closing of its input and the
/// check whether it has exited.
pub const GRACE_PERIOD_SECS: u64 = 2;

/// Seconds of quiet after which a burst of file changes counts as one batch.
pub const DEBOUNCE_WINDOW_SECS: u64 = 1;

/// Body of the notification that completes a replayed handshake on the child's
/// side.
pub const INITIALIZED: &'static str = "{\"method\":\"notifications/initialized\",\"jsonrpc\":\"2.0\"}";

/// Body of the notification that asks the client to fetch the tool list again.
pub const TOOLS_LIST_CHANGED: &'static str =
    "{\"method\":\"notifications/tools/list_changed\",\"jsonrpc\":\"2.0\"}";

/// Body of the notification that asks the client to fetch the prompt list again.
pub const PROMPTS_LIST_CHANGED: &'static str =
    "{\"method\":\"notifications/prompts/list_changed\",\"jsonrpc\":\"2.0\"}";

/// Body of the notification that asks the client to fetch the resource list
/// again.
pub const RESOURCES_LIST_CHANGED: &'static str =
    "{\"method\":\"notifications/resources/list_changed\",\"jsonrpc\":\"2.0\"}";

/// What becomes of one standard stream of a process that is started.
#[derive(Clone, Copy, Debug, PartialEq, Eq, Structural)]
pub enum Stream {
    /// The stream is a pipe that the supervisor holds the other end of.
    Piped,
    /// The stream is the supervisor's own, passed through.
    Inherited,
}

/// What becomes of the three standard streams of a process that is started.
#[derive(Clone, Copy, Debug, PartialEq, Eq, Structural)]
pub struct Wiring {
    pub input: Stream,
    pub output: Stream,
    pub errors: Stream,
}

/// The streams of a child: input and output are piped and carry the
/// protocol; the error stream is no part of it and is passed through.
pub open spec fn child_wiring() -> Wiring {
    Wiring { input: Stream::Piped, output: Stream::Piped, errors: Stream::Inherited }
}

/// The streams of a build: all three are piped, so that nothing of the build
/// reaches the client.
pub open spec fn build_wiring() -> Wiring {
    Wiring { input: Stream::Piped, output: Stream::Piped, errors: Stream::Piped }
}

impl Wiring {
    /// The streams of a child.
    pub fn for_child() -> (wiring: Wiring)
        ensures
            wiring == child_wiring(),
    {
        Wiring { input: Stream::Piped, output: Stream::Piped, errors: Stream::Inherited }
    }

    /// The streams of a build.
    pub fn for_build() -> (wiring: Wiring)
        ensures
            wiring == build_wiring(),
    {
        Wiring { input: Stream::Piped, output: Stream::Piped, errors: Stream::Piped }
    }
}

/// How the build command ended.
#[derive(Clone, Copy, Debug, PartialEq, Eq, Structural)]
pub enum BuildOutcome {
    /// It ran and reported success.
    Succeeded,
    /// It ran and reported failure.
    Failed,
    /// It could not be run at all.
    NotStarted,
}

/// What a non-blocking look at a child's exit status showed.
#[derive(Clone, Copy, Debug, PartialEq, Eq, Structural)]
pub enum ExitPoll {
    ExitedCleanly,
    ExitedWithError,
    StillRunning,
    /// The status could not be read.
    Unknown,
}

/// The three capability lists a client is told to fetch again after a restart.
#[derive(Clone, Copy, Debug, PartialEq, Eq, Structural)]
pub enum ListKind {
    Tools,
    Prompts,
    Resources,
}

/// Why a line is written to a child's input.
#[derive(Clone, Copy, Debug, PartialEq, Eq, Structural)]
pub enum Purpose {
    /// The client's own initialize request, on its way to the first child that
    /// serves it.
    Initialize,
    /// Any later line of the client, passed on verbatim.
    Forward,
    /// The captured initialize request, shown again to a restarted child.
    ReplayInitialize,
    /// The synthetic `notifications/initialized` that ends a replayed handshake.
    Initialized,
    /// A remembered subscribe request, shown again to a restarted child.
    ReplaySubscription,
}

/// Why a line is written to the client's output.
#[derive(Clone, Copy, Debug, PartialEq, Eq, Structural)]
pub enum Origin {
    /// A child's answer to the client's own initialize request.
    InitializeResponse,
    /// Any other line of a child, passed on verbatim.
    Relayed,
    /// A synthetic notification that a capability list may have changed.
    ListChanged(ListKind),
}

/// Something worth telling the operator; it changes nothing.
#[derive(Clone, Copy, Debug, PartialEq, Eq, Structural)]
pub enum Notice {
    RestartQueued,
    RestartRefused,
    WatchFailed,
    RunningBuild,
    BuildSucceeded,
    BuildFailed,
    BuildNotStarted,
    StopSent,
    ClosingInput,
    ExitedCleanly,
    ExitedWithError,
    StillRunning,
    PollFailed,
    Killed,
    KillFailed,
    RunningCommand,
    Started,
    SpawnFailed,
    WaitingForProcess,
    WaitingForInput,
    SkippingResponse,
    ChildOutputEnded,
    WriteFailed,
    ShuttingDown,
}

/// Something that happened outside and that the supervisor has to react to.
#[derive(Clone, Debug, PartialEq, Eq)]
pub enum Event {
    /// A restart is asked for directly.
    Trigger,
    /// The watcher delivered a settled batch holding this many change events.
    FilesChanged { events: usize },
    /// The watcher delivered a batch of this many errors.
    WatchFailed { errors: usize },
    /// The build command asked for by [`Action::RunBuild`] ended.
    BuildFinished(BuildOutcome),
    /// The wait asked for by [`Action::WaitGrace`] is over.
    GraceElapsed,
    /// The look asked for by [`Action::PollExit`] gave this.
    ExitPolled(ExitPoll),
    /// The kill asked for by [`Action::Kill`] went through, or did not.
    KillFinished { killed: bool },
    /// The spawn asked for by [`Action::Spawn`] produced a child, or did not.
    SpawnFinished { started: bool },
    /// The client sent a line.
    ClientLine(String),
    /// The client's input stream ended.
    ClientClosed,
    /// The child of this generation printed a line.
    ChildLine { generation: u64, line: String },
    /// The output stream of the child of this generation ended.
    ChildClosed { generation: u64 },
    /// A write on behalf of this generation, to its child or to the client,
    /// failed.
    WriteFailed { generation: u64 },
    /// The operator asked the supervisor to stop.
    Shutdown,
}

/// Something the caller has to do on the supervisor's behalf.
#[derive(Clone, Debug, PartialEq, Eq)]
pub enum Action {
    /// Tell the operator.
    Log(Notice),
    /// Run the build command in `dir`, its streams wired as told, and report
    /// with [`Event::BuildFinished`].
    RunBuild { command: String, args: Vec<String>, dir: String, wiring: Wiring },
    /// Close the input stream of the child of this generation.
    CloseInput { generation: u64 },
    /// Wait this many seconds and report with [`Event::GraceElapsed`].
    WaitGrace { seconds: u64 },
    /// Look, without blocking, whether the child of this generation has exited
    /// and report with [`Event::ExitPolled`].
    PollExit { generation: u64 },
    /// Kill the child of this generation and report with
    /// [`Event::KillFinished`].
    Kill { generation: u64 },
    /// Start the run command in `dir` as the child of this generation, its
    /// streams wired as told, and report with [`Event::SpawnFinished`].
    Spawn { generation: u64, command: String, args: Vec<String>, dir: String, wiring: Wiring },
    /// Write this line to the input of the child of this generation.
    ToChild { generation: u64, line: String, purpose: Purpose },
    /// Write this line to the client's output.
    ToClient { generation: u64, line: String, origin: Origin },
    /// Leave: the supervisor was asked to stop and holds no child any more.
    Exit,
}

/// An [`Event`] with its text as character sequences.
pub enum EventView {
    Trigger,
    FilesChanged { events: usize },
    WatchFailed { errors: usize },
    BuildFinished(BuildOutcome),
    GraceElapsed,
    ExitPolled(ExitPoll),
    KillFinished { killed: bool },
    SpawnFinished { started: bool },
    ClientLine(Seq<char>),
    ClientClosed,
    ChildLine { generation: nat, line: Seq<char> },
    ChildClosed { generation: nat },
    WriteFailed { generation: nat },
    Shutdown,
}

/// An [`Action`] with its text as character sequences.
pub enum ActionView {
    Log(Notice),
    RunBuild { command: Seq<char>, args: Seq<Seq<char>>, dir: Seq<char>, wiring: Wiring },
    CloseInput { generation: nat },
    WaitGrace { seconds: nat },
    PollExit { generation: nat },
    Kill { generation: nat },
    Spawn {
        generation: nat,
        command: Seq<char>,
        args: Seq<Seq<char>>,
        dir: Seq<char>,
        wiring: Wiring,
    },
    ToChild { generation: nat, line: Seq<char>, purpose: Purpose },
    ToClient { generation: nat, line: Seq<char>, origin: Origin },
    Exit,
}

impl View for Event {
    type V = EventView;

    open spec fn view(&self) -> EventView {
        match *self {
            Event::Trigger => EventView::Trigger,
            Event::FilesChanged { events } => EventView::FilesChanged { events },
            Event::WatchFailed { errors } => EventView::WatchFailed { errors },
            Event::BuildFinished(outcome) => EventView::BuildFinished(outcome),
            Event::GraceElapsed => EventView::GraceElapsed,
            Event::ExitPolled(poll) => EventView::ExitPolled(poll),
            Event::KillFinished { killed } => EventView::KillFinished { killed },
            Event::SpawnFinished { started } => EventView::SpawnFinished { started },
            Event::ClientLine(line) => EventView::ClientLine(line@),
            Event::ClientClosed => EventView::ClientClosed,
            Event::ChildLine { generation, line } => EventView::ChildLine {
                generation: generation as nat,
                line: line@,
            },
            Event::ChildClosed { generation } => EventView::ChildClosed {
                generation: generation as nat,
            },
            Event::WriteFailed { generation } => EventView::WriteFailed {
                generation: generation as nat,
            },
            Event::Shutdown => EventView::Shutdown,
        }
    }
}

impl View for Action {
    type V = ActionView;

    open spec fn view(&self) -> ActionView {
        match *self {
            Action::Log(notice) => ActionView::Log(notice),
            Action::RunBuild { command, args, dir, wiring } => ActionView::RunBuild {
                command: command@,
                args: texts(args@),
                dir: dir@,
                wiring,
            },
            Action::CloseInput { generation } => ActionView::CloseInput {
                generation: generation as nat,
            },
            Action::WaitGrace { seconds } => ActionView::WaitGrace { seconds: seconds as nat },
            Action::PollExit { generation } => ActionView::PollExit { generation: generation as nat },
            Action::Kill { generation } => ActionView::Kill { generation: generation as nat },
            Action::Spawn { generation, command, args, dir, wiring } => ActionView::Spawn {
                generation: generation as nat,
                command: command@,
                args: texts(args@),
                dir: dir@,
                wiring,
            },
            Action::ToChild { generation, line, purpose } => ActionView::ToChild {
                generation: generation as nat,
                line: line@,
                purpose,
            },
            Action::ToClient { generation, line, origin } => ActionView::ToClient {
                generation: generation as nat,
                line: line@,
                origin,
            },
            Action::Exit => ActionView::Exit,
        }
    }
}

/// The views of a list of actions, in order.
pub open spec fn action_views(actions: Seq<Action>) -> Seq<ActionView> {
    Seq::new(actions.len(), |i: int| actions[i]@)
}

/// The body of the list-changed notification of a kind.
pub open spec fn list_changed_text(kind: ListKind) -> Seq<char> {
    match kind {
        ListKind::Tools => TOOLS_LIST_CHANGED@,
        ListKind::Prompts => PROMPTS_LIST_CHANGED@,
        ListKind::Resources => RESOURCES_LIST_CHANGED@,
    }
}

impl ListKind {
    /// The body of the notification for this list.
    pub fn body(&self) -> (text: &'static str)
        ensures
            text@ == list_changed_text(*self),
    {
        match self {
            ListKind::Tools => TOOLS_LIST_CHANGED,
            ListKind::Prompts => PROMPTS_LIST_CHANGED,
            ListKind::Resources => RESOURCES_LIST_CHANGED,
        }
    }
}

/// The message that goes with a notice.
pub open spec fn notice_text(notice: Notice) -> Seq<char> {
    match notice {
        Notice::RestartQueued => "Restart requested while another is under way"@,
        Notice::RestartRefused => "Restart refused: the restart count is exhausted"@,
        Notice::WatchFailed => "Watching for changes reported errors"@,
        Notice::RunningBuild => "Running build command"@,
        Notice::BuildSucceeded => "Build succeeded"@,
        Notice::BuildFailed => "Build failed"@,
        Notice::BuildNotStarted => "Error running build command"@,
        Notice::StopSent => "Sending stop to the running session"@,
        Notice::ClosingInput => "Closing running process stdin"@,
        Notice::ExitedCleanly => "Process exited successfully"@,
        Notice::ExitedWithError => "Process exited with error"@,
        Notice::StillRunning => "Process is still running"@,
        Notice::PollFailed => "Failed to check if process is closed"@,
        Notice::Killed => "Killed running process"@,
        Notice::KillFailed => "Failed to kill running process"@,
        Notice::RunningCommand => "Running run command"@,
        Notice::Started => "Command has started"@,
        Notice::SpawnFailed => "Error running run command"@,
        Notice::WaitingForProcess => "Waiting for process to start"@,
        Notice::WaitingForInput => "Waiting for input to initialize"@,
        Notice::SkippingResponse => "Skipping server initialize response"@,
        Notice::ChildOutputEnded => "Process output ended"@,
        Notice::WriteFailed => "Failed to write a line; ending the session"@,
        Notice::ShuttingDown => "Shutting down"@,
    }
}

impl Notice {
    /// The message to show the operator.
    pub fn text(&self) -> (text: &'static str)
        ensures
            text@ == notice_text(*self),
    {
        match self {
            Notice::RestartQueued => "Restart requested while another is under way",
            Notice::RestartRefused => "Restart refused: the restart count is exhausted",
            Notice::WatchFailed => "Watching for changes reported errors",
            Notice::RunningBuild => "Running build command",
            Notice::BuildSucceeded => "Build succeeded",
            Notice::BuildFailed => "Build failed",
            Notice::BuildNotStarted => "Error running build command",
            Notice::StopSent => "Sending stop to the running session",
            Notice::ClosingInput => "Closing running process stdin",
            Notice::ExitedCleanly => "Process exited successfully",
            Notice::ExitedWithError => "Process exited with error",
            Notice::StillRunning => "Process is still running",
            Notice::PollFailed => "Failed to check if process is closed",
            Notice::Killed => "Killed running process",
            Notice::KillFailed => "Failed to kill running process",
            Notice::RunningCommand => "Running run command",
            Notice::Started => "Command has started",
            Notice::SpawnFailed => "Error running run command",
            Notice::WaitingForProcess => "Waiting for process to start",
            Notice::WaitingForInput => "Waiting for input to initialize",
            Notice::SkippingResponse => "Skipping server initialize response",
            Notice::ChildOutputEnded => "Process output ended",
            Notice::WriteFailed => "Failed to write a line; ending the session",
            Notice::ShuttingDown => "Shutting down",
        }
    }
}

} // verus!
