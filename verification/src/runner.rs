//! The supervisor that callers drive: one [`Runner`] per invocation.
//!
//! A `Runner` owns all session state. Each call hands it one event and gets
//! back the next `Runner` with the actions to carry out, exactly as
//! [`RunnerView::step`] says.

use crate::config::{get_build_command, get_run_command, plan_of, resolve_command, Config};
use crate::language::Language;
use crate::message::{
    action_views, Action, ActionView, BuildOutcome, Event, EventView, ExitPoll, ListKind, Notice,
    Origin, Purpose, Wiring, GRACE_PERIOD_SECS, INITIALIZED,
};
use crate::model::{
    forwards, lemma_initial_wf, lemma_step_wf, observed_all, replays, Child, PlanView, RunnerView,
    Session, Stage,
};
use crate::subscription::{distinct, SubscriptionTable};
use crate::text::{copy_texts, optional_text, texts};
use vstd::prelude::*;

verus! {

/// Everything the supervisor keeps between two events.
#[derive(Debug)]
struct Core {
    language: Language,
    path: String,
    build_command: String,
    build_args: Vec<String>,
    run_command: String,
    run_args: Vec<String>,
    resend_resource_subscriptions: bool,
    accepted: u64,
    generation: u64,
    stage: Stage,
    child: Child,
    session: Session,
    client_open: bool,
    closing: bool,
    client_initialize_req: Option<String>,
    answered: bool,
    client_resource_subscriptions: SubscriptionTable,
    backlog: Vec<String>,
}

/// The supervisor of one invocation. Whatever events it is given, it is
/// always in a state that the model can reach.
#[derive(Debug)]
pub struct Runner {
    core: Core,
}

/// A next supervisor and the actions that lead to it.
pub type Turn = (Runner, Vec<Action>);

/// A next state and the actions that lead to it.
type Move = (Core, Vec<Action>);

impl View for Runner {
    type V = RunnerView;

    closed spec fn view(&self) -> RunnerView {
        self.core@
    }
}

impl View for Core {
    type V = RunnerView;

    closed spec fn view(&self) -> RunnerView {
        RunnerView {
            plan: PlanView {
                language: self.language,
                root: self.path@,
                build_command: self.build_command@,
                build_args: texts(self.build_args@),
                run_command: self.run_command@,
                run_args: texts(self.run_args@),
                resend: self.resend_resource_subscriptions,
            },
            accepted: self.accepted as nat,
            generation: self.generation as nat,
            stage: self.stage,
            child: self.child,
            session: self.session,
            client_open: self.client_open,
            closing: self.closing,
            captured: optional_text(self.client_initialize_req),
            answered: self.answered,
            subscriptions: self.client_resource_subscriptions@,
            backlog: texts(self.backlog@),
        }
    }
}

/// Whether a turn is the outcome that the model names.
pub open spec fn matches_outcome(turn: Turn, outcome: (RunnerView, Seq<ActionView>)) -> bool {
    turn.0@ == outcome.0 && action_views(turn.1@) == outcome.1
}

/// Whether a move is the outcome that the model names.
spec fn follows(turn: Move, outcome: (RunnerView, Seq<ActionView>)) -> bool {
    turn.0@ == outcome.0 && action_views(turn.1@) == outcome.1
}

/// No actions.
fn nothing() -> (actions: Vec<Action>)
    ensures
        action_views(actions@) == Seq::<ActionView>::empty(),
{
    let actions: Vec<Action> = Vec::new();
    assert(action_views(actions@) =~= Seq::<ActionView>::empty());
    actions
}

/// A list of one action.
fn only(action: Action) -> (actions: Vec<Action>)
    ensures
        action_views(actions@) == seq![action@],
{
    let mut actions: Vec<Action> = Vec::new();
    actions.push(action);
    assert(action_views(actions@) =~= seq![action@]);
    actions
}

/// Adds an action at the end of a list.
fn put(actions: &mut Vec<Action>, action: Action)
    ensures
        action_views(final(actions)@) == action_views(old(actions)@).push(action@),
{
    actions.push(action);
    assert(action_views(actions@) =~= action_views(old(actions)@).push(action@));
}

/// One list after another.
fn chain(first: Vec<Action>, second: Vec<Action>) -> (both: Vec<Action>)
    ensures
        action_views(both@) == action_views(first@) + action_views(second@),
{
    let mut both = first;
    let mut rest = second;
    both.append(&mut rest);
    assert(action_views(both@) =~= action_views(first@) + action_views(second@));
    both
}

impl Runner {
    /// The state is one that the model can reach.
    #[verifier::type_invariant]
    spec fn reachable(&self) -> bool {
        self.core@.wf()
    }

    /// Sets the supervisor up for a target root and a configuration and asks
    /// for the first restart at once.
    pub fn new(path: String, cfg: &Config) -> (turn: Turn)
        ensures
            matches_outcome(turn, RunnerView::initial(plan_of(path@, *cfg)).step(EventView::Trigger)),
            turn.0@.wf(),
    {
        let (build_command, build_args) = resolve_command(
            get_build_command(&cfg.language),
            &cfg.build,
        );
        let (run_command, run_args) = resolve_command(get_run_command(&cfg.language), &cfg.run);
        let backlog: Vec<String> = Vec::new();
        assert(texts(backlog@) =~= Seq::<Seq<char>>::empty());
        let core = Core {
            language: cfg.language,
            path,
            build_command,
            build_args,
            run_command,
            run_args,
            resend_resource_subscriptions: cfg.resend(),
            accepted: 0,
            generation: 0,
            stage: Stage::Quiet,
            child: Child::Absent,
            session: Session::WaitProcess,
            client_open: true,
            closing: false,
            client_initialize_req: None,
            answered: false,
            client_resource_subscriptions: SubscriptionTable::new(),
            backlog,
        };
        proof {
            lemma_initial_wf(plan_of(path@, *cfg));
            lemma_step_wf(core@, EventView::Trigger);
        }
        assert(core@ == RunnerView::initial(plan_of(path@, *cfg)));
        let (next, actions) = core.step(Event::Trigger);
        (Runner { core: next }, actions)
    }

    /// The number of the current generation; zero before the first spawn.
    pub fn generation(&self) -> (generation: u64)
        ensures
            generation == self@.generation,
    {
        self.core.generation
    }

    /// How many restarts have been asked for and taken on.
    pub fn accepted(&self) -> (accepted: u64)
        ensures
            accepted == self@.accepted,
    {
        self.core.accepted
    }

    /// What the restart coordinator is busy with.
    pub fn stage(&self) -> (stage: Stage)
        ensures
            stage == self@.stage,
    {
        self.core.stage
    }

    /// The child process handle that the supervisor counts on.
    pub fn child(&self) -> (child: Child)
        ensures
            child == self@.child,
    {
        self.core.child
    }

    /// Where the relay session of the current generation stands.
    pub fn session(&self) -> (session: Session)
        ensures
            session == self@.session,
    {
        self.core.session
    }

    /// Whether the client's input stream is still open.
    pub fn client_open(&self) -> (open: bool)
        ensures
            open == self@.client_open,
    {
        self.core.client_open
    }

    /// Whether the operator has asked the supervisor to stop.
    pub fn closing(&self) -> (closing: bool)
        ensures
            closing == self@.closing,
    {
        self.core.closing
    }

    /// Whether remembered subscriptions are shown again after a restart.
    pub fn resend(&self) -> (resend: bool)
        ensures
            resend == self@.plan.resend,
    {
        self.core.resend_resource_subscriptions
    }

    /// The language of the project, as configured.
    pub fn language(&self) -> (language: Language)
        ensures
            language == self@.plan.language,
    {
        self.core.language
    }

    /// Whether the client holds its initialize response.
    pub fn answered(&self) -> (answered: bool)
        ensures
            answered == self@.answered,
    {
        self.core.answered
    }

    /// The client's initialize request, once it has arrived.
    pub fn captured(&self) -> (line: Option<String>)
        ensures
            optional_text(line) == self@.captured,
    {
        crate::text::copy_optional_text(&self.core.client_initialize_req)
    }

    /// The client lines that no child has been given yet, oldest first.
    pub fn backlog(&self) -> (lines: Vec<String>)
        ensures
            texts(lines@) == self@.backlog,
    {
        copy_texts(&self.core.backlog)
    }

    /// The request lines of the remembered subscriptions, in table order.
    pub fn subscription_lines(&self) -> (lines: Vec<String>)
        ensures
            texts(lines@) == crate::subscription::entry_lines(self@.subscriptions),
    {
        self.core.client_resource_subscriptions.lines()
    }

    /// Whether a subscription to a resource is remembered.
    pub fn subscribed_to(&self, uri: &str) -> (found: bool)
        ensures
            found == crate::subscription::holds(self@.subscriptions, uri@),
    {
        self.core.client_resource_subscriptions.contains(uri)
    }

    /// The target root, in which the build and the run command are started.
    pub fn path(&self) -> (path: &str)
        ensures
            path@ == self@.plan.root,
    {
        self.core.path.as_str()
    }

    /// The build command and its arguments after overrides; an empty command
    /// means that nothing is built.
    pub fn build_command(&self) -> (command: (String, Vec<String>))
        ensures
            command.0@ == self@.plan.build_command,
            texts(command.1@) == self@.plan.build_args,
    {
        (self.core.build_command.clone(), copy_texts(&self.core.build_args))
    }

    /// The run command and its arguments after overrides.
    pub fn run_command(&self) -> (command: (String, Vec<String>))
        ensures
            command.0@ == self@.plan.run_command,
            texts(command.1@) == self@.plan.run_args,
    {
        (self.core.run_command.clone(), copy_texts(&self.core.run_args))
    }

    /// Asks for a restart.
    pub fn trigger(self) -> (turn: Turn)
        ensures
            matches_outcome(turn, self@.step(EventView::Trigger)),
            turn.0@.wf(),
    {
        self.step(Event::Trigger)
    }

    /// Reacts to one event.
    pub fn step(self, event: Event) -> (turn: Turn)
        ensures
            matches_outcome(turn, self@.step(event@)),
            turn.0@.wf(),
    {
        proof {
            use_type_invariant(&self);
            lemma_step_wf(self@, event@);
        }
        let (next, actions) = self.core.step(event);
        (Runner { core: next }, actions)
    }
}

impl Core {
    /// Reacts to one event.
    fn step(self, event: Event) -> (turn: Move)
        requires
            self@.wf(),
        ensures
            follows(turn, self@.step(event@)),
    {
        match event {
            Event::Trigger => self.on_trigger(),
            Event::FilesChanged { events } => if events > 0 {
                self.on_trigger()
            } else {
                (self, nothing())
            },
            Event::WatchFailed { errors } => (self, only(Action::Log(Notice::WatchFailed))),
            Event::BuildFinished(outcome) => self.on_build_finished(outcome),
            Event::GraceElapsed => self.on_grace_elapsed(),
            Event::ExitPolled(poll) => self.on_exit_polled(poll),
            Event::KillFinished { killed } => self.on_kill_finished(killed),
            Event::SpawnFinished { started } => self.on_spawn_finished(started),
            Event::ClientLine(line) => self.on_client_line(line),
            Event::ClientClosed => self.on_client_closed(),
            Event::ChildLine { generation, line } => self.on_child_line(generation, line),
            Event::ChildClosed { generation } => self.on_child_closed(generation),
            Event::WriteFailed { generation } => self.on_write_failed(generation),
            Event::Shutdown => self.on_shutdown(),
        }
    }

    /// Starts the run command as the child of the next generation.
    fn spawn(self) -> (turn: Move)
        requires
            self.generation < u64::MAX,
        ensures
            follows(turn, self@.spawn()),
    {
        let generation: u64 = self.generation + 1;
        let mut actions = only(Action::Log(Notice::RunningCommand));
        put(
            &mut actions,
            Action::Spawn {
                generation,
                command: self.run_command.clone(),
                args: copy_texts(&self.run_args),
                dir: self.path.clone(),
                wiring: Wiring::for_child(),
            },
        );
        let next = Core {
            generation,
            child: Child::Absent,
            stage: Stage::Spawning,
            session: Session::WaitProcess,
            ..self
        };
        assert(action_views(actions@) =~= self@.spawn().1);
        (next, actions)
    }

    /// Begins to stop the installed child.
    fn stop(self, respawn: bool) -> (turn: Move)
        ensures
            follows(turn, self@.stop_child(respawn)),
    {
        match self.child {
            Child::Open => {
                let mut actions = only(Action::Log(Notice::ClosingInput));
                put(&mut actions, Action::CloseInput { generation: self.generation });
                put(&mut actions, Action::WaitGrace { seconds: GRACE_PERIOD_SECS });
                let next = Core { child: Child::Closed, stage: Stage::Grace { respawn }, ..self };
                assert(action_views(actions@) =~= self@.stop_child(respawn).1);
                (next, actions)
            },
            _ => {
                let actions = only(Action::PollExit { generation: self.generation });
                let next = Core { stage: Stage::Polling { respawn }, ..self };
                (next, actions)
            },
        }
    }

    /// Tells the current generation to stop, stops its child and starts the
    /// run command.
    fn replace_child(self) -> (turn: Move)
        requires
            self.generation < u64::MAX,
        ensures
            follows(turn, self@.replace_child()),
    {
        let notice = if self.generation > 0 {
            only(Action::Log(Notice::StopSent))
        } else {
            nothing()
        };
        let absent = match self.child {
            Child::Absent => true,
            _ => false,
        };
        let session = match self.session {
            Session::AwaitResponse => self.session,
            Session::AwaitReplay => self.session,
            Session::Draining { remaining } => self.session,
            _ => Session::Ended,
        };
        let stopped = Core { session, ..self };
        let (next, actions) = if absent {
            stopped.spawn()
        } else {
            stopped.stop(true)
        };
        (next, chain(notice, actions))
    }

    /// Begins a restart with the build, where one is configured.
    fn begin_restart(self) -> (turn: Move)
        requires
            self.generation < u64::MAX,
        ensures
            follows(turn, self@.begin_restart()),
    {
        if self.build_command.as_str().unicode_len() > 0 {
            let mut actions = only(Action::Log(Notice::RunningBuild));
            put(
                &mut actions,
                Action::RunBuild {
                    command: self.build_command.clone(),
                    args: copy_texts(&self.build_args),
                    dir: self.path.clone(),
                    wiring: Wiring::for_build(),
                },
            );
            let next = Core { stage: Stage::Building, ..self };
            assert(action_views(actions@) =~= self@.begin_restart().1);
            (next, actions)
        } else {
            self.replace_child()
        }
    }

    /// Turns the idle coordinator to whatever waits for it.
    fn settle(self) -> (turn: Move)
        requires
            self.accepted <= u64::MAX,
        ensures
            follows(turn, self@.settle()),
    {
        let ended = match self.session {
            Session::Ended => true,
            Session::Finishing => true,
            _ => false,
        };
        let absent = match self.child {
            Child::Absent => true,
            _ => false,
        };
        if self.closing {
            if absent {
                (self, only(Action::Exit))
            } else {
                self.stop(false)
            }
        } else if self.generation < self.accepted {
            self.begin_restart()
        } else if ended && !absent {
            self.stop(false)
        } else {
            (self, nothing())
        }
    }

    /// Lets the stopped child go and moves on.
    fn after_stop(self, respawn: bool) -> (turn: Move)
        requires
            respawn ==> self.generation < u64::MAX,
        ensures
            follows(turn, self@.after_stop(respawn)),
    {
        if respawn && !self.closing {
            let cleared = Core { child: Child::Absent, ..self };
            cleared.spawn()
        } else {
            let cleared = Core { child: Child::Absent, stage: Stage::Quiet, ..self };
            cleared.settle()
        }
    }

    /// Ends the relaying of the current generation.
    fn end_generation(self) -> (turn: Move)
        ensures
            follows(turn, self@.end_generation()),
    {
        let quiet = match self.stage {
            Stage::Quiet => true,
            _ => false,
        };
        let ended = Core { session: Session::Ended, ..self };
        if quiet {
            ended.settle()
        } else {
            (ended, nothing())
        }
    }

    /// Stops taking client lines and goes on passing the child's output on.
    fn finish(self) -> (turn: Move)
        ensures
            follows(turn, self@.finish()),
    {
        let quiet = match self.stage {
            Stage::Quiet => true,
            _ => false,
        };
        let finishing = Core { session: Session::Finishing, ..self };
        if quiet {
            finishing.settle()
        } else {
            (finishing, nothing())
        }
    }

    /// Relays from now on, unless the child's input is closed by now.
    fn enter_relay(self) -> (turn: Move)
        requires
            self@.wf(),
        ensures
            follows(turn, self@.enter_relay()),
    {
        match self.child {
            Child::Open => self.open_relay(),
            _ => (Core { session: Session::Ended, ..self }, nothing()),
        }
    }

    /// Hands the backlog to the child and relays from now on.
    fn open_relay(self) -> (turn: Move)
        requires
            self@.wf(),
        ensures
            follows(turn, self@.open_relay()),
    {
        let mut table = self.client_resource_subscriptions;
        let mut sent: Vec<Action> = Vec::new();
        let mut i: usize = 0;
        let ghost start = table@;
        let ghost lines = texts(self.backlog@);
        assert(lines.take(0) =~= Seq::<Seq<char>>::empty());
        while i < self.backlog.len()
            invariant
                i <= self.backlog.len(),
                lines == texts(self.backlog@),
                distinct(table@),
                table@ == observed_all(start, self.resend_resource_subscriptions, lines.take(i as int)),
                action_views(sent@) == forwards(self.generation as nat, lines.take(i as int)),
            decreases self.backlog.len() - i,
        {
            let line = self.backlog[i].clone();
            table.observe(self.resend_resource_subscriptions, line.as_str());
            put(&mut sent, Action::ToChild { generation: self.generation, line, purpose: Purpose::Forward });
            proof {
                let before = lines.take(i as int);
                let after = lines.take(i + 1);
                assert(after.drop_last() =~= before);
                assert(after.last() == lines[i as int]);
                assert(action_views(sent@) =~= forwards(self.generation as nat, after));
            }
            i = i + 1;
        }
        assert(lines.take(i as int) =~= lines);
        let open = self.client_open;
        let emptied: Vec<String> = Vec::new();
        assert(texts(emptied@) =~= Seq::<Seq<char>>::empty());
        let relaying = Core {
            session: Session::Relay,
            client_resource_subscriptions: table,
            backlog: emptied,
            ..self
        };
        if open {
            (relaying, sent)
        } else {
            let (next, actions) = relaying.finish();
            (next, chain(sent, actions))
        }
    }

    /// Opens the handshake of the session whose child has just been
    /// installed.
    fn run(self) -> (turn: Move)
        ensures
            follows(turn, self@.start_session()),
    {
        if self.closing {
            return (Core { session: Session::Ended, ..self }, nothing());
        }
        match &self.client_initialize_req {
            Some(line) => {
                let actions = only(
                    Action::ToChild {
                        generation: self.generation,
                        line: line.clone(),
                        purpose: Purpose::ReplayInitialize,
                    },
                );
                (Core { session: Session::AwaitReplay, ..self }, actions)
            },
            None => if self.backlog.len() > 0 {
                let mut backlog = self.backlog;
                let ghost before = backlog@;
                let line = backlog.remove(0);
                assert(texts(backlog@) =~= texts(before).drop_first());
                let actions = only(
                    Action::ToChild {
                        generation: self.generation,
                        line: line.clone(),
                        purpose: Purpose::Initialize,
                    },
                );
                (
                    Core {
                        session: Session::AwaitResponse,
                        client_initialize_req: Some(line),
                        backlog,
                        ..self
                    },
                    actions,
                )
            } else if self.client_open {
                (
                    Core { session: Session::AwaitRequest, ..self },
                    only(Action::Log(Notice::WaitingForInput)),
                )
            } else {
                (Core { session: Session::Ended, ..self }, nothing())
            },
        }
    }

    /// Takes a restart request on.
    fn on_trigger(self) -> (turn: Move)
        requires
            self@.wf(),
        ensures
            follows(turn, self@.on_trigger()),
    {
        if self.closing || self.accepted >= u64::MAX {
            (self, only(Action::Log(Notice::RestartRefused)))
        } else {
            let quiet = match self.stage {
                Stage::Quiet => true,
                _ => false,
            };
            let accepted: u64 = self.accepted + 1;
            let counted = Core { accepted, ..self };
            if quiet {
                counted.begin_restart()
            } else {
                (counted, only(Action::Log(Notice::RestartQueued)))
            }
        }
    }

    /// Goes on with the restart once the build has ended.
    fn on_build_finished(self, outcome: BuildOutcome) -> (turn: Move)
        requires
            self@.wf(),
        ensures
            follows(turn, self@.on_build_finished(outcome)),
    {
        match self.stage {
            Stage::Building => {
                let notice = match outcome {
                    BuildOutcome::Succeeded => Notice::BuildSucceeded,
                    BuildOutcome::Failed => Notice::BuildFailed,
                    BuildOutcome::NotStarted => Notice::BuildNotStarted,
                };
                let (next, actions) = if self.closing {
                    let idle = Core { stage: Stage::Quiet, ..self };
                    idle.settle()
                } else {
                    self.replace_child()
                };
                (next, chain(only(Action::Log(notice)), actions))
            },
            _ => (self, nothing()),
        }
    }

    /// Looks for the child's exit status once the grace period is over.
    fn on_grace_elapsed(self) -> (turn: Move)
        ensures
            follows(turn, self@.on_grace_elapsed()),
    {
        match self.stage {
            Stage::Grace { respawn } => {
                let actions = only(Action::PollExit { generation: self.generation });
                (Core { stage: Stage::Polling { respawn }, ..self }, actions)
            },
            _ => (self, nothing()),
        }
    }

    /// Lets a child that has exited go and kills any other.
    fn on_exit_polled(self, poll: ExitPoll) -> (turn: Move)
        requires
            self@.wf(),
        ensures
            follows(turn, self@.on_exit_polled(poll)),
    {
        match self.stage {
            Stage::Polling { respawn } => match poll {
                ExitPoll::ExitedCleanly => {
                    let (next, actions) = self.after_stop(respawn);
                    (next, chain(only(Action::Log(Notice::ExitedCleanly)), actions))
                },
                ExitPoll::ExitedWithError => {
                    let (next, actions) = self.after_stop(respawn);
                    (next, chain(only(Action::Log(Notice::ExitedWithError)), actions))
                },
                ExitPoll::StillRunning => {
                    let mut actions = only(Action::Log(Notice::StillRunning));
                    put(&mut actions, Action::Kill { generation: self.generation });
                    let next = Core { stage: Stage::Killing { respawn }, ..self };
                    assert(action_views(actions@) =~= self@.on_exit_polled(poll).1);
                    (next, actions)
                },
                ExitPoll::Unknown => {
                    let mut actions = only(Action::Log(Notice::PollFailed));
                    put(&mut actions, Action::Kill { generation: self.generation });
                    let next = Core { stage: Stage::Killing { respawn }, ..self };
                    assert(action_views(actions@) =~= self@.on_exit_polled(poll).1);
                    (next, actions)
                },
            },
            _ => (self, nothing()),
        }
    }

    /// Lets the child go after the kill was attempted.
    fn on_kill_finished(self, killed: bool) -> (turn: Move)
        requires
            self@.wf(),
        ensures
            follows(turn, self@.on_kill_finished(killed)),
    {
        match self.stage {
            Stage::Killing { respawn } => {
                let notice = if killed {
                    Notice::Killed
                } else {
                    Notice::KillFailed
                };
                let (next, actions) = self.after_stop(respawn);
                (next, chain(only(Action::Log(notice)), actions))
            },
            _ => (self, nothing()),
        }
    }

    /// Installs the child that started, or notes that none did.
    fn on_spawn_finished(self, started: bool) -> (turn: Move)
        requires
            self@.wf(),
        ensures
            follows(turn, self@.on_spawn_finished(started)),
    {
        match self.stage {
            Stage::Spawning => if started {
                let installed = Core { child: Child::Open, stage: Stage::Quiet, ..self };
                let (opened, opening) = installed.run();
                let (next, actions) = opened.settle();
                let all = chain(chain(only(Action::Log(Notice::Started)), opening), actions);
                (next, all)
            } else {
                let waiting = Core {
                    child: Child::Absent,
                    stage: Stage::Quiet,
                    session: Session::WaitProcess,
                    ..self
                };
                let (next, actions) = waiting.settle();
                let mut notices = only(Action::Log(Notice::SpawnFailed));
                put(&mut notices, Action::Log(Notice::WaitingForProcess));
                let all = chain(notices, actions);
                assert(action_views(all@) =~= self@.on_spawn_finished(started).1);
                (next, all)
            },
            _ => (self, nothing()),
        }
    }

    /// Captures, forwards or queues a line of the client.
    fn on_client_line(self, line: String) -> (turn: Move)
        requires
            self@.wf(),
        ensures
            follows(turn, self@.on_client_line(line@)),
    {
        match self.session {
            Session::AwaitRequest => {
                let actions = only(
                    Action::ToChild {
                        generation: self.generation,
                        line: line.clone(),
                        purpose: Purpose::Initialize,
                    },
                );
                (
                    Core {
                        session: Session::AwaitResponse,
                        client_initialize_req: Some(line),
                        ..self
                    },
                    actions,
                )
            },
            Session::Relay => {
                let mut table = self.client_resource_subscriptions;
                table.observe(self.resend_resource_subscriptions, line.as_str());
                let actions = only(
                    Action::ToChild { generation: self.generation, line, purpose: Purpose::Forward },
                );
                (Core { client_resource_subscriptions: table, ..self }, actions)
            },
            _ => {
                let mut backlog = self.backlog;
                let ghost before = backlog@;
                backlog.push(line);
                assert(texts(backlog@) =~= texts(before).push(line@));
                (Core { backlog, ..self }, nothing())
            },
        }
    }

    /// Notes that the client's input ended.
    fn on_client_closed(self) -> (turn: Move)
        ensures
            follows(turn, self@.on_client_closed()),
    {
        let waiting = match self.session {
            Session::Relay => true,
            Session::AwaitRequest => true,
            _ => false,
        };
        let closed = Core { client_open: false, ..self };
        if waiting {
            closed.finish()
        } else {
            (closed, nothing())
        }
    }

    /// Completes a replayed handshake.
    fn finish_replay(self) -> (turn: Move)
        requires
            self@.wf(),
        ensures
            follows(turn, self@.finish_replay()),
    {
        let generation = self.generation;
        let mut greeting = only(Action::Log(Notice::SkippingResponse));
        put(
            &mut greeting,
            Action::ToChild {
                generation,
                line: INITIALIZED.to_owned(),
                purpose: Purpose::Initialized,
            },
        );
        put(
            &mut greeting,
            Action::ToClient {
                generation,
                line: ListKind::Tools.body().to_owned(),
                origin: Origin::ListChanged(ListKind::Tools),
            },
        );
        put(
            &mut greeting,
            Action::ToClient {
                generation,
                line: ListKind::Prompts.body().to_owned(),
                origin: Origin::ListChanged(ListKind::Prompts),
            },
        );
        put(
            &mut greeting,
            Action::ToClient {
                generation,
                line: ListKind::Resources.body().to_owned(),
                origin: Origin::ListChanged(ListKind::Resources),
            },
        );
        let ghost expected = seq![
            ActionView::Log(Notice::SkippingResponse),
            ActionView::ToChild {
                generation: generation as nat,
                line: INITIALIZED@,
                purpose: Purpose::Initialized,
            },
        ] + crate::model::list_changed_burst(generation as nat);
        assert(action_views(greeting@) =~= expected);
        let count = self.client_resource_subscriptions.len();
        let open = match self.child {
            Child::Open => true,
            _ => false,
        };
        if self.resend_resource_subscriptions && count > 0 && open {
            let lines = self.client_resource_subscriptions.lines();
            let mut shown: Vec<Action> = Vec::new();
            let mut i: usize = 0;
            let ghost entries = self.client_resource_subscriptions@;
            assert(texts(lines@).len() == lines.len());
            while i < lines.len()
                invariant
                    i <= lines.len(),
                    lines.len() == entries.len(),
                    texts(lines@) == crate::subscription::entry_lines(entries),
                    shown.len() == i,
                    forall|k: int|
                        0 <= k < i ==> (#[trigger] shown@[k])@ == (ActionView::ToChild {
                            generation: generation as nat,
                            line: entries[k].1,
                            purpose: Purpose::ReplaySubscription,
                        }),
                decreases lines.len() - i,
            {
                assert(texts(lines@)[i as int] == entries[i as int].1);
                shown.push(
                    Action::ToChild {
                        generation,
                        line: lines[i].clone(),
                        purpose: Purpose::ReplaySubscription,
                    },
                );
                i = i + 1;
            }
            assert(action_views(shown@) =~= replays(generation as nat, entries));
            let all = chain(greeting, shown);
            (Core { session: Session::Draining { remaining: count }, ..self }, all)
        } else {
            let (next, actions) = self.enter_relay();
            (next, chain(greeting, actions))
        }
    }

    /// Forwards, answers or drops a line of a child.
    fn on_child_line(self, generation: u64, line: String) -> (turn: Move)
        requires
            self@.wf(),
        ensures
            follows(turn, self@.on_child_line(generation as nat, line@)),
    {
        if generation != self.generation {
            (self, nothing())
        } else {
            match self.session {
                Session::AwaitRequest | Session::Relay | Session::Finishing => {
                    let actions = only(Action::ToClient { generation, line, origin: Origin::Relayed });
                    (self, actions)
                },
                Session::AwaitResponse => {
                    let first = only(
                        Action::ToClient { generation, line, origin: Origin::InitializeResponse },
                    );
                    let (next, actions) = self.enter_relay();
                    (Core { answered: true, ..next }, chain(first, actions))
                },
                Session::AwaitReplay => self.finish_replay(),
                Session::Draining { remaining } => if remaining > 1 {
                    (
                        Core { session: Session::Draining { remaining: remaining - 1 }, ..self },
                        nothing(),
                    )
                } else {
                    self.enter_relay()
                },
                Session::WaitProcess | Session::Ended => (self, nothing()),
            }
        }
    }

    /// Ends the current generation and prepares to leave.
    fn on_shutdown(self) -> (turn: Move)
        ensures
            follows(turn, self@.on_shutdown()),
    {
        if self.closing {
            (self, nothing())
        } else {
            let spawning = match self.stage {
                Stage::Spawning => true,
                _ => false,
            };
            let marked = Core { closing: true, ..self };
            let (next, actions) = if spawning {
                (marked, nothing())
            } else {
                marked.end_generation()
            };
            (next, chain(only(Action::Log(Notice::ShuttingDown)), actions))
        }
    }

    /// Whether the session is bound to a live child that takes input.
    fn serving(&self) -> (serving: bool)
        ensures
            serving == self@.serving(),
    {
        match self.session {
            Session::WaitProcess => false,
            Session::Ended => false,
            Session::Finishing => false,
            _ => true,
        }
    }

    /// Whether the session only passes the child's output on.
    fn finishing(&self) -> (finishing: bool)
        ensures
            finishing == (self@.session is Finishing),
    {
        match self.session {
            Session::Finishing => true,
            _ => false,
        }
    }

    /// Notes that the output of a child ended.
    fn on_child_closed(self, generation: u64) -> (turn: Move)
        ensures
            follows(turn, self@.on_child_closed(generation as nat)),
    {
        if generation == self.generation && self.finishing() {
            (Core { session: Session::Ended, ..self }, only(Action::Log(Notice::ChildOutputEnded)))
        } else if generation == self.generation && self.serving() {
            (self, only(Action::Log(Notice::ChildOutputEnded)))
        } else {
            (self, nothing())
        }
    }

    /// Ends the generation whose write failed.
    fn on_write_failed(self, generation: u64) -> (turn: Move)
        ensures
            follows(turn, self@.on_write_failed(generation as nat)),
    {
        if generation == self.generation && (self.serving() || self.finishing()) {
            let (next, actions) = self.end_generation();
            (next, chain(only(Action::Log(Notice::WriteFailed)), actions))
        } else {
            (self, nothing())
        }
    }
}

} // verus!
