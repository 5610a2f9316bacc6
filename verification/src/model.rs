//! The supervisor as a mathematical state machine.
//!
//! A [`RunnerView`] is the whole state of one invocation; [`RunnerView::step`]
//! says, for every state and every event, what the next state is and which
//! actions go out. The executable [`crate::runner::Runner`] is proved to follow
//! it step for step, and the theorems in [`crate::laws`] are proved about it.

use crate::message::{
    build_wiring, child_wiring, list_changed_text, ActionView, BuildOutcome, EventView, ExitPoll,
    ListKind, Notice, Origin, Purpose, GRACE_PERIOD_SECS, INITIALIZED,
};
use crate::language::Language;
use crate::subscription::{distinct, lemma_observed_distinct, observed, Entry};
use vstd::prelude::*;

verus! {

/// What the restart coordinator is busy with.
#[derive(Clone, Copy, Debug, PartialEq, Eq, Structural)]
pub enum Stage {
    /// Nothing: no restart and no stop is under way.
    Quiet,
    /// The build command runs.
    Building,
    /// The child's input was closed and the grace period runs. With `respawn`
    /// the stop is part of a restart and a spawn follows it.
    Grace { respawn: bool },
    /// The child's exit status is being looked up.
    Polling { respawn: bool },
    /// The child is being killed.
    Killing { respawn: bool },
    /// The run command is being started.
    Spawning,
}

/// The child process handle the supervisor holds, if any.
#[derive(Clone, Copy, Debug, PartialEq, Eq, Structural)]
pub enum Child {
    /// No child is installed.
    Absent,
    /// A child is installed and its input stream is open.
    Open,
    /// A child is installed and its input stream has been closed.
    Closed,
}

/// Where the relay session of the current generation stands.
#[derive(Clone, Copy, Debug, PartialEq, Eq, Structural)]
pub enum Session {
    /// No live child exists for the generation.
    WaitProcess,
    /// Handshake of the first serving generation: the client's initialize
    /// request has not arrived yet.
    AwaitRequest,
    /// Handshake of the generation that captured the client's request: the
    /// request went to the child, whose answer will go to the client.
    AwaitResponse,
    /// Handshake of every later generation: the captured request went to the
    /// child, whose answer will be thrown away.
    AwaitReplay,
    /// Handshake of a later generation: the child still owes this many
    /// answers to replayed subscriptions, all of which will be thrown away.
    Draining { remaining: usize },
    /// Lines pass in both directions.
    Relay,
    /// The client's input has ended: no line goes to the child any more, but
    /// what the child still prints goes to the client, until the child's
    /// output ends or a restart supersedes the generation.
    Finishing,
    /// The generation has stopped relaying.
    Ended,
}

/// The commands of one invocation and the resend switch, as plain values.
pub struct PlanView {
    pub language: Language,
    pub root: Seq<char>,
    pub build_command: Seq<char>,
    pub build_args: Seq<Seq<char>>,
    pub run_command: Seq<char>,
    pub run_args: Seq<Seq<char>>,
    pub resend: bool,
}

/// The state of the supervisor, as plain values.
pub struct RunnerView {
    /// Commands and switches; never changes.
    pub plan: PlanView,
    /// How many restarts have been asked for and taken on.
    pub accepted: nat,
    /// How many generations have been started; also the number of the current
    /// one.
    pub generation: nat,
    pub stage: Stage,
    pub child: Child,
    pub session: Session,
    /// Whether the client's input stream is still open.
    pub client_open: bool,
    /// Whether the operator has asked the supervisor to stop.
    pub closing: bool,
    /// The client's initialize request, once it has arrived.
    pub captured: Option<Seq<char>>,
    /// Whether the client holds its initialize response: the answer of the
    /// child that was given the client's own request has been passed on.
    pub answered: bool,
    /// The subscription table.
    pub subscriptions: Seq<Entry>,
    /// Client lines that no child has been given yet, oldest first.
    pub backlog: Seq<Seq<char>>,
}

/// A next state and the actions that lead to it.
pub type Outcome = (RunnerView, Seq<ActionView>);

/// The largest number of restarts one invocation takes on.
pub open spec fn restart_limit() -> nat {
    u64::MAX as nat
}

/// The table after the client lines of a backlog were looked at, oldest first.
pub open spec fn observed_all(entries: Seq<Entry>, tracking: bool, lines: Seq<Seq<char>>) -> Seq<
    Entry,
>
    decreases lines.len(),
{
    if lines.len() == 0 {
        entries
    } else {
        observed(observed_all(entries, tracking, lines.drop_last()), tracking, lines.last())
    }
}

/// One forward to the child of a generation for each line, in order.
pub open spec fn forwards(generation: nat, lines: Seq<Seq<char>>) -> Seq<ActionView> {
    Seq::new(
        lines.len(),
        |i: int| ActionView::ToChild { generation, line: lines[i], purpose: Purpose::Forward },
    )
}

/// One replay to the child of a generation for each table entry, in table
/// order.
pub open spec fn replays(generation: nat, entries: Seq<Entry>) -> Seq<ActionView> {
    Seq::new(
        entries.len(),
        |i: int|
            ActionView::ToChild {
                generation,
                line: entries[i].1,
                purpose: Purpose::ReplaySubscription,
            },
    )
}

/// The three list-changed notifications, in their fixed order.
pub open spec fn list_changed_burst(generation: nat) -> Seq<ActionView> {
    seq![
        ActionView::ToClient {
            generation,
            line: list_changed_text(ListKind::Tools),
            origin: Origin::ListChanged(ListKind::Tools),
        },
        ActionView::ToClient {
            generation,
            line: list_changed_text(ListKind::Prompts),
            origin: Origin::ListChanged(ListKind::Prompts),
        },
        ActionView::ToClient {
            generation,
            line: list_changed_text(ListKind::Resources),
            origin: Origin::ListChanged(ListKind::Resources),
        },
    ]
}

/// The notice that reports how a build ended.
pub open spec fn build_notice(outcome: BuildOutcome) -> Notice {
    match outcome {
        BuildOutcome::Succeeded => Notice::BuildSucceeded,
        BuildOutcome::Failed => Notice::BuildFailed,
        BuildOutcome::NotStarted => Notice::BuildNotStarted,
    }
}

impl RunnerView {
    /// The state before the first restart.
    pub open spec fn initial(plan: PlanView) -> RunnerView {
        RunnerView {
            plan,
            accepted: 0,
            generation: 0,
            stage: Stage::Quiet,
            child: Child::Absent,
            session: Session::WaitProcess,
            client_open: true,
            closing: false,
            captured: None,
            answered: false,
            subscriptions: Seq::empty(),
            backlog: Seq::empty(),
        }
    }

    /// Whether the session is in one of its handshake states or relays in
    /// both directions, that is, bound to a live child that takes input.
    pub open spec fn serving(self) -> bool {
        !(self.session is WaitProcess) && !(self.session is Ended) && !(self.session is Finishing)
    }

    /// Whether the session is in its handshake with a child to which the
    /// captured request has gone.
    pub open spec fn handshaking(self) -> bool {
        self.session is AwaitResponse || self.session is AwaitReplay || self.session is Draining
    }

    /// Whether the session still listens to its child: it serves, or it
    /// passes on what the child prints after the client's input has ended.
    pub open spec fn listening(self) -> bool {
        self.serving() || self.session is Finishing
    }

    /// Starts the run command as the child of the next generation.
    pub open spec fn spawn(self) -> Outcome {
        let generation = self.generation + 1;
        (
            RunnerView {
                generation,
                child: Child::Absent,
                stage: Stage::Spawning,
                session: Session::WaitProcess,
                ..self
            },
            seq![
                ActionView::Log(Notice::RunningCommand),
                ActionView::Spawn {
                    generation,
                    command: self.plan.run_command,
                    args: self.plan.run_args,
                    dir: self.plan.root,
                    wiring: child_wiring(),
                },
            ],
        )
    }

    /// Begins to stop the installed child: closes its input and waits the
    /// grace period, or, where the input is closed already, looks at once
    /// whether the child has exited.
    pub open spec fn stop_child(self, respawn: bool) -> Outcome {
        if self.child is Open {
            (
                RunnerView { child: Child::Closed, stage: Stage::Grace { respawn }, ..self },
                seq![
                    ActionView::Log(Notice::ClosingInput),
                    ActionView::CloseInput { generation: self.generation },
                    ActionView::WaitGrace { seconds: GRACE_PERIOD_SECS as nat },
                ],
            )
        } else {
            (
                RunnerView { stage: Stage::Polling { respawn }, ..self },
                seq![ActionView::PollExit { generation: self.generation }],
            )
        }
    }

    /// The part of a restart that follows the build: the current generation
    /// is told to stop, its child is stopped, and the run command is started.
    /// A session that relays stops at once. A session in its handshake does
    /// not listen for the stop yet: if its child still answers before it is
    /// let go, the handshake is seen through, and the session stops then.
    pub open spec fn replace_child(self) -> Outcome {
        let stopped = RunnerView {
            session: if self.handshaking() {
                self.session
            } else {
                Session::Ended
            },
            ..self
        };
        let notice = if self.generation > 0 {
            seq![ActionView::Log(Notice::StopSent)]
        } else {
            Seq::empty()
        };
        let (next, actions) = if self.child is Absent {
            stopped.spawn()
        } else {
            stopped.stop_child(true)
        };
        (next, notice + actions)
    }

    /// Begins a restart: with a build command configured the build runs
    /// first, else the child is replaced at once.
    pub open spec fn begin_restart(self) -> Outcome {
        if self.plan.build_command.len() > 0 {
            (
                RunnerView { stage: Stage::Building, ..self },
                seq![
                    ActionView::Log(Notice::RunningBuild),
                    ActionView::RunBuild {
                        command: self.plan.build_command,
                        args: self.plan.build_args,
                        dir: self.plan.root,
                        wiring: build_wiring(),
                    },
                ],
            )
        } else {
            self.replace_child()
        }
    }

    /// What the idle coordinator turns to. Asked to stop, it stops the child
    /// that is left and then leaves. Otherwise it turns to a restart that was
    /// asked for in the meantime, else to the child of a generation that has
    /// ended or takes no input any more, else to nothing.
    pub open spec fn settle(self) -> Outcome {
        if self.closing {
            if self.child is Absent {
                (self, seq![ActionView::Exit])
            } else {
                self.stop_child(false)
            }
        } else if self.generation < self.accepted {
            self.begin_restart()
        } else if (self.session is Ended || self.session is Finishing) && !(self.child is Absent) {
            self.stop_child(false)
        } else {
            (self, Seq::empty())
        }
    }

    /// The child is gone: a restart goes on to spawn, unless the supervisor
    /// was asked to stop in the meantime; a plain stop leaves the coordinator
    /// idle.
    pub open spec fn after_stop(self, respawn: bool) -> Outcome {
        let cleared = RunnerView { child: Child::Absent, ..self };
        if respawn && !self.closing {
            cleared.spawn()
        } else {
            RunnerView { stage: Stage::Quiet, ..cleared }.settle()
        }
    }

    /// The current generation stops relaying. An idle coordinator stops its
    /// child at once; a busy one is in a restart that will.
    pub open spec fn end_generation(self) -> Outcome {
        let ended = RunnerView { session: Session::Ended, ..self };
        if self.stage is Quiet {
            ended.settle()
        } else {
            (ended, Seq::empty())
        }
    }

    /// The current generation takes no client lines any more, because none
    /// can come. What its child still prints goes on to the client. An idle
    /// coordinator stops the child at once, closing its input first.
    pub open spec fn finish(self) -> Outcome {
        let finishing = RunnerView { session: Session::Finishing, ..self };
        if self.stage is Quiet {
            finishing.settle()
        } else {
            (finishing, Seq::empty())
        }
    }

    /// The handshake is over: every backlog line goes to the child, oldest first, and the session
    /// relays from now on. With the client's input closed nothing more can
    /// come, and only the child's output is passed on. A generation that was
    /// told to stop during its handshake, so that its child's input is closed
    /// by now, stops here instead and leaves the backlog to the next one.
    pub open spec fn enter_relay(self) -> Outcome {
        if !(self.child is Open) {
            (RunnerView { session: Session::Ended, ..self }, Seq::empty())
        } else {
            self.open_relay()
        }
    }

    /// Every backlog line goes to the child, oldest first, and the session
    /// relays from now on.
    pub open spec fn open_relay(self) -> Outcome {
        let relaying = RunnerView {
            session: Session::Relay,
            subscriptions: observed_all(self.subscriptions, self.plan.resend, self.backlog),
            backlog: Seq::empty(),
            ..self
        };
        let sent = forwards(self.generation, self.backlog);
        if self.client_open {
            (relaying, sent)
        } else {
            let (next, actions) = relaying.finish();
            (next, sent + actions)
        }
    }

    /// A child has just been installed: the session opens its handshake. With
    /// the client's request captured before, the child is shown the request
    /// again and its answer will be thrown away. A supervisor that was asked
    /// to stop opens no handshake.
    pub open spec fn start_session(self) -> Outcome {
        match self.captured {
            _ if self.closing => (RunnerView { session: Session::Ended, ..self }, Seq::empty()),
            Some(line) => (
                RunnerView { session: Session::AwaitReplay, ..self },
                seq![
                    ActionView::ToChild {
                        generation: self.generation,
                        line,
                        purpose: Purpose::ReplayInitialize,
                    },
                ],
            ),
            None => if self.backlog.len() > 0 {
                (
                    RunnerView {
                        session: Session::AwaitResponse,
                        captured: Some(self.backlog[0]),
                        backlog: self.backlog.drop_first(),
                        ..self
                    },
                    seq![
                        ActionView::ToChild {
                            generation: self.generation,
                            line: self.backlog[0],
                            purpose: Purpose::Initialize,
                        },
                    ],
                )
            } else if self.client_open {
                (
                    RunnerView { session: Session::AwaitRequest, ..self },
                    seq![ActionView::Log(Notice::WaitingForInput)],
                )
            } else {
                (RunnerView { session: Session::Ended, ..self }, Seq::empty())
            },
        }
    }

    /// A restart is asked for. It is taken on unless the supervisor was
    /// asked to stop or the count of restarts is exhausted, and begins at
    /// once where the coordinator is idle.
    pub open spec fn on_trigger(self) -> Outcome {
        if self.closing || self.accepted >= restart_limit() {
            (self, seq![ActionView::Log(Notice::RestartRefused)])
        } else {
            let counted = RunnerView { accepted: self.accepted + 1, ..self };
            if self.stage is Quiet {
                counted.begin_restart()
            } else {
                (counted, seq![ActionView::Log(Notice::RestartQueued)])
            }
        }
    }

    /// The build ended. However it ended, the restart goes on: a failed
    /// build does not keep the run command from being started. Only a
    /// supervisor that was asked to stop in the meantime turns to that.
    pub open spec fn on_build_finished(self, outcome: BuildOutcome) -> Outcome {
        if self.stage is Building {
            let (next, actions) = if self.closing {
                RunnerView { stage: Stage::Quiet, ..self }.settle()
            } else {
                self.replace_child()
            };
            (next, seq![ActionView::Log(build_notice(outcome))] + actions)
        } else {
            (self, Seq::empty())
        }
    }

    /// The grace period is over: time to look whether the child has exited.
    pub open spec fn on_grace_elapsed(self) -> Outcome {
        match self.stage {
            Stage::Grace { respawn } => (
                RunnerView { stage: Stage::Polling { respawn }, ..self },
                seq![ActionView::PollExit { generation: self.generation }],
            ),
            _ => (self, Seq::empty()),
        }
    }

    /// The child's exit status was looked up: a child that has exited is let
    /// go, any other is killed.
    pub open spec fn on_exit_polled(self, poll: ExitPoll) -> Outcome {
        match self.stage {
            Stage::Polling { respawn } => match poll {
                ExitPoll::ExitedCleanly => {
                    let (next, actions) = self.after_stop(respawn);
                    (next, seq![ActionView::Log(Notice::ExitedCleanly)] + actions)
                },
                ExitPoll::ExitedWithError => {
                    let (next, actions) = self.after_stop(respawn);
                    (next, seq![ActionView::Log(Notice::ExitedWithError)] + actions)
                },
                ExitPoll::StillRunning => (
                    RunnerView { stage: Stage::Killing { respawn }, ..self },
                    seq![
                        ActionView::Log(Notice::StillRunning),
                        ActionView::Kill { generation: self.generation },
                    ],
                ),
                ExitPoll::Unknown => (
                    RunnerView { stage: Stage::Killing { respawn }, ..self },
                    seq![
                        ActionView::Log(Notice::PollFailed),
                        ActionView::Kill { generation: self.generation },
                    ],
                ),
            },
            _ => (self, Seq::empty()),
        }
    }

    /// The kill was attempted; either way the child is let go.
    pub open spec fn on_kill_finished(self, killed: bool) -> Outcome {
        match self.stage {
            Stage::Killing { respawn } => {
                let notice = if killed {
                    Notice::Killed
                } else {
                    Notice::KillFailed
                };
                let (next, actions) = self.after_stop(respawn);
                (next, seq![ActionView::Log(notice)] + actions)
            },
            _ => (self, Seq::empty()),
        }
    }

    /// The spawn was attempted. A child that started is installed and its
    /// session opens; a failed spawn installs nothing, and the generation
    /// waits for a later restart to bring a child.
    pub open spec fn on_spawn_finished(self, started: bool) -> Outcome {
        if self.stage is Spawning {
            if started {
                let installed = RunnerView { child: Child::Open, stage: Stage::Quiet, ..self };
                let (opened, opening) = installed.start_session();
                let (next, actions) = opened.settle();
                (next, seq![ActionView::Log(Notice::Started)] + opening + actions)
            } else {
                let waiting = RunnerView {
                    child: Child::Absent,
                    stage: Stage::Quiet,
                    session: Session::WaitProcess,
                    ..self
                };
                let (next, actions) = waiting.settle();
                (
                    next,
                    seq![
                        ActionView::Log(Notice::SpawnFailed),
                        ActionView::Log(Notice::WaitingForProcess),
                    ] + actions,
                )
            }
        } else {
            (self, Seq::empty())
        }
    }

    /// The client sent a line. The first line ever is the initialize request;
    /// a relaying session passes a line on at once; at any other time the
    /// line waits in the backlog.
    pub open spec fn on_client_line(self, line: Seq<char>) -> Outcome {
        match self.session {
            Session::AwaitRequest => (
                RunnerView { session: Session::AwaitResponse, captured: Some(line), ..self },
                seq![
                    ActionView::ToChild {
                        generation: self.generation,
                        line,
                        purpose: Purpose::Initialize,
                    },
                ],
            ),
            Session::Relay => (
                RunnerView {
                    subscriptions: observed(self.subscriptions, self.plan.resend, line),
                    ..self
                },
                seq![
                    ActionView::ToChild {
                        generation: self.generation,
                        line,
                        purpose: Purpose::Forward,
                    },
                ],
            ),
            _ => (RunnerView { backlog: self.backlog.push(line), ..self }, Seq::empty()),
        }
    }

    /// The client's input ended. A session that was waiting for client lines
    /// takes none any more; what its child still prints goes on to the
    /// client.
    pub open spec fn on_client_closed(self) -> Outcome {
        let closed = RunnerView { client_open: false, ..self };
        if self.session is Relay || self.session is AwaitRequest {
            closed.finish()
        } else {
            (closed, Seq::empty())
        }
    }

    /// The answer to a replayed initialize request arrived. It is thrown
    /// away; the child gets its `initialized`, the client the three
    /// list-changed notifications, and with resending switched on the child
    /// is shown every remembered subscription. A child whose input was closed
    /// in the meantime is shown none.
    pub open spec fn finish_replay(self) -> Outcome {
        let greeting = seq![
            ActionView::Log(Notice::SkippingResponse),
            ActionView::ToChild {
                generation: self.generation,
                line: INITIALIZED@,
                purpose: Purpose::Initialized,
            },
        ] + list_changed_burst(self.generation);
        if self.plan.resend && self.subscriptions.len() > 0 && self.child is Open {
            (
                RunnerView {
                    session: Session::Draining { remaining: self.subscriptions.len() as usize },
                    ..self
                },
                greeting + replays(self.generation, self.subscriptions),
            )
        } else {
            let (next, actions) = self.enter_relay();
            (next, greeting + actions)
        }
    }

    /// A child printed a line. Only the current generation is listened to,
    /// and what becomes of the line depends on where its session stands.
    pub open spec fn on_child_line(self, generation: nat, line: Seq<char>) -> Outcome {
        if generation != self.generation {
            (self, Seq::empty())
        } else {
            match self.session {
                Session::AwaitRequest | Session::Relay | Session::Finishing => (
                    self,
                    seq![ActionView::ToClient { generation, line, origin: Origin::Relayed }],
                ),
                Session::AwaitResponse => {
                    let (next, actions) = self.enter_relay();
                    (
                        RunnerView { answered: true, ..next },
                        seq![
                            ActionView::ToClient {
                                generation,
                                line,
                                origin: Origin::InitializeResponse,
                            },
                        ] + actions,
                    )
                },
                Session::AwaitReplay => self.finish_replay(),
                Session::Draining { remaining } => if remaining > 1 {
                    (
                        RunnerView {
                            session: Session::Draining { remaining: (remaining - 1) as usize },
                            ..self
                        },
                        Seq::empty(),
                    )
                } else {
                    self.enter_relay()
                },
                Session::WaitProcess | Session::Ended => (self, Seq::empty()),
            }
        }
    }

    /// The output of a child ended. A serving session goes on: lines of the
    /// client still reach the child's input until the generation is stopped.
    /// A session that only passed the child's output on has nothing left to
    /// do and ends.
    pub open spec fn on_child_closed(self, generation: nat) -> Outcome {
        if generation == self.generation && self.session is Finishing {
            (
                RunnerView { session: Session::Ended, ..self },
                seq![ActionView::Log(Notice::ChildOutputEnded)],
            )
        } else if generation == self.generation && self.serving() {
            (self, seq![ActionView::Log(Notice::ChildOutputEnded)])
        } else {
            (self, Seq::empty())
        }
    }

    /// A write for a generation failed: that generation ends.
    pub open spec fn on_write_failed(self, generation: nat) -> Outcome {
        if generation == self.generation && self.listening() {
            let (next, actions) = self.end_generation();
            (next, seq![ActionView::Log(Notice::WriteFailed)] + actions)
        } else {
            (self, Seq::empty())
        }
    }

    /// The operator asked the supervisor to stop: the current generation
    /// ends, no restart is taken on any more, and once the child that is
    /// left has been stopped, closing its input first and killing it only
    /// where it outlives the grace period, the supervisor leaves. A busy
    /// coordinator first finishes the step it is at.
    pub open spec fn on_shutdown(self) -> Outcome {
        if self.closing {
            (self, Seq::empty())
        } else {
            let marked = RunnerView { closing: true, ..self };
            let (next, actions) = if self.stage is Spawning {
                (marked, Seq::empty())
            } else {
                marked.end_generation()
            };
            (next, seq![ActionView::Log(Notice::ShuttingDown)] + actions)
        }
    }

    /// The reaction to one event.
    pub open spec fn step(self, event: EventView) -> Outcome {
        match event {
            EventView::Trigger => self.on_trigger(),
            EventView::FilesChanged { events } => if events > 0 {
                self.on_trigger()
            } else {
                (self, Seq::empty())
            },
            EventView::WatchFailed { errors } => (self, seq![ActionView::Log(Notice::WatchFailed)]),
            EventView::BuildFinished(outcome) => self.on_build_finished(outcome),
            EventView::GraceElapsed => self.on_grace_elapsed(),
            EventView::ExitPolled(poll) => self.on_exit_polled(poll),
            EventView::KillFinished { killed } => self.on_kill_finished(killed),
            EventView::SpawnFinished { started } => self.on_spawn_finished(started),
            EventView::ClientLine(line) => self.on_client_line(line),
            EventView::ClientClosed => self.on_client_closed(),
            EventView::ChildLine { generation, line } => self.on_child_line(generation, line),
            EventView::ChildClosed { generation } => self.on_child_closed(generation),
            EventView::WriteFailed { generation } => self.on_write_failed(generation),
            EventView::Shutdown => self.on_shutdown(),
        }
    }

    /// What holds of every state the supervisor can reach.
    pub open spec fn wf(self) -> bool {
        &&& self.generation <= self.accepted <= restart_limit()
        &&& distinct(self.subscriptions)
        &&& !(self.child is Absent) ==> self.generation >= 1
        &&& self.child is Closed ==> self.stage is Grace || self.stage is Polling
            || self.stage is Killing
        &&& self.serving() ==> !(self.child is Absent)
        &&& self.session is Relay || self.session is AwaitRequest ==> self.child is Open
        &&& self.session is WaitProcess ==> self.child is Absent
        &&& self.session is AwaitRequest ==> self.captured is None && self.backlog.len() == 0
            && self.client_open
        &&& self.session is AwaitResponse || self.session is AwaitReplay || self.session is Draining
            || self.session is Relay ==> self.captured is Some
        &&& self.session is Relay ==> self.backlog.len() == 0 && self.client_open
        &&& self.session is Finishing ==> !self.client_open && self.generation >= 1
        &&& self.session is AwaitResponse ==> !self.answered
        &&& self.answered ==> self.captured is Some
        &&& self.closing ==> !self.listening()
        &&& match self.stage {
            Stage::Quiet => (self.closing || self.generation == self.accepted) && (
            self.session is Ended || self.session is Finishing ==> self.child is Absent),
            Stage::Building => self.generation < self.accepted,
            Stage::Grace { respawn } => self.child is Closed && (if respawn {
                self.generation < self.accepted && !(self.session is Finishing)
            } else {
                !self.serving()
            }),
            Stage::Polling { respawn } => self.child is Closed && (if respawn {
                self.generation < self.accepted && !(self.session is Finishing)
            } else {
                !self.serving()
            }),
            Stage::Killing { respawn } => self.child is Closed && (if respawn {
                self.generation < self.accepted && !(self.session is Finishing)
            } else {
                !self.serving()
            }),
            Stage::Spawning => self.child is Absent && self.session is WaitProcess
                && self.generation >= 1,
        }
    }
}

/// Looking at a whole backlog keeps the table free of duplicates.
pub proof fn lemma_observed_all_distinct(entries: Seq<Entry>, tracking: bool, lines: Seq<Seq<char>>)
    requires
        distinct(entries),
    ensures
        distinct(observed_all(entries, tracking, lines)),
    decreases lines.len(),
{
    if lines.len() > 0 {
        lemma_observed_all_distinct(entries, tracking, lines.drop_last());
        lemma_observed_distinct(
            observed_all(entries, tracking, lines.drop_last()),
            tracking,
            lines.last(),
        );
    }
}

/// Entering the relay from a handshake leads to a reachable state and
/// leaves the record of the handshake as it is.
proof fn lemma_enter_relay_wf(state: RunnerView)
    requires
        state.wf(),
        state.handshaking(),
    ensures
        state.enter_relay().0.wf(),
        state.enter_relay().0.captured == state.captured,
        state.enter_relay().0.answered == state.answered,
        !state.enter_relay().0.handshaking(),
        !(state.enter_relay().0.session is AwaitRequest),
{
    lemma_observed_all_distinct(state.subscriptions, state.plan.resend, state.backlog);
}

/// A line of a child leads from a reachable state to a reachable state.
proof fn lemma_on_child_line_wf(state: RunnerView, generation: nat, line: Seq<char>)
    requires
        state.wf(),
    ensures
        state.on_child_line(generation, line).0.wf(),
{
    if generation == state.generation && state.handshaking() {
        lemma_enter_relay_wf(state);
    }
}

/// A finished spawn leads from a reachable state to a reachable state.
proof fn lemma_on_spawn_finished_wf(state: RunnerView, started: bool)
    requires
        state.wf(),
    ensures
        state.on_spawn_finished(started).0.wf(),
{
}

/// What the coordinator is told leads from a reachable state to a reachable
/// state.
proof fn lemma_coordinator_wf(state: RunnerView, event: EventView)
    requires
        state.wf(),
        event is Trigger || event is FilesChanged || event is WatchFailed || event is BuildFinished
            || event is GraceElapsed || event is ExitPolled || event is KillFinished,
    ensures
        state.step(event).0.wf(),
{
}

/// What ends a generation leads from a reachable state to a reachable state.
proof fn lemma_ending_wf(state: RunnerView, event: EventView)
    requires
        state.wf(),
        event is ClientClosed || event is ChildClosed || event is WriteFailed || event is Shutdown,
    ensures
        state.step(event).0.wf(),
{
}

/// Every step leads from a reachable state to a reachable state.
pub proof fn lemma_step_wf(state: RunnerView, event: EventView)
    requires
        state.wf(),
    ensures
        state.step(event).0.wf(),
{
    match event {
        EventView::ClientLine(line) => {
            lemma_observed_distinct(state.subscriptions, state.plan.resend, line);
        },
        EventView::ChildLine { generation, line } => {
            lemma_on_child_line_wf(state, generation, line);
        },
        EventView::SpawnFinished { started } => {
            lemma_on_spawn_finished_wf(state, started);
        },
        EventView::ClientClosed => {
            lemma_ending_wf(state, event);
        },
        EventView::ChildClosed { generation } => {
            lemma_ending_wf(state, event);
        },
        EventView::WriteFailed { generation } => {
            lemma_ending_wf(state, event);
        },
        EventView::Shutdown => {
            lemma_ending_wf(state, event);
        },
        _ => {
            lemma_coordinator_wf(state, event);
        },
    }
}

/// The state before the first restart is a reachable state.
pub proof fn lemma_initial_wf(plan: PlanView)
    ensures
        RunnerView::initial(plan).wf(),
{
}

} // verus!
