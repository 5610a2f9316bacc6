use synf::config::{BuildConfig, Config};
use synf::language::Language;
use synf::message::{Action, BuildOutcome, Event, ExitPoll, Notice, Origin, Purpose};
use synf::model::{Child, Session, Stage};
use synf::runner::Runner;

fn config(build: Option<&str>) -> Config {
    Config {
        language: Language::Python,
        watch: None,
        resend_resource_subscriptions: None,
        build: build.map(|command| BuildConfig { command: Some(command.to_string()), args: None }),
        run: None,
    }
}

fn log(notice: Notice) -> Action {
    Action::Log(notice)
}

fn drive(runner: Runner, events: Vec<Event>) -> (Runner, Vec<Action>) {
    let mut runner = runner;
    let mut all = Vec::new();
    for event in events {
        let (next, mut actions) = runner.step(event);
        runner = next;
        all.append(&mut actions);
    }
    (runner, all)
}

fn relaying() -> Runner {
    let (runner, _) = Runner::new("root".to_string(), &config(None));
    let (runner, _) = drive(
        runner,
        vec![
            Event::SpawnFinished { started: true },
            Event::ClientLine("init".to_string()),
            Event::ChildLine { generation: 1, line: "ready".to_string() },
        ],
    );
    runner
}

#[test]
fn shutdown_stops_the_child_gracefully_and_leaves() {
    let (runner, actions) = relaying().step(Event::Shutdown);
    assert_eq!(
        actions,
        vec![
            log(Notice::ShuttingDown),
            log(Notice::ClosingInput),
            Action::CloseInput { generation: 1 },
            Action::WaitGrace { seconds: 2 },
        ]
    );
    assert!(runner.closing());
    assert_eq!(runner.session(), Session::Ended);
    let (runner, actions) =
        drive(runner, vec![Event::GraceElapsed, Event::ExitPolled(ExitPoll::ExitedCleanly)]);
    assert_eq!(
        actions,
        vec![Action::PollExit { generation: 1 }, log(Notice::ExitedCleanly), Action::Exit]
    );
    assert_eq!(runner.child(), Child::Absent);
    assert_eq!(runner.stage(), Stage::Quiet);
}

#[test]
fn shutdown_kills_a_child_that_outlives_the_grace_period() {
    let (runner, _) = relaying().step(Event::Shutdown);
    let (_, actions) = drive(
        runner,
        vec![
            Event::GraceElapsed,
            Event::ExitPolled(ExitPoll::StillRunning),
            Event::KillFinished { killed: false },
        ],
    );
    assert_eq!(
        actions,
        vec![
            Action::PollExit { generation: 1 },
            log(Notice::StillRunning),
            Action::Kill { generation: 1 },
            log(Notice::KillFailed),
            Action::Exit,
        ]
    );
}

#[test]
fn shutdown_without_a_child_leaves_at_once() {
    let (runner, _) = Runner::new("root".to_string(), &config(None));
    let (runner, _) = runner.step(Event::SpawnFinished { started: false });
    let (runner, actions) = runner.step(Event::Shutdown);
    assert_eq!(actions, vec![log(Notice::ShuttingDown), Action::Exit]);
    assert!(runner.closing());
}

#[test]
fn shutdown_during_a_restart_spawns_nothing_more() {
    let (runner, _) = relaying().step(Event::FilesChanged { events: 1 });
    let (runner, actions) = runner.step(Event::Shutdown);
    assert_eq!(actions, vec![log(Notice::ShuttingDown)]);
    let (runner, actions) =
        drive(runner, vec![Event::GraceElapsed, Event::ExitPolled(ExitPoll::ExitedWithError)]);
    assert_eq!(
        actions,
        vec![Action::PollExit { generation: 1 }, log(Notice::ExitedWithError), Action::Exit]
    );
    assert_eq!(runner.generation(), 1);
}

#[test]
fn shutdown_during_a_build_waits_for_the_build_and_spawns_nothing() {
    let (runner, _) = Runner::new("root".to_string(), &config(Some("make")));
    let (runner, actions) = runner.step(Event::Shutdown);
    assert_eq!(actions, vec![log(Notice::ShuttingDown)]);
    assert_eq!(runner.stage(), Stage::Building);
    let (runner, actions) = runner.step(Event::BuildFinished(BuildOutcome::Succeeded));
    assert_eq!(actions, vec![log(Notice::BuildSucceeded), Action::Exit]);
    assert_eq!(runner.generation(), 0);
}

#[test]
fn shutdown_during_a_spawn_stops_the_child_that_comes_up() {
    let (runner, _) = Runner::new("root".to_string(), &config(None));
    let (runner, actions) = runner.step(Event::Shutdown);
    assert_eq!(actions, vec![log(Notice::ShuttingDown)]);
    let (runner, actions) = runner.step(Event::SpawnFinished { started: true });
    assert_eq!(
        actions,
        vec![
            log(Notice::Started),
            log(Notice::ClosingInput),
            Action::CloseInput { generation: 1 },
            Action::WaitGrace { seconds: 2 },
        ]
    );
    assert_eq!(runner.session(), Session::Ended);
}

#[test]
fn nothing_restarts_and_nothing_is_relayed_after_shutdown() {
    let (runner, _) = relaying().step(Event::Shutdown);
    let (runner, actions) = drive(
        runner,
        vec![
            Event::Trigger,
            Event::FilesChanged { events: 4 },
            Event::ClientLine("late request".to_string()),
            Event::ChildLine { generation: 1, line: "late reply".to_string() },
            Event::Shutdown,
        ],
    );
    assert_eq!(actions, vec![log(Notice::RestartRefused), log(Notice::RestartRefused)]);
    assert_eq!(runner.accepted(), 1);
    assert_eq!(runner.backlog(), vec!["late request".to_string()]);
    assert!(!actions
        .iter()
        .any(|action| matches!(action, Action::ToClient { origin: Origin::Relayed, .. })));
    assert!(!actions
        .iter()
        .any(|action| matches!(action, Action::ToChild { purpose: Purpose::Forward, .. })));
}
