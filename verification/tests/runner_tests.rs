use synf::config::{BuildConfig, Config};
use synf::language::Language;
use synf::message::{
    Stream, Wiring,
    Action, BuildOutcome, Event, ExitPoll, ListKind, Notice, Origin, Purpose, INITIALIZED,
    PROMPTS_LIST_CHANGED, RESOURCES_LIST_CHANGED, TOOLS_LIST_CHANGED,
};
use synf::model::{Child, Session, Stage};
use synf::runner::Runner;

const INIT: &str = "{\"jsonrpc\":\"2.0\",\"id\":0,\"method\":\"initialize\",\"params\":{}}";
const INIT_REPLY: &str = "{\"jsonrpc\":\"2.0\",\"id\":0,\"result\":{\"serverInfo\":{}}}";

fn strings(items: &[&str]) -> Vec<String> {
    items.iter().map(|item| item.to_string()).collect()
}

fn config(language: Language, resend: bool) -> Config {
    Config {
        language,
        watch: None,
        resend_resource_subscriptions: Some(resend),
        build: None,
        run: None,
    }
}

fn log(notice: Notice) -> Action {
    Action::Log(notice)
}

fn to_child(generation: u64, line: &str, purpose: Purpose) -> Action {
    Action::ToChild { generation, line: line.to_string(), purpose }
}

fn to_client(generation: u64, line: &str, origin: Origin) -> Action {
    Action::ToClient { generation, line: line.to_string(), origin }
}

fn client_line(line: &str) -> Event {
    Event::ClientLine(line.to_string())
}

fn child_line(generation: u64, line: &str) -> Event {
    Event::ChildLine { generation, line: line.to_string() }
}

fn spawn_go(generation: u64) -> Action {
    Action::Spawn {
        generation,
        command: "go".to_string(),
        args: strings(&["run", "main.go"]),
        dir: "root".to_string(),
        wiring: Wiring { input: Stream::Piped, output: Stream::Piped, errors: Stream::Inherited },
    }
}

fn burst(generation: u64) -> Vec<Action> {
    vec![
        log(Notice::SkippingResponse),
        to_child(generation, INITIALIZED, Purpose::Initialized),
        to_client(generation, TOOLS_LIST_CHANGED, Origin::ListChanged(ListKind::Tools)),
        to_client(generation, PROMPTS_LIST_CHANGED, Origin::ListChanged(ListKind::Prompts)),
        to_client(generation, RESOURCES_LIST_CHANGED, Origin::ListChanged(ListKind::Resources)),
    ]
}

fn subscribe(uri: &str) -> String {
    format!(
        "{{\"jsonrpc\":\"2.0\",\"id\":7,\"method\":\"resources/subscribe\",\"params\":{{\"uri\":\"{}\"}}}}",
        uri
    )
}

fn unsubscribe(uri: &str) -> String {
    format!(
        "{{\"jsonrpc\":\"2.0\",\"id\":8,\"method\":\"resources/unsubscribe\",\"params\":{{\"uri\":\"{}\"}}}}",
        uri
    )
}

/// Feeds the events in order and collects every action.
fn drive(runner: Runner, events: Vec<Event>) -> (Runner, Vec<Action>) {
    let mut runner = runner;
    let mut all = Vec::new();
    for event in events {
        let (next, mut actions) = runner.step(event);
        runner = next;
        all.append(&mut actions);
    }
    (runner, all)
}

/// A Go supervisor whose first child is up and has answered the handshake.
fn relaying(resend: bool) -> Runner {
    let (runner, _) = Runner::new("root".to_string(), &config(Language::Golang, resend));
    let (runner, _) = drive(
        runner,
        vec![
            Event::SpawnFinished { started: true },
            client_line(INIT),
            child_line(1, INIT_REPLY),
        ],
    );
    assert_eq!(runner.session(), Session::Relay);
    runner
}

/// The events of a restart whose old child exits in time and whose new child
/// starts.
fn smooth_restart() -> Vec<Event> {
    vec![
        Event::FilesChanged { events: 1 },
        Event::GraceElapsed,
        Event::ExitPolled(ExitPoll::ExitedCleanly),
        Event::SpawnFinished { started: true },
    ]
}

#[test]
fn stream_wirings() {
    assert_eq!(
        Wiring::for_child(),
        Wiring { input: Stream::Piped, output: Stream::Piped, errors: Stream::Inherited }
    );
    assert_eq!(
        Wiring::for_build(),
        Wiring { input: Stream::Piped, output: Stream::Piped, errors: Stream::Piped }
    );
}

#[test]
fn fixed_literals() {
    assert_eq!(INITIALIZED, "{\"method\":\"notifications/initialized\",\"jsonrpc\":\"2.0\"}");
    assert_eq!(
        TOOLS_LIST_CHANGED,
        "{\"method\":\"notifications/tools/list_changed\",\"jsonrpc\":\"2.0\"}"
    );
    assert_eq!(
        PROMPTS_LIST_CHANGED,
        "{\"method\":\"notifications/prompts/list_changed\",\"jsonrpc\":\"2.0\"}"
    );
    assert_eq!(
        RESOURCES_LIST_CHANGED,
        "{\"method\":\"notifications/resources/list_changed\",\"jsonrpc\":\"2.0\"}"
    );
    assert_eq!(ListKind::Tools.body(), TOOLS_LIST_CHANGED);
    assert_eq!(ListKind::Prompts.body(), PROMPTS_LIST_CHANGED);
    assert_eq!(ListKind::Resources.body(), RESOURCES_LIST_CHANGED);
    assert_eq!(synf::message::GRACE_PERIOD_SECS, 2);
    assert_eq!(synf::message::DEBOUNCE_WINDOW_SECS, 1);
}

#[test]
fn new_runner_spawns_at_once_when_nothing_is_to_build() {
    let (runner, actions) = Runner::new("root".to_string(), &config(Language::Golang, false));
    assert_eq!(actions, vec![log(Notice::RunningCommand), spawn_go(1)]);
    assert_eq!(runner.generation(), 1);
    assert_eq!(runner.accepted(), 1);
    assert_eq!(runner.stage(), Stage::Spawning);
    assert_eq!(runner.child(), Child::Absent);
    assert_eq!(runner.session(), Session::WaitProcess);
    assert_eq!(runner.captured(), None);
    assert!(runner.client_open());
}

#[test]
fn new_runner_builds_first_when_a_build_is_configured() {
    let (runner, actions) = Runner::new("root".to_string(), &config(Language::Typescript, false));
    assert_eq!(
        actions,
        vec![
            log(Notice::RunningBuild),
            Action::RunBuild {
                command: "npm".to_string(),
                args: strings(&["run", "build"]),
                dir: "root".to_string(),
                wiring: Wiring::for_build(),
            },
        ]
    );
    assert_eq!(runner.stage(), Stage::Building);
    assert_eq!(runner.generation(), 0);
}

#[test]
fn failed_build_does_not_stop_the_restart() {
    let spawn = Action::Spawn {
        generation: 1,
        command: "node".to_string(),
        args: strings(&["build/index.js"]),
        dir: "root".to_string(),
        wiring: Wiring::for_child(),
    };
    for (outcome, notice) in [
        (BuildOutcome::Succeeded, Notice::BuildSucceeded),
        (BuildOutcome::Failed, Notice::BuildFailed),
        (BuildOutcome::NotStarted, Notice::BuildNotStarted),
    ] {
        let (runner, _) = Runner::new("root".to_string(), &config(Language::Typescript, false));
        let (runner, actions) = runner.step(Event::BuildFinished(outcome));
        assert_eq!(actions, vec![log(notice), log(Notice::RunningCommand), spawn.clone()]);
        assert_eq!(runner.stage(), Stage::Spawning);
    }
}

#[test]
fn first_handshake_passes_request_and_answer_through() {
    let (runner, _) = Runner::new("root".to_string(), &config(Language::Golang, false));
    let (runner, actions) = runner.step(Event::SpawnFinished { started: true });
    assert_eq!(actions, vec![log(Notice::Started), log(Notice::WaitingForInput)]);
    assert_eq!(runner.session(), Session::AwaitRequest);
    assert_eq!(runner.child(), Child::Open);
    assert_eq!(runner.stage(), Stage::Quiet);

    let (runner, actions) = runner.step(client_line(INIT));
    assert_eq!(actions, vec![to_child(1, INIT, Purpose::Initialize)]);
    assert_eq!(runner.session(), Session::AwaitResponse);
    assert_eq!(runner.captured(), Some(INIT.to_string()));

    let (runner, actions) = runner.step(child_line(1, INIT_REPLY));
    assert_eq!(actions, vec![to_client(1, INIT_REPLY, Origin::InitializeResponse)]);
    assert_eq!(runner.session(), Session::Relay);
}

#[test]
fn request_that_arrives_before_the_child_waits_for_it() {
    let (runner, _) = Runner::new("root".to_string(), &config(Language::Golang, false));
    let (runner, actions) = drive(runner, vec![client_line(INIT), client_line("second")]);
    assert_eq!(actions, vec![]);
    assert_eq!(runner.backlog(), strings(&[INIT, "second"]));

    let (runner, actions) = runner.step(Event::SpawnFinished { started: true });
    assert_eq!(actions, vec![log(Notice::Started), to_child(1, INIT, Purpose::Initialize)]);
    assert_eq!(runner.captured(), Some(INIT.to_string()));
    assert_eq!(runner.backlog(), strings(&["second"]));

    let (runner, actions) = runner.step(child_line(1, INIT_REPLY));
    assert_eq!(
        actions,
        vec![
            to_client(1, INIT_REPLY, Origin::InitializeResponse),
            to_child(1, "second", Purpose::Forward),
        ]
    );
    assert_eq!(runner.backlog(), Vec::<String>::new());
}

#[test]
fn relay_passes_lines_both_ways_verbatim() {
    let runner = relaying(false);
    let (runner, actions) = runner.step(client_line("  {\"id\":1}  "));
    assert_eq!(actions, vec![to_child(1, "  {\"id\":1}  ", Purpose::Forward)]);
    let (runner, actions) = runner.step(child_line(1, "not even json"));
    assert_eq!(actions, vec![to_client(1, "not even json", Origin::Relayed)]);
    let (_, actions) = runner.step(child_line(1, ""));
    assert_eq!(actions, vec![to_client(1, "", Origin::Relayed)]);
}

#[test]
fn touching_go_mod_restarts_once_without_a_build() {
    let cfg = config(Language::Golang, false);
    assert_eq!(cfg.watch_roots(), strings(&["go.mod"]));
    assert_eq!(synf::config::get_build_command(&Language::Golang).0, "");
    let runner = relaying(false);
    let (runner, actions) = runner.step(Event::FilesChanged { events: 1 });
    assert_eq!(
        actions,
        vec![
            log(Notice::StopSent),
            log(Notice::ClosingInput),
            Action::CloseInput { generation: 1 },
            Action::WaitGrace { seconds: 2 },
        ]
    );
    assert_eq!(runner.stage(), Stage::Grace { respawn: true });
    assert_eq!(runner.session(), Session::Ended);

    let (runner, actions) = runner.step(Event::GraceElapsed);
    assert_eq!(actions, vec![Action::PollExit { generation: 1 }]);

    let (runner, actions) = runner.step(Event::ExitPolled(ExitPoll::ExitedCleanly));
    assert_eq!(
        actions,
        vec![log(Notice::ExitedCleanly), log(Notice::RunningCommand), spawn_go(2)]
    );
    assert_eq!(runner.generation(), 2);

    let (runner, actions) = runner.step(Event::SpawnFinished { started: true });
    assert_eq!(actions, vec![log(Notice::Started), to_child(2, INIT, Purpose::ReplayInitialize)]);
    assert_eq!(runner.session(), Session::AwaitReplay);
    assert_eq!(runner.stage(), Stage::Quiet);
    assert_eq!(runner.accepted(), 2);
}

#[test]
fn whole_restart_cycle_spawns_exactly_one_child_and_never_builds() {
    let (_, actions) = drive(relaying(false), smooth_restart());
    let spawns = actions.iter().filter(|action| matches!(action, Action::Spawn { .. })).count();
    let builds = actions.iter().filter(|action| matches!(action, Action::RunBuild { .. })).count();
    assert_eq!(spawns, 1);
    assert_eq!(builds, 0);
    assert!(actions.contains(&spawn_go(2)));
}

#[test]
fn restart_replays_handshake_and_notifies_in_fixed_order() {
    let (runner, _) = drive(relaying(false), smooth_restart());
    let (runner, actions) = runner.step(child_line(2, "{\"id\":0,\"result\":\"second answer\"}"));
    assert_eq!(actions, burst(2));
    assert_eq!(runner.session(), Session::Relay);
    assert_eq!(runner.captured(), Some(INIT.to_string()));
}

#[test]
fn only_one_initialize_response_reaches_the_client_over_many_restarts() {
    let mut runner = relaying(false);
    let mut all = vec![to_client(1, INIT_REPLY, Origin::InitializeResponse)];
    for generation in 2..6u64 {
        let mut events = smooth_restart();
        events.push(child_line(generation, "{\"id\":0,\"result\":\"again\"}"));
        events.push(child_line(generation, "{\"id\":42}"));
        let (next, mut actions) = drive(runner, events);
        runner = next;
        all.append(&mut actions);
    }
    let responses: Vec<&Action> = all
        .iter()
        .filter(|action| matches!(action, Action::ToClient { origin: Origin::InitializeResponse, .. }))
        .collect();
    assert_eq!(responses, vec![&to_client(1, INIT_REPLY, Origin::InitializeResponse)]);
    let client_lines: Vec<String> = all
        .iter()
        .filter_map(|action| match action {
            Action::ToClient { line, .. } => Some(line.clone()),
            _ => None,
        })
        .collect();
    let mut expected = vec![INIT_REPLY.to_string()];
    for _ in 2..6 {
        expected.push(TOOLS_LIST_CHANGED.to_string());
        expected.push(PROMPTS_LIST_CHANGED.to_string());
        expected.push(RESOURCES_LIST_CHANGED.to_string());
        expected.push("{\"id\":42}".to_string());
    }
    assert_eq!(client_lines, expected);
    assert_eq!(runner.captured(), Some(INIT.to_string()));
}

#[test]
fn tagged_lines_survive_restarts_in_order() {
    let (runner, _) = Runner::new("root".to_string(), &config(Language::Golang, false));
    let mut events = vec![
        Event::SpawnFinished { started: true },
        client_line(INIT),
        client_line("tag-1"),
        child_line(1, INIT_REPLY),
        client_line("tag-2"),
        Event::FilesChanged { events: 3 },
        client_line("tag-3"),
        Event::GraceElapsed,
        client_line("tag-4"),
        Event::ExitPolled(ExitPoll::StillRunning),
        Event::KillFinished { killed: true },
        client_line("tag-5"),
        Event::SpawnFinished { started: true },
        client_line("tag-6"),
        child_line(2, "ignored answer"),
        client_line("tag-7"),
    ];
    events.extend(smooth_restart());
    events.push(client_line("tag-8"));
    events.push(child_line(3, "ignored answer"));
    let (runner, actions) = drive(runner, events);
    let forwarded: Vec<(u64, String)> = actions
        .iter()
        .filter_map(|action| match action {
            Action::ToChild { generation, line, purpose: Purpose::Forward } => {
                Some((*generation, line.clone()))
            }
            Action::ToChild { generation, line, purpose: Purpose::Initialize } => {
                Some((*generation, line.clone()))
            }
            _ => None,
        })
        .collect();
    assert_eq!(
        forwarded,
        vec![
            (1, INIT.to_string()),
            (1, "tag-1".to_string()),
            (1, "tag-2".to_string()),
            (2, "tag-3".to_string()),
            (2, "tag-4".to_string()),
            (2, "tag-5".to_string()),
            (2, "tag-6".to_string()),
            (2, "tag-7".to_string()),
            (3, "tag-8".to_string()),
        ]
    );
    assert_eq!(runner.backlog(), Vec::<String>::new());
}

#[test]
fn lines_wait_while_no_child_can_take_them() {
    let (runner, actions) = drive(
        relaying(false),
        vec![Event::FilesChanged { events: 1 }, client_line("queued-1"), client_line("queued-2")],
    );
    assert!(!actions.iter().any(|action| matches!(action, Action::ToChild { .. })));
    assert_eq!(runner.backlog(), strings(&["queued-1", "queued-2"]));
}

#[test]
fn output_of_a_stopped_generation_never_reaches_the_client() {
    let runner = relaying(false);
    let (runner, _) = runner.step(Event::FilesChanged { events: 1 });
    let (runner, actions) = runner.step(child_line(1, "late line"));
    assert_eq!(actions, vec![]);
    let (runner, _) = drive(
        runner,
        vec![
            Event::GraceElapsed,
            Event::ExitPolled(ExitPoll::ExitedCleanly),
            Event::SpawnFinished { started: true },
            child_line(2, "answer"),
        ],
    );
    let (runner, actions) = runner.step(child_line(1, "very late line"));
    assert_eq!(actions, vec![]);
    let (_, actions) = runner.step(child_line(2, "fresh line"));
    assert_eq!(actions, vec![to_client(2, "fresh line", Origin::Relayed)]);
}

#[test]
fn client_output_keeps_generation_order() {
    let mut events = smooth_restart();
    events.insert(1, child_line(1, "dropped"));
    events.push(child_line(1, "dropped too"));
    events.push(child_line(2, "answer"));
    events.push(child_line(1, "still dropped"));
    events.push(child_line(2, "kept"));
    let (_, actions) = drive(relaying(false), events);
    let generations: Vec<u64> = actions
        .iter()
        .filter_map(|action| match action {
            Action::ToClient { generation, .. } => Some(*generation),
            _ => None,
        })
        .collect();
    assert_eq!(generations, vec![2, 2, 2, 2]);
}

#[test]
fn unsubscribed_resource_is_not_replayed() {
    let (runner, _) = drive(
        relaying(true),
        vec![Event::ClientLine(subscribe("A")), Event::ClientLine(unsubscribe("A"))],
    );
    assert!(!runner.subscribed_to("A"));
    let (runner, _) = drive(runner, smooth_restart());
    let (runner, actions) = runner.step(child_line(2, "answer"));
    assert_eq!(actions, burst(2));
    assert_eq!(runner.session(), Session::Relay);
}

#[test]
fn subscribed_resource_is_replayed_once_and_its_answer_dropped() {
    let line = subscribe("B");
    let (runner, actions) = relaying(true).step(Event::ClientLine(line.clone()));
    assert_eq!(actions, vec![to_child(1, &line, Purpose::Forward)]);
    assert!(runner.subscribed_to("B"));
    assert_eq!(runner.subscription_lines(), vec![line.clone()]);

    let (runner, _) = drive(runner, smooth_restart());
    let (runner, actions) = runner.step(child_line(2, "answer"));
    let mut expected = burst(2);
    expected.push(to_child(2, &line, Purpose::ReplaySubscription));
    assert_eq!(actions, expected);
    assert_eq!(runner.session(), Session::Draining { remaining: 1 });

    let (runner, actions) = runner.step(child_line(2, "{\"id\":7,\"result\":{}}"));
    assert_eq!(actions, vec![]);
    assert_eq!(runner.session(), Session::Relay);

    let (_, actions) = runner.step(child_line(2, "after"));
    assert_eq!(actions, vec![to_client(2, "after", Origin::Relayed)]);
}

#[test]
fn several_subscriptions_are_replayed_in_table_order() {
    let a = subscribe("file:///a");
    let b = subscribe("file:///b");
    let a_again = subscribe("file:///a").replace("\"id\":7", "\"id\":9");
    let (runner, _) = drive(
        relaying(true),
        vec![
            Event::ClientLine(a.clone()),
            Event::ClientLine(b.clone()),
            Event::ClientLine(a_again.clone()),
            Event::ClientLine(subscribe("file:///c")),
            Event::ClientLine(unsubscribe("file:///c")),
        ],
    );
    assert_eq!(runner.subscription_lines(), vec![a_again.clone(), b.clone()]);
    let (runner, _) = drive(runner, smooth_restart());
    let (runner, _) = runner.step(client_line("waits for the handshake"));
    let (runner, actions) = runner.step(child_line(2, "answer"));
    let mut expected = burst(2);
    expected.push(to_child(2, &a_again, Purpose::ReplaySubscription));
    expected.push(to_child(2, &b, Purpose::ReplaySubscription));
    assert_eq!(actions, expected);
    assert_eq!(runner.session(), Session::Draining { remaining: 2 });
    let (runner, actions) = runner.step(child_line(2, "first answer"));
    assert_eq!(actions, vec![]);
    assert_eq!(runner.session(), Session::Draining { remaining: 1 });
    let (runner, actions) = runner.step(child_line(2, "second answer"));
    assert_eq!(actions, vec![to_child(2, "waits for the handshake", Purpose::Forward)]);
    assert_eq!(runner.session(), Session::Relay);
}

#[test]
fn subscriptions_are_ignored_unless_resend_is_on() {
    let line = subscribe("B");
    let (runner, actions) = relaying(false).step(Event::ClientLine(line.clone()));
    assert_eq!(actions, vec![to_child(1, &line, Purpose::Forward)]);
    assert!(!runner.subscribed_to("B"));
    let (runner, _) = drive(runner, smooth_restart());
    let (_, actions) = runner.step(child_line(2, "answer"));
    assert_eq!(actions, burst(2));
}

#[test]
fn subscription_in_the_backlog_is_tracked_when_it_is_forwarded() {
    let line = subscribe("B");
    let (runner, _) = drive(
        relaying(true),
        vec![Event::FilesChanged { events: 1 }, Event::ClientLine(line.clone())],
    );
    assert!(!runner.subscribed_to("B"));
    let (runner, _) = drive(
        runner,
        vec![
            Event::GraceElapsed,
            Event::ExitPolled(ExitPoll::ExitedCleanly),
            Event::SpawnFinished { started: true },
        ],
    );
    let (runner, actions) = runner.step(child_line(2, "answer"));
    let mut expected = burst(2);
    expected.push(to_child(2, &line, Purpose::Forward));
    assert_eq!(actions, expected);
    assert!(runner.subscribed_to("B"));
}

#[test]
fn child_that_exits_in_time_is_not_killed() {
    for (poll, notice) in [
        (ExitPoll::ExitedCleanly, Notice::ExitedCleanly),
        (ExitPoll::ExitedWithError, Notice::ExitedWithError),
    ] {
        let (runner, _) =
            drive(relaying(false), vec![Event::FilesChanged { events: 1 }, Event::GraceElapsed]);
        assert_eq!(runner.stage(), Stage::Polling { respawn: true });
        let (runner, actions) = runner.step(Event::ExitPolled(poll));
        assert_eq!(actions, vec![log(notice), log(Notice::RunningCommand), spawn_go(2)]);
        assert_eq!(runner.child(), Child::Absent);
    }
}

#[test]
fn child_that_ignores_closed_input_is_killed_after_the_grace_period() {
    for (poll, notice) in
        [(ExitPoll::StillRunning, Notice::StillRunning), (ExitPoll::Unknown, Notice::PollFailed)]
    {
        let (runner, actions) = drive(relaying(false), vec![Event::FilesChanged { events: 1 }]);
        assert!(!actions.iter().any(|action| matches!(action, Action::Kill { .. })));
        // Reports that come before the grace period is over change nothing.
        let (runner, actions) = runner.step(Event::ExitPolled(poll));
        assert_eq!(actions, vec![]);
        let (runner, actions) = runner.step(Event::GraceElapsed);
        assert_eq!(actions, vec![Action::PollExit { generation: 1 }]);
        let (runner, actions) = runner.step(Event::ExitPolled(poll));
        assert_eq!(actions, vec![log(notice), Action::Kill { generation: 1 }]);
        assert_eq!(runner.stage(), Stage::Killing { respawn: true });
        assert_eq!(runner.child(), Child::Closed);
    }
}

#[test]
fn restart_goes_on_whether_the_kill_worked_or_not() {
    for (killed, notice) in [(true, Notice::Killed), (false, Notice::KillFailed)] {
        let (runner, _) = drive(
            relaying(false),
            vec![
                Event::FilesChanged { events: 1 },
                Event::GraceElapsed,
                Event::ExitPolled(ExitPoll::StillRunning),
            ],
        );
        let (runner, actions) = runner.step(Event::KillFinished { killed });
        assert_eq!(actions, vec![log(notice), log(Notice::RunningCommand), spawn_go(2)]);
        assert_eq!(runner.stage(), Stage::Spawning);
    }
}

#[test]
fn failed_spawn_leaves_no_child_and_a_later_restart_heals() {
    let (runner, _) = Runner::new("root".to_string(), &config(Language::Golang, false));
    let (runner, actions) = runner.step(Event::SpawnFinished { started: false });
    assert_eq!(actions, vec![log(Notice::SpawnFailed), log(Notice::WaitingForProcess)]);
    assert_eq!(runner.child(), Child::Absent);
    assert_eq!(runner.session(), Session::WaitProcess);
    assert_eq!(runner.stage(), Stage::Quiet);

    let (runner, actions) = runner.step(client_line(INIT));
    assert_eq!(actions, vec![]);

    let (runner, actions) = runner.step(Event::FilesChanged { events: 2 });
    assert_eq!(actions, vec![log(Notice::StopSent), log(Notice::RunningCommand), spawn_go(2)]);
    let (runner, actions) = runner.step(Event::SpawnFinished { started: false });
    assert_eq!(actions, vec![log(Notice::SpawnFailed), log(Notice::WaitingForProcess)]);

    let (runner, _) = runner.step(Event::Trigger);
    let (runner, actions) = runner.step(Event::SpawnFinished { started: true });
    assert_eq!(actions, vec![log(Notice::Started), to_child(3, INIT, Purpose::Initialize)]);
    let (runner, actions) = runner.step(child_line(3, INIT_REPLY));
    assert_eq!(actions, vec![to_client(3, INIT_REPLY, Origin::InitializeResponse)]);
    assert_eq!(runner.session(), Session::Relay);
}

#[test]
fn empty_batches_and_watch_errors_do_not_restart() {
    let runner = relaying(false);
    let (runner, actions) = runner.step(Event::FilesChanged { events: 0 });
    assert_eq!(actions, vec![]);
    let (runner, actions) = runner.step(Event::WatchFailed { errors: 2 });
    assert_eq!(actions, vec![log(Notice::WatchFailed)]);
    assert_eq!(runner.accepted(), 1);
    assert_eq!(runner.stage(), Stage::Quiet);
    assert_eq!(runner.session(), Session::Relay);
}

#[test]
fn a_batch_of_many_events_restarts_once() {
    let (runner, _) = drive(relaying(false), vec![Event::FilesChanged { events: 25 }]);
    assert_eq!(runner.accepted(), 2);
}

#[test]
fn triggers_during_a_restart_run_one_after_the_other() {
    let (runner, actions) =
        drive(relaying(false), vec![Event::FilesChanged { events: 1 }, Event::Trigger]);
    assert_eq!(actions.last(), Some(&log(Notice::RestartQueued)));
    assert_eq!(runner.accepted(), 3);
    let (runner, _) =
        drive(runner, vec![Event::GraceElapsed, Event::ExitPolled(ExitPoll::ExitedCleanly)]);
    assert_eq!(runner.generation(), 2);
    let (runner, actions) = runner.step(Event::SpawnFinished { started: true });
    assert_eq!(
        actions,
        vec![
            log(Notice::Started),
            to_child(2, INIT, Purpose::ReplayInitialize),
            log(Notice::StopSent),
            log(Notice::ClosingInput),
            Action::CloseInput { generation: 2 },
            Action::WaitGrace { seconds: 2 },
        ]
    );
    assert_eq!(runner.stage(), Stage::Grace { respawn: true });
    let (runner, actions) = drive(
        runner,
        vec![
            child_line(2, "too late"),
            Event::GraceElapsed,
            Event::ExitPolled(ExitPoll::ExitedCleanly),
            Event::SpawnFinished { started: true },
        ],
    );
    assert!(actions.contains(&spawn_go(3)));
    assert_eq!(runner.generation(), 3);
    assert_eq!(runner.stage(), Stage::Quiet);
    assert_eq!(runner.session(), Session::AwaitReplay);
}

#[test]
fn relay_goes_on_while_the_build_runs() {
    let mut cfg = config(Language::Golang, false);
    cfg.build = Some(BuildConfig { command: Some("make".to_string()), args: None });
    let (runner, actions) = Runner::new("root".to_string(), &cfg);
    assert_eq!(
        actions,
        vec![
            log(Notice::RunningBuild),
            Action::RunBuild {
                command: "make".to_string(),
                args: Vec::new(),
                dir: "root".to_string(),
                wiring: Wiring::for_build(),
            },
        ]
    );
    let (runner, _) = drive(
        runner,
        vec![
            Event::BuildFinished(BuildOutcome::Succeeded),
            Event::SpawnFinished { started: true },
            client_line(INIT),
            child_line(1, INIT_REPLY),
            Event::FilesChanged { events: 1 },
        ],
    );
    assert_eq!(runner.stage(), Stage::Building);
    let (runner, actions) = drive(runner, vec![client_line("request"), child_line(1, "reply")]);
    assert_eq!(
        actions,
        vec![to_child(1, "request", Purpose::Forward), to_client(1, "reply", Origin::Relayed)]
    );
    let (runner, actions) = runner.step(Event::BuildFinished(BuildOutcome::Failed));
    assert_eq!(
        actions,
        vec![
            log(Notice::BuildFailed),
            log(Notice::StopSent),
            log(Notice::ClosingInput),
            Action::CloseInput { generation: 1 },
            Action::WaitGrace { seconds: 2 },
        ]
    );
    assert_eq!(runner.session(), Session::Ended);
}

#[test]
fn failed_write_ends_the_generation_and_stops_its_child() {
    let (runner, actions) = relaying(false).step(Event::WriteFailed { generation: 1 });
    assert_eq!(
        actions,
        vec![
            log(Notice::WriteFailed),
            log(Notice::ClosingInput),
            Action::CloseInput { generation: 1 },
            Action::WaitGrace { seconds: 2 },
        ]
    );
    assert_eq!(runner.session(), Session::Ended);
    assert_eq!(runner.stage(), Stage::Grace { respawn: false });
    let (runner, actions) = runner.step(client_line("kept for the next child"));
    assert_eq!(actions, vec![]);
    let (runner, actions) =
        drive(runner, vec![Event::GraceElapsed, Event::ExitPolled(ExitPoll::ExitedWithError)]);
    assert_eq!(actions, vec![Action::PollExit { generation: 1 }, log(Notice::ExitedWithError)]);
    assert_eq!(runner.stage(), Stage::Quiet);
    assert_eq!(runner.child(), Child::Absent);
    assert_eq!(runner.generation(), 1);

    let (runner, _) = drive(runner, vec![Event::Trigger, Event::SpawnFinished { started: true }]);
    let (_, actions) = runner.step(child_line(2, "answer"));
    let mut expected = burst(2);
    expected.push(to_child(2, "kept for the next child", Purpose::Forward));
    assert_eq!(actions, expected);
}

#[test]
fn failed_write_of_an_old_generation_is_ignored() {
    let (runner, _) = drive(relaying(false), smooth_restart());
    let (runner, actions) = runner.step(Event::WriteFailed { generation: 1 });
    assert_eq!(actions, vec![]);
    assert_eq!(runner.session(), Session::AwaitReplay);
}

#[test]
fn end_of_child_output_does_not_end_the_input_side() {
    let (runner, actions) = relaying(false).step(Event::ChildClosed { generation: 1 });
    assert_eq!(actions, vec![log(Notice::ChildOutputEnded)]);
    assert_eq!(runner.session(), Session::Relay);
    let (runner, actions) = runner.step(client_line("still forwarded"));
    assert_eq!(actions, vec![to_child(1, "still forwarded", Purpose::Forward)]);
    let (_, actions) = runner.step(Event::ChildClosed { generation: 9 });
    assert_eq!(actions, vec![]);
}

#[test]
fn end_of_client_input_stops_the_child_but_not_its_output() {
    let (runner, _) = relaying(false).step(client_line("last request"));
    let (runner, actions) = runner.step(Event::ClientClosed);
    assert_eq!(
        actions,
        vec![
            log(Notice::ClosingInput),
            Action::CloseInput { generation: 1 },
            Action::WaitGrace { seconds: 2 },
        ]
    );
    assert!(!runner.client_open());
    assert_eq!(runner.session(), Session::Finishing);
    assert_eq!(runner.stage(), Stage::Grace { respawn: false });

    let (runner, actions) = runner.step(child_line(1, "last answer"));
    assert_eq!(actions, vec![to_client(1, "last answer", Origin::Relayed)]);

    let (runner, actions) =
        drive(runner, vec![Event::GraceElapsed, Event::ExitPolled(ExitPoll::StillRunning)]);
    assert_eq!(
        actions,
        vec![
            Action::PollExit { generation: 1 },
            log(Notice::StillRunning),
            Action::Kill { generation: 1 },
        ]
    );
    let (runner, actions) = runner.step(Event::KillFinished { killed: true });
    assert_eq!(actions, vec![log(Notice::Killed)]);
    assert_eq!(runner.stage(), Stage::Quiet);
    assert_eq!(runner.child(), Child::Absent);

    let (runner, actions) = runner.step(child_line(1, "still in the pipe"));
    assert_eq!(actions, vec![to_client(1, "still in the pipe", Origin::Relayed)]);
    let (runner, actions) = runner.step(Event::ChildClosed { generation: 1 });
    assert_eq!(actions, vec![log(Notice::ChildOutputEnded)]);
    assert_eq!(runner.session(), Session::Ended);
    let (_, actions) = runner.step(child_line(1, "after the end"));
    assert_eq!(actions, vec![]);
}

#[test]
fn restart_supersedes_a_generation_that_only_passes_output_on() {
    let (runner, _) = relaying(false).step(Event::ClientClosed);
    let (runner, actions) = runner.step(Event::Trigger);
    assert_eq!(actions, vec![log(Notice::RestartQueued)]);
    let (runner, actions) = runner.step(child_line(1, "before the restart"));
    assert_eq!(actions, vec![to_client(1, "before the restart", Origin::Relayed)]);
    let (runner, actions) =
        drive(runner, vec![Event::GraceElapsed, Event::ExitPolled(ExitPoll::ExitedCleanly)]);
    assert_eq!(
        actions,
        vec![
            Action::PollExit { generation: 1 },
            log(Notice::ExitedCleanly),
            log(Notice::StopSent),
            log(Notice::RunningCommand),
            spawn_go(2),
        ]
    );
    let (_, actions) = runner.step(child_line(1, "superseded"));
    assert_eq!(actions, vec![]);
}

#[test]
fn failed_write_ends_a_generation_that_only_passes_output_on() {
    let (runner, _) = relaying(false).step(Event::ClientClosed);
    let (runner, actions) = runner.step(Event::WriteFailed { generation: 1 });
    assert_eq!(actions, vec![log(Notice::WriteFailed)]);
    assert_eq!(runner.session(), Session::Ended);
    let (_, actions) = runner.step(child_line(1, "nobody listens"));
    assert_eq!(actions, vec![]);
}

#[test]
fn restart_after_client_input_ended_flushes_and_passes_output_on() {
    let (runner, _) = drive(
        relaying(false),
        vec![Event::FilesChanged { events: 1 }, client_line("last words"), Event::ClientClosed],
    );
    let (runner, _) = drive(
        runner,
        vec![
            Event::GraceElapsed,
            Event::ExitPolled(ExitPoll::ExitedCleanly),
            Event::SpawnFinished { started: true },
        ],
    );
    let (runner, actions) = runner.step(child_line(2, "answer"));
    let mut expected = burst(2);
    expected.push(to_child(2, "last words", Purpose::Forward));
    expected.push(log(Notice::ClosingInput));
    expected.push(Action::CloseInput { generation: 2 });
    expected.push(Action::WaitGrace { seconds: 2 });
    assert_eq!(actions, expected);
    assert_eq!(runner.session(), Session::Finishing);
    let (_, actions) = runner.step(child_line(2, "answer to the last words"));
    assert_eq!(actions, vec![to_client(2, "answer to the last words", Origin::Relayed)]);
}

#[test]
fn client_that_closes_before_its_request_ends_the_first_generation() {
    let (runner, _) = Runner::new("root".to_string(), &config(Language::Golang, false));
    let (runner, _) = runner.step(Event::ClientClosed);
    let (runner, actions) = runner.step(Event::SpawnFinished { started: true });
    assert_eq!(
        actions,
        vec![
            log(Notice::Started),
            log(Notice::ClosingInput),
            Action::CloseInput { generation: 1 },
            Action::WaitGrace { seconds: 2 },
        ]
    );
    assert_eq!(runner.session(), Session::Ended);
}

#[test]
fn early_child_output_is_passed_on_before_the_request() {
    let (runner, _) = Runner::new("root".to_string(), &config(Language::Golang, false));
    let (runner, _) = runner.step(Event::SpawnFinished { started: true });
    let (runner, actions) = runner.step(child_line(1, "banner"));
    assert_eq!(actions, vec![to_client(1, "banner", Origin::Relayed)]);
    assert_eq!(runner.session(), Session::AwaitRequest);
}

#[test]
fn reports_nobody_asked_for_change_nothing() {
    let runner = relaying(false);
    let (runner, actions) = drive(
        runner,
        vec![
            Event::GraceElapsed,
            Event::ExitPolled(ExitPoll::StillRunning),
            Event::KillFinished { killed: true },
            Event::SpawnFinished { started: true },
            Event::BuildFinished(BuildOutcome::Succeeded),
            child_line(7, "from nowhere"),
        ],
    );
    assert_eq!(actions, vec![]);
    assert_eq!(runner.session(), Session::Relay);
    assert_eq!(runner.stage(), Stage::Quiet);
    assert_eq!(runner.generation(), 1);
}

#[test]
fn trigger_method_is_the_trigger_event() {
    let (left, left_actions) = relaying(false).trigger();
    let (right, right_actions) = relaying(false).step(Event::Trigger);
    assert_eq!(left_actions, right_actions);
    assert_eq!(left.stage(), right.stage());
    assert_eq!(left.accepted(), right.accepted());
}

#[test]
fn notices_have_messages() {
    assert_eq!(Notice::ClosingInput.text(), "Closing running process stdin");
    assert_eq!(Notice::ExitedCleanly.text(), "Process exited successfully");
    assert_eq!(Notice::ExitedWithError.text(), "Process exited with error");
    assert_eq!(Notice::StillRunning.text(), "Process is still running");
    assert_eq!(Notice::PollFailed.text(), "Failed to check if process is closed");
    assert_eq!(Notice::Killed.text(), "Killed running process");
    assert_eq!(Notice::KillFailed.text(), "Failed to kill running process");
    assert_eq!(Notice::BuildSucceeded.text(), "Build succeeded");
    assert_eq!(Notice::BuildFailed.text(), "Build failed");
    assert_eq!(Notice::BuildNotStarted.text(), "Error running build command");
    assert_eq!(Notice::WaitingForProcess.text(), "Waiting for process to start");
    assert_eq!(Notice::WaitingForInput.text(), "Waiting for input to initialize");
}

#[test]
fn restart_during_the_first_handshake_still_delivers_the_response() {
    let (runner, _) = Runner::new("root".to_string(), &config(Language::Golang, false));
    let (runner, _) = drive(
        runner,
        vec![
            Event::SpawnFinished { started: true },
            client_line(INIT),
            Event::FilesChanged { events: 1 },
        ],
    );
    assert_eq!(runner.session(), Session::AwaitResponse);
    assert_eq!(runner.child(), Child::Closed);
    assert!(!runner.answered());

    let (runner, actions) = runner.step(child_line(1, INIT_REPLY));
    assert_eq!(actions, vec![to_client(1, INIT_REPLY, Origin::InitializeResponse)]);
    assert!(runner.answered());
    assert_eq!(runner.session(), Session::Ended);

    let (runner, actions) = drive(
        runner,
        vec![
            child_line(1, "more from the stopping child"),
            Event::GraceElapsed,
            Event::ExitPolled(ExitPoll::ExitedCleanly),
            Event::SpawnFinished { started: true },
        ],
    );
    assert_eq!(actions.last(), Some(&to_child(2, INIT, Purpose::ReplayInitialize)));
    assert!(!actions.iter().any(|action| matches!(action, Action::ToClient { .. })));
    assert_eq!(runner.session(), Session::AwaitReplay);
    let (_, actions) = runner.step(child_line(2, "thrown away"));
    assert_eq!(actions, burst(2));
}

#[test]
fn later_generation_replays_even_when_the_first_child_never_answered() {
    let (runner, _) = Runner::new("root".to_string(), &config(Language::Golang, false));
    let (runner, actions) = drive(
        runner,
        vec![
            Event::SpawnFinished { started: true },
            client_line(INIT),
            Event::Trigger,
            Event::GraceElapsed,
            Event::ExitPolled(ExitPoll::ExitedCleanly),
            Event::SpawnFinished { started: true },
        ],
    );
    assert!(!actions.iter().any(|action| matches!(action, Action::ToClient { .. })));
    assert_eq!(actions.last(), Some(&to_child(2, INIT, Purpose::ReplayInitialize)));
    assert_eq!(runner.session(), Session::AwaitReplay);
    assert!(!runner.answered());

    let (runner, actions) = drive(runner, vec![child_line(2, "R"), child_line(2, "x")]);
    let mut expected = burst(2);
    expected.push(to_client(2, "x", Origin::Relayed));
    assert_eq!(actions, expected);
    let to_the_child: Vec<&Action> =
        actions.iter().filter(|action| matches!(action, Action::ToChild { .. })).collect();
    assert_eq!(to_the_child, vec![&to_child(2, INITIALIZED, Purpose::Initialized)]);
    assert!(!runner.answered());
    assert_eq!(runner.session(), Session::Relay);
}

#[test]
fn restart_that_waits_when_the_first_child_comes_up_cuts_no_handshake() {
    let (runner, _) = Runner::new("root".to_string(), &config(Language::Golang, false));
    let (runner, _) = drive(runner, vec![client_line(INIT), Event::Trigger]);
    let (runner, actions) = runner.step(Event::SpawnFinished { started: true });
    assert_eq!(
        actions,
        vec![
            log(Notice::Started),
            to_child(1, INIT, Purpose::Initialize),
            log(Notice::StopSent),
            log(Notice::ClosingInput),
            Action::CloseInput { generation: 1 },
            Action::WaitGrace { seconds: 2 },
        ]
    );
    assert_eq!(runner.session(), Session::AwaitResponse);
    let (runner, actions) = runner.step(child_line(1, INIT_REPLY));
    assert_eq!(actions, vec![to_client(1, INIT_REPLY, Origin::InitializeResponse)]);
    assert!(runner.answered());
    let (runner, actions) = drive(
        runner,
        vec![
            Event::GraceElapsed,
            Event::ExitPolled(ExitPoll::StillRunning),
            Event::KillFinished { killed: true },
            Event::SpawnFinished { started: true },
            child_line(2, "thrown away"),
        ],
    );
    let to_the_client: Vec<Action> = actions
        .iter()
        .filter(|action| matches!(action, Action::ToClient { .. }))
        .cloned()
        .collect();
    assert_eq!(to_the_client, burst(2)[2..].to_vec());
    assert_eq!(runner.session(), Session::Relay);
}

#[test]
fn restart_during_a_replayed_handshake_still_notifies_when_the_child_answers() {
    let line = subscribe("B");
    let (runner, _) = relaying(true).step(Event::ClientLine(line));
    let (runner, _) = drive(runner, smooth_restart());
    assert_eq!(runner.session(), Session::AwaitReplay);
    let (runner, _) = runner.step(Event::FilesChanged { events: 1 });
    assert_eq!(runner.session(), Session::AwaitReplay);
    assert_eq!(runner.stage(), Stage::Grace { respawn: true });

    let (runner, actions) = runner.step(child_line(2, "thrown away"));
    assert_eq!(actions, burst(2));
    assert_eq!(runner.session(), Session::Ended);
    let (runner, actions) = runner.step(child_line(2, "not relayed"));
    assert_eq!(actions, vec![]);

    let (runner, _) = drive(
        runner,
        vec![
            Event::GraceElapsed,
            Event::ExitPolled(ExitPoll::ExitedCleanly),
            Event::SpawnFinished { started: true },
        ],
    );
    let (runner, actions) = runner.step(child_line(3, "thrown away"));
    assert_eq!(actions.len(), 6);
    assert_eq!(actions[..5], burst(3)[..]);
    assert_eq!(runner.session(), Session::Draining { remaining: 1 });
}

#[test]
fn child_that_dies_before_answering_is_followed_by_a_replay() {
    let (runner, _) = Runner::new("root".to_string(), &config(Language::Golang, false));
    let (runner, _) = drive(
        runner,
        vec![
            Event::SpawnFinished { started: true },
            client_line(INIT),
            client_line("second"),
            Event::ChildClosed { generation: 1 },
        ],
    );
    assert_eq!(runner.session(), Session::AwaitResponse);
    let (runner, _) = drive(
        runner,
        vec![
            Event::FilesChanged { events: 1 },
            Event::GraceElapsed,
            Event::ExitPolled(ExitPoll::ExitedWithError),
            Event::SpawnFinished { started: false },
        ],
    );
    assert_eq!(runner.session(), Session::WaitProcess);
    let (runner, actions) = drive(
        runner,
        vec![
            Event::Trigger,
            Event::SpawnFinished { started: true },
            child_line(3, "thrown away"),
        ],
    );
    let mut expected = vec![
        log(Notice::StopSent),
        log(Notice::RunningCommand),
        spawn_go(3),
        log(Notice::Started),
        to_child(3, INIT, Purpose::ReplayInitialize),
    ];
    expected.extend(burst(3));
    expected.push(to_child(3, "second", Purpose::Forward));
    assert_eq!(actions, expected);
    assert!(!runner.answered());
    assert_eq!(runner.captured(), Some(INIT.to_string()));
}

#[test]
fn runner_keeps_the_configured_language() {
    for language in [Language::Typescript, Language::Python, Language::Golang, Language::Kotlin] {
        let (runner, _) = Runner::new("root".to_string(), &config(language, false));
        assert_eq!(runner.language(), language);
        let (runner, _) = runner.step(Event::Shutdown);
        assert_eq!(runner.language(), language);
    }
}
