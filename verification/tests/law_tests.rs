use synf::config::{BuildConfig, Config};
use synf::language::Language;
use synf::message::{
    Action, BuildOutcome, Event, ExitPoll, ListKind, Origin, Purpose, INITIALIZED,
    PROMPTS_LIST_CHANGED, RESOURCES_LIST_CHANGED, TOOLS_LIST_CHANGED,
};
use synf::runner::Runner;

/// A small deterministic source of numbers.
struct Dice(u64);

impl Dice {
    fn roll(&mut self, sides: u64) -> u64 {
        self.0 = self.0.wrapping_mul(6364136223846793005).wrapping_add(1442695040888963407);
        (self.0 >> 33) % sides
    }
}

fn config(build: bool, resend: bool) -> Config {
    Config {
        language: Language::Golang,
        watch: None,
        resend_resource_subscriptions: Some(resend),
        build: if build {
            Some(BuildConfig { command: Some("make".to_string()), args: None })
        } else {
            None
        },
        run: None,
    }
}

/// Any event at all, likely or not; client lines carry a running tag.
fn any_event(dice: &mut Dice, generation: u64, tag: &mut u64) -> Event {
    match dice.roll(16) {
        0 => Event::Trigger,
        1 => Event::FilesChanged { events: dice.roll(3) as usize },
        2 => Event::WatchFailed { errors: 1 },
        3 => Event::BuildFinished(match dice.roll(3) {
            0 => BuildOutcome::Succeeded,
            1 => BuildOutcome::Failed,
            _ => BuildOutcome::NotStarted,
        }),
        4 => Event::GraceElapsed,
        5 => Event::ExitPolled(match dice.roll(4) {
            0 => ExitPoll::ExitedCleanly,
            1 => ExitPoll::ExitedWithError,
            2 => ExitPoll::StillRunning,
            _ => ExitPoll::Unknown,
        }),
        6 => Event::KillFinished { killed: dice.roll(2) == 0 },
        7 | 8 => Event::SpawnFinished { started: dice.roll(4) != 0 },
        9 | 10 | 11 => {
            *tag += 1;
            match dice.roll(6) {
                0 => Event::ClientLine(format!(
                    "{{\"id\":{},\"method\":\"resources/subscribe\",\"params\":{{\"uri\":\"r{}\"}}}}",
                    tag,
                    dice.roll(3)
                )),
                1 => Event::ClientLine(format!(
                    "{{\"id\":{},\"method\":\"resources/unsubscribe\",\"params\":{{\"uri\":\"r{}\"}}}}",
                    tag,
                    dice.roll(3)
                )),
                _ => Event::ClientLine(format!("{{\"id\":{}}}", tag)),
            }
        }
        12 | 13 => Event::ChildLine {
            generation: generation.saturating_sub(dice.roll(2)),
            line: format!("out-{}", dice.roll(1000)),
        },
        14 => Event::ChildClosed { generation },
        _ => {
            if dice.roll(8) == 0 {
                Event::WriteFailed { generation }
            } else {
                Event::ChildLine { generation, line: format!("out-{}", dice.roll(1000)) }
            }
        }
    }
}

/// Runs many events and hands back what was sent by the client, what the
/// supervisor did, and the supervisor.
fn wander(seed: u64, steps: usize, build: bool, resend: bool) -> (Vec<String>, Vec<Action>, Runner) {
    let mut dice = Dice(seed);
    let mut tag = 0;
    let mut sent = Vec::new();
    let (mut runner, mut log) = Runner::new("root".to_string(), &config(build, resend));
    for _ in 0..steps {
        let event = any_event(&mut dice, runner.generation(), &mut tag);
        if let Event::ClientLine(line) = &event {
            sent.push(line.clone());
        }
        let (next, mut actions) = runner.step(event);
        runner = next;
        log.append(&mut actions);
    }
    (sent, log, runner)
}

fn seeds() -> Vec<(u64, bool, bool)> {
    let mut all = Vec::new();
    for seed in 1..41u64 {
        all.push((seed * 7919, seed % 2 == 0, seed % 3 != 0));
    }
    all
}

#[test]
fn every_client_line_is_forwarded_once_in_order_or_still_waits() {
    for (seed, build, resend) in seeds() {
        let (sent, log, runner) = wander(seed, 600, build, resend);
        let mut seen: Vec<String> = log
            .iter()
            .filter_map(|action| match action {
                Action::ToChild { line, purpose: Purpose::Initialize, .. } => Some(line.clone()),
                Action::ToChild { line, purpose: Purpose::Forward, .. } => Some(line.clone()),
                _ => None,
            })
            .collect();
        seen.extend(runner.backlog());
        assert_eq!(seen, sent, "seed {}", seed);
    }
}

#[test]
fn forwarded_lines_never_go_back_to_an_earlier_generation() {
    for (seed, build, resend) in seeds() {
        let (_, log, _) = wander(seed, 600, build, resend);
        let generations: Vec<u64> = log
            .iter()
            .filter_map(|action| match action {
                Action::ToChild { generation, .. } => Some(*generation),
                _ => None,
            })
            .collect();
        assert!(generations.windows(2).all(|pair| pair[0] <= pair[1]), "seed {}", seed);
    }
}

#[test]
fn client_output_never_goes_back_to_an_earlier_generation() {
    for (seed, build, resend) in seeds() {
        let (_, log, runner) = wander(seed, 600, build, resend);
        let generations: Vec<u64> = log
            .iter()
            .filter_map(|action| match action {
                Action::ToClient { generation, .. } => Some(*generation),
                _ => None,
            })
            .collect();
        assert!(generations.windows(2).all(|pair| pair[0] <= pair[1]), "seed {}", seed);
        assert!(generations.iter().all(|generation| *generation <= runner.generation()));
    }
}

#[test]
fn at_most_one_initialize_response_and_only_from_the_child_given_the_request() {
    let mut delivered = 0;
    for (seed, build, resend) in seeds() {
        let (sent, log, runner) = wander(seed, 600, build, resend);
        let mut first: Option<u64> = None;
        let mut responses: Vec<u64> = Vec::new();
        for action in &log {
            match action {
                Action::ToChild { generation, line, purpose: Purpose::Initialize } => {
                    assert_eq!(line, &sent[0], "seed {}", seed);
                    assert_eq!(first, None, "seed {}", seed);
                    first = Some(*generation);
                }
                Action::ToChild { generation, line, purpose: Purpose::ReplayInitialize } => {
                    assert_eq!(line, &sent[0], "seed {}", seed);
                    assert!(first.is_some_and(|given| given < *generation), "seed {}", seed);
                }
                Action::ToClient { generation, origin: Origin::InitializeResponse, .. } => {
                    assert_eq!(first, Some(*generation), "seed {}", seed);
                    responses.push(*generation);
                }
                Action::ToClient { generation, origin: Origin::ListChanged(_), .. } => {
                    assert!(first.is_some_and(|given| given < *generation), "seed {}", seed);
                }
                _ => {}
            }
        }
        assert!(responses.len() <= 1, "seed {}", seed);
        assert_eq!(runner.answered(), responses.len() == 1, "seed {}", seed);
        if first.is_some() {
            assert_eq!(runner.captured().as_ref(), Some(&sent[0]), "seed {}", seed);
        }
        delivered += responses.len();
    }
    assert!(delivered > 0);
}

#[test]
fn list_changed_notifications_come_in_whole_bursts_once_per_generation() {
    let mut bursts = 0;
    for (seed, build, resend) in seeds() {
        let (_, log, _) = wander(seed, 600, build, resend);
        let mut notified = Vec::new();
        for (at, action) in log.iter().enumerate() {
            if let Action::ToClient { generation, origin: Origin::ListChanged(kind), line } = action
            {
                match kind {
                    ListKind::Tools => {
                        assert_eq!(line, TOOLS_LIST_CHANGED);
                        assert_eq!(
                            log[at - 1],
                            Action::ToChild {
                                generation: *generation,
                                line: INITIALIZED.to_string(),
                                purpose: Purpose::Initialized,
                            }
                        );
                        assert_eq!(
                            log[at + 1],
                            Action::ToClient {
                                generation: *generation,
                                line: PROMPTS_LIST_CHANGED.to_string(),
                                origin: Origin::ListChanged(ListKind::Prompts),
                            }
                        );
                        assert_eq!(
                            log[at + 2],
                            Action::ToClient {
                                generation: *generation,
                                line: RESOURCES_LIST_CHANGED.to_string(),
                                origin: Origin::ListChanged(ListKind::Resources),
                            }
                        );
                        notified.push(*generation);
                    }
                    ListKind::Prompts => {
                        assert!(matches!(
                            log[at - 1],
                            Action::ToClient { origin: Origin::ListChanged(ListKind::Tools), .. }
                        ));
                    }
                    ListKind::Resources => {
                        assert!(matches!(
                            log[at - 1],
                            Action::ToClient { origin: Origin::ListChanged(ListKind::Prompts), .. }
                        ));
                    }
                }
            }
        }
        assert!(notified.windows(2).all(|pair| pair[0] < pair[1]), "seed {}", seed);
        bursts += notified.len();
    }
    assert!(bursts > 0);
}

#[test]
fn kills_only_follow_a_look_that_found_the_child_alive() {
    let mut kills = 0;
    for (seed, build, resend) in seeds() {
        let (_, log, _) = wander(seed, 600, build, resend);
        for (at, action) in log.iter().enumerate() {
            if let Action::Kill { .. } = action {
                assert!(
                    matches!(
                        log[at - 1],
                        Action::Log(synf::message::Notice::StillRunning)
                            | Action::Log(synf::message::Notice::PollFailed)
                    ),
                    "seed {}",
                    seed
                );
                kills += 1;
            }
        }
    }
    assert!(kills > 0);
}

#[test]
fn nothing_is_started_after_shutdown_in_any_run() {
    for (seed, build, resend) in seeds() {
        let (_, _, runner) = wander(seed, 200, build, resend);
        let (runner, _) = runner.step(Event::Shutdown);
        let mut dice = Dice(seed + 1);
        let mut tag = 1_000_000;
        let mut runner = runner;
        for _ in 0..300 {
            let event = any_event(&mut dice, runner.generation(), &mut tag);
            let (next, actions) = runner.step(event);
            runner = next;
            assert!(runner.closing());
            assert!(
                !actions.iter().any(|action| matches!(
                    action,
                    Action::Spawn { .. }
                        | Action::RunBuild { .. }
                        | Action::ToChild { .. }
                        | Action::ToClient { .. }
                )),
                "seed {}",
                seed
            );
        }
    }
}
