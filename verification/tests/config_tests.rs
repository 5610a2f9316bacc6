use synf::config::{
    get_run_command, resolve_command, BuildConfig, Config, Watch, WatchPlan,
};
use synf::language::Language;
use synf::runner::Runner;

fn strings(items: &[&str]) -> Vec<String> {
    items.iter().map(|item| item.to_string()).collect()
}

fn plain(language: Language) -> Config {
    Config { language, watch: None, resend_resource_subscriptions: None, build: None, run: None }
}

#[test]
fn no_override_keeps_language_defaults() {
    let (runner, _) = Runner::new("root".to_string(), &plain(Language::Typescript));
    assert_eq!(runner.build_command(), ("npm".to_string(), strings(&["run", "build"])));
    assert_eq!(runner.run_command(), ("node".to_string(), strings(&["build/index.js"])));
    assert_eq!(runner.path(), "root");
    assert!(!runner.resend());
}

#[test]
fn override_of_command_keeps_default_args() {
    let mut config = plain(Language::Typescript);
    config.build = Some(BuildConfig { command: Some("pnpm".to_string()), args: None });
    config.run = Some(BuildConfig { command: Some("bun".to_string()), args: None });
    let (runner, _) = Runner::new("root".to_string(), &config);
    assert_eq!(runner.build_command(), ("pnpm".to_string(), strings(&["run", "build"])));
    assert_eq!(runner.run_command(), ("bun".to_string(), strings(&["build/index.js"])));
}

#[test]
fn override_of_args_keeps_default_command() {
    let mut config = plain(Language::Golang);
    config.run = Some(BuildConfig { command: None, args: Some(strings(&["run", "./cmd/server"])) });
    let (runner, _) = Runner::new("root".to_string(), &config);
    assert_eq!(runner.run_command(), ("go".to_string(), strings(&["run", "./cmd/server"])));
    assert_eq!(runner.build_command(), (String::new(), Vec::<String>::new()));
}

#[test]
fn override_of_both_parts_replaces_both() {
    let custom = Some(BuildConfig {
        command: Some("make".to_string()),
        args: Some(strings(&["serve"])),
    });
    assert_eq!(
        resolve_command(get_run_command(&Language::Python), &custom),
        ("make".to_string(), strings(&["serve"]))
    );
}

#[test]
fn empty_override_changes_nothing() {
    let custom = Some(BuildConfig { command: None, args: None });
    assert_eq!(
        resolve_command(get_run_command(&Language::Kotlin), &custom),
        ("./gradlew".to_string(), strings(&["run"]))
    );
    assert_eq!(
        resolve_command(get_run_command(&Language::Kotlin), &None),
        ("./gradlew".to_string(), strings(&["run"]))
    );
}

#[test]
fn resend_is_off_unless_asked_for() {
    assert!(!plain(Language::Python).resend());
    let mut config = plain(Language::Python);
    config.resend_resource_subscriptions = Some(false);
    assert!(!config.resend());
    config.resend_resource_subscriptions = Some(true);
    assert!(config.resend());
    let (runner, _) = Runner::new(".".to_string(), &config);
    assert!(runner.resend());
}

#[test]
fn watch_roots_default_to_language_paths() {
    let config = plain(Language::Kotlin);
    assert_eq!(config.default_paths(), strings(&["src", "build.gradle.kts", "gradle.properties"]));
    assert_eq!(config.extra_paths(), Vec::<String>::new());
    assert_eq!(config.watch_roots(), strings(&["src", "build.gradle.kts", "gradle.properties"]));
}

#[test]
fn configured_default_paths_replace_language_paths() {
    let mut config = plain(Language::Typescript);
    config.watch = Some(Watch { default_paths: Some(strings(&["lib"])), extra_paths: None });
    assert_eq!(config.default_paths(), strings(&["lib"]));
    assert_eq!(config.watch_roots(), strings(&["lib"]));
}

#[test]
fn extra_paths_follow_default_paths() {
    let mut config = plain(Language::Golang);
    config.watch =
        Some(Watch { default_paths: None, extra_paths: Some(strings(&["internal", "cmd"])) });
    assert_eq!(config.watch_roots(), strings(&["go.mod", "internal", "cmd"]));
    config.watch = Some(Watch {
        default_paths: Some(strings(&["go.mod", "go.sum"])),
        extra_paths: Some(strings(&["internal"])),
    });
    assert_eq!(config.watch_roots(), strings(&["go.mod", "go.sum", "internal"]));
}

#[test]
fn empty_watch_lists_watch_nothing() {
    let mut config = plain(Language::Python);
    config.watch = Some(Watch { default_paths: Some(Vec::new()), extra_paths: Some(Vec::new()) });
    assert_eq!(config.watch_roots(), Vec::<String>::new());
}

#[test]
fn go_project_without_extra_paths_is_warned_about() {
    assert!(plain(Language::Golang).watches_module_file_only());
    assert!(!plain(Language::Typescript).watches_module_file_only());
    let mut config = plain(Language::Golang);
    config.watch = Some(Watch { default_paths: Some(strings(&["go.mod"])), extra_paths: None });
    assert!(config.watches_module_file_only());
    config.watch = Some(Watch { default_paths: None, extra_paths: Some(Vec::new()) });
    assert!(!config.watches_module_file_only());
}

#[test]
fn watch_plan_is_recursive_and_settles_after_one_second() {
    let mut config = plain(Language::Golang);
    config.watch = Some(Watch { default_paths: None, extra_paths: Some(strings(&["internal"])) });
    assert_eq!(
        config.watch_plan(),
        WatchPlan { roots: strings(&["go.mod", "internal"]), recursive: true, settle_secs: 1 }
    );
}
