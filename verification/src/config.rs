//! Configuration of one invocation and the defaults each language brings.

use crate::language::Language;
use crate::message::DEBOUNCE_WINDOW_SECS;
use crate::model::PlanView;
use crate::text::{copy_texts, texts};
use vstd::prelude::*;

verus! {

/// An override of a command: each part that is given replaces the language
/// default, each part that is left out keeps it.
#[derive(Clone, Debug, PartialEq, Eq)]
pub struct BuildConfig {
    pub command: Option<String>,
    pub args: Option<Vec<String>>,
}

/// Overrides of the watched paths.
#[derive(Clone, Debug, PartialEq, Eq)]
pub struct Watch {
    /// Replaces the paths that the language watches by default.
    pub default_paths: Option<Vec<String>>,
    /// Paths watched in addition.
    pub extra_paths: Option<Vec<String>>,
}

/// The configuration of one invocation.
#[derive(Clone, Debug, PartialEq, Eq)]
pub struct Config {
    pub language: Language,
    pub watch: Option<Watch>,
    pub resend_resource_subscriptions: Option<bool>,
    pub build: Option<BuildConfig>,
    pub run: Option<BuildConfig>,
}

/// The command a language is built with; empty where nothing is to build.
pub open spec fn default_build_command(language: Language) -> Seq<char> {
    match language {
        Language::Typescript => "npm"@,
        Language::Python => ""@,
        Language::Golang => ""@,
        Language::Kotlin => ""@,
    }
}

/// The arguments of the build command of a language.
pub open spec fn default_build_args(language: Language) -> Seq<Seq<char>> {
    match language {
        Language::Typescript => seq!["run"@, "build"@],
        Language::Python => Seq::empty(),
        Language::Golang => Seq::empty(),
        Language::Kotlin => Seq::empty(),
    }
}

/// The command a server of a language is run with.
pub open spec fn default_run_command(language: Language) -> Seq<char> {
    match language {
        Language::Typescript => "node"@,
        Language::Python => "uv"@,
        Language::Golang => "go"@,
        Language::Kotlin => "./gradlew"@,
    }
}

/// The arguments of the run command of a language.
pub open spec fn default_run_args(language: Language) -> Seq<Seq<char>> {
    match language {
        Language::Typescript => seq!["build/index.js"@],
        Language::Python => seq!["run"@],
        Language::Golang => seq!["run"@, "main.go"@],
        Language::Kotlin => seq!["run"@],
    }
}

/// The paths watched for a language unless the configuration replaces them.
pub open spec fn default_watch_paths(language: Language) -> Seq<Seq<char>> {
    match language {
        Language::Typescript => seq!["src"@, "package.json"@],
        Language::Python => seq!["src"@, "pyproject.toml"@],
        Language::Golang => seq!["go.mod"@],
        Language::Kotlin => seq!["src"@, "build.gradle.kts"@, "gradle.properties"@],
    }
}

/// The command after an override: the override's command where it names one.
pub open spec fn resolved_command(fallback: Seq<char>, custom: Option<BuildConfig>) -> Seq<char> {
    match custom {
        Some(BuildConfig { command: Some(command), .. }) => command@,
        _ => fallback,
    }
}

/// The arguments after an override: the override's arguments where it names
/// any.
pub open spec fn resolved_args(fallback: Seq<Seq<char>>, custom: Option<BuildConfig>) -> Seq<
    Seq<char>,
> {
    match custom {
        Some(BuildConfig { args: Some(args), .. }) => texts(args@),
        _ => fallback,
    }
}

/// The paths that stand in for the language's default paths.
pub open spec fn configured_default_paths(config: Config) -> Seq<Seq<char>> {
    match config.watch {
        Some(Watch { default_paths: Some(paths), .. }) => texts(paths@),
        _ => default_watch_paths(config.language),
    }
}

/// The paths watched in addition to the default ones.
pub open spec fn configured_extra_paths(config: Config) -> Seq<Seq<char>> {
    match config.watch {
        Some(Watch { extra_paths: Some(paths), .. }) => texts(paths@),
        _ => Seq::empty(),
    }
}

/// Every watched path, relative to the target root: the default ones, or what
/// replaces them, followed by the extra ones.
pub open spec fn configured_watch_roots(config: Config) -> Seq<Seq<char>> {
    configured_default_paths(config) + configured_extra_paths(config)
}

/// Whether the configuration watches too little to be useful: a Go project
/// with no extra paths watches nothing but its module file.
pub open spec fn watches_module_file_only(config: Config) -> bool {
    config.language == Language::Golang && !(config.watch matches Some(
        Watch { extra_paths: Some(_), .. },
    ))
}

/// Whether remembered subscriptions are shown again after a restart: only
/// where the configuration asks for it.
pub open spec fn resend_enabled(config: Config) -> bool {
    match config.resend_resource_subscriptions {
        Some(resend) => resend,
        None => false,
    }
}

/// The commands and switches an invocation runs with: each override wins over
/// the language default, and resending is off unless asked for.
pub open spec fn plan_of(root: Seq<char>, config: Config) -> PlanView {
    PlanView {
        language: config.language,
        root,
        build_command: resolved_command(default_build_command(config.language), config.build),
        build_args: resolved_args(default_build_args(config.language), config.build),
        run_command: resolved_command(default_run_command(config.language), config.run),
        run_args: resolved_args(default_run_args(config.language), config.run),
        resend: resend_enabled(config),
    }
}

/// A list of one string.
fn one(first: &str) -> (list: Vec<String>)
    ensures
        texts(list@) == seq![first@],
{
    let mut list: Vec<String> = Vec::new();
    list.push(first.to_owned());
    assert(texts(list@) =~= seq![first@]);
    list
}

/// A list of two strings.
fn two(first: &str, second: &str) -> (list: Vec<String>)
    ensures
        texts(list@) == seq![first@, second@],
{
    let mut list: Vec<String> = Vec::new();
    list.push(first.to_owned());
    list.push(second.to_owned());
    assert(texts(list@) =~= seq![first@, second@]);
    list
}

/// A list of three strings.
fn three(first: &str, second: &str, third: &str) -> (list: Vec<String>)
    ensures
        texts(list@) == seq![first@, second@, third@],
{
    let mut list: Vec<String> = Vec::new();
    list.push(first.to_owned());
    list.push(second.to_owned());
    list.push(third.to_owned());
    assert(texts(list@) =~= seq![first@, second@, third@]);
    list
}

/// An empty list of strings.
fn none() -> (list: Vec<String>)
    ensures
        texts(list@) == Seq::<Seq<char>>::empty(),
{
    let list: Vec<String> = Vec::new();
    assert(texts(list@) =~= Seq::<Seq<char>>::empty());
    list
}

/// The run command of a language and its arguments.
pub fn get_run_command(language: &Language) -> (command: (String, Vec<String>))
    ensures
        command.0@ == default_run_command(*language),
        texts(command.1@) == default_run_args(*language),
{
    match language {
        Language::Typescript => ("node".to_owned(), one("build/index.js")),
        Language::Python => ("uv".to_owned(), one("run")),
        Language::Golang => ("go".to_owned(), two("run", "main.go")),
        Language::Kotlin => ("./gradlew".to_owned(), one("run")),
    }
}

/// The build command of a language and its arguments. An empty command means
/// that the language has no build step.
pub fn get_build_command(language: &Language) -> (command: (String, Vec<String>))
    ensures
        command.0@ == default_build_command(*language),
        texts(command.1@) == default_build_args(*language),
{
    match language {
        Language::Typescript => ("npm".to_owned(), two("run", "build")),
        Language::Python => ("".to_owned(), none()),
        Language::Golang => ("".to_owned(), none()),
        Language::Kotlin => ("".to_owned(), none()),
    }
}

/// The paths watched by default for a language, relative to the target root.
pub fn get_default_watch_paths(language: &Language) -> (paths: Vec<String>)
    ensures
        texts(paths@) == default_watch_paths(*language),
{
    match language {
        Language::Typescript => two("src", "package.json"),
        Language::Python => two("src", "pyproject.toml"),
        Language::Golang => one("go.mod"),
        Language::Kotlin => three("src", "build.gradle.kts", "gradle.properties"),
    }
}

/// Applies an override to a command and its arguments.
pub fn resolve_command(fallback: (String, Vec<String>), custom: &Option<BuildConfig>) -> (command:
    (String, Vec<String>))
    ensures
        command.0@ == resolved_command(fallback.0@, *custom),
        texts(command.1@) == resolved_args(texts(fallback.1@), *custom),
{
    let (fallback_command, fallback_args) = fallback;
    match custom {
        Some(inner) => {
            let command = match &inner.command {
                Some(command) => command.clone(),
                None => fallback_command,
            };
            let args = match &inner.args {
                Some(args) => copy_texts(args),
                None => fallback_args,
            };
            (command, args)
        },
        None => (fallback_command, fallback_args),
    }
}

/// How the file watcher is to be set up.
#[derive(Clone, Debug, PartialEq, Eq)]
pub struct WatchPlan {
    /// The paths to watch, each relative to the target root.
    pub roots: Vec<String>,
    /// Whether everything below a path is watched with it.
    pub recursive: bool,
    /// Seconds of quiet after which a burst of changes is reported as one
    /// batch.
    pub settle_secs: u64,
}

impl Config {
    /// How to watch for changes: every configured root, each with all that
    /// lies below it, and one report per burst of changes.
    pub fn watch_plan(&self) -> (plan: WatchPlan)
        ensures
            texts(plan.roots@) == configured_watch_roots(*self),
            plan.recursive,
            plan.settle_secs == DEBOUNCE_WINDOW_SECS,
    {
        WatchPlan { roots: self.watch_roots(), recursive: true, settle_secs: DEBOUNCE_WINDOW_SECS }
    }

    /// The paths watched in place of the language's default paths, relative
    /// to the target root.
    pub fn default_paths(&self) -> (paths: Vec<String>)
        ensures
            texts(paths@) == configured_default_paths(*self),
    {
        match &self.watch {
            Some(watch) => match &watch.default_paths {
                Some(paths) => copy_texts(paths),
                None => get_default_watch_paths(&self.language),
            },
            None => get_default_watch_paths(&self.language),
        }
    }

    /// The paths watched in addition, relative to the target root.
    pub fn extra_paths(&self) -> (paths: Vec<String>)
        ensures
            texts(paths@) == configured_extra_paths(*self),
    {
        match &self.watch {
            Some(watch) => match &watch.extra_paths {
                Some(paths) => copy_texts(paths),
                None => none(),
            },
            None => none(),
        }
    }

    /// Every path to watch, relative to the target root.
    pub fn watch_roots(&self) -> (paths: Vec<String>)
        ensures
            texts(paths@) == configured_watch_roots(*self),
    {
        let mut paths = self.default_paths();
        let mut extra = self.extra_paths();
        let ghost first = paths@;
        let ghost second = extra@;
        paths.append(&mut extra);
        assert(texts(paths@) =~= texts(first) + texts(second));
        paths
    }

    /// Whether to warn that a Go project watches only its module file.
    pub fn watches_module_file_only(&self) -> (sparse: bool)
        ensures
            sparse == watches_module_file_only(*self),
    {
        let extra = match &self.watch {
            Some(watch) => watch.extra_paths.is_some(),
            None => false,
        };
        self.language == Language::Golang && !extra
    }

    /// Whether remembered subscriptions are shown again after a restart.
    pub fn resend(&self) -> (resend: bool)
        ensures
            resend == resend_enabled(*self),
    {
        match self.resend_resource_subscriptions {
            Some(resend) => resend,
            None => false,
        }
    }
}

} // verus!
