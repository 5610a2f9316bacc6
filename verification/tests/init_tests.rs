use synf::init::{join, prompt, render_config, CONFIG_FILE};
use synf::language::Language;
use synf::utils::{validate_path, PathProblem};

fn strings(items: &[&str]) -> Vec<String> {
    items.iter().map(|item| item.to_string()).collect()
}

#[test]
fn config_file_name() {
    assert_eq!(CONFIG_FILE, "synf.toml");
}

#[test]
fn prompt_names_the_detected_language() {
    assert_eq!(prompt(Language::Kotlin), "Detected language: 'kotlin', confirm or change:");
}

#[test]
fn join_puts_the_separator_between_items() {
    assert_eq!(join(&Vec::new(), ", "), "");
    assert_eq!(join(&strings(&["a"]), ", "), "a");
    assert_eq!(join(&strings(&["a", "b", "c"]), "\", \""), "a\", \"b\", \"c");
    assert_eq!(join(&strings(&["", ""]), "-"), "-");
}

#[test]
fn typescript_config_shows_build_and_run_defaults() {
    let expected = r####"
# language is used to determine the default paths to watch for changes
# and the default command to run the server.
# Possible values are "typescript", "python", "kotlin" and "golang"
language = "typescript"

[build]
# command and args are used to specify the command to build the server after changes.
# These are the default values for typescript:

# command = "npm"
# args = ["run", "build"]

[run]
# command and args are used to specify the command to run the server
# during development after it has been rebuilt
# These are the default values for typescript:

# command = "node"
# args = ["build/index.js"]

[watch]
# Watch configurations are used to specify the files and directories to watch for changes
# when hot reloading the server during development

# default_paths are the paths that are watched by default
# and are defined by the language that is being used.
# You can override the default paths by specifying them here.
# These are the paths that are watched by default for typescript:

# default_paths = ["src", "package.json"]

# extra_paths are the paths that are watched in addition to the default paths.
# You can use it to add more paths to watch for changes besides the default paths.
# extra_paths = []
"####;
    assert_eq!(render_config(Language::Typescript), expected);
}

#[test]
fn golang_config_shows_an_empty_build_command() {
    let text = render_config(Language::Golang);
    assert!(text.starts_with("\n# language is used"));
    assert!(text.contains("\nlanguage = \"golang\"\n\n[build]\n"));
    assert!(text.contains("for golang:\n\n# command = \"\"\n# args = [\"\"]\n\n[run]\n"));
    assert!(text.contains("\n# command = \"go\"\n# args = [\"run\", \"main.go\"]\n"));
    assert!(text.contains("\n# default_paths = [\"go.mod\"]\n"));
    assert!(text.ends_with("# extra_paths = []\n"));
}

#[test]
fn every_config_names_its_language_in_each_section() {
    for language in [Language::Typescript, Language::Python, Language::Golang, Language::Kotlin] {
        let text = render_config(language);
        let named = format!("for {}:", language.name());
        assert_eq!(text.matches(&named).count(), 3, "{}", language.name());
        assert_eq!(text.matches(&format!("language = \"{}\"", language.name())).count(), 1);
    }
}

#[test]
fn kotlin_config_lists_three_default_paths() {
    let text = render_config(Language::Kotlin);
    assert!(text.contains("# default_paths = [\"src\", \"build.gradle.kts\", \"gradle.properties\"]\n"));
    assert!(text.contains("# command = \"./gradlew\"\n# args = [\"run\"]\n"));
}

#[test]
fn directory_is_a_valid_root() {
    assert_eq!(validate_path(true, true, false), Ok(()));
}

#[test]
fn missing_path_is_rejected() {
    assert_eq!(validate_path(false, false, false), Err(PathProblem::Missing));
    assert_eq!(validate_path(false, true, true), Err(PathProblem::Missing));
}

#[test]
fn file_is_rejected() {
    assert_eq!(validate_path(true, false, true), Err(PathProblem::IsFile));
}

#[test]
fn other_kinds_are_rejected() {
    assert_eq!(validate_path(true, false, false), Err(PathProblem::IsOther));
}

#[test]
fn path_problems_have_messages() {
    assert_eq!(PathProblem::Missing.message("\"./x\""), "Path \"./x\" does not exist");
    assert_eq!(
        PathProblem::IsFile.message("\"a.txt\""),
        "Path \"a.txt\" expected to be a directory, but was a file"
    );
    assert_eq!(
        PathProblem::IsOther.message("\"/dev/null\""),
        "Path \"/dev/null\" expected to be a directory, but was something else"
    );
}
