//! First-run setup: which language to offer first and what the configuration
//! file for a language says.

use crate::config::{
    default_build_args, default_build_command, default_run_args, default_run_command,
    default_watch_paths, get_build_command, get_default_watch_paths, get_run_command,
};
use crate::language::Language;
use crate::text::texts;
use vstd::prelude::*;

verus! {

/// Name of the configuration file inside the target root.
pub const CONFIG_FILE: &'static str = "synf.toml";

/// Comment that opens the configuration file.
pub const LANGUAGE_NOTE: &'static str =
    "\n# language is used to determine the default paths to watch for changes\n# and the default command to run the server.\n# Possible values are \"typescript\", \"python\", \"kotlin\" and \"golang\"\n";

/// Head of the build section, up to the name of the language.
pub const BUILD_NOTE: &'static str =
    "[build]\n# command and args are used to specify the command to build the server after changes.\n# These are the default values for ";

/// Head of the run section, up to the name of the language.
pub const RUN_NOTE: &'static str =
    "\n[run]\n# command and args are used to specify the command to run the server\n# during development after it has been rebuilt\n# These are the default values for ";

/// Head of the watch section, up to the name of the language.
pub const WATCH_NOTE: &'static str =
    "\n[watch]\n# Watch configurations are used to specify the files and directories to watch for changes\n# when hot reloading the server during development\n\n# default_paths are the paths that are watched by default\n# and are defined by the language that is being used.\n# You can override the default paths by specifying them here.\n# These are the paths that are watched by default for ";

/// Comment on extra paths, which closes the configuration file.
pub const EXTRA_NOTE: &'static str =
    "\n# extra_paths are the paths that are watched in addition to the default paths.\n# You can use it to add more paths to watch for changes besides the default paths.\n# extra_paths = []\n";

/// What stands between two items of a list in the configuration file.
pub const ITEM_SEPARATOR: &'static str = "\", \"";

/// The languages in the order in which they are offered when no language
/// stands out.
pub open spec fn offer_order() -> Seq<Language> {
    seq![Language::Typescript, Language::Python, Language::Kotlin, Language::Golang]
}

/// The languages in the order in which they are offered: the detected one
/// first, the others after it in their usual order.
pub open spec fn offered(detected: Language) -> Seq<Language> {
    match detected {
        Language::Typescript => seq![
            Language::Typescript,
            Language::Python,
            Language::Kotlin,
            Language::Golang,
        ],
        Language::Python => seq![
            Language::Python,
            Language::Typescript,
            Language::Kotlin,
            Language::Golang,
        ],
        Language::Kotlin => seq![
            Language::Kotlin,
            Language::Typescript,
            Language::Python,
            Language::Golang,
        ],
        Language::Golang => seq![
            Language::Golang,
            Language::Typescript,
            Language::Python,
            Language::Kotlin,
        ],
    }
}

/// The offer begins with the detected language and goes on with the usual
/// order, the detected language left out.
pub proof fn law_detected_language_is_offered_first(detected: Language)
    ensures
        offered(detected).len() == 4,
        offered(detected)[0] == detected,
        offered(detected).subrange(1, 4) == offer_order().filter(
            |language: Language| language != detected,
        ),
{
    let rest = |language: Language| language != detected;
    let order = offer_order();
    reveal_with_fuel(Seq::filter, 5);
    assert(order.drop_last() =~= seq![Language::Typescript, Language::Python, Language::Kotlin]);
    assert(order.drop_last().drop_last() =~= seq![Language::Typescript, Language::Python]);
    assert(order.drop_last().drop_last().drop_last() =~= seq![Language::Typescript]);
    assert(order.drop_last().drop_last().drop_last().drop_last() =~= Seq::<Language>::empty());
    assert(offered(detected).subrange(1, 4) =~= order.filter(rest));
}

/// The languages to offer, the detected one first.
pub fn language_choices(detected: Language) -> (choices: Vec<Language>)
    ensures
        choices@ == offered(detected),
{
    let mut choices: Vec<Language> = Vec::new();
    choices.push(detected);
    if detected != Language::Typescript {
        choices.push(Language::Typescript);
    }
    if detected != Language::Python {
        choices.push(Language::Python);
    }
    if detected != Language::Kotlin {
        choices.push(Language::Kotlin);
    }
    if detected != Language::Golang {
        choices.push(Language::Golang);
    }
    assert(choices@ =~= offered(detected));
    choices
}

/// The question that asks to confirm the detected language.
pub open spec fn prompt_text(detected: Language) -> Seq<char> {
    "Detected language: '"@ + detected.tag() + "', confirm or change:"@
}

/// The question that asks to confirm the detected language.
pub fn prompt(detected: Language) -> (text: String)
    ensures
        text@ == prompt_text(detected),
{
    let mut text = "Detected language: '".to_owned();
    text.append(detected.name());
    text.append("', confirm or change:");
    text
}

/// The items of a list with a separator between each two of them.
pub open spec fn joined(items: Seq<Seq<char>>, separator: Seq<char>) -> Seq<char>
    decreases items.len(),
{
    if items.len() == 0 {
        Seq::empty()
    } else if items.len() == 1 {
        items[0]
    } else {
        joined(items.drop_last(), separator) + separator + items.last()
    }
}

/// Joins the items of a list with a separator between each two of them.
pub fn join(items: &Vec<String>, separator: &str) -> (text: String)
    ensures
        text@ == joined(texts(items@), separator@),
{
    let mut text = String::new();
    let mut i: usize = 0;
    let ghost all = texts(items@);
    assert(all.take(0) =~= Seq::<Seq<char>>::empty());
    while i < items.len()
        invariant
            i <= items.len(),
            all == texts(items@),
            text@ == joined(all.take(i as int), separator@),
        decreases items.len() - i,
    {
        proof {
            let after = all.take(i + 1);
            assert(after.drop_last() =~= all.take(i as int));
            assert(after.last() == items@[i as int]@);
            if i == 0 {
                assert(Seq::<char>::empty() + items@[0]@ =~= items@[0]@);
            }
        }
        if i > 0 {
            text.append(separator);
        }
        text.append(items[i].as_str());
        i = i + 1;
    }
    assert(all.take(i as int) =~= all);
    text
}

/// The commented-out lines that show a command and its arguments.
pub open spec fn command_note(command: Seq<char>, args: Seq<Seq<char>>) -> Seq<char> {
    "\n# command = \""@ + command + "\"\n# args = [\""@ + joined(args, ITEM_SEPARATOR@) + "\"]\n"@
}

/// The commented-out line that shows the default paths.
pub open spec fn paths_note(paths: Seq<Seq<char>>) -> Seq<char> {
    "\n# default_paths = [\""@ + joined(paths, ITEM_SEPARATOR@) + "\"]\n"@
}

/// The configuration file for a language: the language is set, and the
/// defaults that go with it are shown in comments.
pub open spec fn config_text(language: Language) -> Seq<char> {
    LANGUAGE_NOTE@ + "language = \""@ + language.tag() + "\""@ + "\n\n"@ + BUILD_NOTE@
        + language.tag() + ":\n"@ + command_note(
        default_build_command(language),
        default_build_args(language),
    ) + RUN_NOTE@ + language.tag() + ":\n"@ + command_note(
        default_run_command(language),
        default_run_args(language),
    ) + WATCH_NOTE@ + language.tag() + ":\n"@ + paths_note(default_watch_paths(language))
        + EXTRA_NOTE@
}

/// Renders the commented-out lines that show a command and its arguments.
fn render_command_note(command: &str, args: &Vec<String>) -> (text: String)
    ensures
        text@ == command_note(command@, texts(args@)),
{
    let mut text = "\n# command = \"".to_owned();
    text.append(command);
    text.append("\"\n# args = [\"");
    let list = join(args, ITEM_SEPARATOR);
    text.append(list.as_str());
    text.append("\"]\n");
    text
}

/// Renders the configuration file for a language.
pub fn render_config(language: Language) -> (text: String)
    ensures
        text@ == config_text(language),
{
    let name = language.name();
    let mut text = LANGUAGE_NOTE.to_owned();
    text.append("language = \"");
    text.append(name);
    text.append("\"");
    text.append("\n\n");
    text.append(BUILD_NOTE);
    text.append(name);
    text.append(":\n");
    let (build_command, build_args) = get_build_command(&language);
    let build = render_command_note(build_command.as_str(), &build_args);
    text.append(build.as_str());
    text.append(RUN_NOTE);
    text.append(name);
    text.append(":\n");
    let (run_command, run_args) = get_run_command(&language);
    let run = render_command_note(run_command.as_str(), &run_args);
    text.append(run.as_str());
    text.append(WATCH_NOTE);
    text.append(name);
    text.append(":\n");
    let paths = get_default_watch_paths(&language);
    let mut note = "\n# default_paths = [\"".to_owned();
    let list = join(&paths, ITEM_SEPARATOR);
    note.append(list.as_str());
    note.append("\"]\n");
    text.append(note.as_str());
    text.append(EXTRA_NOTE);
    text
}

} // verus!
