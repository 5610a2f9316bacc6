//! Project languages and the files that give a language away.

use vstd::prelude::*;

verus! {

/// The closed set of project languages the supervisor knows defaults for.
#[derive(Clone, Copy, Debug, PartialEq, Eq, Structural)]
pub enum Language {
    Typescript,
    Python,
    Golang,
    Kotlin,
}

/// File name whose presence marks a TypeScript project.
pub const PACKAGE_JSON: &'static str = "package.json";

/// File name whose presence marks a Python project.
pub const PYPROJECT_TOML: &'static str = "pyproject.toml";

/// File name whose presence marks a Kotlin project (Groovy build script).
pub const BUILD_GRADLE: &'static str = "build.gradle";

/// File name whose presence marks a Kotlin project (Kotlin build script).
pub const BUILD_GRADLE_KTS: &'static str = "build.gradle.kts";

/// File name whose presence marks a Go project.
pub const GO_MOD: &'static str = "go.mod";

/// Which of the marker files exist in a project folder.
#[derive(Clone, Copy, Debug, PartialEq, Eq, Structural)]
pub struct ProjectMarkers {
    pub package_json: bool,
    pub pyproject_toml: bool,
    pub build_gradle: bool,
    pub build_gradle_kts: bool,
    pub go_mod: bool,
}

/// The language a set of marker files points to: the first match in the order
/// TypeScript, Python, Kotlin, Go, and TypeScript when nothing matches.
pub open spec fn detected_language(markers: ProjectMarkers) -> Language {
    if markers.package_json {
        Language::Typescript
    } else if markers.pyproject_toml {
        Language::Python
    } else if markers.build_gradle || markers.build_gradle_kts {
        Language::Kotlin
    } else if markers.go_mod {
        Language::Golang
    } else {
        Language::Typescript
    }
}

/// Guesses the project language from the marker files found in its folder.
pub fn detect_language(markers: &ProjectMarkers) -> (language: Language)
    ensures
        language == detected_language(*markers),
{
    if markers.package_json {
        return Language::Typescript;
    }
    if markers.pyproject_toml {
        return Language::Python;
    }
    if markers.build_gradle || markers.build_gradle_kts {
        return Language::Kotlin;
    }
    if markers.go_mod {
        return Language::Golang;
    }
    Language::Typescript
}

impl Language {
    /// The lower-case tag of the language, as configuration files spell it.
    pub open spec fn tag(self) -> Seq<char> {
        match self {
            Language::Typescript => "typescript"@,
            Language::Python => "python"@,
            Language::Golang => "golang"@,
            Language::Kotlin => "kotlin"@,
        }
    }

    /// The lower-case tag of the language.
    pub fn name(&self) -> (text: &'static str)
        ensures
            text@ == self.tag(),
    {
        match self {
            Language::Typescript => "typescript",
            Language::Python => "python",
            Language::Golang => "golang",
            Language::Kotlin => "kotlin",
        }
    }
}

} // verus!
