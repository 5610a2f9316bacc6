//! Checks on the target root.

use vstd::prelude::*;

verus! {

/// Why a path cannot serve as the target root.
#[derive(Clone, Copy, Debug, PartialEq, Eq, Structural)]
pub enum PathProblem {
    /// Nothing exists at the path.
    Missing,
    /// A file stands where a directory is expected.
    IsFile,
    /// Something that is neither a directory nor a file stands there.
    IsOther,
}

/// What a path has to be for a target root: there, and a directory.
pub open spec fn path_problem(exists: bool, is_dir: bool, is_file: bool) -> Option<PathProblem> {
    if !exists {
        Some(PathProblem::Missing)
    } else if !is_dir {
        if is_file {
            Some(PathProblem::IsFile)
        } else {
            Some(PathProblem::IsOther)
        }
    } else {
        None
    }
}

/// Decides from three looks at a path whether it can serve as the target
/// root.
pub fn validate_path(exists: bool, is_dir: bool, is_file: bool) -> (checked: Result<
    (),
    PathProblem,
>)
    ensures
        match checked {
            Ok(_) => path_problem(exists, is_dir, is_file) is None,
            Err(problem) => path_problem(exists, is_dir, is_file) == Some(problem),
        },
{
    if !exists {
        return Err(PathProblem::Missing);
    }
    if !is_dir {
        return Err(
            if is_file {
                PathProblem::IsFile
            } else {
                PathProblem::IsOther
            },
        );
    }
    Ok(())
}

/// The message for a problem with a path; `shown` is the path as it is to
/// appear in the message.
pub open spec fn problem_text(problem: PathProblem, shown: Seq<char>) -> Seq<char> {
    match problem {
        PathProblem::Missing => "Path "@ + shown + " does not exist"@,
        PathProblem::IsFile => "Path "@ + shown + " expected to be a directory, but was "@
            + "a file"@,
        PathProblem::IsOther => "Path "@ + shown + " expected to be a directory, but was "@
            + "something else"@,
    }
}

impl PathProblem {
    /// The message for this problem; `shown` is the path as it is to appear
    /// in the message.
    pub fn message(&self, shown: &str) -> (text: String)
        ensures
            text@ == problem_text(*self, shown@),
    {
        let mut text = "Path ".to_owned();
        text.append(shown);
        match self {
            PathProblem::Missing => {
                text.append(" does not exist");
            },
            PathProblem::IsFile => {
                text.append(" expected to be a directory, but was ");
                text.append("a file");
            },
            PathProblem::IsOther => {
                text.append(" expected to be a directory, but was ");
                text.append("something else");
            },
        }
        text
    }
}

} // verus!
