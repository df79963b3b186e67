//! Errors that stop a run before any file is checked, and the exit status of
//! a run.
use vstd::prelude::*;

verus! {

/// Exit status of a run in which every checked file complies.
pub const EXIT_COMPLIANT: i32 = 0;

/// Exit status of a run that found at least one violation.
pub const EXIT_VIOLATIONS: i32 = 1;

/// Exit status of a run stopped by a usage or setup error.
pub const EXIT_SETUP_ERROR: i32 = 2;

/// A usage or setup error: the run stops before any file is checked.
pub enum SetupError {
    /// The manifest path given does not exist.
    ManifestNotFound(String),
    /// The manifest exists but does not describe a workspace or package.
    ManifestInvalid(String),
    /// The file holding the prefix pattern could not be read.
    PrefixUnreadable(String),
    /// Every member and an explicit list of packages were both asked for.
    ConflictingFilter,
    /// Packages to exclude were given together with an explicit list.
    ExcludeWithPackages,
    /// The filter selected no source file at all.
    NoMatchingPackages,
    /// A selected source file could not be opened.
    SourceNotOpened(String),
    /// The working directory, needed to make the manifest path absolute, is
    /// unknown.
    NoWorkingDirectory,
    /// The workspace resolver could not be configured; the detail says why.
    ResolverUnavailable(String),
}

/// The text reported for an error.
pub open spec fn error_text(e: SetupError) -> Seq<char> {
    match e {
        SetupError::ManifestNotFound(p) => "Could not find "@ + p@,
        SetupError::ManifestInvalid(p) => "Error parsing "@ + p@,
        SetupError::PrefixUnreadable(p) => "Error reading prefix-path file "@ + p@,
        SetupError::ConflictingFilter => "Cannot specify --all and --package"@,
        SetupError::ExcludeWithPackages => "Cannot specify --exclude and --package"@,
        SetupError::NoMatchingPackages => "Didn't find matching package(s)"@,
        SetupError::SourceNotOpened(p) => "Error opening source file "@ + p@,
        SetupError::NoWorkingDirectory => "Could not determine the current directory"@,
        SetupError::ResolverUnavailable(d) => "Error making cargo config: "@ + d@,
    }
}

/// The text followed by the argument, as a new string.
fn joined(text: &str, arg: &String) -> (r: String)
    ensures
        r@ == text@ + arg@,
{
    let mut r = text.to_owned();
    r.append(arg.as_str());
    r
}

impl SetupError {
    /// The message reported for this error.
    pub fn message(&self) -> (r: String)
        ensures
            r@ == error_text(*self),
    {
        match self {
            SetupError::ManifestNotFound(p) => joined("Could not find ", p),
            SetupError::ManifestInvalid(p) => joined("Error parsing ", p),
            SetupError::PrefixUnreadable(p) => joined("Error reading prefix-path file ", p),
            SetupError::ConflictingFilter => "Cannot specify --all and --package".to_owned(),
            SetupError::ExcludeWithPackages => "Cannot specify --exclude and --package".to_owned(),
            SetupError::NoMatchingPackages => "Didn't find matching package(s)".to_owned(),
            SetupError::SourceNotOpened(p) => joined("Error opening source file ", p),
            SetupError::NoWorkingDirectory => "Could not determine the current directory".to_owned(),
            SetupError::ResolverUnavailable(d) => joined("Error making cargo config: ", d),
        }
    }

    /// Every setup error ends the run with the same status.
    pub fn exit_code(&self) -> (r: i32)
        ensures
            r == EXIT_SETUP_ERROR,
    {
        EXIT_SETUP_ERROR
    }
}

/// The status a run ends with: a setup error, else whether any violation
/// was found.
pub fn exit_status(outcome: &Result<Vec<String>, SetupError>) -> (r: i32)
    ensures
        r == match outcome {
            Err(_) => EXIT_SETUP_ERROR,
            Ok(v) => if v@.len() == 0 {
                EXIT_COMPLIANT
            } else {
                EXIT_VIOLATIONS
            },
        },
{
    match outcome {
        Err(e) => e.exit_code(),
        Ok(v) => if v.len() == 0 {
            EXIT_COMPLIANT
        } else {
            EXIT_VIOLATIONS
        },
    }
}

} // verus!
