//! Dispatch of parsed command-line arguments: the decision which of the
//! four program paths runs, and the single-shot input validation. Parsing
//! the raw argument strings and the process exit itself stay outside.

use vstd::prelude::*;

use crate::model::OutputMode;

verus! {

/// The command-line arguments, already parsed into plain values.
#[derive(Debug)]
pub struct CliArgs {
    /// Image path for single-shot processing.
    pub path: Option<String>,
    /// Requested output format.
    pub mode: OutputMode,
    /// Raised log verbosity.
    pub verbose: bool,
    /// Print the model version tag and exit.
    pub version_info: bool,
    /// Enter the interactive session instead of single-shot processing.
    pub interactive: bool,
}

/// Which program path one invocation takes.
#[derive(Debug)]
pub enum Invocation {
    /// Print the version tag and exit successfully, engine untouched.
    ShowVersion,
    /// Run the interactive session.
    Interactive,
    /// Single-shot mode without a path: a fatal input error.
    MissingPath,
    /// Single-shot mode with a path that names no existing file: a fatal
    /// input error carrying the path.
    MissingFile(String),
    /// Single-shot processing of this existing path.
    SingleShot(String),
}

/// The characters of the path argument, when one was given.
pub open spec fn path_view(p: Option<String>) -> Seq<char> {
    match p {
        Some(s) => s@,
        None => Seq::empty(),
    }
}

/// Decides the program path for one invocation.
///
/// The version request wins over everything and bypasses the engine;
/// otherwise the interactive flag wins over single-shot; otherwise a
/// missing path or a nonexistent file is a fatal input error, and an
/// existing path is processed exactly once. `path_exists` says whether
/// the given path names an existing file and is only consulted in
/// single-shot mode with a path present.
pub fn dispatch(args: CliArgs, path_exists: bool) -> (r: Invocation)
    ensures
        args.version_info ==> r == Invocation::ShowVersion,
        !args.version_info && args.interactive ==> r == Invocation::Interactive,
        !args.version_info && !args.interactive && args.path is None ==> r
            == Invocation::MissingPath,
        !args.version_info && !args.interactive && args.path is Some && !path_exists ==> (
        r matches Invocation::MissingFile(q) && q@ == path_view(args.path)),
        !args.version_info && !args.interactive && args.path is Some && path_exists ==> (
        r matches Invocation::SingleShot(q) && q@ == path_view(args.path)),
{
    if args.version_info {
        Invocation::ShowVersion
    } else if args.interactive {
        Invocation::Interactive
    } else {
        match args.path {
            None => Invocation::MissingPath,
            Some(p) => if path_exists {
                Invocation::SingleShot(p)
            } else {
                Invocation::MissingFile(p)
            },
        }
    }
}

} // verus!
