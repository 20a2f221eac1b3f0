//! The interactive session state machine. The loop that reads operator
//! lines, stats files and prints lives outside this crate; every decision
//! — when the session ends, when a line is ignored, when the engine may be
//! invoked, when a confirmation is required — is made and verified here.

use vstd::prelude::*;
use vstd::string::StrSliceExecFns;
use vstd::string::StringExecFns;

use crate::text::{
    chars_to_string, extension_chars, extension_spec, lower_chars, lower_spec, str_to_chars,
    trim_chars, trim_spec,
};

verus! {

/// Where the session stands between operator lines. `Confirming` remembers
/// the path that awaits a yes/no answer; `Exited` is terminal.
#[derive(Debug)]
pub enum SessionState {
    AwaitInput,
    Confirming { pending: String },
    Exited,
}

/// What the front end must do after one operator line; processing itself
/// happens outside, then the session returns to awaiting input.
#[derive(Debug)]
pub enum Directive {
    /// Nothing to do: prompt for the next line.
    Prompt,
    /// Announce the end of the session.
    Farewell,
    /// Report that the named file does not exist, then prompt again.
    ReportMissing,
    /// Warn that the file does not look like an image and ask for a
    /// yes/no continuation.
    AskConfirmation,
    /// Run the processing pipeline on this path.
    RunImage(String),
}

/// A line ends the session iff it trims, case-insensitively, to `exit`
/// or `quit`.
pub open spec fn is_exit_input(line: Seq<char>) -> bool {
    lower_spec(trim_spec(line)) == "exit"@ || lower_spec(trim_spec(line)) == "quit"@
}

/// A line is a no-op iff nothing is left of it after trimming.
pub open spec fn is_empty_input(line: Seq<char>) -> bool {
    trim_spec(line).len() == 0
}

/// A confirmation answer is affirmative iff it trims, case-insensitively,
/// to `y` or `yes`.
pub open spec fn is_affirmative(line: Seq<char>) -> bool {
    lower_spec(trim_spec(line)) == "y"@ || lower_spec(trim_spec(line)) == "yes"@
}

/// The fixed set of recognized image extensions, compared lower-cased.
pub open spec fn recognized_extension(ext: Seq<char>) -> bool {
    let l = lower_spec(ext);
    l == "jpg"@ || l == "jpeg"@ || l == "png"@ || l == "bmp"@ || l == "tiff"@ || l == "webp"@
}

/// Whether the path carries one of the recognized image extensions.
pub open spec fn path_is_recognized_image(p: Seq<char>) -> bool {
    match extension_spec(p) {
        Some(e) => recognized_extension(e),
        None => false,
    }
}

/// The trimmed form of an operator line, as a vector of characters.
pub fn input_token(line: &String) -> (r: Vec<char>)
    ensures
        r@ == trim_spec(line@),
{
    let chars = str_to_chars(line.as_str());
    trim_chars(&chars)
}

fn matches_recognized_extension(token: &Vec<char>) -> (b: bool)
    ensures
        b == path_is_recognized_image(token@),
{
    match extension_chars(token) {
        None => false,
        Some(e) => {
            let low = chars_to_string(&lower_chars(&e));
            low == String::from_str("jpg") || low == String::from_str("jpeg") || low
                == String::from_str("png") || low == String::from_str("bmp") || low
                == String::from_str("tiff") || low == String::from_str("webp")
        },
    }
}

/// One step of the session from `AwaitInput`, on one operator line.
///
/// `file_exists` says whether the trimmed line names an existing file (the
/// caller stats the path of [`input_token`]); it is only consulted when
/// the line is neither an exit directive nor empty. An exit directive is
/// the one way to the terminal state; an empty line never ends the session
/// and never triggers processing; a missing file is reported without any
/// engine involvement; an existing file runs directly when its extension
/// is recognized, and otherwise waits for confirmation.
pub fn on_input(line: &String, file_exists: bool) -> (r: (SessionState, Directive))
    ensures
        is_exit_input(line@) ==> r == (SessionState::Exited, Directive::Farewell),
        !is_exit_input(line@) && is_empty_input(line@) ==> r == (
            SessionState::AwaitInput,
            Directive::Prompt,
        ),
        !is_exit_input(line@) && !is_empty_input(line@) && !file_exists ==> r == (
            SessionState::AwaitInput,
            Directive::ReportMissing,
        ),
        !is_exit_input(line@) && !is_empty_input(line@) && file_exists
            && path_is_recognized_image(trim_spec(line@)) ==> r.0 == SessionState::AwaitInput && (
        r.1 matches Directive::RunImage(p) && p@ == trim_spec(line@)),
        !is_exit_input(line@) && !is_empty_input(line@) && file_exists
            && !path_is_recognized_image(trim_spec(line@)) ==> (
        r.0 matches SessionState::Confirming { pending } && pending@ == trim_spec(line@)) && r.1
            == Directive::AskConfirmation,
{
    let token = input_token(line);
    let low = chars_to_string(&lower_chars(&token));
    if low == String::from_str("exit") || low == String::from_str("quit") {
        return (SessionState::Exited, Directive::Farewell);
    }
    if token.len() == 0 {
        return (SessionState::AwaitInput, Directive::Prompt);
    }
    if !file_exists {
        return (SessionState::AwaitInput, Directive::ReportMissing);
    }
    let recognized = matches_recognized_extension(&token);
    let pending = chars_to_string(&token);
    if recognized {
        (SessionState::AwaitInput, Directive::RunImage(pending))
    } else {
        (SessionState::Confirming { pending }, Directive::AskConfirmation)
    }
}

/// One step of the session from `Confirming`, on the yes/no answer for
/// the remembered path.
///
/// Only an affirmative answer lets the pending path run; anything else
/// drops it and returns to awaiting input.
pub fn on_confirmation(pending: String, line: &String) -> (r: (SessionState, Directive))
    ensures
        is_affirmative(line@) ==> r.0 == SessionState::AwaitInput && (
        r.1 matches Directive::RunImage(p) && p@ == pending@),
        !is_affirmative(line@) ==> r == (SessionState::AwaitInput, Directive::Prompt),
{
    let token = input_token(line);
    let low = chars_to_string(&lower_chars(&token));
    if low == String::from_str("y") || low == String::from_str("yes") {
        (SessionState::AwaitInput, Directive::RunImage(pending))
    } else {
        (SessionState::AwaitInput, Directive::Prompt)
    }
}

} // verus!
