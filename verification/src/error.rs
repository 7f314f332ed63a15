//! The ways a request can fail.

use vstd::prelude::*;
use vstd::string::*;

verus! {

/// Why a request was refused or could not be carried out.
#[derive(Clone, Copy, Debug, PartialEq, Eq, Structural)]
pub enum ScaffoldError {
    /// A feature or sub-feature name is blank, or made of underscores, or
    /// `.` or `..`, or holds a character that a path segment cannot hold.
    InvalidName,
    /// The feature, or the project skeleton, is already there.
    AlreadyExists,
    /// A directory or a file could not be created, written or removed.
    Io,
    /// The shell that installs the dependencies could not be started.
    ProcessLaunch,
}

/// How the message of `InvalidName` starts.
pub const INVALID_NAME_HEAD: &'static str = "Invalid name: '";

/// How the message of `InvalidName` ends.
pub const INVALID_NAME_TAIL: &'static str =
    "'. A name must not be blank, `.` or `..`, and must hold a character other than `_` and none of \" / \\ : * ? < > | nor a control character.";

/// How the message of `AlreadyExists` starts.
pub const ALREADY_EXISTS_HEAD: &'static str = "**";

/// How the message of `AlreadyExists` ends.
pub const ALREADY_EXISTS_TAIL: &'static str =
    " already exists. Please delete the folder and try again.**";

/// How the message of `Io` starts.
pub const IO_HEAD: &'static str = "Unable to ";

/// How the message of `Io` ends.
pub const IO_TAIL: &'static str = "";

/// How the message of `ProcessLaunch` starts.
pub const PROCESS_LAUNCH_HEAD: &'static str = "Failed to run `";

/// How the message of `ProcessLaunch` ends.
pub const PROCESS_LAUNCH_TAIL: &'static str = "`";

/// What a message says before it names its subject.
pub open spec fn message_head(error: ScaffoldError) -> Seq<char> {
    match error {
        ScaffoldError::InvalidName => INVALID_NAME_HEAD@,
        ScaffoldError::AlreadyExists => ALREADY_EXISTS_HEAD@,
        ScaffoldError::Io => IO_HEAD@,
        ScaffoldError::ProcessLaunch => PROCESS_LAUNCH_HEAD@,
    }
}

/// What a message says after it has named its subject.
pub open spec fn message_tail(error: ScaffoldError) -> Seq<char> {
    match error {
        ScaffoldError::InvalidName => INVALID_NAME_TAIL@,
        ScaffoldError::AlreadyExists => ALREADY_EXISTS_TAIL@,
        ScaffoldError::Io => IO_TAIL@,
        ScaffoldError::ProcessLaunch => PROCESS_LAUNCH_TAIL@,
    }
}

impl ScaffoldError {
    /// The message shown to the user: `subject` is the name, the path or the
    /// command that the error is about, or, for `Io`, what could not be done.
    pub fn message(&self, subject: &str) -> (text: String)
        ensures
            text@ == message_head(*self) + subject@ + message_tail(*self),
    {
        let (head, tail) = match self {
            ScaffoldError::InvalidName => (INVALID_NAME_HEAD, INVALID_NAME_TAIL),
            ScaffoldError::AlreadyExists => (ALREADY_EXISTS_HEAD, ALREADY_EXISTS_TAIL),
            ScaffoldError::Io => (IO_HEAD, IO_TAIL),
            ScaffoldError::ProcessLaunch => (PROCESS_LAUNCH_HEAD, PROCESS_LAUNCH_TAIL),
        };
        let mut text = head.to_owned();
        text.append(subject);
        text.append(tail);
        text
    }
}

} // verus!
