//! Failures of a conversion run, the exit status each maps to, and how a stage
//! settles its result once the stage downstream of it has been joined.

use vstd::prelude::*;
use vstd::string::*;

verus! {

/// A fatal failure of a conversion run.
pub enum ErrorKind {
    Generic,
    /// A stage thread ended abnormally; the name of the joining thread.
    ThreadFailed(String),
    /// A peer stage hung up; which channel.
    UnexpectedChannelClose(String),
    /// Reading or writing failed; the underlying message.
    Io(String),
    /// YAML output failed; the underlying message.
    ParseYaml(String),
}

/// The process exit status of a failure: 1 for generic and I/O failures, 2 for
/// a failed thread, 3 for an unexpected channel closure.
pub open spec fn exit_code_of(e: ErrorKind) -> i32 {
    match e {
        ErrorKind::Generic => 1,
        ErrorKind::Io(_) => 1,
        ErrorKind::ParseYaml(_) => 1,
        ErrorKind::ThreadFailed(_) => 2,
        ErrorKind::UnexpectedChannelClose(_) => 3,
    }
}

/// The human-readable message of a failure.
pub open spec fn message_of(e: ErrorKind) -> Seq<char> {
    match e {
        ErrorKind::Generic => "Generic Error"@,
        ErrorKind::ThreadFailed(t) => "Thread: "@ + t@ + " failed to return"@,
        ErrorKind::UnexpectedChannelClose(c) => "A channel quit unexpectedly: "@ + c@,
        ErrorKind::Io(m) => "An underlying IO error occurred: "@ + m@,
        ErrorKind::ParseYaml(m) => "An underlying IO (yml) error occurred: "@ + m@,
    }
}

impl ErrorKind {
    /// The process exit status of this failure.
    pub fn exit_code(&self) -> (r: i32)
        ensures
            r == exit_code_of(*self),
    {
        match self {
            ErrorKind::Generic => 1,
            ErrorKind::Io(_) => 1,
            ErrorKind::ParseYaml(_) => 1,
            ErrorKind::ThreadFailed(_) => 2,
            ErrorKind::UnexpectedChannelClose(_) => 3,
        }
    }

    /// The human-readable message of this failure.
    pub fn message(&self) -> (r: String)
        ensures
            r@ == message_of(*self),
    {
        match self {
            ErrorKind::Generic => String::from_str("Generic Error"),
            ErrorKind::ThreadFailed(t) => {
                let mut r = String::from_str("Thread: ");
                r.append(t.as_str());
                r.append(" failed to return");
                r
            },
            ErrorKind::UnexpectedChannelClose(c) => {
                let mut r = String::from_str("A channel quit unexpectedly: ");
                r.append(c.as_str());
                r
            },
            ErrorKind::Io(m) => {
                let mut r = String::from_str("An underlying IO error occurred: ");
                r.append(m.as_str());
                r
            },
            ErrorKind::ParseYaml(m) => {
                let mut r = String::from_str("An underlying IO (yml) error occurred: ");
                r.append(m.as_str());
                r
            },
        }
    }
}

/// How the whole program ends.
pub enum ProgramExit {
    Success,
    Failure(ErrorKind),
}

impl ProgramExit {
    /// The exit status: 0 on success, else the failure's own status.
    pub fn report(&self) -> (r: i32)
        ensures
            r == match self {
                ProgramExit::Success => 0,
                ProgramExit::Failure(e) => exit_code_of(*e),
            },
    {
        match self {
            ProgramExit::Success => 0,
            ProgramExit::Failure(e) => e.exit_code(),
        }
    }

    /// The outcome as a `Result`.
    pub fn into_result(self) -> (r: Result<(), ErrorKind>)
        ensures
            match self {
                ProgramExit::Success => r is Ok,
                ProgramExit::Failure(e) => r == Err::<(), ErrorKind>(e),
            },
    {
        match self {
            ProgramExit::Success => Ok(()),
            ProgramExit::Failure(e) => Err(e),
        }
    }

    /// The outcome of a failure.
    pub fn from_error(err: ErrorKind) -> (r: ProgramExit)
        ensures
            r == ProgramExit::Failure(err),
    {
        ProgramExit::Failure(err)
    }

    /// The outcome of a success.
    pub fn from_ok(ok: ()) -> (r: ProgramExit)
        ensures
            r == ProgramExit::Success,
    {
        ProgramExit::Success
    }
}

/// What joining a stage thread gave.
pub enum Joined {
    /// The thread returned this result.
    Returned(Result<(), ErrorKind>),
    /// The thread ended abnormally.
    Panicked,
}

/// A stage's result once its own loop has ended without error and the stage
/// downstream of it has been joined.
pub open spec fn settled(joining: String, downstream: Joined) -> Result<(), ErrorKind> {
    match downstream {
        Joined::Returned(d) => d,
        Joined::Panicked => Err(ErrorKind::ThreadFailed(joining)),
    }
}

/// Settles a stage's result after joining the stage downstream of it: an error
/// downstream surfaces here unchanged, and an abnormal end of the downstream
/// thread becomes a thread failure naming the joining thread.
pub fn settle(joining: String, downstream: Joined) -> (r: Result<(), ErrorKind>)
    ensures
        r == settled(joining, downstream),
{
    match downstream {
        Joined::Returned(d) => d,
        Joined::Panicked => Err(ErrorKind::ThreadFailed(joining)),
    }
}

} // verus!
