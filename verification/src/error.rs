//! Error values surfaced by the supervisor library.

use vstd::prelude::*;

verus! {

use vstd::string::StrSliceExecFns;
use vstd::string::StringExecFns;

/// Everything that can go wrong while loading configurations or driving
/// child processes.
#[derive(Debug)]
pub enum Error {
    /// A configuration could not be deserialized.
    De(String),
    /// A configuration file could not be read.
    Read(String),
    /// The configuration path value held no filename token.
    NoFilenameProvided,
    /// The configuration path value held more than one token.
    TooManyArguments,
    /// The configuration file named by the environment was absent.
    ConfigFileNotFound(String),
    /// An input/output failure, with its message.
    IoError { message: String },
    /// Waiting on a child process failed, with the reported message.
    WaitError(String),
    /// The environment variable naming the configuration file was unset.
    ConfigEnvVarNotFound(String),
}

pub type Result<T> = core::result::Result<T, Error>;

/// Integer return conventions of system interfaces: a sentinel value means
/// failure.
pub trait IsErr {
    /// True when the value is the failure sentinel of its type.
    fn is_err(&self) -> bool;
}

impl IsErr for i32 {
    fn is_err(&self) -> (r: bool)
        ensures
            r == (*self == -1),
    {
        *self == -1
    }
}

impl IsErr for i64 {
    fn is_err(&self) -> (r: bool)
        ensures
            r == (*self == -1),
    {
        *self == -1
    }
}

impl IsErr for isize {
    fn is_err(&self) -> (r: bool)
        ensures
            r == (*self == -1),
    {
        *self == -1
    }
}

impl IsErr for usize {
    fn is_err(&self) -> (r: bool)
        ensures
            r == (*self == usize::MAX),
    {
        *self == usize::MAX
    }
}

/// Wraps a failure context and a failure message into an input/output error
/// value: the message is `context: detail`.
pub fn to_io_err(msg: &str, err: &str) -> (r: Error)
    ensures
        r matches Error::IoError { message } && message@ == msg@ + ": "@ + err@,
{
    let mut message = String::new();
    message.append(msg);
    message.append(": ");
    message.append(err);
    Error::IoError { message }
}


/// The human-readable message of an error value.
pub open spec fn spec_error_message(e: Error) -> Seq<char> {
    match e {
        Error::De(m) => "Error reading file : "@ + m@,
        Error::Read(m) => "Error reading file : "@ + m@,
        Error::NoFilenameProvided => "No filename provided"@,
        Error::TooManyArguments => "Too many arguments"@,
        Error::ConfigFileNotFound(m) => "Config file not found : "@ + m@,
        Error::IoError { message } => "IO Error : "@ + message@,
        Error::WaitError(m) => "Error waiting for child status : "@ + m@,
        Error::ConfigEnvVarNotFound(m) => "Config env var not found : "@ + m@,
    }
}

impl Error {
    /// Renders the error for a log line or a control-channel reply.
    pub fn message(&self) -> (r: String)
        ensures
            r@ == spec_error_message(*self),
    {
        match self {
            Error::De(m) => {
                let mut s = String::from_str("Error reading file : ");
                s.append(m.as_str());
                s
            },
            Error::Read(m) => {
                let mut s = String::from_str("Error reading file : ");
                s.append(m.as_str());
                s
            },
            Error::NoFilenameProvided => String::from_str("No filename provided"),
            Error::TooManyArguments => String::from_str("Too many arguments"),
            Error::ConfigFileNotFound(m) => {
                let mut s = String::from_str("Config file not found : ");
                s.append(m.as_str());
                s
            },
            Error::IoError { message } => {
                let mut s = String::from_str("IO Error : ");
                s.append(message.as_str());
                s
            },
            Error::WaitError(m) => {
                let mut s = String::from_str("Error waiting for child status : ");
                s.append(m.as_str());
                s
            },
            Error::ConfigEnvVarNotFound(m) => {
                let mut s = String::from_str("Config env var not found : ");
                s.append(m.as_str());
                s
            },
        }
    }
}

} // verus!
