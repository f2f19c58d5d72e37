//! What can go wrong.

use vstd::prelude::*;
use vstd::string::StringExecFns;

verus! {

#[derive(Debug, PartialEq, Eq)]
pub enum LeftError {
    /// The operating system refused something; the text is its message.
    IoError(String),
    DeviceOpenFailed(String),
    DeviceGrabFailed(String),
    DeviceUngrabFailed(String),
    PathToStrError,
    UnmatchingCommand,
    ChildrenNotFound,
    CommandNotFound,
    MultipleKeysNeeded,
    NoConfigFound,
    NumberOfKeysDiffersFromValues,
    SingleKeyNeeded,
    ValueNotFound,
    ValuesNotFound,
    UInputNotFound,
    VirtualDeviceCreationFailed,
    /// The settings text is not well formed.
    InvalidConfig,
}

/// An error, as a plain value.
pub ghost enum Failure {
    IoError(Seq<char>),
    DeviceOpenFailed(Seq<char>),
    DeviceGrabFailed(Seq<char>),
    DeviceUngrabFailed(Seq<char>),
    /// Any error that carries no text of its own.
    Plain(LeftError),
}

impl View for LeftError {
    type V = Failure;

    open spec fn view(&self) -> Failure {
        match self {
            LeftError::IoError(m) => Failure::IoError(m@),
            LeftError::DeviceOpenFailed(p) => Failure::DeviceOpenFailed(p@),
            LeftError::DeviceGrabFailed(p) => Failure::DeviceGrabFailed(p@),
            LeftError::DeviceUngrabFailed(p) => Failure::DeviceUngrabFailed(p@),
            other => Failure::Plain(*other),
        }
    }
}

pub type Result<T> = core::result::Result<T, LeftError>;

pub type Error = core::result::Result<(), LeftError>;

/// The sentence for an error that carries no text of its own.
pub open spec fn plain_message(e: LeftError) -> Seq<char> {
    match e {
        LeftError::PathToStrError => "Path could not be converted to str."@,
        LeftError::UnmatchingCommand => "Given String doesn't match with a command."@,
        LeftError::ChildrenNotFound => "No chrildren found for chord."@,
        LeftError::CommandNotFound => "No command found for keybind."@,
        LeftError::MultipleKeysNeeded => "Command requires multiple keys."@,
        LeftError::NoConfigFound => "No config file found."@,
        LeftError::NumberOfKeysDiffersFromValues =>
            "The incorrect amount of keys is set for the number of values."@,
        LeftError::SingleKeyNeeded => "Command requires a single key."@,
        LeftError::ValueNotFound => "No value set for execution."@,
        LeftError::ValuesNotFound => "No values set for executions."@,
        LeftError::UInputNotFound => "No output device found for the keyboard."@,
        LeftError::VirtualDeviceCreationFailed =>
            "Failed to create virtual device, please check that your permissions are setup."@,
        LeftError::InvalidConfig => "The config could not be read."@,
        _ => Seq::empty(),
    }
}

/// The sentence for an error.
pub open spec fn message(e: LeftError) -> Seq<char> {
    match e {
        LeftError::IoError(m) => "IO error: "@ + m@ + "."@,
        LeftError::DeviceOpenFailed(p) => "Failed to open device "@ + p@ + "."@,
        LeftError::DeviceGrabFailed(p) => "Failed to grab device "@ + p@ + "."@,
        LeftError::DeviceUngrabFailed(p) => "Failed to ungrab device "@ + p@ + "."@,
        other => plain_message(other),
    }
}

fn around(head: &str, body: &String) -> (out: String)
    ensures
        out@ == head@ + body@ + "."@,
{
    let mut out = String::from_str(head);
    out.append(body.as_str());
    out.append(".");
    out
}

impl LeftError {
    /// The sentence for this error.
    pub fn to_string(&self) -> (out: String)
        ensures
            out@ == message(*self),
    {
        match self {
            LeftError::IoError(m) => around("IO error: ", m),
            LeftError::DeviceOpenFailed(p) => around("Failed to open device ", p),
            LeftError::DeviceGrabFailed(p) => around("Failed to grab device ", p),
            LeftError::DeviceUngrabFailed(p) => around("Failed to ungrab device ", p),
            LeftError::PathToStrError => String::from_str("Path could not be converted to str."),
            LeftError::UnmatchingCommand => String::from_str(
                "Given String doesn't match with a command.",
            ),
            LeftError::ChildrenNotFound => String::from_str("No chrildren found for chord."),
            LeftError::CommandNotFound => String::from_str("No command found for keybind."),
            LeftError::MultipleKeysNeeded => String::from_str("Command requires multiple keys."),
            LeftError::NoConfigFound => String::from_str("No config file found."),
            LeftError::NumberOfKeysDiffersFromValues => String::from_str(
                "The incorrect amount of keys is set for the number of values.",
            ),
            LeftError::SingleKeyNeeded => String::from_str("Command requires a single key."),
            LeftError::ValueNotFound => String::from_str("No value set for execution."),
            LeftError::ValuesNotFound => String::from_str("No values set for executions."),
            LeftError::UInputNotFound => String::from_str(
                "No output device found for the keyboard.",
            ),
            LeftError::VirtualDeviceCreationFailed => String::from_str(
                "Failed to create virtual device, please check that your permissions are setup.",
            ),
            LeftError::InvalidConfig => String::from_str("The config could not be read."),
        }
    }
}

} // verus!
