//! Errors of an invocation, their exit codes and their messages.
use vstd::prelude::*;

use vstd::string::to_string_from_display_ensures;

use crate::command::ConfigError;

verus! {

/// `anyhow::Error`, which handlers may fail with; it is carried as an opaque
/// value and shown through its `Display`.
#[verifier::external_type_specification]
#[verifier::external_body]
pub struct ExAnyhowError(anyhow::Error);

/// An error of a command-line invocation.
#[derive(Debug)]
pub enum CliError {
    /// A handler asked for a value that was not collected.
    InvalidHandler(String),
    /// The command tree is malformed.
    InvalidCommand(ConfigError),
    Failed,
    FailedWithMessage(String),
    FailedWithMessageAndCode(String, u8),
    /// The argument parser rejected the command line: its exit code and its
    /// rendered message.
    ClapError { code: i32, message: String },
    /// An input string that does not split as a shell command.
    InputString,
    Other(anyhow::Error),
    OtherWithCode(anyhow::Error, u8),
}

/// The process exit code that an error maps to.
pub open spec fn exit_code_of(e: CliError) -> u8 {
    match e {
        CliError::FailedWithMessageAndCode(_, code) => code,
        CliError::OtherWithCode(_, code) => code,
        CliError::ClapError { code, .. } => if 0 <= code <= 255 {
            code as u8
        } else {
            255
        },
        _ => 1,
    }
}

pub open spec fn handler_heading() -> Seq<char> {
    "\n\n** Cling Handler Design Error **\n\n"@
}

pub open spec fn command_heading() -> Seq<char> {
    "\n\n** Cling Command Design Error **\n\n"@
}

impl CliError {
    /// The exit code of the process that fails with this error.
    pub fn exit_code(&self) -> (r: u8)
        ensures
            r == exit_code_of(*self),
    {
        match self {
            CliError::FailedWithMessageAndCode(_, code) => *code,
            CliError::OtherWithCode(_, code) => *code,
            CliError::ClapError { code, .. } => {
                if 0 <= *code && *code <= 255 {
                    *code as u8
                } else {
                    255
                }
            },
            _ => 1,
        }
    }

    /// The message of the error, as one line of text or more.
    pub fn message(&self) -> (r: String)
        ensures
            match *self {
                CliError::InvalidHandler(msg) => r@ == handler_heading() + msg@,
                CliError::InvalidCommand(c) => r@ == command_heading() + c.describe(),
                CliError::Failed => r@ == "Failed!"@,
                CliError::FailedWithMessage(msg) => r@ == "Failed: "@ + msg@,
                CliError::FailedWithMessageAndCode(msg, _) => r@ == "Error: "@ + msg@,
                CliError::ClapError { message, .. } => r@ == message@,
                CliError::InputString => r@ == "Input string cannot be parsed as UNIX shell command"@,
                CliError::Other(e) => exists|t: String|
                    to_string_from_display_ensures::<anyhow::Error>(&e, t) && r@ == "Error: "@ + t@,
                CliError::OtherWithCode(e, _) => exists|t: String|
                    to_string_from_display_ensures::<anyhow::Error>(&e, t) && r@ == "Error: "@ + t@,
            },
    {
        proof {
            reveal_strlit("\n\n** Cling Handler Design Error **\n\n");
            reveal_strlit("\n\n** Cling Command Design Error **\n\n");
            reveal_strlit("Failed!");
            reveal_strlit("Failed: ");
            reveal_strlit("Error: ");
            reveal_strlit("Input string cannot be parsed as UNIX shell command");
        }
        match self {
            CliError::InvalidHandler(msg) => String::from_str(
                "\n\n** Cling Handler Design Error **\n\n",
            ).concat(msg.as_str()),
            CliError::InvalidCommand(c) => {
                let d = c.description();
                String::from_str("\n\n** Cling Command Design Error **\n\n").concat(d.as_str())
            },
            CliError::Failed => String::from_str("Failed!"),
            CliError::FailedWithMessage(msg) => String::from_str("Failed: ").concat(msg.as_str()),
            CliError::FailedWithMessageAndCode(msg, _) => String::from_str("Error: ").concat(
                msg.as_str(),
            ),
            CliError::ClapError { message, .. } => message.clone(),
            CliError::InputString => String::from_str(
                "Input string cannot be parsed as UNIX shell command",
            ),
            CliError::Other(e) => {
                let text = e.to_string();
                let r = String::from_str("Error: ").concat(text.as_str());
                assert(to_string_from_display_ensures::<anyhow::Error>(e, text));
                r
            },
            CliError::OtherWithCode(e, _) => {
                let text = e.to_string();
                let r = String::from_str("Error: ").concat(text.as_str());
                assert(to_string_from_display_ensures::<anyhow::Error>(e, text));
                r
            },
        }
    }

    /// The heading and the body under which the error is reported to the user.
    pub fn report(&self) -> (r: (String, String))
        ensures
            match *self {
                CliError::InvalidHandler(msg) => r.0@ == handler_heading() && r.1@ == msg@,
                CliError::InvalidCommand(c) => r.0@ == command_heading() && r.1@ == c.describe(),
                CliError::Failed => r.0@ == "Aborted!"@ && r.1@ == Seq::<char>::empty(),
                CliError::FailedWithMessage(msg) => r.0@ == Seq::<char>::empty() && r.1@ == msg@,
                CliError::FailedWithMessageAndCode(msg, _) => r.0@ == Seq::<char>::empty() && r.1@
                    == msg@,
                CliError::ClapError { message, .. } => r.0@ == Seq::<char>::empty() && r.1@
                    == message@,
                CliError::InputString => r.0@ == Seq::<char>::empty() && r.1@
                    == "Input string cannot be parsed as UNIX shell command"@,
                CliError::Other(e) => r.0@ == "Error: "@
                    && to_string_from_display_ensures::<anyhow::Error>(&e, r.1),
                CliError::OtherWithCode(e, _) => r.0@ == "Error: "@
                    && to_string_from_display_ensures::<anyhow::Error>(&e, r.1),
            },
    {
        proof {
            reveal_strlit("\n\n** Cling Handler Design Error **\n\n");
            reveal_strlit("\n\n** Cling Command Design Error **\n\n");
            reveal_strlit("Aborted!");
            reveal_strlit("");
            reveal_strlit("Input string cannot be parsed as UNIX shell command");
            reveal_strlit("Error: ");
        }
        match self {
            CliError::InvalidHandler(msg) => (
                String::from_str("\n\n** Cling Handler Design Error **\n\n"),
                msg.clone(),
            ),
            CliError::InvalidCommand(c) => (
                String::from_str("\n\n** Cling Command Design Error **\n\n"),
                c.description(),
            ),
            CliError::Failed => (String::from_str("Aborted!"), String::new()),
            CliError::FailedWithMessage(msg) => (String::new(), msg.clone()),
            CliError::FailedWithMessageAndCode(msg, _) => (String::new(), msg.clone()),
            CliError::ClapError { message, .. } => (String::new(), message.clone()),
            CliError::InputString => (
                String::new(),
                String::from_str("Input string cannot be parsed as UNIX shell command"),
            ),
            CliError::Other(e) => (String::from_str("Error: "), e.to_string()),
            CliError::OtherWithCode(e, _) => (String::from_str("Error: "), e.to_string()),
        }
    }
}

impl From<anyhow::Error> for CliError {
    fn from(value: anyhow::Error) -> (r: CliError)
        ensures
            r == CliError::Other(value),
    {
        CliError::Other(value)
    }
}

impl vstd::std_specs::convert::FromSpecImpl<anyhow::Error> for CliError {
    open spec fn obeys_from_spec() -> bool {
        true
    }

    open spec fn from_spec(v: anyhow::Error) -> CliError {
        CliError::Other(v)
    }
}

} // verus!
