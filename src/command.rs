//! What a finished shell command yields as fragment text.

use vstd::prelude::*;
use vstd::string::StringExecFns;
use vstd::utf8::{decode_utf8, valid_utf8};

verus! {

/// Why a command gave no fragment text.
#[derive(Debug, PartialEq, Eq)]
pub enum CommandError {
    /// The command succeeded but its output is not UTF-8.
    OutputNotUtf8 { command: String },
    /// The command failed; the message is what it wrote to standard error.
    Failed { message: String },
}

impl CommandError {
    /// A sentence describing the error.
    pub fn message(&self) -> (r: String)
        ensures
            r@ == match self {
                CommandError::OutputNotUtf8 { command } => "failed to parse output of command "@
                    + command@ + " as utf8"@,
                CommandError::Failed { message } => message@,
            },
    {
        match self {
            CommandError::OutputNotUtf8 { command } => {
                let mut m = String::from_str("failed to parse output of command ");
                m.append(command.as_str());
                m.append(" as utf8");
                m
            },
            CommandError::Failed { message } => message.clone(),
        }
    }
}

/// Relies on `String::from_utf8`: the text the bytes encode, when they are UTF-8.
#[verifier::external_body]
fn utf8_text(bytes: Vec<u8>) -> (r: Option<String>)
    ensures
        r is Some <==> valid_utf8(bytes@),
        r matches Some(s) ==> s@ == decode_utf8(bytes@),
{
    String::from_utf8(bytes).ok()
}

/// The message of a failed command: its standard error when that is UTF-8.
pub open spec fn failure_message(command: Seq<char>, stderr: Seq<u8>) -> Seq<char> {
    if valid_utf8(stderr) {
        decode_utf8(stderr)
    } else {
        "unknown error executing command "@ + command
    }
}

/// The fragment text of a command that ran to its end: on success its
/// standard output, which must be UTF-8; on failure an error carrying its
/// standard error.
pub fn command_output(command: &str, success: bool, stdout: Vec<u8>, stderr: Vec<u8>) -> (r: Result<String, CommandError>)
    ensures
        success && valid_utf8(stdout@) ==> (r matches Ok(s) && s@ == decode_utf8(stdout@)),
        success && !valid_utf8(stdout@) ==> (r matches Err(CommandError::OutputNotUtf8 { command: c })
            && c@ == command@),
        !success ==> (r matches Err(CommandError::Failed { message }) && message@ == failure_message(
            command@,
            stderr@,
        )),
{
    if success {
        match utf8_text(stdout) {
            Some(s) => Ok(s),
            None => Err(CommandError::OutputNotUtf8 { command: command.to_owned() }),
        }
    } else {
        match utf8_text(stderr) {
            Some(s) => Err(CommandError::Failed { message: s }),
            None => {
                let mut m = String::from_str("unknown error executing command ");
                m.append(command);
                Err(CommandError::Failed { message: m })
            },
        }
    }
}

} // verus!
