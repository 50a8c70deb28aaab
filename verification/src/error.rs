//! The errors that forking hands back to its caller.

use std::io;

use vstd::prelude::*;
use vstd::std_specs::convert::FromSpecImpl;
use vstd::string::StringExecFns;

use crate::text::decimal;
use crate::text::decimal_digits;

verus! {

/// `std::io::Error`, as a value that is carried along and never looked
/// into.
#[verifier::external_type_specification]
#[verifier::external_body]
pub struct ExIoError(std::io::Error);

/// The text by which an `io::Error` describes itself, by its `Display`
/// impl.
///
/// Nothing is claimed of that text: it comes from the operating system.
#[verifier::external_body]
fn describe(err: &io::Error) -> (text: String) {
    format!("{err}")
}

/// What can go wrong with an invocation, whatever the body of the test
/// does.
#[derive(Debug)]
pub enum Error {
    /// An unknown flag was met in the argument list of the current process.
    ///
    /// The string is that flag.
    UnknownFlag(String),
    /// A flag was met in the argument list of the current process which is
    /// known, but which cannot be handed on in any sensible way.
    ///
    /// The strings are the flag and the reason why it cannot be handled.
    DisallowedFlag(String, String),
    /// The operating system did not start the child.
    SpawnError(io::Error),
    /// The channel on which parent and child exchange data failed.
    ExchangeError(io::Error),
    /// The channel on which parent and child exchange data ended early.
    ///
    /// The numbers are the length of the buffer that was to cross it and
    /// the number of bytes that did.
    ShortExchange { expected: usize, received: usize },
}

impl From<io::Error> for Error {
    fn from(other: io::Error) -> (error: Self) {
        Error::SpawnError(other)
    }
}

impl FromSpecImpl<io::Error> for Error {
    open spec fn obeys_from_spec() -> bool {
        true
    }

    open spec fn from_spec(other: io::Error) -> Self {
        Error::SpawnError(other)
    }
}

/// The message for a flag that is not known.
pub open spec fn unknown_flag_message(flag: Seq<char>) -> Seq<char> {
    "The flag '"@ + flag
        + "' was passed to the Rust test process, but rusty-fork does not know how to handle it."@
}

/// The message for a flag that is known and cannot be handled, with the
/// reason `reason`.
pub open spec fn disallowed_flag_message(flag: Seq<char>, reason: Seq<char>) -> Seq<char> {
    "The flag '"@ + flag
        + "' was passed to the Rust test process, but rusty-fork cannot handle it; reason: "@
        + reason
}

/// The message for a child that could not be started, where the operating
/// system describes the failure as `cause`.
pub open spec fn spawn_failed_message(cause: Seq<char>) -> Seq<char> {
    "Spawn failed: "@ + cause
}

/// The message for a child that could not be started, where the operating
/// system describes the failure as `cause`.
pub fn spawn_failure(cause: &str) -> (message: String)
    ensures
        message@ == spawn_failed_message(cause@),
{
    let mut message = String::from_str("Spawn failed: ");
    message.append(cause);
    message
}

/// The message for a data exchange that failed, where the operating system
/// describes the failure as `cause`.
pub open spec fn exchange_failed_message(cause: Seq<char>) -> Seq<char> {
    "Data exchange failed: "@ + cause
}

/// The message for a data exchange in which `received` bytes arrived in
/// place of `expected`.
pub open spec fn short_exchange_message(expected: nat, received: nat) -> Seq<char> {
    "Data exchange ended early: expected "@ + decimal_digits(expected) + " bytes, received "@
        + decimal_digits(received)
}

/// The message for a data exchange that failed, where the operating system
/// describes the failure as `cause`.
pub fn exchange_failure(cause: &str) -> (message: String)
    ensures
        message@ == exchange_failed_message(cause@),
{
    let mut message = String::from_str("Data exchange failed: ");
    message.append(cause);
    message
}

impl Error {
    /// Whether `message` is a message that describes this error.
    pub open spec fn is_described_by(&self, message: Seq<char>) -> bool {
        match self {
            Error::UnknownFlag(flag) => message == unknown_flag_message(flag@),
            Error::DisallowedFlag(flag, reason) => message == disallowed_flag_message(
                flag@,
                reason@,
            ),
            Error::SpawnError(_) => exists|cause: Seq<char>|
                message == spawn_failed_message(cause),
            Error::ExchangeError(_) => exists|cause: Seq<char>|
                message == exchange_failed_message(cause),
            Error::ShortExchange { expected, received } => message == short_exchange_message(
                *expected as nat,
                *received as nat,
            ),
        }
    }

    /// The message that describes the error to the user.
    pub fn to_string(&self) -> (message: String)
        ensures
            self.is_described_by(message@),
    {
        match self {
            Error::UnknownFlag(flag) => {
                let mut message = String::from_str("The flag '");
                message.append(flag.as_str());
                message.append(
                    "' was passed to the Rust test process, but rusty-fork does not know how to handle it.",
                );
                message
            },
            Error::DisallowedFlag(flag, reason) => {
                let mut message = String::from_str("The flag '");
                message.append(flag.as_str());
                message.append(
                    "' was passed to the Rust test process, but rusty-fork cannot handle it; reason: ",
                );
                message.append(reason.as_str());
                message
            },
            Error::SpawnError(err) => {
                let cause = describe(err);
                spawn_failure(cause.as_str())
            },
            Error::ExchangeError(err) => {
                let cause = describe(err);
                exchange_failure(cause.as_str())
            },
            Error::ShortExchange { expected, received } => {
                let mut message = String::from_str("Data exchange ended early: expected ");
                message.append(decimal(*expected).as_str());
                message.append(" bytes, received ");
                message.append(decimal(*received).as_str());
                message
            },
        }
    }
}

} // verus!
