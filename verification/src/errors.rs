//! The errors of the dispatch runtime.

use crate::messages::ErrorMessage;
use vstd::prelude::*;
use vstd::string::StringExecFns;

verus! {

/// The classes of failure that the runtime tells apart.
#[derive(Clone, Copy, Debug, PartialEq, Eq, Structural)]
pub enum ErrorKind {
    /// The connection or a stream broke.
    Transport,
    /// A registered deserializer rejected the bytes.
    Decode,
    /// No handler is registered under the name.
    HandlerMissing,
    /// A handler returned an error.
    HandlerFailure,
    /// The event store refused an append.
    AppendRejection,
    /// The name is already bound in the registry.
    DuplicateHandler,
    /// A command arrived without a payload.
    MissingPayload,
    /// A message could not be encoded.
    Encode,
}

/// A failure of the runtime: its class, and the name or the text it is about.
#[derive(Debug)]
pub struct DispatchError {
    pub kind: ErrorKind,
    pub detail: String,
}

/// The error code of every error response.
pub open spec fn error_code() -> Seq<char> {
    "ERROR"@
}

/// The text that goes before the detail in an error's message.
pub open spec fn message_prefix(kind: ErrorKind) -> Seq<char> {
    match kind {
        ErrorKind::HandlerMissing => "No handler for: "@,
        ErrorKind::DuplicateHandler => "Handler already registered: "@,
        ErrorKind::MissingPayload => "No payload data for: "@,
        _ => Seq::<char>::empty(),
    }
}

impl DispatchError {
    /// The message of the error, as it goes into an error response.
    pub open spec fn spec_message(&self) -> Seq<char> {
        message_prefix(self.kind) + self.detail@
    }

    /// An error of class `kind` about `detail`.
    pub fn new(kind: ErrorKind, detail: &str) -> (error: Self)
        ensures
            error.kind == kind,
            error.detail@ == detail@,
    {
        DispatchError { kind, detail: String::from_str(detail) }
    }

    /// The message of the error, as it goes into an error response.
    pub fn message(&self) -> (text: String)
        ensures
            text@ == self.spec_message(),
    {
        let prefix = match self.kind {
            ErrorKind::HandlerMissing => "No handler for: ",
            ErrorKind::DuplicateHandler => "Handler already registered: ",
            ErrorKind::MissingPayload => "No payload data for: ",
            _ => "",
        };
        proof {
            reveal_strlit("");
            assert(""@ =~= Seq::<char>::empty());
        }
        let mut text = String::from_str(prefix);
        text.append(self.detail.as_str());
        text
    }
}

/// Whether `message` is the error part of a response to a failure whose
/// message is `text`.
pub open spec fn is_error_message(message: ErrorMessage, text: Seq<char>) -> bool {
    &&& message.message@ == text
    &&& message.location@.len() == 0
    &&& message.details@.len() == 0
    &&& message.error_code@ == error_code()
}

/// The error part of a response to `error`.
pub fn error_message(error: &DispatchError) -> (message: ErrorMessage)
    ensures
        is_error_message(message, error.spec_message()),
{
    ErrorMessage {
        message: error.message(),
        location: String::new(),
        details: Vec::new(),
        error_code: String::from_str("ERROR"),
    }
}

} // verus!
