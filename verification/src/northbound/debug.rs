//! Debug messages.

use vstd::prelude::*;

use crate::northbound::configuration::{ChangeOp, CommitPhase};
use crate::text::owned;

verus! {

/// Events worth a debug message. A request is given by its rendering.
pub enum Debug<'a> {
    RequestRx(&'a str),
    ConfigurationChange(CommitPhase, ChangeOp, &'a str),
}

/// A message for the log, with its fields.
pub enum DebugRecord {
    RequestRx { request: String, text: String },
    ConfigurationChange { phase: CommitPhase, operation: ChangeOp, path: String, text: String },
}

impl<'a> Debug<'a> {
    /// The text of the message.
    pub open spec fn text(self) -> Seq<char> {
        match self {
            Debug::RequestRx(..) => "received request"@,
            Debug::ConfigurationChange(..) => "configuration change"@,
        }
    }

    pub fn message(&self) -> (r: String)
        ensures
            r@ == self.text(),
    {
        match self {
            Debug::RequestRx(..) => owned("received request"),
            Debug::ConfigurationChange(..) => owned("configuration change"),
        }
    }

    /// What is to be logged of the event.
    pub fn log(&self) -> (r: DebugRecord)
        ensures
            match (*self, r) {
                (Debug::RequestRx(message), DebugRecord::RequestRx { request, text }) => request@ == message@ && text@
                    == self.text(),
                (
                    Debug::ConfigurationChange(p, o, s),
                    DebugRecord::ConfigurationChange { phase, operation, path, text },
                ) => phase == p && operation == o && path@ == s@ && text@ == self.text(),
                _ => false,
            },
    {
        let text = self.message();
        match self {
            Debug::RequestRx(message) => DebugRecord::RequestRx { request: owned(message), text },
            Debug::ConfigurationChange(phase, operation, path) => DebugRecord::ConfigurationChange {
                phase: *phase,
                operation: *operation,
                path: owned(path),
                text,
            },
        }
    }
}

/// Messages tell requests from changes of the configuration.
pub proof fn messages_tell_what_happened(request: &str, phase: CommitPhase, op: ChangeOp, path: &str)
    ensures
        Debug::RequestRx(request).text() == "received request"@,
        Debug::ConfigurationChange(phase, op, path).text() == "configuration change"@,
{
}

} // verus!
