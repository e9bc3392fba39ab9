//! Northbound errors.

use vstd::prelude::*;
use vstd::string::StringExecFns;

use crate::text::{join, owned};

verus! {

/// Northbound errors. Errors of the YANG library and of RPCs are given by
/// their texts.
#[derive(Debug)]
#[allow(inconsistent_fields)]
pub enum Error {
    Validate(ValidationError),
    Parse { path: String, error: ParseError },
    Prepare { path: String, error: PrepareError },
    RpcNotFound,
    RpcRelay(String),
    RpcCallback(String),
    RelayUnreachable,
    YangInvalidPath(String),
    YangInvalidListKeys,
    YangInvalidData(String),
}

/// Errors that can occur while validating a candidate configuration.
#[derive(Debug)]
pub struct ValidationError {
    /// YANG data path of the offending data node.
    pub path: String,
    /// Human-readable description of the problem.
    pub message: String,
}

/// Errors that can occur while parsing a configuration change.
#[derive(Debug)]
pub enum ParseError {
    /// The data node could not be found in the data tree.
    NodeNotFound(String),
    /// The list entry containing the data node could not be found in the data
    /// tree.
    ListEntryNotFound,
    /// A list key is missing from the data tree.
    MissingListKey(String),
    /// A list key holds a value that could not be parsed.
    InvalidListKey(String),
    /// The data node doesn't hold any value.
    MissingLeafValue,
    /// The data node holds a value that could not be parsed.
    InvalidValue(String),
    /// The change operation isn't valid for the data node.
    UnexpectedOperation,
}

/// Errors that can occur while preparing a configuration change.
#[derive(Debug)]
pub struct PrepareError {
    /// Human-readable description of the problem.
    pub message: String,
}

/// Errors that can occur while applying a configuration change.
#[derive(Clone, Copy, Debug, PartialEq, Eq, Structural)]
pub enum ApplyError {
    EntryNotFound,
}

/// A warning for the log.
pub struct LogRecord {
    pub path: Option<String>,
    pub error: Option<String>,
    pub message: String,
}

// ===== impl Error =====

impl Error {
    /// The text that describes the error.
    pub open spec fn text(self) -> Seq<char> {
        match self {
            Error::Validate(..) => "configuration validation failed"@,
            Error::Parse { .. } => "failed to parse configuration change"@,
            Error::Prepare { .. } => "failed to prepare configuration change"@,
            Error::RpcNotFound => "RPC/Action not found"@,
            Error::RpcRelay(..) => "failed to relay RPC to the appropriate subscriber"@,
            Error::RpcCallback(..) => "RPC callback failed"@,
            Error::RelayUnreachable => "failed to relay request: the target instance is no longer running"@,
            Error::YangInvalidPath(..) => "Invalid YANG data path"@,
            Error::YangInvalidListKeys => "Invalid YANG list keys"@,
            Error::YangInvalidData(..) => "Invalid YANG instance data"@,
        }
    }

    pub fn message(&self) -> (r: String)
        ensures
            r@ == self.text(),
    {
        match self {
            Error::Validate(..) => owned("configuration validation failed"),
            Error::Parse { .. } => owned("failed to parse configuration change"),
            Error::Prepare { .. } => owned("failed to prepare configuration change"),
            Error::RpcNotFound => owned("RPC/Action not found"),
            Error::RpcRelay(..) => owned("failed to relay RPC to the appropriate subscriber"),
            Error::RpcCallback(..) => owned("RPC callback failed"),
            Error::RelayUnreachable => owned("failed to relay request: the target instance is no longer running"),
            Error::YangInvalidPath(..) => owned("Invalid YANG data path"),
            Error::YangInvalidListKeys => owned("Invalid YANG list keys"),
            Error::YangInvalidData(..) => owned("Invalid YANG instance data"),
        }
    }

    /// The path that the error is about.
    pub open spec fn about(self) -> Option<Seq<char>> {
        match self {
            Error::Parse { path, .. } => Some(path@),
            Error::Prepare { path, .. } => Some(path@),
            _ => None,
        }
    }

    /// The text of the error underneath.
    pub open spec fn cause(self) -> Option<Seq<char>> {
        match self {
            Error::Validate(error) => Some(error.text()),
            Error::Parse { error, .. } => Some(error.text()),
            Error::Prepare { error, .. } => Some(error.message@),
            Error::RpcRelay(error) => Some(error@),
            Error::RpcCallback(error) => Some(error@),
            Error::YangInvalidPath(error) => Some(error@),
            Error::YangInvalidData(error) => Some(error@),
            _ => None,
        }
    }

    /// What is to be logged of the error.
    pub fn log(&self) -> (r: LogRecord)
        ensures
            crate::text::opt_text(r.path) == self.about(),
            crate::text::opt_text(r.error) == self.cause(),
            r.message@ == self.text(),
    {
        let message = self.message();
        match self {
            Error::Validate(error) => LogRecord { path: None, error: Some(error.message()), message },
            Error::Parse { path, error } => LogRecord {
                path: Some(path.clone()),
                error: Some(error.message()),
                message,
            },
            Error::Prepare { path, error } => LogRecord {
                path: Some(path.clone()),
                error: Some(error.message.clone()),
                message,
            },
            Error::RpcNotFound => LogRecord { path: None, error: None, message },
            Error::RpcRelay(error) => LogRecord { path: None, error: Some(error.clone()), message },
            Error::RpcCallback(error) => LogRecord { path: None, error: Some(error.clone()), message },
            Error::RelayUnreachable => LogRecord { path: None, error: None, message },
            Error::YangInvalidPath(error) => LogRecord { path: None, error: Some(error.clone()), message },
            Error::YangInvalidListKeys => LogRecord { path: None, error: None, message },
            Error::YangInvalidData(error) => LogRecord { path: None, error: Some(error.clone()), message },
        }
    }
}

// ===== impl ValidationError =====

impl ValidationError {
    /// An error about the data node at the given path.
    pub fn new(path: &str, message: &str) -> (r: ValidationError)
        ensures
            r.path@ == path@,
            r.message@ == message@,
    {
        ValidationError { path: owned(path), message: owned(message) }
    }

    /// The text that describes the error.
    pub open spec fn text(self) -> Seq<char> {
        self.path@ + ": "@ + self.message@
    }

    pub fn message(&self) -> (r: String)
        ensures
            r@ == self.text(),
    {
        let mut r = join(self.path.as_str(), ": ");
        r.append(self.message.as_str());
        r
    }
}

// ===== impl ParseError =====

impl ParseError {
    /// The text that describes the error.
    pub open spec fn text(self) -> Seq<char> {
        match self {
            ParseError::NodeNotFound(error) => "data node not found: "@ + error@,
            ParseError::ListEntryNotFound => "list entry not found in the data tree"@,
            ParseError::MissingListKey(name) => "missing list key: "@ + name@,
            ParseError::InvalidListKey(name) => "invalid list key: "@ + name@,
            ParseError::MissingLeafValue => "missing leaf value"@,
            ParseError::InvalidValue(value) => "invalid value: "@ + value@,
            ParseError::UnexpectedOperation => "unexpected change operation"@,
        }
    }

    pub fn message(&self) -> (r: String)
        ensures
            r@ == self.text(),
    {
        match self {
            ParseError::NodeNotFound(error) => join("data node not found: ", error.as_str()),
            ParseError::ListEntryNotFound => owned("list entry not found in the data tree"),
            ParseError::MissingListKey(name) => join("missing list key: ", name.as_str()),
            ParseError::InvalidListKey(name) => join("invalid list key: ", name.as_str()),
            ParseError::MissingLeafValue => owned("missing leaf value"),
            ParseError::InvalidValue(value) => join("invalid value: ", value.as_str()),
            ParseError::UnexpectedOperation => owned("unexpected change operation"),
        }
    }
}

// ===== impl PrepareError =====

impl PrepareError {
    pub fn new(message: &str) -> (r: PrepareError)
        ensures
            r.message@ == message@,
    {
        PrepareError { message: owned(message) }
    }
}

// ===== impl ApplyError =====

impl ApplyError {
    pub fn message(&self) -> (r: String)
        ensures
            r@ == "entry not found"@,
    {
        owned("entry not found")
    }
}

// ===== laws =====

/// Each error has a text of its own.
pub proof fn errors_tell_what_failed(
    v: ValidationError,
    path: String,
    parse: ParseError,
    prepare: PrepareError,
    text: String,
)
    ensures
        Error::Validate(v).text() == "configuration validation failed"@,
        (Error::Parse { path, error: parse }).text() == "failed to parse configuration change"@,
        (Error::Prepare { path, error: prepare }).text() == "failed to prepare configuration change"@,
        Error::RpcNotFound.text() == "RPC/Action not found"@,
        Error::RpcRelay(text).text() == "failed to relay RPC to the appropriate subscriber"@,
        Error::RpcCallback(text).text() == "RPC callback failed"@,
        Error::RelayUnreachable.text() == "failed to relay request: the target instance is no longer running"@,
        Error::YangInvalidPath(text).text() == "Invalid YANG data path"@,
        Error::YangInvalidListKeys.text() == "Invalid YANG list keys"@,
        Error::YangInvalidData(text).text() == "Invalid YANG instance data"@,
        ParseError::NodeNotFound(text).text() == "data node not found: "@ + text@,
        ParseError::ListEntryNotFound.text() == "list entry not found in the data tree"@,
        ParseError::MissingListKey(text).text() == "missing list key: "@ + text@,
        ParseError::InvalidListKey(text).text() == "invalid list key: "@ + text@,
        ParseError::MissingLeafValue.text() == "missing leaf value"@,
        ParseError::InvalidValue(text).text() == "invalid value: "@ + text@,
        ParseError::UnexpectedOperation.text() == "unexpected change operation"@,
        v.text() == v.path@ + ": "@ + v.message@,
{
}

/// Errors about a change name the path of its node, and errors with a cause tell it.
pub proof fn errors_name_their_path_and_cause(
    v: ValidationError,
    path: String,
    parse: ParseError,
    prepare: PrepareError,
    text: String,
)
    ensures
        (Error::Parse { path, error: parse }).about() == Some(path@),
        (Error::Prepare { path, error: prepare }).about() == Some(path@),
        Error::Validate(v).about() is None,
        Error::RpcRelay(text).about() is None,
        Error::YangInvalidPath(text).about() is None,
        Error::Validate(v).cause() == Some(v.path@ + ": "@ + v.message@),
        (Error::Parse { path, error: parse }).cause() == Some(parse.text()),
        (Error::Prepare { path, error: prepare }).cause() == Some(prepare.message@),
        Error::RpcRelay(text).cause() == Some(text@),
        Error::RpcCallback(text).cause() == Some(text@),
        Error::YangInvalidPath(text).cause() == Some(text@),
        Error::YangInvalidData(text).cause() == Some(text@),
        Error::RpcNotFound.cause() is None,
        Error::RelayUnreachable.cause() is None,
        Error::YangInvalidListKeys.cause() is None,
{
}

} // verus!
