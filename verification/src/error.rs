use vstd::prelude::*;

verus! {

/// Errors produced while executing a task.
#[derive(Debug, Clone, PartialEq, Eq)]
pub enum TaskError {
    Execution(String),
    Cancelled,
    Encode(String),
    Decode(String),
}

/// Errors produced by a task dispatcher.
#[derive(Debug, Clone, PartialEq, Eq)]
pub enum DispatchError {
    TaskNotFound(String),
    Encoding(String),
    Decoding(String),
    Execution(String),
    Timeout(String),
    Cancelled,
    CancellationUnsupported,
    Overloaded,
}

/// Errors produced by the on-the-wire protocol / codec layer.
#[derive(Debug, Clone, PartialEq, Eq)]
pub enum ProtocolError {
    BadVersion { local: String, remote: String },
    UnknownMessage,
    Decode(String),
    Expired,
    Unsupported,
}

} // verus!
