use vstd::prelude::*;

use crate::ids::{fresh_v7, uuid_string, uuid_text, uuid_variant, uuid_version};

verus! {

/// Identifier of a task: the 128 bits of a UUID.
#[derive(Debug, Clone, Copy, PartialEq, Eq, Structural, PartialOrd, Ord, Hash)]
pub struct TaskId(pub u128);

impl TaskId {
    /// Mints a new time-ordered (v7) identifier.
    pub fn new() -> (id: Self)
        ensures
            uuid_version(id.0) == 7,
            uuid_variant(id.0) == 2,
    {
        TaskId(fresh_v7())
    }

    /// The identifier as `uuid::Uuid` displays it: hyphenated lower-case hex.
    pub fn to_string(&self) -> (s: String)
        ensures
            s@ == uuid_text(self.0),
    {
        uuid_string(self.0)
    }
}

/// Which attempt at running a task this is, counting from 1.
#[derive(Debug, Clone, Copy, PartialEq, Eq, Structural, PartialOrd, Ord, Hash)]
pub struct TaskAttempt(pub u32);

impl TaskAttempt {
    /// The first attempt.
    pub fn first() -> (a: Self)
        ensures
            a.0 == 1,
    {
        TaskAttempt(1)
    }
}

/// Why a task is being cancelled.
#[derive(Debug, Clone, Copy, PartialEq, Eq, Structural)]
pub enum CancelReason {
    Requested,
    Timeout,
    Shutdown,
}

/// How a task ended.
#[derive(Debug, Clone, Copy, PartialEq, Eq, Structural)]
pub enum TaskStatus {
    Succeeded,
    Failed,
    Cancelled,
}

/// A request to run the task registered under `name` on `payload`.
#[derive(Debug, Clone, PartialEq, Eq)]
pub struct TaskRequest {
    pub task_id: TaskId,
    pub name: String,
    pub payload: Vec<u8>,
}

impl TaskRequest {
    pub fn new(task_id: TaskId, name: String, payload: Vec<u8>) -> (r: Self)
        ensures
            r.task_id == task_id,
            r.name == name,
            r.payload == payload,
    {
        TaskRequest { task_id, name, payload }
    }
}

/// The outcome of a [`TaskRequest`].
#[derive(Debug, Clone, PartialEq, Eq)]
pub struct TaskResponse {
    pub task_id: TaskId,
    pub status: TaskStatus,
    pub payload: Vec<u8>,
}

/// Runs registered tasks by name on encoded input.
pub trait TaskRegistry {
    fn dispatch(&self, task_name: &str, payload: &[u8]) -> Result<Vec<u8>, DispatchError>;
}

/// Failure of [`TaskRegistry::dispatch`].
#[derive(Debug, Clone, Copy, PartialEq, Eq, Structural)]
pub enum DispatchError {
    TaskNotFound,
}

} // verus!
