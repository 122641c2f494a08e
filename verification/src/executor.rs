//! The decision core of the command executor: a trigger request resolves
//! synchronously through registry admission, and every spawned execution
//! settles into exactly one terminal outcome, with the admission slot
//! released exactly once.

use vstd::prelude::*;
use crate::registry::{AdmitOutcome, TaskGrant, TaskKey, TaskRegistry};

verus! {

/// Why an execution failed.
#[derive(Clone, Copy, PartialEq, Eq, Structural, Debug)]
pub enum FailureKind {
    /// the external binary was missing or unrunnable
    SpawnError,
    /// the process exited nonzero
    CommandFailed,
}

/// What the runtime observed of one spawned execution: which of the two
/// raced signals resolved first, and how.
pub enum ExecutionEvent {
    /// the cancellation signal fired before the process exited
    Cancelled,
    /// the process exited; `ok` reports exit status zero
    Exited { ok: bool, stdout: String, stderr: String },
    /// spawning itself failed before any process ran
    SpawnFailed { error: String },
}

/// The single terminal outcome of one execution.
pub enum Outcome {
    Cancelled,
    Success { stdout: String },
    Failure { kind: FailureKind, error: String },
}

/// Maps what the runtime observed to the one terminal outcome: cancellation
/// wins when it resolved first, exit status zero carries the standard
/// output onward, a nonzero exit carries the error-stream text, and a
/// failed spawn carries its diagnostic.
pub fn settle(event: ExecutionEvent) -> (r: Outcome)
    ensures
        event is Cancelled ==> r is Cancelled,
        (event matches ExecutionEvent::Exited { ok, stdout, stderr } ==> r == (if ok {
            Outcome::Success { stdout }
        } else {
            Outcome::Failure { kind: FailureKind::CommandFailed, error: stderr }
        })),
        (event matches ExecutionEvent::SpawnFailed { error } ==> r == (Outcome::Failure {
            kind: FailureKind::SpawnError,
            error,
        })),
{
    match event {
        ExecutionEvent::Cancelled => Outcome::Cancelled,
        ExecutionEvent::Exited { ok, stdout, stderr } => {
            if ok {
                Outcome::Success { stdout }
            } else {
                Outcome::Failure { kind: FailureKind::CommandFailed, error: stderr }
            }
        },
        ExecutionEvent::SpawnFailed { error } => Outcome::Failure {
            kind: FailureKind::SpawnError,
            error,
        },
    }
}

/// Settles one observed event and releases the key's admission slot, so
/// that whatever the outcome, the slot is free again exactly once per
/// execution.
pub fn settle_and_release(reg: &mut TaskRegistry, key: &TaskKey, event: ExecutionEvent) -> (r:
    Outcome)
    ensures
        !final(reg).running_of(key@),
        final(reg).has_slot(key@) == old(reg).has_slot(key@),
        final(reg).gen_of(key@) == old(reg).gen_of(key@),
        TaskRegistry::slots_unchanged_except(*old(reg), *final(reg), key@),
        event is Cancelled ==> r is Cancelled,
        (event matches ExecutionEvent::Exited { ok, stdout, stderr } ==> r == (if ok {
            Outcome::Success { stdout }
        } else {
            Outcome::Failure { kind: FailureKind::CommandFailed, error: stderr }
        })),
        (event matches ExecutionEvent::SpawnFailed { error } ==> r == (Outcome::Failure {
            kind: FailureKind::SpawnError,
            error,
        })),
{
    reg.release(key);
    settle(event)
}

/// The one error a trigger call surfaces synchronously: an execution for
/// the same key is already in flight.
#[derive(Clone, Copy, PartialEq, Eq, Structural, Debug)]
pub struct AdmissionError;

/// The synchronous half of a trigger request. On `Ok` the caller owns the
/// execution: it spawns the process, races it against the granted token,
/// and hands the observed event to `settle_and_release`.
pub fn trigger(reg: &mut TaskRegistry, key: &TaskKey) -> (r: Result<TaskGrant, AdmissionError>)
    ensures
        old(reg).running_of(key@) ==> r is Err && *final(reg) == *old(reg),
        !old(reg).running_of(key@) ==> r is Ok && TaskRegistry::admit_transition(
            *old(reg),
            *final(reg),
            key@,
        ),
        (r matches Ok(g) ==> g.generation == old(reg).gen_of(key@)),
{
    match reg.admit_task(key) {
        AdmitOutcome::Admitted(g) => Ok(g),
        AdmitOutcome::Rejected => Err(AdmissionError),
    }
}

} // verus!
