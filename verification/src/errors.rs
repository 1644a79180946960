//! The engine's error kinds.

use vstd::prelude::*;
use crate::ids::EntityId;

verus! {

/// What can go wrong inside the core.  Malformed and unsupported actions
/// are non-fatal: the offending command is dropped and the tick goes on.
/// The others are fatal for the operation that raised them.
#[derive(Copy, Clone, Debug, PartialEq, Eq, Structural)]
pub enum RtsError {
    /// An action named an unknown or immobile unit, or carried no usable
    /// payload; the entity id names the culprit where one exists.
    MalformedAction(EntityId),
    /// A command variant the current action style does not handle.
    UnsupportedAction(EntityId),
    /// A move-order marker had no corresponding entity during save or load.
    TargetNotFound(EntityId),
    /// The scenario returned malformed data.
    ScenarioError,
    /// Internal state broke an engine invariant.
    InvariantViolation,
}

impl RtsError {
    pub open spec fn spec_is_fatal(&self) -> bool {
        match *self {
            RtsError::MalformedAction(_) => false,
            RtsError::UnsupportedAction(_) => false,
            RtsError::TargetNotFound(_) => true,
            RtsError::ScenarioError => true,
            RtsError::InvariantViolation => true,
        }
    }

    /// Whether the error aborts the operation that raised it.
    pub fn is_fatal(&self) -> (r: bool)
        ensures
            r == self.spec_is_fatal(),
    {
        match *self {
            RtsError::MalformedAction(_) => false,
            RtsError::UnsupportedAction(_) => false,
            RtsError::TargetNotFound(_) => true,
            RtsError::ScenarioError => true,
            RtsError::InvariantViolation => true,
        }
    }

    /// A human-readable description of the error.
    pub fn describe(&self) -> String {
        match *self {
            RtsError::MalformedAction(_) => "malformed action: command dropped".to_string(),
            RtsError::UnsupportedAction(_) => "unsupported action variant: command dropped".to_string(),
            RtsError::TargetNotFound(_) => "move-order target not found".to_string(),
            RtsError::ScenarioError => "scenario returned malformed data".to_string(),
            RtsError::InvariantViolation => "engine invariant violated".to_string(),
        }
    }
}

} // verus!
