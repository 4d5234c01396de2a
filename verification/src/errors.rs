//! Error taxonomy of the engine. Each kind names its trigger and carries what
//! the caller needs; `message` renders a plain description, since types of
//! this library carry no Display impl.

use vstd::prelude::*;
use crate::ids::Id;

verus! {

/// Main error type for engine operations.
#[derive(Debug, Clone, PartialEq, Eq)]
pub enum OrpheonError {
    /// Intent validation failed.
    IntentInvalid { intent_id: Option<Id>, message: String },
    /// Planning failed to find a viable path.
    PlanningFailed { intent_id: Id, message: String },
    /// Execution of a step failed.
    ExecutionFailed { intent_id: Id, step_id: Id, message: String, recoverable: bool },
    /// Negotiation was rejected by the counterparty.
    NegotiationRejected { intent_id: Id, reason: String },
    /// Operation timed out.
    Timeout { duration_ms: u64, message: String },
    /// Constraint violation detected.
    ConstraintViolation { intent_id: Id, constraint: String },
    /// Budget exceeded: cost is in hundredths of a currency unit.
    BudgetExceeded { intent_id: Id, spent: u64, limit: u64 },
    /// State store error.
    StateError { message: String },
    /// Serialization/deserialization error.
    SerializationError(String),
    /// Cryptographic operation failed.
    CryptoError(String),
    /// Resource not found.
    NotFound { resource_type: String, id: String },
    /// Internal error (should not happen).
    Internal(String),
    /// Connection error.
    ConnectionError(String),
}

impl OrpheonError {
    /// Whether this error kind is recoverable.
    pub open spec fn spec_is_recoverable(self) -> bool {
        match self {
            OrpheonError::ExecutionFailed { recoverable, .. } => recoverable,
            OrpheonError::Timeout { .. } => true,
            OrpheonError::ConnectionError(_) => true,
            _ => false,
        }
    }

    /// Returns true if this error is recoverable.
    pub fn is_recoverable(&self) -> (r: bool)
        ensures
            r == self.spec_is_recoverable(),
    {
        match self {
            OrpheonError::ExecutionFailed { recoverable, .. } => *recoverable,
            OrpheonError::Timeout { .. } => true,
            OrpheonError::ConnectionError(_) => true,
            _ => false,
        }
    }

    /// The intent id the error speaks of, if it carries one.
    pub open spec fn spec_intent_id(self) -> Option<Id> {
        match self {
            OrpheonError::IntentInvalid { intent_id, .. } => intent_id,
            OrpheonError::PlanningFailed { intent_id, .. } => Some(intent_id),
            OrpheonError::ExecutionFailed { intent_id, .. } => Some(intent_id),
            OrpheonError::NegotiationRejected { intent_id, .. } => Some(intent_id),
            OrpheonError::ConstraintViolation { intent_id, .. } => Some(intent_id),
            OrpheonError::BudgetExceeded { intent_id, .. } => Some(intent_id),
            _ => None,
        }
    }

    /// Returns the intent ID if available.
    pub fn intent_id(&self) -> (r: Option<Id>)
        ensures
            r == self.spec_intent_id(),
    {
        match self {
            OrpheonError::IntentInvalid { intent_id, .. } => *intent_id,
            OrpheonError::PlanningFailed { intent_id, .. } => Some(*intent_id),
            OrpheonError::ExecutionFailed { intent_id, .. } => Some(*intent_id),
            OrpheonError::NegotiationRejected { intent_id, .. } => Some(*intent_id),
            OrpheonError::ConstraintViolation { intent_id, .. } => Some(*intent_id),
            OrpheonError::BudgetExceeded { intent_id, .. } => Some(*intent_id),
            _ => None,
        }
    }

    /// The rendered description: a fixed prefix per kind, then the carried text.
    pub open spec fn spec_message(self) -> Seq<char> {
        match self {
            OrpheonError::IntentInvalid { message, .. } =>
                "Intent validation failed: "@ + message@,
            OrpheonError::PlanningFailed { message, .. } =>
                "Planning failed: "@ + message@,
            OrpheonError::ExecutionFailed { message, .. } =>
                "Execution failed: "@ + message@,
            OrpheonError::NegotiationRejected { reason, .. } =>
                "Negotiation rejected: "@ + reason@,
            OrpheonError::Timeout { message, .. } =>
                "Operation timed out: "@ + message@,
            OrpheonError::ConstraintViolation { constraint, .. } =>
                "Constraint violated: "@ + constraint@,
            OrpheonError::BudgetExceeded { .. } =>
                "Budget exceeded"@,
            OrpheonError::StateError { message } =>
                "State store error: "@ + message@,
            OrpheonError::SerializationError(s) =>
                "Serialization error: "@ + s@,
            OrpheonError::CryptoError(s) =>
                "Cryptographic error: "@ + s@,
            OrpheonError::NotFound { resource_type, id } =>
                "Resource not found: "@ + resource_type@ + " with id "@ + id@,
            OrpheonError::Internal(s) =>
                "Internal error: "@ + s@,
            OrpheonError::ConnectionError(s) =>
                "Connection error: "@ + s@,
        }
    }

    /// Render the error as plain text.
    pub fn message(&self) -> (r: String)
        ensures
            r@ == self.spec_message(),
    {
        match self {
            OrpheonError::IntentInvalid { message, .. } => {
                let mut out = String::from_str("Intent validation failed: ");
                out.append(message.as_str());
                out
            }
            OrpheonError::PlanningFailed { message, .. } => {
                let mut out = String::from_str("Planning failed: ");
                out.append(message.as_str());
                out
            }
            OrpheonError::ExecutionFailed { message, .. } => {
                let mut out = String::from_str("Execution failed: ");
                out.append(message.as_str());
                out
            }
            OrpheonError::NegotiationRejected { reason, .. } => {
                let mut out = String::from_str("Negotiation rejected: ");
                out.append(reason.as_str());
                out
            }
            OrpheonError::Timeout { message, .. } => {
                let mut out = String::from_str("Operation timed out: ");
                out.append(message.as_str());
                out
            }
            OrpheonError::ConstraintViolation { constraint, .. } => {
                let mut out = String::from_str("Constraint violated: ");
                out.append(constraint.as_str());
                out
            }
            OrpheonError::BudgetExceeded { .. } => {
                String::from_str("Budget exceeded")
            }
            OrpheonError::StateError { message } => {
                let mut out = String::from_str("State store error: ");
                out.append(message.as_str());
                out
            }
            OrpheonError::SerializationError(s) => {
                let mut out = String::from_str("Serialization error: ");
                out.append(s.as_str());
                out
            }
            OrpheonError::CryptoError(s) => {
                let mut out = String::from_str("Cryptographic error: ");
                out.append(s.as_str());
                out
            }
            OrpheonError::NotFound { resource_type, id } => {
                let mut out = String::from_str("Resource not found: ");
                out.append(resource_type.as_str());
                out.append(" with id ");
                out.append(id.as_str());
                out
            }
            OrpheonError::Internal(s) => {
                let mut out = String::from_str("Internal error: ");
                out.append(s.as_str());
                out
            }
            OrpheonError::ConnectionError(s) => {
                let mut out = String::from_str("Connection error: ");
                out.append(s.as_str());
                out
            }
        }
    }
}

} // verus!
