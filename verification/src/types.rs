//! Common types of the intent lifecycle: statuses, priorities, resource kinds.

use vstd::prelude::*;

verus! {

/// Status of an intent in the system.
#[derive(Debug, Clone, Copy, PartialEq, Eq, Structural)]
pub enum IntentStatus {
    /// Intent has been received and is being validated.
    Received,
    /// Intent is valid and planning has started.
    Planning,
    /// A plan has been generated and is being negotiated.
    Negotiating,
    /// Plan has been accepted and is executing.
    Executing,
    /// Execution is being compensated due to failure.
    Compensating,
    /// Intent has been successfully fulfilled.
    Complete,
    /// Intent has failed and cannot be recovered.
    Failed,
    /// Intent was cancelled by the client.
    Cancelled,
}

impl IntentStatus {
    /// Terminal statuses: no further transition leaves them.
    pub open spec fn spec_is_terminal(self) -> bool {
        self == IntentStatus::Complete || self == IntentStatus::Failed
            || self == IntentStatus::Cancelled
    }

    /// Active statuses: the intent is still being processed.
    pub open spec fn spec_is_active(self) -> bool {
        self == IntentStatus::Received || self == IntentStatus::Planning
            || self == IntentStatus::Negotiating || self == IntentStatus::Executing
            || self == IntentStatus::Compensating
    }

    /// Returns true if this is a terminal state.
    pub fn is_terminal(&self) -> (r: bool)
        ensures
            r == self.spec_is_terminal(),
    {
        matches!(
            self,
            IntentStatus::Complete | IntentStatus::Failed | IntentStatus::Cancelled
        )
    }

    /// Returns true if the intent is currently being processed.
    pub fn is_active(&self) -> (r: bool)
        ensures
            r == self.spec_is_active(),
    {
        matches!(
            self,
            IntentStatus::Received
                | IntentStatus::Planning
                | IntentStatus::Negotiating
                | IntentStatus::Executing
                | IntentStatus::Compensating
        )
    }

    /// The lower-snake-case name of the status, as the external surface shows it.
    pub fn as_str(&self) -> (r: &'static str)
        ensures
            r@ == self.spec_name(),
    {
        match self {
            IntentStatus::Received => "received",
            IntentStatus::Planning => "planning",
            IntentStatus::Negotiating => "negotiating",
            IntentStatus::Executing => "executing",
            IntentStatus::Compensating => "compensating",
            IntentStatus::Complete => "complete",
            IntentStatus::Failed => "failed",
            IntentStatus::Cancelled => "cancelled",
        }
    }

    /// The status name as a sequence of characters.
    pub open spec fn spec_name(self) -> Seq<char> {
        match self {
            IntentStatus::Received => "received"@,
            IntentStatus::Planning => "planning"@,
            IntentStatus::Negotiating => "negotiating"@,
            IntentStatus::Executing => "executing"@,
            IntentStatus::Compensating => "compensating"@,
            IntentStatus::Complete => "complete"@,
            IntentStatus::Failed => "failed"@,
            IntentStatus::Cancelled => "cancelled"@,
        }
    }
}

/// The status graph: which single transition a record may take. A cancellation
/// is allowed from any active status; every other edge follows the pipeline
/// Received -> Planning -> (Negotiating ->)? Executing -> (Compensating ->)?
/// (Complete | Failed).
pub open spec fn status_step_allowed(a: IntentStatus, b: IntentStatus) -> bool {
    ||| (a == IntentStatus::Received && b == IntentStatus::Planning)
    ||| (a == IntentStatus::Planning && (b == IntentStatus::Negotiating
            || b == IntentStatus::Executing || b == IntentStatus::Failed))
    ||| (a == IntentStatus::Negotiating && (b == IntentStatus::Executing
            || b == IntentStatus::Failed))
    ||| (a == IntentStatus::Executing && (b == IntentStatus::Compensating
            || b == IntentStatus::Complete || b == IntentStatus::Failed))
    ||| (a == IntentStatus::Compensating && (b == IntentStatus::Complete
            || b == IntentStatus::Failed))
    ||| (a.spec_is_active() && b == IntentStatus::Cancelled)
}

/// Statuses are monotone: no transition leaves a terminal status, so once a
/// record is terminal its status never changes again.
pub proof fn lemma_terminal_statuses_are_final(a: IntentStatus, b: IntentStatus)
    requires
        a.spec_is_terminal(),
    ensures
        !status_step_allowed(a, b),
{
}

/// Every status is either active or terminal, never both.
pub proof fn lemma_active_terminal_partition(s: IntentStatus)
    ensures
        s.spec_is_active() <==> !s.spec_is_terminal(),
{
}

/// Priority level for an intent.
#[derive(Debug, Clone, Copy, PartialEq, Eq, Structural)]
pub enum Priority {
    /// Lowest priority, processed when resources are available.
    Low,
    /// Normal priority (the default).
    Normal,
    /// Higher priority, processed before normal.
    High,
    /// Highest priority, processed immediately.
    Critical,
}

impl Default for Priority {
    /// The default priority is Normal.
    fn default() -> (r: Self)
        ensures
            r == Priority::Normal,
    {
        Priority::Normal
    }
}

/// Resource type for budget and constraint tracking.
#[derive(Debug, Clone, PartialEq, Eq)]
pub enum ResourceType {
    /// Monetary cost in a specific currency.
    Money { currency: String },
    /// Compute resources (CPU cores).
    Compute,
    /// Memory in bytes.
    Memory,
    /// Storage in bytes.
    Storage,
    /// Network bandwidth in bytes/sec.
    Bandwidth,
    /// Time in milliseconds.
    Time,
    /// Custom resource type.
    Custom(String),
}

} // verus!
