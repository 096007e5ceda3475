//! Plain records shared by the lifecycle contract's storage layout: priorities,
//! timelock and weight proposals, health snapshots, transfer records and
//! recurring tasks.
use vstd::prelude::*;

use crate::address::Address;
use crate::symbol::Symbol;

verus! {

/// Priority level of a maintenance task, used to triage which records are
/// most critical for asset health scoring and collateral purposes.
#[derive(Clone, Copy, Debug, PartialEq, Eq, Structural)]
pub enum Priority {
    Low,
    Medium,
    High,
    Critical,
}

impl Priority {
    /// The priority's contract code: `Low` 0, `Medium` 1, `High` 2, `Critical` 3.
    pub fn code(&self) -> (c: u32)
        ensures
            c == match *self {
                Priority::Low => 0u32,
                Priority::Medium => 1u32,
                Priority::High => 2u32,
                Priority::Critical => 3u32,
            },
    {
        match self {
            Priority::Low => 0,
            Priority::Medium => 1,
            Priority::High => 2,
            Priority::Critical => 3,
        }
    }

    /// The priority with the given contract code, if there is one.
    pub fn from_code(code: u32) -> (p: Option<Priority>)
        ensures
            p is Some <==> code <= 3,
            p matches Some(q) ==> q.code_spec() == code,
    {
        match code {
            0 => Some(Priority::Low),
            1 => Some(Priority::Medium),
            2 => Some(Priority::High),
            3 => Some(Priority::Critical),
            _ => None,
        }
    }

    /// The priority's contract code, in specifications.
    pub open spec fn code_spec(self) -> u32 {
        match self {
            Priority::Low => 0u32,
            Priority::Medium => 1u32,
            Priority::High => 2u32,
            Priority::Critical => 3u32,
        }
    }
}

/// A single ownership-transfer event recorded in the transfer history.
#[derive(Clone, Copy, Debug, PartialEq, Eq)]
pub struct TransferRecord {
    pub from: Address,
    pub to: Address,
    pub timestamp: u64,
}

/// A pending timelocked administrative proposal.
#[derive(Clone, Copy, Debug, PartialEq, Eq, Structural)]
pub struct TimelockProposal {
    pub proposed_at: u64,
    pub executed: bool,
}

/// A point-in-time snapshot of an asset's health, kept independently of the
/// maintenance history so that it survives pruning.
#[derive(Clone, Copy, Debug, PartialEq, Eq, Structural)]
pub struct HealthSnapshot {
    pub snapshot_timestamp: u64,
    pub score: u32,
    pub maintenance_count: u32,
    pub last_service_date: u64,
    /// Whether this snapshot anchors reconstructed history.
    pub reconstructed: bool,
}

/// A governance proposal to change the score weight of a task type.
#[derive(Clone, Copy, Debug, PartialEq, Eq, Structural)]
pub struct WeightProposal {
    /// The proposed weight.
    pub new_weight: u32,
    /// When the proposal was made.
    pub proposed_at: u64,
    /// Whether the proposal has been executed.
    pub executed: bool,
}

/// A recurring maintenance task definition.
#[derive(Debug, PartialEq, Eq)]
pub struct RecurringTask {
    pub task_id: u64,
    pub task_type: Symbol,
    /// Unit of the recurrence interval (such as `HOURS`, `DAYS`, `CYCLES`).
    pub interval_type: Symbol,
    /// Length of the interval in that unit.
    pub interval_value: u64,
    /// When the next maintenance is due.
    pub next_due: u64,
    /// Whether the task is active.
    pub is_active: bool,
}

} // verus!
