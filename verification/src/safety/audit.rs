//! The audit trail's rows, as read back.
use vstd::prelude::*;

verus! {

/// One row of the append-only audit log: when, what, how risky, and how
/// it ended.
pub struct AuditEntry {
    /// RFC 3339, UTC.
    pub timestamp: String,
    pub action_type: String,
    pub detail: String,
    pub risk_score: u8,
    pub outcome: String,
    pub reason: String,
}

} // verus!
