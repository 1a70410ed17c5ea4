//! Long-term memory: one compressed summary per day, kept after the raw
//! memories of that day have expired.
use vstd::prelude::*;

verus! {

#[derive(Clone, Debug, PartialEq, Eq)]
pub struct DailySummary {
    /// The day, as YYYY-MM-DD.
    pub date: String,
    pub summary: String,
    /// How many memories the summary was distilled from.
    pub source_count: i64,
}

} // verus!
