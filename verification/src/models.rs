//! What happens in the assistant, by kind. Every event on the bus carries
//! one of these.
use vstd::prelude::*;

verus! {

#[derive(Clone, Copy, Debug, PartialEq, Eq, Structural)]
pub enum EventType {
    SystemWake,
    UserIntent,
    ContextUpdate,
    PlanReady,
    /// A plan that passed the permission gate; the only kind the executor
    /// runs.
    PlanApproved,
    ActionComplete,
    WorkerRequest,
    WorkerResponse,
    UiStateChange,
    SystemAction,
    /// Stop speech now and drain the queue: the user started talking.
    TtsInterrupt,
    /// A browser tab or URL change, kept apart from `ContextUpdate`, which
    /// replaces the whole context.
    BrowserUpdate,
    /// The package sentinel saw the machine change.
    SystemChange,
}

} // verus!
