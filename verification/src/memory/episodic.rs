//! Episodic memory: the record of events, one row per conversational event.
use crate::models::EventType;
use vstd::prelude::*;

verus! {

#[derive(Clone, Debug, PartialEq, Eq)]
pub struct Episode {
    pub id: i64,
    pub event_id: String,
    /// The event's kind by name, as `EventType`'s `Debug` spells it.
    pub event_type: String,
    pub source: String,
    pub payload: String,
    pub timestamp: String,
    pub summary: String,
}

pub open spec fn event_type_name(t: EventType) -> Seq<char> {
    match t {
        EventType::SystemWake => "SystemWake"@,
        EventType::UserIntent => "UserIntent"@,
        EventType::ContextUpdate => "ContextUpdate"@,
        EventType::PlanReady => "PlanReady"@,
        EventType::PlanApproved => "PlanApproved"@,
        EventType::ActionComplete => "ActionComplete"@,
        EventType::WorkerRequest => "WorkerRequest"@,
        EventType::WorkerResponse => "WorkerResponse"@,
        EventType::UiStateChange => "UiStateChange"@,
        EventType::SystemAction => "SystemAction"@,
        EventType::TtsInterrupt => "TtsInterrupt"@,
        EventType::BrowserUpdate => "BrowserUpdate"@,
        EventType::SystemChange => "SystemChange"@,
    }
}

/// The name an episode files its event under.
pub fn event_type_label(t: EventType) -> (r: &'static str)
    ensures
        r@ == event_type_name(t),
{
    match t {
        EventType::SystemWake => "SystemWake",
        EventType::UserIntent => "UserIntent",
        EventType::ContextUpdate => "ContextUpdate",
        EventType::PlanReady => "PlanReady",
        EventType::PlanApproved => "PlanApproved",
        EventType::ActionComplete => "ActionComplete",
        EventType::WorkerRequest => "WorkerRequest",
        EventType::WorkerResponse => "WorkerResponse",
        EventType::UiStateChange => "UiStateChange",
        EventType::SystemAction => "SystemAction",
        EventType::TtsInterrupt => "TtsInterrupt",
        EventType::BrowserUpdate => "BrowserUpdate",
        EventType::SystemChange => "SystemChange",
    }
}

/// The events episodic memory keeps: what the user asked, what was
/// planned, and what completed.
pub open spec fn persisted_spec(t: EventType) -> bool {
    t == EventType::UserIntent || t == EventType::ActionComplete || t == EventType::PlanReady
}

pub fn is_persisted(t: EventType) -> (r: bool)
    ensures
        r == persisted_spec(t),
{
    matches!(t, EventType::UserIntent | EventType::ActionComplete | EventType::PlanReady)
}

} // verus!
