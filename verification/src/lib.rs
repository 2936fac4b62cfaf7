//! Verified core of a desktop activity recorder: the window-focus debounce
//! state machine, capture policy gates, the capture-target fallback chain,
//! a sliding-window rate limiter, and the activity-record store lifecycle.
use vstd::prelude::*;

pub mod capture;
pub mod config;
pub mod error;
pub mod monitor;
pub mod rate;
pub mod record;
pub mod search;
pub mod store;
pub mod text;

verus! {

/// A capture event is one of four trigger kinds.
#[derive(Clone, Copy, PartialEq, Eq, Structural, Debug)]
pub enum TriggerKind {
    Focus,
    Title,
    Interval,
    Snapshot,
}

impl TriggerKind {
    /// The label stored in a record's `event_type` field.
    pub open spec fn spec_label(self) -> Seq<char> {
        match self {
            TriggerKind::Focus => "focus"@,
            TriggerKind::Title => "title"@,
            TriggerKind::Interval => "interval"@,
            TriggerKind::Snapshot => "snapshot"@,
        }
    }

    pub fn label(self) -> (r: &'static str)
        ensures
            r@ == self.spec_label(),
    {
        match self {
            TriggerKind::Focus => "focus",
            TriggerKind::Title => "title",
            TriggerKind::Interval => "interval",
            TriggerKind::Snapshot => "snapshot",
        }
    }
}

} // verus!
