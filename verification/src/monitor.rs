//! The activity monitor's debounce state machine: turns raw polling
//! snapshots of "which window has focus" into discrete transition events.
use vstd::prelude::*;

verus! {

/// One discrete window-activity transition, as fed to the capture engine.
#[derive(Debug)]
pub enum MonitorEvent {
    FocusChanged { window_title: String },
    TitleChanged { window_title: String },
}

/// What one poll of the display provider reported: the focused window's
/// identity and title. A failed or empty poll is represented by `None`.
pub struct FocusProbe {
    pub window_id: u32,
    pub window_title: String,
}

/// Held monitor state between polls: the last known focused window.
pub struct FocusState {
    pub last_id: Option<u32>,
    pub last_title: Option<String>,
}

/// Mathematical image of a probe.
pub struct ProbeAbs {
    pub id: u32,
    pub title: Seq<char>,
}

/// Mathematical image of the held state.
pub struct StateAbs {
    pub id: Option<u32>,
    pub title: Option<Seq<char>>,
}

/// Mathematical image of what one poll emits.
pub enum EventAbs {
    Focus(Seq<char>),
    Title(Seq<char>),
    Quiet,
}

/// One step of the debounce machine: a new identity emits `Focus`; the same
/// identity with a new title emits `Title`; anything else is quiet. Losing
/// focus clears the held state without emitting.
pub open spec fn monitor_step(s: StateAbs, probe: Option<ProbeAbs>) -> (StateAbs, EventAbs) {
    match probe {
        None => (StateAbs { id: None, title: None }, EventAbs::Quiet),
        Some(p) => {
            let held = StateAbs { id: Some(p.id), title: Some(p.title) };
            if s.id != Some(p.id) {
                (held, EventAbs::Focus(p.title))
            } else if s.title != Some(p.title) {
                (held, EventAbs::Title(p.title))
            } else {
                (held, EventAbs::Quiet)
            }
        },
    }
}

impl FocusState {
    pub open spec fn abs(self) -> StateAbs {
        StateAbs {
            id: self.last_id,
            title: match self.last_title {
                Some(t) => Some(t@),
                None => None,
            },
        }
    }

    pub fn new() -> (r: Self)
        ensures
            r.abs() == (StateAbs { id: None, title: None }),
    {
        FocusState { last_id: None, last_title: None }
    }

    /// Feed one poll result; the returned event and the updated state are
    /// exactly those of `monitor_step`.
    pub fn observe(&mut self, probe: Option<FocusProbe>) -> (r: Option<MonitorEvent>)
        ensures
            ({
                let step = monitor_step(
                    old(self).abs(),
                    match probe {
                        Some(p) => Some(ProbeAbs { id: p.window_id, title: p.window_title@ }),
                        None => None,
                    },
                );
                &&& final(self).abs() == step.0
                &&& (match step.1 {
                    EventAbs::Focus(t) => r matches Some(MonitorEvent::FocusChanged { window_title })
                        && window_title@ == t,
                    EventAbs::Title(t) => r matches Some(MonitorEvent::TitleChanged { window_title })
                        && window_title@ == t,
                    EventAbs::Quiet => r is None,
                })
            }),
    {
        match probe {
            None => {
                self.last_id = None;
                self.last_title = None;
                None
            },
            Some(p) => {
                let same_id = match self.last_id {
                    Some(i) => i == p.window_id,
                    None => false,
                };
                if !same_id {
                    self.last_id = Some(p.window_id);
                    self.last_title = Some(p.window_title.clone());
                    Some(MonitorEvent::FocusChanged { window_title: p.window_title })
                } else {
                    let same_title = match &self.last_title {
                        Some(t) => crate::text::str_eq(t.as_str(), p.window_title.as_str()),
                        None => false,
                    };
                    if !same_title {
                        self.last_title = Some(p.window_title.clone());
                        Some(MonitorEvent::TitleChanged { window_title: p.window_title })
                    } else {
                        None
                    }
                }
            },
        }
    }
}

/// The state after feeding the first `i` probes of a sequence.
pub open spec fn run_states(init: StateAbs, probes: Seq<Option<ProbeAbs>>, i: int) -> StateAbs
    decreases i,
{
    if i <= 0 {
        init
    } else {
        monitor_step(run_states(init, probes, i - 1), probes[i - 1]).0
    }
}

/// The event emitted for probe `i` of a sequence.
pub open spec fn emitted(init: StateAbs, probes: Seq<Option<ProbeAbs>>, i: int) -> EventAbs {
    monitor_step(run_states(init, probes, i), probes[i]).1
}

/// Law of the emitted event stream: for any sequence of polls, a
/// `FocusChanged` is emitted exactly at identity transitions, a
/// `TitleChanged` only while the identity is unchanged, and a poll emits at
/// most one event, so no `TitleChanged` accompanies a `FocusChanged` for the
/// same transition.
pub proof fn monitor_stream_law(init: StateAbs, probes: Seq<Option<ProbeAbs>>, i: int)
    requires
        0 <= i < probes.len(),
    ensures
        probes[i] is None ==> emitted(init, probes, i) == EventAbs::Quiet,
        probes[i] matches Some(p) ==> ((emitted(init, probes, i) matches EventAbs::Focus(t)
            && t == p.title) <==> run_states(init, probes, i).id != Some(p.id)),
        probes[i] matches Some(p) ==> (emitted(init, probes, i) is Title ==> run_states(
            init,
            probes,
            i,
        ).id == Some(p.id)),
{
}

} // verus!
