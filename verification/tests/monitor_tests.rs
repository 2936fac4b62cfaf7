use veea::monitor::FocusProbe;
use veea::monitor::FocusState;
use veea::monitor::MonitorEvent;

fn probe(id: u32, title: &str) -> Option<FocusProbe> {
    Some(FocusProbe { window_id: id, window_title: title.to_string() })
}

#[test]
fn focus_transition_emits_one_focus_changed() {
    let mut st = FocusState::new();
    let r = st.observe(probe(1, "Editor"));
    assert!(matches!(r, Some(MonitorEvent::FocusChanged { ref window_title }) if window_title == "Editor"));
    // Same window again: quiet.
    assert!(st.observe(probe(1, "Editor")).is_none());
    // New identity: exactly one FocusChanged, no TitleChanged on the same tick.
    let r = st.observe(probe(2, "Browser"));
    assert!(matches!(r, Some(MonitorEvent::FocusChanged { ref window_title }) if window_title == "Browser"));
}

#[test]
fn title_change_without_focus_change_emits_title_changed() {
    let mut st = FocusState::new();
    assert!(matches!(st.observe(probe(5, "Tab A")), Some(MonitorEvent::FocusChanged { .. })));
    let r = st.observe(probe(5, "Tab B"));
    assert!(matches!(r, Some(MonitorEvent::TitleChanged { ref window_title }) if window_title == "Tab B"));
    assert!(st.observe(probe(5, "Tab B")).is_none());
}

#[test]
fn losing_focus_clears_state_silently() {
    let mut st = FocusState::new();
    assert!(matches!(st.observe(probe(9, "Mail")), Some(MonitorEvent::FocusChanged { .. })));
    // No focused window: no event, state cleared.
    assert!(st.observe(None).is_none());
    // Returning to the same window counts as a fresh transition.
    let r = st.observe(probe(9, "Mail"));
    assert!(matches!(r, Some(MonitorEvent::FocusChanged { .. })));
}

#[test]
fn failed_poll_while_idle_stays_quiet() {
    let mut st = FocusState::new();
    assert!(st.observe(None).is_none());
    assert!(st.observe(None).is_none());
}
