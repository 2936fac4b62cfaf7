use rusqlite::Connection;
use veea::TriggerKind;
use veea::capture::CaptureEngine;
use veea::capture::CapturePlan;
use veea::capture::CaptureTarget;
use veea::capture::MonitorProbe;
use veea::capture::PlanOutcome;
use veea::capture::capture_path;
use veea::capture::date_dir;
use veea::capture::WindowProbe;
use veea::config::CaptureConfig;
use veea::error::AppError;

fn engine_with(config: CaptureConfig) -> CaptureEngine {
    let db = veea::store::Db::new(Connection::open_in_memory().unwrap(), Vec::new()).unwrap();
    CaptureEngine::new(config, db)
}

fn window(title: &str, w: u32, h: u32) -> WindowProbe {
    WindowProbe { title: title.to_string(), minimized: false, width: w, height: h }
}

fn no_monitor() -> MonitorProbe {
    MonitorProbe { monitor_count: 0, width: 0, height: 0, name: None }
}

fn primary_monitor() -> MonitorProbe {
    MonitorProbe { monitor_count: 1, width: 800, height: 600, name: Some("Display 1".to_string()) }
}

fn expect_plan(r: Result<PlanOutcome, AppError>) -> CapturePlan {
    match r {
        Ok(PlanOutcome::Planned(p)) => p,
        other => panic!("expected a plan, got {:?}", other.map(|_| "outcome")),
    }
}

#[test]
fn end_to_end_single_capture_then_rate_limited() {
    let mut config = CaptureConfig::default();
    config.max_captures_per_minute = 1;
    config.exclude_titles = Vec::new();
    config.allow_monitor_fallback = true;
    let mut engine = engine_with(config);

    let windows = vec![window("Notes", 100, 100)];
    let r = engine.plan_capture("Notes", TriggerKind::Focus, false, 1_000, &windows, &no_monitor());
    let plan = expect_plan(r);
    assert!(matches!(plan.target, CaptureTarget::Window { index: 0 }));
    assert_eq!(plan.record.width, Some(100));
    assert_eq!(plan.record.height, Some(100));
    assert_eq!(plan.record.event_type, "focus");
    assert_eq!(plan.record.window_title.as_deref(), Some("Notes"));
    assert_eq!(plan.record.monitor, None);
    engine.commit_capture(plan.record).unwrap();
    assert_eq!(engine.db().list_recent(10).len(), 1);

    // A second immediate trigger for a different title is rate-limited and
    // produces no record.
    let windows2 = vec![window("Other", 50, 50)];
    let r2 = engine.plan_capture("Other", TriggerKind::Focus, false, 1_000, &windows2, &no_monitor());
    assert!(matches!(r2, Err(AppError::RateLimited { limit: 1 })));
    assert_eq!(engine.db().list_recent(10).len(), 1);
}

#[test]
fn fallback_uses_monitor_and_tags_label() {
    let mut config = CaptureConfig::default();
    config.max_captures_per_minute = 0;
    let mut engine = engine_with(config);
    // No window matches the requested title.
    let windows = vec![window("Unrelated", 64, 64)];
    let r = engine.plan_capture("Notes", TriggerKind::Title, false, 1_000, &windows, &primary_monitor());
    let plan = expect_plan(r);
    assert!(matches!(plan.target, CaptureTarget::Monitor));
    assert_eq!(plan.record.monitor.as_deref(), Some("Display 1"));
    // The event type is unchanged from the trigger.
    assert_eq!(plan.record.event_type, "title");
    assert_eq!(plan.record.width, Some(800));
    assert_eq!(plan.record.height, Some(600));
}

#[test]
fn fallback_disabled_reports_no_capture_target() {
    let mut config = CaptureConfig::default();
    config.allow_monitor_fallback = false;
    config.max_captures_per_minute = 0;
    let mut engine = engine_with(config);
    let r = engine.plan_capture("Notes", TriggerKind::Focus, false, 1_000, &Vec::new(), &primary_monitor());
    assert!(matches!(r, Err(AppError::NoCaptureTarget { ref title }) if title == "Notes"));
    // No record was created.
    assert_eq!(engine.db().list_recent(10).len(), 0);
}

#[test]
fn provider_failures_surface_as_provider_errors() {
    let mut config = CaptureConfig::default();
    config.max_captures_per_minute = 0;
    let mut engine = engine_with(config);
    let r = engine.plan_capture("Notes", TriggerKind::Focus, false, 1_000, &Vec::new(), &no_monitor());
    assert!(matches!(r, Err(AppError::CaptureProviderError { .. })));
    let zero = MonitorProbe { monitor_count: 1, width: 0, height: 0, name: None };
    let r2 = engine.plan_capture("Notes", TriggerKind::Focus, false, 1_000, &Vec::new(), &zero);
    assert!(matches!(r2, Err(AppError::CaptureProviderError { .. })));
}

#[test]
fn minimized_and_zero_dimension_windows_are_skipped() {
    let mut config = CaptureConfig::default();
    config.max_captures_per_minute = 0;
    let mut engine = engine_with(config);
    let windows = vec![
        WindowProbe { title: "Notes".to_string(), minimized: true, width: 100, height: 100 },
        WindowProbe { title: "Notes".to_string(), minimized: false, width: 0, height: 100 },
        WindowProbe { title: "Notes".to_string(), minimized: false, width: 320, height: 200 },
    ];
    let r = engine.plan_capture("Notes", TriggerKind::Focus, false, 1_000, &windows, &no_monitor());
    let plan = expect_plan(r);
    assert!(matches!(plan.target, CaptureTarget::Window { index: 2 }));
    assert_eq!(plan.record.width, Some(320));
}

#[test]
fn excluded_title_never_produces_a_record() {
    let mut config = CaptureConfig::default();
    config.exclude_titles = vec!["secret".to_string()];
    config.max_captures_per_minute = 0;
    let mut engine = engine_with(config);
    let windows = vec![window("My SECRET Meeting", 100, 100)];
    let r = engine.plan_capture(
        "My SECRET Meeting",
        TriggerKind::Focus,
        false,
        1_000,
        &windows,
        &primary_monitor(),
    );
    assert!(matches!(r, Ok(PlanOutcome::Dropped)));
    assert_eq!(engine.db().list_recent(10).len(), 0);
}

#[test]
fn pause_drops_background_triggers_and_refuses_snapshots() {
    let mut engine = engine_with(CaptureConfig::default());
    let windows = vec![window("Notes", 100, 100)];
    let r = engine.plan_capture("Notes", TriggerKind::Focus, true, 1_000, &windows, &primary_monitor());
    assert!(matches!(r, Ok(PlanOutcome::Dropped)));
    let r2 = engine.plan_capture("Notes", TriggerKind::Snapshot, true, 1_000, &windows, &primary_monitor());
    assert!(matches!(r2, Err(AppError::Paused)));
}

#[test]
fn capture_paths_are_date_partitioned_and_normalized() {
    // 2024-03-05 12:00:00 UTC in epoch milliseconds.
    let ts: i64 = 1_709_640_000_000;
    assert_eq!(date_dir("data/captures", ts), "data/captures/2024/03/05");
    let p = capture_path("data/captures", ts, TriggerKind::Focus, "a/b", "abc-123");
    assert_eq!(p, "data/captures/2024/03/05/focus_a_b_abc-123.png");
    // The epoch itself lands in the first date directory.
    assert_eq!(date_dir("d", 0), "d/1970/01/01");
}

#[test]
fn planned_record_carries_fresh_id_and_matching_path() {
    let mut config = CaptureConfig::default();
    config.max_captures_per_minute = 0;
    let mut engine = engine_with(config);
    let windows = vec![window("Notes", 100, 100)];
    let plan = expect_plan(engine.plan_capture(
        "Notes",
        TriggerKind::Interval,
        false,
        0,
        &windows,
        &no_monitor(),
    ));
    assert_eq!(plan.record.id.len(), 36);
    assert_eq!(plan.dir, "data/captures/1970/01/01");
    let expected = format!("data/captures/1970/01/01/interval_Notes_{}.png", plan.record.id);
    assert_eq!(plan.record.path, expected);
    assert_eq!(plan.record.event_type, "interval");
    assert!(!plan.record.deleted);
}

#[test]
fn engine_erase_reports_paths_for_file_cleanup() {
    let mut config = CaptureConfig::default();
    config.max_captures_per_minute = 0;
    let mut engine = engine_with(config);
    let windows = vec![window("Notes", 100, 100)];
    let plan = expect_plan(engine.plan_capture(
        "Notes",
        TriggerKind::Focus,
        false,
        1_000,
        &windows,
        &no_monitor(),
    ));
    let path = plan.record.path.clone();
    engine.commit_capture(plan.record).unwrap();
    let (count, paths) = engine.delete_recent(1_000, 1).unwrap();
    assert_eq!(count, 1);
    assert_eq!(paths, vec![path]);
    assert_eq!(engine.db().list_recent(10).len(), 0);
}

#[test]
fn snapshot_goes_through_the_same_chain_when_unpaused() {
    let mut config = CaptureConfig::default();
    config.max_captures_per_minute = 0;
    let mut engine = engine_with(config);
    let r = engine.plan_capture(
        "desktop",
        TriggerKind::Snapshot,
        false,
        1_000,
        &Vec::new(),
        &primary_monitor(),
    );
    let plan = expect_plan(r);
    assert!(matches!(plan.target, CaptureTarget::Monitor));
    assert_eq!(plan.record.event_type, "snapshot");
    assert_eq!(plan.record.monitor.as_deref(), Some("Display 1"));
}

#[test]
fn duplicate_commit_is_refused() {
    let mut config = CaptureConfig::default();
    config.max_captures_per_minute = 0;
    let mut engine = engine_with(config);
    let windows = vec![window("Notes", 100, 100)];
    let plan = expect_plan(engine.plan_capture(
        "Notes",
        TriggerKind::Focus,
        false,
        1_000,
        &windows,
        &no_monitor(),
    ));
    let again = plan.record.duplicate();
    engine.commit_capture(plan.record).unwrap();
    let r = engine.commit_capture(again);
    assert!(matches!(r, Err(AppError::DuplicateId)));
}
