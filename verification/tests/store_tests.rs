use rusqlite::Connection;
use veea::error::AppError;
use veea::record::CaptureRecord;
use veea::store::Db;

fn rec(id: &str, ts: i64, title: &str, path: &str) -> CaptureRecord {
    CaptureRecord {
        id: id.to_string(),
        ts,
        window_title: Some(title.to_string()),
        app_name: None,
        event_type: "focus".to_string(),
        path: path.to_string(),
        width: Some(640),
        height: Some(480),
        monitor: None,
        hash: None,
        deleted: false,
    }
}

fn fresh_db() -> Db {
    Db::new(Connection::open_in_memory().unwrap(), Vec::new()).unwrap()
}

#[test]
fn insert_then_get_round_trips_all_fields() {
    let mut db = fresh_db();
    let r = rec("id-1", 1_000, "Notes", "data/captures/1970/01/01/focus_Notes_id-1.png");
    db.insert_capture(r).unwrap();
    let got = db.get_capture("id-1").expect("record should be found");
    assert_eq!(got.id, "id-1");
    assert_eq!(got.ts, 1_000);
    assert_eq!(got.window_title.as_deref(), Some("Notes"));
    assert_eq!(got.app_name, None);
    assert_eq!(got.event_type, "focus");
    assert_eq!(got.path, "data/captures/1970/01/01/focus_Notes_id-1.png");
    assert_eq!(got.width, Some(640));
    assert_eq!(got.height, Some(480));
    assert_eq!(got.monitor, None);
    assert_eq!(got.hash, None);
    assert!(!got.deleted);
}

#[test]
fn duplicate_id_is_refused() {
    let mut db = fresh_db();
    db.insert_capture(rec("dup", 1, "a", "path-a")).unwrap();
    let out = db.insert_capture(rec("dup", 2, "b", "path-b"));
    assert!(matches!(out, Err(AppError::DuplicateId)));
    // The first record is untouched.
    assert_eq!(db.get_capture("dup").unwrap().window_title.as_deref(), Some("a"));
}

#[test]
fn list_recent_is_newest_first_and_capped() {
    let mut db = fresh_db();
    db.insert_capture(rec("a", 100, "one", "path-a")).unwrap();
    db.insert_capture(rec("b", 200, "two", "path-b")).unwrap();
    db.insert_capture(rec("c", 300, "three", "path-c")).unwrap();
    let all = db.list_recent(10);
    assert_eq!(all.len(), 3);
    assert_eq!(all[0].id, "c");
    assert_eq!(all[1].id, "b");
    assert_eq!(all[2].id, "a");
    let top2 = db.list_recent(2);
    assert_eq!(top2.len(), 2);
    assert_eq!(top2[0].id, "c");
    assert_eq!(top2[1].id, "b");
    assert_eq!(db.list_recent(0).len(), 0);
}

#[test]
fn delete_recent_hides_records_and_reports_their_paths() {
    let mut db = fresh_db();
    db.insert_capture(rec("old", 1_000, "old window", "path-old")).unwrap();
    db.insert_capture(rec("new", 10_000_000, "new window", "path-new")).unwrap();
    // Erase the last 5 minutes, evaluated at t = 10_060_000.
    let (count, paths) = db.delete_recent(10_060_000, 5).unwrap();
    assert_eq!(count, 1);
    assert_eq!(paths, vec!["path-new".to_string()]);
    // The covered record is gone from every read path.
    assert!(db.get_capture("new").is_none());
    let listed = db.list_recent(10);
    assert_eq!(listed.len(), 1);
    assert_eq!(listed[0].id, "old");
}

#[test]
fn delete_recent_with_empty_window_is_idempotent() {
    let mut db = fresh_db();
    db.insert_capture(rec("a", 1_000, "one", "path-a")).unwrap();
    // A window of zero minutes at a later instant covers nothing.
    let (count, paths) = db.delete_recent(2_000, 0).unwrap();
    assert_eq!(count, 0);
    assert!(paths.is_empty());
    assert!(db.get_capture("a").is_some());
    assert_eq!(db.list_recent(10).len(), 1);
    // Running it again changes nothing either.
    let (count2, _) = db.delete_recent(2_000, 0).unwrap();
    assert_eq!(count2, 0);
}

#[test]
fn deleted_records_never_reappear() {
    let mut db = fresh_db();
    db.insert_capture(rec("x", 5_000, "w", "path-x")).unwrap();
    let (count, _) = db.delete_recent(5_000, 1).unwrap();
    assert_eq!(count, 1);
    // A second erase pass over the same window processes nothing.
    let (count2, paths2) = db.delete_recent(5_000, 1).unwrap();
    assert_eq!(count2, 0);
    assert!(paths2.is_empty());
    assert!(db.get_capture("x").is_none());
}

#[test]
fn seeded_store_serves_and_erases_persisted_rows() {
    // Rows read back from a previous run, oldest first, deleted included.
    let mut soft_deleted = rec("seed-b", 2_000, "old two", "path-b");
    soft_deleted.deleted = true;
    let seed = vec![
        rec("seed-a", 1_000, "old one", "path-a"),
        soft_deleted,
        rec("seed-c", 700_000_000, "recent", "path-c"),
    ];
    let mut db = Db::new(Connection::open_in_memory().unwrap(), seed).unwrap();
    // Persisted rows are visible; the soft-deleted one stays hidden.
    assert!(db.get_capture("seed-a").is_some());
    assert!(db.get_capture("seed-b").is_none());
    let listed = db.list_recent(10);
    assert_eq!(listed.len(), 2);
    assert_eq!(listed[0].id, "seed-c");
    assert_eq!(listed[1].id, "seed-a");
    // The erase control covers persisted rows too.
    let (count, paths) = db.delete_recent(700_000_000, 5).unwrap();
    assert_eq!(count, 1);
    assert_eq!(paths, vec!["path-c".to_string()]);
    assert!(db.get_capture("seed-c").is_none());
}

#[test]
fn invalid_seeds_are_refused() {
    let dup = vec![rec("same", 1, "a", "path-a"), rec("same", 2, "b", "path-b")];
    let r = Db::new(Connection::open_in_memory().unwrap(), dup);
    assert!(matches!(r, Err(AppError::StorageError { .. })));
    let unsorted = vec![rec("a", 2_000, "a", "path-a"), rec("b", 1_000, "b", "path-b")];
    let r2 = Db::new(Connection::open_in_memory().unwrap(), unsorted);
    assert!(matches!(r2, Err(AppError::StorageError { .. })));
}

#[test]
fn broken_mirror_schema_surfaces_as_storage_error() {
    // A pre-existing captures table with an incompatible shape lets the
    // store open (create-if-missing) but makes the mirrored insert fail.
    let conn = Connection::open_in_memory().unwrap();
    conn.execute_batch("CREATE TABLE captures (id TEXT, ts INTEGER)").unwrap();
    let mut db = Db::new(conn, Vec::new()).unwrap();
    let out = db.insert_capture(rec("s", 1, "w", "path-s"));
    assert!(matches!(out, Err(AppError::StorageError { .. })));
    // The failed insert left the table unchanged.
    assert!(db.get_capture("s").is_none());
    assert_eq!(db.list_recent(10).len(), 0);
}
