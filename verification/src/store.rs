//! The record store: a queryable table of activity records with soft-delete
//! semantics. The in-memory table is the verified model; every mutation is
//! mirrored to a SQLite database so the timeline survives the process.
use vstd::prelude::*;
use vstd::string::*;
use crate::error::AppError;
use crate::record::CaptureRecord;
use crate::record::RecordAbs;
use crate::text::str_eq;

verus! {

#[verifier::external_type_specification]
#[verifier::external_body]
pub struct ExConnection(rusqlite::Connection);

/// Relies on rusqlite::Connection::execute_batch: runs the given SQL
/// statements on the connection; `Err` when SQLite refuses them.
#[verifier::external_body]
fn sql_exec_batch(conn: &rusqlite::Connection, sql: &str) -> (r: Result<(), String>) {
    match conn.execute_batch(sql) {
        Ok(()) => Ok(()),
        Err(e) => Err(format!("{e}")),
    }
}

/// Relies on rusqlite::Connection::execute: runs one parameterized statement
/// with the record's fields bound in order; `Err` when SQLite refuses it.
#[verifier::external_body]
fn sql_insert_record(conn: &rusqlite::Connection, sql: &str, rec: &CaptureRecord) -> (r: Result<
    usize,
    String,
>) {
    let fields = (
        &rec.id, rec.ts, &rec.window_title, &rec.app_name, &rec.event_type, &rec.path,
        rec.width, rec.height, &rec.monitor, &rec.hash, rec.deleted,
    );
    match conn.execute(sql, fields) {
        Ok(n) => Ok(n),
        Err(e) => Err(format!("{e}")),
    }
}

/// Relies on rusqlite::Connection::execute: runs one parameterized statement
/// with the given id bound; `Err` when SQLite refuses it.
#[verifier::external_body]
fn sql_exec_with_id(conn: &rusqlite::Connection, sql: &str, id: &str) -> (r: Result<
    usize,
    String,
>) {
    match conn.execute(sql, (id,)) {
        Ok(n) => Ok(n),
        Err(e) => Err(format!("{e}")),
    }
}

/// The images of a vector of records.
pub open spec fn rows_abs(v: Seq<CaptureRecord>) -> Seq<RecordAbs> {
    v.map_values(|r: CaptureRecord| r@)
}

/// Some row carries this id (deleted or not: ids are unique across the
/// store's lifetime).
pub open spec fn has_id(s: Seq<RecordAbs>, id: Seq<char>) -> bool {
    exists|i: int| 0 <= i < s.len() && s[i].id == id
}

/// The first non-deleted row with this id, scanning from the front.
pub open spec fn get_abs(s: Seq<RecordAbs>, id: Seq<char>) -> Option<RecordAbs>
    decreases s.len(),
{
    if s.len() == 0 {
        None
    } else if s[0].id == id && !s[0].deleted {
        Some(s[0])
    } else {
        get_abs(s.drop_first(), id)
    }
}

/// The rows satisfying `p` nearest the end of the (timestamp-ascending)
/// table, newest first, capped at `limit`.
pub open spec fn latest_abs(s: Seq<RecordAbs>, limit: nat, p: spec_fn(RecordAbs) -> bool) -> Seq<
    RecordAbs,
>
    decreases s.len(),
{
    if s.len() == 0 || limit == 0 {
        Seq::<RecordAbs>::empty()
    } else if p(s.last()) {
        seq![s.last()] + latest_abs(s.drop_last(), (limit - 1) as nat, p)
    } else {
        latest_abs(s.drop_last(), limit, p)
    }
}

/// A row is visible when it has not been soft-deleted.
pub open spec fn visible_pred() -> spec_fn(RecordAbs) -> bool {
    |r: RecordAbs| !r.deleted
}

/// The non-deleted rows nearest the end of the table, newest first, capped
/// at `limit`.
pub open spec fn recent_abs(s: Seq<RecordAbs>, limit: nat) -> Seq<RecordAbs> {
    latest_abs(s, limit, visible_pred())
}

/// A row is erased by `delete_recent` when it is not yet deleted and its
/// timestamp is at or after the threshold.
pub open spec fn erasable(r: RecordAbs, th: int) -> bool {
    !r.deleted && r.ts >= th
}

pub open spec fn mark_one(r: RecordAbs, th: int) -> RecordAbs {
    if erasable(r, th) {
        RecordAbs { deleted: true, ..r }
    } else {
        r
    }
}

/// The table after an erase pass with threshold `th`.
pub open spec fn marked_abs(s: Seq<RecordAbs>, th: int) -> Seq<RecordAbs> {
    s.map_values(|r: RecordAbs| mark_one(r, th))
}

/// How many rows an erase pass with threshold `th` processes.
pub open spec fn erase_count(s: Seq<RecordAbs>, th: int) -> nat
    decreases s.len(),
{
    if s.len() == 0 {
        0
    } else {
        erase_count(s.drop_last(), th) + if erasable(s.last(), th) {
            1nat
        } else {
            0nat
        }
    }
}

/// The image paths of the rows an erase pass processes, in table order.
pub open spec fn erased_paths(s: Seq<RecordAbs>, th: int) -> Seq<Seq<char>>
    decreases s.len(),
{
    if s.len() == 0 {
        Seq::<Seq<char>>::empty()
    } else if erasable(s.last(), th) {
        erased_paths(s.drop_last(), th) + seq![s.last().path]
    } else {
        erased_paths(s.drop_last(), th)
    }
}

/// Store invariant: ids unique across the table's lifetime, rows ordered by
/// timestamp ascending.
pub open spec fn store_inv(s: Seq<RecordAbs>) -> bool {
    &&& (forall|i: int, j: int| 0 <= i < j < s.len() ==> s[i].id != s[j].id)
    &&& (forall|i: int, j: int| 0 <= i < j < s.len() ==> s[i].ts <= s[j].ts)
}

/// Adjacent timestamp order extends along the whole table.
proof fn lemma_ts_chain(s: Seq<RecordAbs>, i: int, j: int)
    requires
        forall|k: int| 0 <= k < s.len() - 1 ==> #[trigger] s[k].ts <= s[k + 1].ts,
        0 <= i <= j < s.len(),
    ensures
        s[i].ts <= s[j].ts,
    decreases j - i,
{
    if i < j {
        lemma_ts_chain(s, i, j - 1);
        assert(s[j - 1].ts <= s[j].ts);
    }
}

/// Whether a seed of rows satisfies the store invariant: ids pairwise
/// distinct and timestamps non-decreasing.
fn seed_valid(rows: &Vec<CaptureRecord>) -> (r: bool)
    ensures
        r == store_inv(rows_abs(rows@)),
{
    let n = rows.len();
    let mut i: usize = 0;
    while i < n
        invariant
            n == rows@.len(),
            i <= n,
            forall|a: int, b: int|
                0 <= a < i && a < b < n ==> rows_abs(rows@)[a].id != rows_abs(rows@)[b].id,
            forall|a: int|
                0 <= a < i && a + 1 < n ==> #[trigger] rows_abs(rows@)[a].ts <= rows_abs(
                    rows@,
                )[a + 1].ts,
        decreases n - i,
    {
        if i + 1 < n && rows[i].ts > rows[i + 1].ts {
            proof {
                assert(rows_abs(rows@)[i as int].ts > rows_abs(rows@)[i as int + 1].ts);
            }
            return false;
        }
        let mut j: usize = i + 1;
        while j < n
            invariant
                n == rows@.len(),
                i < j,
                j <= n,
                i < n,
                forall|b: int|
                    i < b < j ==> rows_abs(rows@)[i as int].id != rows_abs(rows@)[b].id,
            decreases n - j,
        {
            if str_eq(rows[i].id.as_str(), rows[j].id.as_str()) {
                proof {
                    assert(rows_abs(rows@)[i as int].id == rows_abs(rows@)[j as int].id);
                }
                return false;
            }
            j = j + 1;
        }
        i = i + 1;
    }
    proof {
        lemma_sorted_from_adjacent(rows_abs(rows@));
    }
    true
}

/// A table whose adjacent timestamps are ordered is ordered throughout.
proof fn lemma_sorted_from_adjacent(s: Seq<RecordAbs>)
    requires
        forall|k: int| 0 <= k < s.len() - 1 ==> #[trigger] s[k].ts <= s[k + 1].ts,
    ensures
        forall|i: int, j: int| 0 <= i < j < s.len() ==> s[i].ts <= s[j].ts,
{
    assert forall|i: int, j: int| 0 <= i < j < s.len() implies s[i].ts <= s[j].ts by {
        lemma_ts_chain(s, i, j);
    }
}

/// Some row of the table is covered by an erase pass, so the pass processes
/// at least one row.
proof fn lemma_erasable_positive(s: Seq<RecordAbs>, th: int, j: int)
    requires
        0 <= j < s.len(),
        erasable(s[j], th),
    ensures
        erase_count(s, th) >= 1,
    decreases s.len(),
{
    if j < s.len() - 1 {
        assert(s.drop_last()[j] == s[j]);
        lemma_erasable_positive(s.drop_last(), th, j);
    }
}

/// Durable, queryable storage of activity records.
pub struct Db {
    conn: rusqlite::Connection,
    rows: Vec<CaptureRecord>,
}

impl View for Db {
    type V = Seq<RecordAbs>;

    closed spec fn view(&self) -> Seq<RecordAbs> {
        rows_abs(self.rows@)
    }
}

impl Db {
    pub open spec fn wf(&self) -> bool {
        store_inv(self@)
    }

    /// Open a store over the given database connection, seeded with the
    /// rows already persisted there (the caller reads them back, deleted
    /// rows included, in timestamp order), and create the captures table if
    /// it is missing. A seed whose ids are not unique or whose timestamps
    /// are not non-decreasing is refused, so the table invariant holds from
    /// the start.
    pub fn new(conn: rusqlite::Connection, rows: Vec<CaptureRecord>) -> (r: Result<Db, AppError>)
        ensures
            r matches Ok(db) ==> db@ == rows_abs(rows@) && db.wf(),
            !store_inv(rows_abs(rows@)) ==> r is Err,
            r matches Err(e) ==> e is StorageError,
    {
        if !seed_valid(&rows) {
            return Err(
                AppError::StorageError {
                    detail: String::from_str("seed rows are not a valid capture table"),
                },
            );
        }
        let db = Db { conn, rows };
        let init = "CREATE TABLE IF NOT EXISTS captures (\n id TEXT PRIMARY KEY,\n ts INTEGER NOT NULL,\n window_title TEXT,\n app_name TEXT,\n event_type TEXT NOT NULL,\n path TEXT NOT NULL,\n width INTEGER,\n height INTEGER,\n monitor TEXT,\n hash TEXT,\n deleted INTEGER DEFAULT 0\n);\nCREATE INDEX IF NOT EXISTS captures_ts_idx ON captures(ts);";
        match sql_exec_batch(&db.conn, init) {
            Ok(()) => Ok(db),
            Err(detail) => Err(AppError::StorageError { detail }),
        }
    }

    /// Insert one record. Refused with `DuplicateId` when the id is already
    /// present; mirrored to the database before the table is extended, so a
    /// storage failure leaves the table unchanged.
    pub fn insert_capture(&mut self, rec: CaptureRecord) -> (r: Result<(), AppError>)
        requires
            old(self).wf(),
        ensures
            final(self).wf(),
            has_id(old(self)@, rec@.id) ==> (r matches Err(e) && e is DuplicateId && final(self)@
                == old(self)@),
            !has_id(old(self)@, rec@.id) ==> match r {
                Ok(()) => (exists|idx: int|
                    0 <= idx <= old(self)@.len() && final(self)@ == old(self)@.insert(idx, rec@))
                    && (!rec@.deleted ==> get_abs(final(self)@, rec@.id) == Some(rec@)),
                Err(e) => e is StorageError && final(self)@ == old(self)@,
            },
    {
        let n = self.rows.len();
        let mut i: usize = 0;
        while i < n
            invariant
                self == old(self),
                self.wf(),
                n == self.rows@.len(),
                i <= n,
                forall|j: int| 0 <= j < i ==> self@[j].id != rec@.id,
            decreases n - i,
        {
            if str_eq(self.rows[i].id.as_str(), rec.id.as_str()) {
                proof {
                    assert(self@[i as int].id == rec@.id);
                }
                return Err(AppError::DuplicateId);
            }
            i = i + 1;
        }
        proof {
            assert(!has_id(self@, rec@.id));
        }
        let sql =
            "INSERT INTO captures (\n id, ts, window_title, app_name, event_type, path,\n width, height, monitor, hash, deleted\n) VALUES (?1, ?2, ?3, ?4, ?5, ?6, ?7, ?8, ?9, ?10, ?11)";
        match sql_insert_record(&self.conn, sql, &rec) {
            Ok(_) => {},
            Err(detail) => {
                return Err(AppError::StorageError { detail });
            },
        }
        let mut idx: usize = self.rows.len();
        while idx > 0 && self.rows[idx - 1].ts > rec.ts
            invariant
                self == old(self),
                self.wf(),
                idx <= self.rows@.len(),
                forall|j: int| idx <= j < self.rows@.len() ==> self@[j].ts > rec@.ts,
            decreases idx,
        {
            idx = idx - 1;
        }
        let ghost pre = self@;
        let ghost gidx = idx as int;
        proof {
            assert(store_inv(pre));
            assert forall|j: int| 0 <= j < gidx implies pre[j].ts <= rec@.ts by {
                if j < gidx - 1 {
                    assert(pre[j].ts <= pre[gidx - 1].ts);
                }
                assert(pre[gidx - 1].ts <= rec@.ts);
            }
        }
        self.rows.insert(idx, rec);
        proof {
            assert(self@ =~= pre.insert(gidx, rec@));
            pre.insert_ensures(gidx, rec@);
            assert forall|a: int, b: int| 0 <= a < b < self@.len() implies self@[a].id
                != self@[b].id && self@[a].ts <= self@[b].ts by {
                if b < gidx {
                    assert(self@[a] == pre[a] && self@[b] == pre[b]);
                } else if a < gidx && b == gidx {
                    assert(self@[a] == pre[a] && self@[b] == rec@);
                } else if a < gidx && b > gidx {
                    assert(self@[a] == pre[a] && self@[b] == pre[b - 1]);
                } else if a == gidx {
                    assert(self@[a] == rec@ && self@[b] == pre[b - 1]);
                } else {
                    assert(self@[a] == pre[a - 1] && self@[b] == pre[b - 1]);
                }
            }
            if !rec@.deleted {
                lemma_insert_get(pre, gidx, rec@);
            }
        }
        Ok(())
    }

    /// How many rows the table holds, deleted rows included.
    pub(crate) fn row_count(&self) -> (r: usize)
        ensures
            r == self@.len(),
    {
        self.rows.len()
    }

    /// Borrow one row of the table.
    pub(crate) fn row_at(&self, i: usize) -> (r: &CaptureRecord)
        requires
            i < self@.len(),
        ensures
            r@ == self@[i as int],
    {
        &self.rows[i]
    }

    /// The non-deleted record with this id, or nothing.
    pub fn get_capture(&self, id: &str) -> (r: Option<CaptureRecord>)
        ensures
            match r {
                Some(rec) => get_abs(self@, id@) == Some(rec@),
                None => get_abs(self@, id@) is None,
            },
    {
        let n = self.rows.len();
        proof {
            assert(self@.skip(0) =~= self@);
        }
        let mut i: usize = 0;
        while i < n
            invariant
                n == self.rows@.len(),
                i <= n,
                get_abs(self@, id@) == get_abs(self@.skip(i as int), id@),
            decreases n - i,
        {
            let hit = !self.rows[i].deleted && str_eq(self.rows[i].id.as_str(), id);
            proof {
                assert(self@.skip(i as int)[0] == self@[i as int]);
            }
            if hit {
                let rec = self.rows[i].duplicate();
                proof {
                    assert(get_abs(self@.skip(i as int), id@) == Some(self@[i as int]));
                }
                return Some(rec);
            }
            proof {
                assert(self@.skip(i as int).drop_first() =~= self@.skip(i as int + 1));
            }
            i = i + 1;
        }
        proof {
            assert(self@.skip(n as int) =~= Seq::<RecordAbs>::empty());
        }
        None
    }

    /// The most recent non-deleted records, newest first, capped at `limit`.
    pub fn list_recent(&self, limit: usize) -> (r: Vec<CaptureRecord>)
        ensures
            rows_abs(r@) == recent_abs(self@, limit as nat),
            self.wf() ==> forall|a: int, b: int|
                0 <= a < b < r@.len() ==> r@[a]@.ts >= r@[b]@.ts,
    {
        let n = self.rows.len();
        let mut out: Vec<CaptureRecord> = Vec::new();
        proof {
            assert(self@.skip(n as int) =~= Seq::<RecordAbs>::empty());
            assert(rows_abs(out@) =~= recent_abs(self@.skip(n as int), limit as nat));
        }
        let mut i: usize = n;
        while i > 0 && out.len() < limit
            invariant
                i <= n,
                n == self.rows@.len(),
                out@.len() <= limit,
                rows_abs(out@) == recent_abs(self@.skip(i as int), limit as nat),
            decreases i,
        {
            i = i - 1;
            let ghost suffix = self@.skip(i as int + 1);
            proof {
                assert(self@.skip(i as int) =~= seq![self@[i as int]] + suffix);
                lemma_latest_cons(self@[i as int], suffix, limit as nat, visible_pred());
                assert(recent_abs(suffix, limit as nat).len() == out@.len());
            }
            if !self.rows[i].deleted {
                out.push(self.rows[i].duplicate());
                proof {
                    assert(rows_abs(out@) =~= recent_abs(suffix, limit as nat) + seq![self@[i
                        as int]]);
                }
            }
        }
        if i > 0 {
            proof {
                lemma_latest_saturated(
                    self@.take(i as int),
                    self@.skip(i as int),
                    limit as nat,
                    visible_pred(),
                );
                assert(self@.take(i as int) + self@.skip(i as int) =~= self@);
            }
        } else {
            proof {
                assert(self@.skip(0) =~= self@);
            }
        }
        proof {
            if self.wf() {
                lemma_latest_desc(self@, limit as nat, visible_pred());
                assert forall|a: int, b: int| 0 <= a < b < out@.len() implies out@[a]@.ts
                    >= out@[b]@.ts by {
                    assert(rows_abs(out@)[a] == latest_abs(self@, limit as nat, visible_pred())[a]);
                    assert(rows_abs(out@)[b] == latest_abs(self@, limit as nat, visible_pred())[b]);
                }
            }
        }
        out
    }

    /// Erase recent activity: mark every non-deleted record with timestamp
    /// at or after `now - minutes` deleted, mirroring each row to the
    /// database first, and report the processed count with the image paths
    /// whose files the caller should remove. A storage failure stops the
    /// pass; rows already processed stay marked.
    pub fn delete_recent(&mut self, now_ms: i64, minutes: i64) -> (r: Result<
        (usize, Vec<String>),
        AppError,
    >)
        requires
            old(self).wf(),
            0 <= now_ms,
            0 <= minutes,
            minutes * 60000 <= i64::MAX,
        ensures
            final(self).wf(),
            ({
                let th = now_ms - minutes * 60000;
                match r {
                    Ok((count, paths)) => {
                        &&& final(self)@ == marked_abs(old(self)@, th)
                        &&& count == erase_count(old(self)@, th)
                        &&& paths.deep_view() == erased_paths(old(self)@, th)
                        &&& forall|id: Seq<char>|
                            #[trigger] get_abs(old(self)@, id) is Some && get_abs(
                                old(self)@,
                                id,
                            ).unwrap().ts >= th ==> get_abs(final(self)@, id) is None
                    },
                    Err(e) => {
                        &&& e is StorageError
                        &&& (exists|j: int|
                            0 <= j < old(self)@.len() && #[trigger] erasable(old(self)@[j], th))
                        &&& final(self)@.len() == old(self)@.len()
                        &&& (forall|j: int|
                            0 <= j < old(self)@.len() ==> final(self)@[j] == old(self)@[j]
                                || final(self)@[j] == mark_one(old(self)@[j], th))
                    },
                }
            }),
            erase_count(old(self)@, now_ms - minutes * 60000) == 0 ==> r is Ok,
    {
        let th: i64 = now_ms - minutes * 60000;
        let n = self.rows.len();
        let ghost orig = self@;
        let mut new_rows: Vec<CaptureRecord> = Vec::new();
        let mut paths: Vec<String> = Vec::new();
        let mut count: usize = 0;
        let mut failure: Option<String> = None;
        let mut i: usize = 0;
        while i < n
            invariant
                self == old(self),
                orig == self@,
                store_inv(orig),
                n == self.rows@.len(),
                i <= n,
                new_rows@.len() == i,
                count <= i,
                forall|j: int|
                    0 <= j < i ==> rows_abs(new_rows@)[j] == orig[j] || rows_abs(new_rows@)[j]
                        == mark_one(orig[j], th as int),
                failure is None ==> {
                    &&& rows_abs(new_rows@) == marked_abs(orig.take(i as int), th as int)
                    &&& count == erase_count(orig.take(i as int), th as int)
                    &&& paths.deep_view() == erased_paths(orig.take(i as int), th as int)
                },
                failure matches Some(_) ==> exists|j: int|
                    0 <= j < i && #[trigger] erasable(orig[j], th as int),
            decreases n - i,
        {
            proof {
                assert(orig.take(i as int + 1).drop_last() =~= orig.take(i as int));
                assert(orig.take(i as int + 1).last() == orig[i as int]);
            }
            let row_erasable = !self.rows[i].deleted && self.rows[i].ts >= th;
            if failure.is_none() && row_erasable {
                match sql_exec_with_id(
                    &self.conn,
                    "UPDATE captures SET deleted = 1 WHERE id = ?1",
                    self.rows[i].id.as_str(),
                ) {
                    Ok(_) => {
                        let mut marked = self.rows[i].duplicate();
                        marked.deleted = true;
                        new_rows.push(marked);
                        paths.push(self.rows[i].path.clone());
                        count = count + 1;
                        proof {
                            assert(marked@ == mark_one(orig[i as int], th as int));
                            assert(rows_abs(new_rows@) =~= marked_abs(
                                orig.take(i as int + 1),
                                th as int,
                            ));
                            assert(paths.deep_view() =~= erased_paths(
                                orig.take(i as int + 1),
                                th as int,
                            ));
                        }
                    },
                    Err(e) => {
                        failure = Some(e);
                        new_rows.push(self.rows[i].duplicate());
                        proof {
                            assert(erasable(orig[i as int], th as int));
                        }
                    },
                }
            } else {
                new_rows.push(self.rows[i].duplicate());
                proof {
                    if failure is None {
                        assert(mark_one(orig[i as int], th as int) == orig[i as int]);
                        assert(rows_abs(new_rows@) =~= marked_abs(
                            orig.take(i as int + 1),
                            th as int,
                        ));
                        assert(paths.deep_view() =~= erased_paths(
                            orig.take(i as int + 1),
                            th as int,
                        ));
                    }
                }
            }
            i = i + 1;
        }
        proof {
            assert(orig.take(n as int) =~= orig);
        }
        let ghost final_abs = rows_abs(new_rows@);
        proof {
            assert forall|a: int, b: int| 0 <= a < b < final_abs.len() implies final_abs[a].id
                != final_abs[b].id && final_abs[a].ts <= final_abs[b].ts by {
                assert(final_abs[a].id == orig[a].id && final_abs[a].ts == orig[a].ts);
                assert(final_abs[b].id == orig[b].id && final_abs[b].ts == orig[b].ts);
            }
        }
        self.rows = new_rows;
        match failure {
            Some(detail) => {
                proof {
                    let j = choose|j: int| 0 <= j < n && #[trigger] erasable(orig[j], th as int);
                    lemma_erasable_positive(orig, th as int, j);
                }
                Err(AppError::StorageError { detail })
            },
            None => {
                proof {
                    assert forall|id: Seq<char>|
                        #[trigger] get_abs(orig, id) is Some && get_abs(orig, id).unwrap().ts
                            >= th as int implies get_abs(marked_abs(orig, th as int), id)
                        is None by {
                        lemma_erase_hides(orig, th as int, id);
                    }
                }
                Ok((count, paths))
            },
        }
    }
}

/// After inserting a fresh, non-deleted record anywhere in a table that did
/// not hold its id, looking the id up finds exactly that record.
pub proof fn lemma_insert_get(s: Seq<RecordAbs>, idx: int, rec: RecordAbs)
    requires
        0 <= idx <= s.len(),
        !has_id(s, rec.id),
        !rec.deleted,
    ensures
        get_abs(s.insert(idx, rec), rec.id) == Some(rec),
    decreases idx,
{
    s.insert_ensures(idx, rec);
    if idx == 0 {
        assert(s.insert(0, rec)[0] == rec);
    } else {
        assert(s.insert(idx, rec)[0] == s[0]);
        assert(s[0].id != rec.id);
        assert(!has_id(s.drop_first(), rec.id)) by {
            if has_id(s.drop_first(), rec.id) {
                let j = choose|j: int|
                    0 <= j < s.drop_first().len() && s.drop_first()[j].id == rec.id;
                assert(s[j + 1].id == rec.id);
            }
        }
        assert(s.insert(idx, rec).drop_first() =~= s.drop_first().insert(idx - 1, rec));
        lemma_insert_get(s.drop_first(), idx - 1, rec);
    }
}

/// Prepending one (older) row to the table appends it to the latest listing
/// when it satisfies the predicate and the cap is not yet reached; the
/// listing never exceeds the cap.
pub proof fn lemma_latest_cons(x: RecordAbs, u: Seq<RecordAbs>, limit: nat, p: spec_fn(
    RecordAbs,
) -> bool)
    ensures
        latest_abs(seq![x] + u, limit, p) == if p(x) && latest_abs(u, limit, p).len() < limit {
            latest_abs(u, limit, p) + seq![x]
        } else {
            latest_abs(u, limit, p)
        },
        latest_abs(seq![x] + u, limit, p).len() <= limit,
        latest_abs(u, limit, p).len() <= limit,
    decreases u.len(),
{
    let t = seq![x] + u;
    assert(t.len() == u.len() + 1);
    if limit == 0 {
        assert(latest_abs(t, limit, p) == Seq::<RecordAbs>::empty());
        assert(latest_abs(u, limit, p) == Seq::<RecordAbs>::empty());
    } else if u.len() == 0 {
        assert(latest_abs(u, limit, p) == Seq::<RecordAbs>::empty());
        assert(t.last() == x);
        assert(t.drop_last() =~= Seq::<RecordAbs>::empty());
        if p(x) {
            assert(latest_abs(t.drop_last(), (limit - 1) as nat, p) == Seq::<RecordAbs>::empty());
            assert(latest_abs(t, limit, p) =~= latest_abs(u, limit, p) + seq![x]);
        } else {
            assert(latest_abs(t, limit, p) == latest_abs(t.drop_last(), limit, p));
            assert(latest_abs(t.drop_last(), limit, p) == Seq::<RecordAbs>::empty());
        }
    } else {
        assert(t.last() == u.last());
        assert(t.drop_last() =~= seq![x] + u.drop_last());
        if p(u.last()) {
            lemma_latest_cons(x, u.drop_last(), (limit - 1) as nat, p);
            assert(latest_abs(t, limit, p) == seq![u.last()] + latest_abs(
                seq![x] + u.drop_last(),
                (limit - 1) as nat,
                p,
            ));
            assert(latest_abs(u, limit, p) == seq![u.last()] + latest_abs(
                u.drop_last(),
                (limit - 1) as nat,
                p,
            ));
            if p(x) && latest_abs(u.drop_last(), (limit - 1) as nat, p).len() < limit - 1 {
                assert(latest_abs(t, limit, p) =~= latest_abs(u, limit, p) + seq![x]);
                assert(latest_abs(u, limit, p).len() < limit);
            } else {
                assert(latest_abs(t, limit, p) =~= latest_abs(u, limit, p));
                assert(!(p(x) && latest_abs(u, limit, p).len() < limit));
            }
        } else {
            lemma_latest_cons(x, u.drop_last(), limit, p);
            assert(latest_abs(t, limit, p) == latest_abs(seq![x] + u.drop_last(), limit, p));
            assert(latest_abs(u, limit, p) == latest_abs(u.drop_last(), limit, p));
            if p(x) && latest_abs(u.drop_last(), limit, p).len() < limit {
                assert(latest_abs(t, limit, p) =~= latest_abs(u, limit, p) + seq![x]);
            } else {
                assert(latest_abs(t, limit, p) =~= latest_abs(u, limit, p));
            }
        }
    }
}

/// A table that nowhere holds an id yields nothing when that id is looked
/// up.
pub proof fn lemma_get_absent(s: Seq<RecordAbs>, id: Seq<char>)
    requires
        !has_id(s, id),
    ensures
        get_abs(s, id) is None,
    decreases s.len(),
{
    if s.len() > 0 {
        assert(s[0].id != id);
        assert(!has_id(s.drop_first(), id)) by {
            if has_id(s.drop_first(), id) {
                let j = choose|j: int|
                    0 <= j < s.drop_first().len() && s.drop_first()[j].id == id;
                assert(s[j + 1].id == id);
            }
        }
        lemma_get_absent(s.drop_first(), id);
    }
}

/// Round-trip erasure: once an erase pass covers the timestamp of the
/// record an id resolves to, the id resolves to nothing (ids unique).
pub proof fn lemma_erase_hides(s: Seq<RecordAbs>, th: int, id: Seq<char>)
    requires
        forall|i: int, j: int| 0 <= i < j < s.len() ==> s[i].id != s[j].id,
        get_abs(s, id) is Some,
        get_abs(s, id).unwrap().ts >= th,
    ensures
        get_abs(marked_abs(s, th), id) is None,
    decreases s.len(),
{
    let m = marked_abs(s, th);
    assert(m.len() == s.len());
    if s[0].id == id && !s[0].deleted {
        assert(get_abs(s, id) == Some(s[0]));
        assert(erasable(s[0], th));
        assert(m[0].deleted);
        assert(m.drop_first() =~= marked_abs(s.drop_first(), th));
        assert(!has_id(s.drop_first(), id)) by {
            if has_id(s.drop_first(), id) {
                let j = choose|j: int|
                    0 <= j < s.drop_first().len() && s.drop_first()[j].id == id;
                assert(s[j + 1].id == id);
                assert(s[0].id != s[j + 1].id);
            }
        }
        assert(!has_id(marked_abs(s.drop_first(), th), id)) by {
            if has_id(marked_abs(s.drop_first(), th), id) {
                let j = choose|j: int|
                    0 <= j < marked_abs(s.drop_first(), th).len() && marked_abs(
                        s.drop_first(),
                        th,
                    )[j].id == id;
                assert(marked_abs(s.drop_first(), th)[j].id == s.drop_first()[j].id);
            }
        }
        lemma_get_absent(marked_abs(s.drop_first(), th), id);
    } else {
        assert(get_abs(s, id) == get_abs(s.drop_first(), id));
        assert(m[0].id == s[0].id && (s[0].deleted ==> m[0].deleted));
        assert(!(m[0].id == id && !m[0].deleted));
        assert(m.drop_first() =~= marked_abs(s.drop_first(), th));
        assert(forall|i: int, j: int|
            0 <= i < j < s.drop_first().len() ==> s.drop_first()[i].id != s.drop_first()[j].id)
            by {
            assert(forall|i: int, j: int|
                0 <= i < j < s.drop_first().len() ==> s.drop_first()[i] == s[i + 1]
                    && s.drop_first()[j] == s[j + 1]);
        }
        lemma_erase_hides(s.drop_first(), th, id);
    }
}

/// Idempotence of erasure: an erase pass whose window holds no record
/// processes zero rows and changes nothing.
pub proof fn lemma_erase_idempotent(s: Seq<RecordAbs>, th: int)
    requires
        forall|i: int| 0 <= i < s.len() ==> !erasable(s[i], th),
    ensures
        marked_abs(s, th) == s,
        erase_count(s, th) == 0,
        erased_paths(s, th) == Seq::<Seq<char>>::empty(),
    decreases s.len(),
{
    assert(marked_abs(s, th) =~= s);
    if s.len() > 0 {
        assert(!erasable(s.last(), th));
        lemma_erase_idempotent(s.drop_last(), th);
    }
}

/// No row of a latest listing is newer than the newest table row.
pub proof fn lemma_latest_ts_bounded(
    s: Seq<RecordAbs>,
    limit: nat,
    p: spec_fn(RecordAbs) -> bool,
    bound: int,
)
    requires
        forall|i: int| 0 <= i < s.len() ==> s[i].ts <= bound,
    ensures
        forall|k: int|
            0 <= k < latest_abs(s, limit, p).len() ==> #[trigger] latest_abs(s, limit, p)[k].ts
                <= bound,
    decreases s.len(),
{
    let out = latest_abs(s, limit, p);
    if s.len() == 0 || limit == 0 {
    } else if p(s.last()) {
        let rest = latest_abs(s.drop_last(), (limit - 1) as nat, p);
        lemma_latest_ts_bounded(s.drop_last(), (limit - 1) as nat, p, bound);
        assert forall|k: int| 0 <= k < out.len() implies #[trigger] out[k].ts <= bound by {
            if k == 0 {
                assert(out[0] == s.last());
            } else {
                assert(out[k] == rest[k - 1]);
            }
        }
    } else {
        let rest = latest_abs(s.drop_last(), limit, p);
        lemma_latest_ts_bounded(s.drop_last(), limit, p, bound);
        assert forall|k: int| 0 <= k < out.len() implies #[trigger] out[k].ts <= bound by {
            assert(out[k] == rest[k]);
        }
    }
}

/// Over a timestamp-ascending table, a latest listing is ordered by
/// timestamp descending (newest first).
pub proof fn lemma_latest_desc(s: Seq<RecordAbs>, limit: nat, p: spec_fn(RecordAbs) -> bool)
    requires
        forall|i: int, j: int| 0 <= i < j < s.len() ==> s[i].ts <= s[j].ts,
    ensures
        forall|a: int, b: int|
            0 <= a < b < latest_abs(s, limit, p).len() ==> latest_abs(s, limit, p)[a].ts
                >= latest_abs(s, limit, p)[b].ts,
    decreases s.len(),
{
    let out = latest_abs(s, limit, p);
    if s.len() == 0 || limit == 0 {
    } else if p(s.last()) {
        let rest = latest_abs(s.drop_last(), (limit - 1) as nat, p);
        lemma_latest_desc(s.drop_last(), (limit - 1) as nat, p);
        assert(forall|i: int| 0 <= i < s.drop_last().len() ==> #[trigger] s.drop_last()[i].ts
            <= s.last().ts);
        lemma_latest_ts_bounded(s.drop_last(), (limit - 1) as nat, p, s.last().ts);
        assert forall|a: int, b: int| 0 <= a < b < out.len() implies out[a].ts >= out[b].ts by {
            if a == 0 {
                assert(out[0] == s.last());
                assert(out[b] == rest[b - 1]);
                assert(rest[b - 1].ts <= s.last().ts);
            } else {
                assert(out[a] == rest[a - 1] && out[b] == rest[b - 1]);
            }
        }
    } else {
        let rest = latest_abs(s.drop_last(), limit, p);
        lemma_latest_desc(s.drop_last(), limit, p);
        assert forall|a: int, b: int| 0 <= a < b < out.len() implies out[a].ts >= out[b].ts by {
            assert(out[a] == rest[a] && out[b] == rest[b]);
        }
    }
}

/// Once a suffix of the table already fills the cap, rows before it do not
/// change the recent listing.
pub proof fn lemma_latest_saturated(t: Seq<RecordAbs>, u: Seq<RecordAbs>, limit: nat, p: spec_fn(
    RecordAbs,
) -> bool)
    requires
        latest_abs(u, limit, p).len() == limit,
    ensures
        latest_abs(t + u, limit, p) == latest_abs(u, limit, p),
    decreases t.len(),
{
    if t.len() == 0 {
        assert(t + u =~= u);
    } else {
        assert(t + u =~= seq![t[0]] + (t.drop_first() + u));
        lemma_latest_saturated(t.drop_first(), u, limit, p);
        lemma_latest_cons(t[0], t.drop_first() + u, limit, p);
    }
}

} // verus!
