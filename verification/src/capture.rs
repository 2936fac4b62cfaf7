//! The capture orchestrator: converts one trigger event into at most one
//! planned capture, applying the policy gates (pause, exclusion, rate) in a
//! fixed order and walking the capture-target fallback chain, then commits
//! the stored record once the image file has been written.
use vstd::prelude::*;
use vstd::string::*;
use crate::TriggerKind;
use crate::config::CaptureConfig;
use crate::error::AppError;
use crate::rate::RateLimiter;
use crate::rate::evict_spec;
use crate::record::CaptureRecord;
use crate::record::RecordAbs;
use crate::record::clone_opt_string;
use crate::record::opt_str_abs;
use crate::search::SearchIndex;
use crate::store::Db;
use crate::store::get_abs;
use crate::store::has_id;
use crate::text::norm_spec;
use crate::text::normalized;
use crate::text::pad2;
use crate::text::pad2_spec;
use crate::text::pad4;
use crate::text::pad4_spec;
use crate::text::spec_excluded;
use crate::text::str_eq;
use crate::text::title_excluded;

verus! {

/// Largest timestamp the capture pipeline accepts: the last millisecond of
/// year 9999, so date directories always carry four-digit years.
pub const MAX_TIMESTAMP_MS: i64 = 253_402_300_799_999;

/// The calendar date (UTC year, month, day) of an epoch-millisecond
/// timestamp, as the calendar library computes it.
pub uninterp spec fn civil_date_of(ms: int) -> (int, int, int);

/// Relies on chrono::DateTime::from_timestamp_millis and the Datelike
/// year/month/day accessors: the calendar date is a function of the
/// timestamp alone; months are 1..=12, days 1..=31, and every timestamp
/// from the epoch to the end of year 9999 has a year in 1970..=9999.
#[verifier::external_body]
fn civil_date(ms: i64) -> (r: (u32, u32, u32))
    requires
        0 <= ms <= MAX_TIMESTAMP_MS,
    ensures
        (r.0 as int, r.1 as int, r.2 as int) == civil_date_of(ms as int),
        1970 <= r.0 <= 9999,
        1 <= r.1 <= 12,
        1 <= r.2 <= 31,
{
    let dt = chrono::DateTime::<chrono::Utc>::from_timestamp_millis(ms).unwrap();
    (
        chrono::Datelike::year(&dt) as u32,
        chrono::Datelike::month(&dt),
        chrono::Datelike::day(&dt),
    )
}

/// Relies on uuid::Uuid::new_v4 and its hyphenated rendering: a freshly
/// drawn random identifier; nothing is assumed of its value beyond the
/// 36-character hyphenated shape.
#[verifier::external_body]
fn fresh_id() -> (r: String)
    ensures
        r@.len() == 36,
{
    uuid::Uuid::new_v4().to_string()
}

/// The date-partitioned directory for a capture instant:
/// `<dir>/<YYYY>/<MM>/<DD>`, all zero-padded.
pub open spec fn date_dir_spec(dir: Seq<char>, ms: int) -> Seq<char> {
    dir + "/"@ + pad4_spec(civil_date_of(ms).0) + "/"@ + pad2_spec(civil_date_of(ms).1) + "/"@
        + pad2_spec(civil_date_of(ms).2)
}

/// The capture filename: `<event_type>_<normalized_title>_<id>.png`.
pub open spec fn file_name_spec(kind: TriggerKind, title: Seq<char>, id: Seq<char>) -> Seq<char> {
    kind.spec_label() + "_"@ + norm_spec(title) + "_"@ + id + ".png"@
}

/// The full path of a capture image.
pub open spec fn path_spec(
    dir: Seq<char>,
    ms: int,
    kind: TriggerKind,
    title: Seq<char>,
    id: Seq<char>,
) -> Seq<char> {
    date_dir_spec(dir, ms) + "/"@ + file_name_spec(kind, title, id)
}

/// The date-partitioned directory under which a capture at `ms` is stored.
pub fn date_dir(dir: &str, ms: i64) -> (r: String)
    requires
        0 <= ms <= MAX_TIMESTAMP_MS,
    ensures
        r@ == date_dir_spec(dir@, ms as int),
{
    let (y, m, d) = civil_date(ms);
    let mut s = String::from_str(dir);
    s.append("/");
    s.append(pad4(y).as_str());
    s.append("/");
    s.append(pad2(m).as_str());
    s.append("/");
    s.append(pad2(d).as_str());
    s
}

/// The full image path for one capture.
pub fn capture_path(dir: &str, ms: i64, kind: TriggerKind, title: &str, id: &str) -> (r: String)
    requires
        0 <= ms <= MAX_TIMESTAMP_MS,
    ensures
        r@ == path_spec(dir@, ms as int, kind, title@, id@),
{
    let mut s = date_dir(dir, ms);
    s.append("/");
    s.append(kind.label());
    s.append("_");
    s.append(normalized(title).as_str());
    s.append("_");
    s.append(id);
    s.append(".png");
    s
}

/// One window as enumerated and probed by the display provider: its title,
/// whether it reports itself minimized, and the pixel dimensions of its
/// captured image (zero when capture failed or was not attempted).
pub struct WindowProbe {
    pub title: String,
    pub minimized: bool,
    pub width: u32,
    pub height: u32,
}

/// The provider's monitor enumeration: how many monitors it reported, and
/// the first monitor's captured dimensions and name.
pub struct MonitorProbe {
    pub monitor_count: usize,
    pub width: u32,
    pub height: u32,
    pub name: Option<String>,
}

/// A window may serve a capture for `title` when its title matches exactly,
/// it is not minimized, and its captured image has positive dimensions.
pub open spec fn acceptable(w: WindowProbe, title: Seq<char>) -> bool {
    w.title@ == title && !w.minimized && w.width > 0 && w.height > 0
}

/// The first window in enumeration order that can serve a capture.
pub fn find_capture_window(windows: &Vec<WindowProbe>, title: &str) -> (r: Option<usize>)
    ensures
        match r {
            Some(i) => i < windows@.len() && acceptable(windows@[i as int], title@) && (forall|
                j: int,
            |
                0 <= j < i ==> !acceptable(windows@[j], title@)),
            None => forall|j: int| 0 <= j < windows@.len() ==> !acceptable(windows@[j], title@),
        },
{
    let n = windows.len();
    let mut i: usize = 0;
    while i < n
        invariant
            n == windows@.len(),
            i <= n,
            forall|j: int| 0 <= j < i ==> !acceptable(windows@[j], title@),
        decreases n - i,
    {
        let w = &windows[i];
        if !w.minimized && w.width > 0 && w.height > 0 && str_eq(w.title.as_str(), title) {
            return Some(i);
        }
        i = i + 1;
    }
    None
}

/// Whether the consumer acts on a trigger of this kind under the given
/// configuration: focus and title transitions are gated by their switches,
/// periodic ticks and explicit snapshots always reach the engine.
pub fn should_capture(kind: TriggerKind, config: &CaptureConfig) -> (r: bool)
    ensures
        r == match kind {
            TriggerKind::Focus => config.capture_on_focus,
            TriggerKind::Title => config.capture_on_title_change,
            TriggerKind::Interval => true,
            TriggerKind::Snapshot => true,
        },
{
    match kind {
        TriggerKind::Focus => config.capture_on_focus,
        TriggerKind::Title => config.capture_on_title_change,
        TriggerKind::Interval => true,
        TriggerKind::Snapshot => true,
    }
}

/// Where the planned capture is to be taken from.
pub enum CaptureTarget {
    /// The window at this index of the probed enumeration.
    Window { index: usize },
    /// The primary monitor.
    Monitor,
}

/// A fully decided capture: the target to rasterize, the directory to
/// create, and the record to commit once the image file is written.
pub struct CapturePlan {
    pub target: CaptureTarget,
    pub dir: String,
    pub record: CaptureRecord,
}

/// What planning a trigger produced when no error surfaced.
pub enum PlanOutcome {
    /// A policy gate filtered the trigger out silently.
    Dropped,
    Planned(CapturePlan),
}

/// The record a successful plan carries for a capture of `title` at `now`.
pub open spec fn planned_record(
    rec: RecordAbs,
    dir: Seq<char>,
    title: Seq<char>,
    kind: TriggerKind,
    now: int,
    width: u32,
    height: u32,
    monitor: Option<Seq<char>>,
) -> bool {
    &&& rec.ts == now
    &&& rec.window_title == Some(title)
    &&& rec.app_name is None
    &&& rec.event_type == kind.spec_label()
    &&& rec.width == Some(width)
    &&& rec.height == Some(height)
    &&& rec.monitor == monitor
    &&& rec.hash is None
    &&& !rec.deleted
    &&& rec.id.len() == 36
    &&& rec.path == path_spec(dir, now, kind, title, rec.id)
    &&& rec.wf()
}

/// The capture engine: configuration, the rate limiter, the record store,
/// and the optional search index.
pub struct CaptureEngine {
    config: CaptureConfig,
    db: Db,
    rate: RateLimiter,
    search: Option<SearchIndex>,
}

impl CaptureEngine {
    pub closed spec fn cfg(&self) -> CaptureConfig {
        self.config
    }

    pub closed spec fn records(&self) -> Seq<RecordAbs> {
        self.db@
    }

    pub closed spec fn rate_limit(&self) -> u32 {
        self.rate.spec_limit()
    }

    pub closed spec fn rate_stamps(&self) -> Seq<i64> {
        self.rate.timestamps()
    }

    pub open spec fn wf(&self) -> bool {
        crate::store::store_inv(self.records())
    }

    /// Build an engine over a configuration and an opened record store.
    pub fn new(config: CaptureConfig, db: Db) -> (r: Self)
        requires
            db.wf(),
        ensures
            r.wf(),
            r.cfg() == config,
            r.records() == db@,
            r.rate_limit() == config.max_captures_per_minute,
            r.rate_stamps() == Seq::<i64>::empty(),
    {
        let rate = RateLimiter::new(config.max_captures_per_minute);
        let search = if config.enable_search_index {
            Some(SearchIndex::new(config.search_index_path.as_str()))
        } else {
            None
        };
        CaptureEngine { config, db, rate, search }
    }

    /// Borrow the record store for reads.
    pub fn db(&self) -> (r: &Db)
        ensures
            r@ == self.records(),
            r.wf() == self.wf(),
    {
        &self.db
    }

    /// Borrow the configuration.
    pub fn config(&self) -> (r: &CaptureConfig)
        ensures
            *r == self.cfg(),
    {
        &self.config
    }

    /// Decide one trigger: apply the pause, exclusion and rate gates in
    /// order, then walk the fallback chain over the probed windows and
    /// monitor, producing either a plan, a silent drop, or the error the
    /// caller must surface. Nothing is stored yet.
    pub fn plan_capture(
        &mut self,
        window_title: &str,
        kind: TriggerKind,
        paused: bool,
        now_ms: i64,
        windows: &Vec<WindowProbe>,
        monitor: &MonitorProbe,
    ) -> (r: Result<PlanOutcome, AppError>)
        requires
            0 <= now_ms <= MAX_TIMESTAMP_MS,
        ensures
            final(self).cfg() == old(self).cfg(),
            final(self).records() == old(self).records(),
            final(self).rate_limit() == old(self).rate_limit(),
            final(self).wf() == old(self).wf(),
            ({
                let excluded = spec_excluded(
                    window_title@,
                    old(self).cfg().exclude_titles.deep_view(),
                );
                let limit = old(self).rate_limit();
                let stamps = old(self).rate_stamps();
                let kept = evict_spec(stamps, now_ms - 60000);
                &&& (paused ==> final(self).rate_stamps() == stamps && (if kind is Snapshot {
                    r matches Err(e) && e is Paused
                } else {
                    r matches Ok(o) && o is Dropped
                }))
                &&& (!paused && excluded ==> final(self).rate_stamps() == stamps && (r matches Ok(
                    o,
                ) && o is Dropped))
                &&& (!paused && !excluded && limit != 0 && kept.len() >= limit ==> final(self).rate_stamps()
                    == kept && (r matches Err(e) && e matches AppError::RateLimited { limit: l }
                    && l == limit))
                &&& (!paused && !excluded && (limit == 0 || kept.len() < limit) ==> {
                    &&& (limit == 0 ==> final(self).rate_stamps() == stamps)
                    &&& (limit != 0 ==> final(self).rate_stamps() == kept.push(now_ms))
                    &&& if exists|j: int|
                        0 <= j < windows@.len() && acceptable(windows@[j], window_title@) {
                        r matches Ok(o) && o matches PlanOutcome::Planned(p) && (p.target
                            matches CaptureTarget::Window { index } && index < windows@.len()
                            && acceptable(
                            windows@[index as int],
                            window_title@,
                        ) && (forall|j: int|
                            0 <= j < index ==> !acceptable(windows@[j], window_title@))
                            && planned_record(
                            p.record@,
                            old(self).cfg().capture_dir@,
                            window_title@,
                            kind,
                            now_ms as int,
                            windows@[index as int].width,
                            windows@[index as int].height,
                            None,
                        ) && p.dir@ == date_dir_spec(old(self).cfg().capture_dir@, now_ms as int))
                    } else if !old(self).cfg().allow_monitor_fallback {
                        r matches Err(e) && e matches AppError::NoCaptureTarget { title } && title@
                            == window_title@
                    } else if monitor.monitor_count == 0 || monitor.width == 0 || monitor.height
                        == 0 {
                        r matches Err(e) && e is CaptureProviderError
                    } else {
                        r matches Ok(o) && o matches PlanOutcome::Planned(p) && p.target
                            is Monitor && planned_record(
                            p.record@,
                            old(self).cfg().capture_dir@,
                            window_title@,
                            kind,
                            now_ms as int,
                            monitor.width,
                            monitor.height,
                            opt_str_abs(monitor.name),
                        ) && p.dir@ == date_dir_spec(old(self).cfg().capture_dir@, now_ms as int)
                    }
                })
            }),
    {
        if paused {
            if matches!(kind, TriggerKind::Snapshot) {
                return Err(AppError::Paused);
            }
            return Ok(PlanOutcome::Dropped);
        }
        if title_excluded(window_title, &self.config.exclude_titles) {
            return Ok(PlanOutcome::Dropped);
        }
        if !self.rate.try_consume(now_ms) {
            return Err(AppError::RateLimited { limit: self.rate.limit() });
        }
        let chosen = find_capture_window(windows, window_title);
        match chosen {
            Some(index) => {
                let id = fresh_id();
                let path = capture_path(
                    self.config.capture_dir.as_str(),
                    now_ms,
                    kind,
                    window_title,
                    id.as_str(),
                );
                let dir = date_dir(self.config.capture_dir.as_str(), now_ms);
                let record = CaptureRecord {
                    id,
                    ts: now_ms,
                    window_title: Some(String::from_str(window_title)),
                    app_name: None,
                    event_type: String::from_str(kind.label()),
                    path,
                    width: Some(windows[index].width),
                    height: Some(windows[index].height),
                    monitor: None,
                    hash: None,
                    deleted: false,
                };
                Ok(
                    PlanOutcome::Planned(
                        CapturePlan { target: CaptureTarget::Window { index }, dir, record },
                    ),
                )
            },
            None => {
                if !self.config.allow_monitor_fallback {
                    return Err(
                        AppError::NoCaptureTarget { title: String::from_str(window_title) },
                    );
                }
                if monitor.monitor_count == 0 {
                    return Err(
                        AppError::CaptureProviderError {
                            detail: String::from_str("no monitors available"),
                        },
                    );
                }
                if monitor.width == 0 || monitor.height == 0 {
                    return Err(
                        AppError::CaptureProviderError {
                            detail: String::from_str("monitor capture returned zero dimensions"),
                        },
                    );
                }
                let id = fresh_id();
                let path = capture_path(
                    self.config.capture_dir.as_str(),
                    now_ms,
                    kind,
                    window_title,
                    id.as_str(),
                );
                let dir = date_dir(self.config.capture_dir.as_str(), now_ms);
                let record = CaptureRecord {
                    id,
                    ts: now_ms,
                    window_title: Some(String::from_str(window_title)),
                    app_name: None,
                    event_type: String::from_str(kind.label()),
                    path,
                    width: Some(monitor.width),
                    height: Some(monitor.height),
                    monitor: clone_opt_string(&monitor.name),
                    hash: None,
                    deleted: false,
                };
                Ok(
                    PlanOutcome::Planned(
                        CapturePlan { target: CaptureTarget::Monitor, dir, record },
                    ),
                )
            },
        }
    }

    /// Erase recent activity through the engine's store: mark records in
    /// the trailing window deleted and hand back the image paths whose
    /// files the caller should remove.
    pub fn delete_recent(&mut self, now_ms: i64, minutes: i64) -> (r: Result<
        (usize, Vec<String>),
        AppError,
    >)
        requires
            old(self).wf(),
            0 <= now_ms,
            0 <= minutes,
            minutes * 60000 <= i64::MAX,
        ensures
            final(self).wf(),
            final(self).cfg() == old(self).cfg(),
            final(self).rate_limit() == old(self).rate_limit(),
            final(self).rate_stamps() == old(self).rate_stamps(),
            ({
                let th = now_ms - minutes * 60000;
                match r {
                    Ok((count, paths)) => {
                        &&& final(self).records() == crate::store::marked_abs(
                            old(self).records(),
                            th,
                        )
                        &&& count == crate::store::erase_count(old(self).records(), th)
                        &&& paths.deep_view() == crate::store::erased_paths(
                            old(self).records(),
                            th,
                        )
                        &&& forall|id: Seq<char>|
                            #[trigger] get_abs(old(self).records(), id) is Some && get_abs(
                                old(self).records(),
                                id,
                            ).unwrap().ts >= th ==> get_abs(final(self).records(), id) is None
                    },
                    Err(e) => {
                        &&& e is StorageError
                        &&& (exists|j: int|
                            0 <= j < old(self).records().len() && #[trigger] crate::store::erasable(
                                old(self).records()[j],
                                th,
                            ))
                        &&& final(self).records().len() == old(self).records().len()
                        &&& (forall|j: int|
                            0 <= j < old(self).records().len() ==> final(self).records()[j] == old(
                                self,
                            ).records()[j] || final(self).records()[j] == crate::store::mark_one(
                                old(self).records()[j],
                                th,
                            ))
                    },
                }
            }),
            crate::store::erase_count(old(self).records(), now_ms - minutes * 60000) == 0 ==> r
                is Ok,
    {
        self.db.delete_recent(now_ms, minutes)
    }

    /// Commit a planned record after its image file has been written: insert
    /// it into the record store and feed the search index.
    pub fn commit_capture(&mut self, record: CaptureRecord) -> (r: Result<(), AppError>)
        requires
            old(self).wf(),
        ensures
            final(self).wf(),
            final(self).cfg() == old(self).cfg(),
            final(self).rate_limit() == old(self).rate_limit(),
            final(self).rate_stamps() == old(self).rate_stamps(),
            has_id(old(self).records(), record@.id) ==> (r matches Err(e) && e is DuplicateId
                && final(self).records() == old(self).records()),
            !has_id(old(self).records(), record@.id) ==> match r {
                Ok(()) => (exists|idx: int|
                    0 <= idx <= old(self).records().len() && final(self).records()
                        == old(self).records().insert(idx, record@)) && (!record@.deleted
                    ==> get_abs(final(self).records(), record@.id) == Some(record@)),
                Err(e) => e is StorageError && final(self).records() == old(self).records(),
            },
    {
        let dup = record.duplicate();
        let outcome = self.db.insert_capture(record);
        if outcome.is_ok() {
            match &self.search {
                Some(index) => {
                    let _ = index.add_capture(&dup, None);
                },
                None => {},
            }
        }
        outcome
    }
}

} // verus!
