//! The plain settings structure consumed by the capture core, and the query
//! parameter shapes of the read/control interface with their clamp rules.
use vstd::prelude::*;

verus! {

/// Configuration of the capture core. Loaded and persisted elsewhere; the
/// core only reads it. `exclude_apps` is declared but not yet consulted by
/// any gate, matching the declared interface.
#[derive(Clone, Debug)]
pub struct CaptureConfig {
    pub capture_dir: String,
    pub db_path: String,
    pub capture_on_focus: bool,
    pub capture_on_title_change: bool,
    pub capture_interval_ms: u64,
    pub max_captures_per_minute: u32,
    pub allow_monitor_fallback: bool,
    pub exclude_titles: Vec<String>,
    pub exclude_apps: Vec<String>,
    pub search_index_path: String,
    pub enable_search_index: bool,
}

impl Default for CaptureConfig {
    fn default() -> (r: Self)
        ensures
            r.capture_dir@ == "data/captures"@,
            r.db_path@ == "data/index.db"@,
            r.capture_on_focus,
            r.capture_on_title_change,
            r.capture_interval_ms == 0,
            r.max_captures_per_minute == 20,
            r.allow_monitor_fallback,
            r.exclude_titles@.len() == 0,
            r.exclude_apps@.len() == 0,
            r.search_index_path@ == "data/index.db"@,
            r.enable_search_index,
    {
        CaptureConfig {
            capture_dir: String::from_str("data/captures"),
            db_path: String::from_str("data/index.db"),
            capture_on_focus: true,
            capture_on_title_change: true,
            capture_interval_ms: 0,
            max_captures_per_minute: 20,
            allow_monitor_fallback: true,
            exclude_titles: Vec::new(),
            exclude_apps: Vec::new(),
            search_index_path: String::from_str("data/index.db"),
            enable_search_index: true,
        }
    }
}

/// Query parameters of the list-recent read operation.
#[derive(Debug)]
pub struct ListParams {
    pub limit: Option<usize>,
}

impl ListParams {
    /// The page size actually used: default 50, clamped to 1..=500.
    pub fn effective_limit(&self) -> (r: usize)
        ensures
            r == (match self.limit {
                Some(l) => if l < 1 {
                    1usize
                } else if l > 500 {
                    500usize
                } else {
                    l
                },
                None => 50usize,
            }),
    {
        match self.limit {
            Some(l) => if l < 1 {
                1
            } else if l > 500 {
                500
            } else {
                l
            },
            None => 50,
        }
    }
}

/// Query parameters of the substring-search read operation.
#[derive(Debug)]
pub struct SearchParams {
    pub q: String,
    pub limit: Option<usize>,
}

impl SearchParams {
    /// The result cap actually used: default 20, clamped to 1..=200.
    pub fn effective_limit(&self) -> (r: usize)
        ensures
            r == (match self.limit {
                Some(l) => if l < 1 {
                    1usize
                } else if l > 200 {
                    200usize
                } else {
                    l
                },
                None => 20usize,
            }),
    {
        match self.limit {
            Some(l) => if l < 1 {
                1
            } else if l > 200 {
                200
            } else {
                l
            },
            None => 20,
        }
    }
}

/// Query parameters of the erase-recent control operation.
#[derive(Debug)]
pub struct EraseParams {
    pub minutes: Option<i64>,
}

impl EraseParams {
    /// The erase window actually used: default 5 minutes, clamped 1..=240.
    pub fn effective_minutes(&self) -> (r: i64)
        ensures
            r == (match self.minutes {
                Some(m) => if m < 1 {
                    1i64
                } else if m > 240 {
                    240i64
                } else {
                    m
                },
                None => 5i64,
            }),
            1 <= r <= 240,
    {
        match self.minutes {
            Some(m) => if m < 1 {
                1
            } else if m > 240 {
                240
            } else {
                m
            },
            None => 5,
        }
    }
}

} // verus!
