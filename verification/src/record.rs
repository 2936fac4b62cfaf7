//! The activity record: one row per successful capture.
use vstd::prelude::*;

verus! {

/// Mathematical image of an `Option<String>`.
pub open spec fn opt_str_abs(o: Option<String>) -> Option<Seq<char>> {
    match o {
        Some(s) => Some(s@),
        None => None,
    }
}

/// One activity record, produced by a successful capture. Append-only,
/// except for the `deleted` soft-delete marker.
#[derive(Debug)]
pub struct CaptureRecord {
    pub id: String,
    pub ts: i64,
    pub window_title: Option<String>,
    pub app_name: Option<String>,
    pub event_type: String,
    pub path: String,
    pub width: Option<u32>,
    pub height: Option<u32>,
    pub monitor: Option<String>,
    pub hash: Option<String>,
    pub deleted: bool,
}

/// Mathematical image of a record.
pub struct RecordAbs {
    pub id: Seq<char>,
    pub ts: int,
    pub window_title: Option<Seq<char>>,
    pub app_name: Option<Seq<char>>,
    pub event_type: Seq<char>,
    pub path: Seq<char>,
    pub width: Option<u32>,
    pub height: Option<u32>,
    pub monitor: Option<Seq<char>>,
    pub hash: Option<Seq<char>>,
    pub deleted: bool,
}

impl RecordAbs {
    /// Image dimensions are both present and strictly positive, or both
    /// absent; a committed record never carries a zero dimension.
    pub open spec fn wf(self) -> bool {
        &&& (self.width is Some <==> self.height is Some)
        &&& (match self.width {
            Some(w) => w > 0,
            None => true,
        })
        &&& (match self.height {
            Some(h) => h > 0,
            None => true,
        })
    }
}

impl View for CaptureRecord {
    type V = RecordAbs;

    open spec fn view(&self) -> RecordAbs {
        RecordAbs {
            id: self.id@,
            ts: self.ts as int,
            window_title: opt_str_abs(self.window_title),
            app_name: opt_str_abs(self.app_name),
            event_type: self.event_type@,
            path: self.path@,
            width: self.width,
            height: self.height,
            monitor: opt_str_abs(self.monitor),
            hash: opt_str_abs(self.hash),
            deleted: self.deleted,
        }
    }
}

/// A copy of an optional string, with its contents pinned down (the derived
/// `Clone` of a composite is opaque to the verifier).
pub fn clone_opt_string(o: &Option<String>) -> (r: Option<String>)
    ensures
        opt_str_abs(r) == opt_str_abs(*o),
{
    match o {
        Some(s) => Some(s.clone()),
        None => None,
    }
}

impl CaptureRecord {
    /// A field-by-field copy whose image equals this record's.
    pub fn duplicate(&self) -> (r: Self)
        ensures
            r@ == self@,
    {
        CaptureRecord {
            id: self.id.clone(),
            ts: self.ts,
            window_title: clone_opt_string(&self.window_title),
            app_name: clone_opt_string(&self.app_name),
            event_type: self.event_type.clone(),
            path: self.path.clone(),
            width: self.width,
            height: self.height,
            monitor: clone_opt_string(&self.monitor),
            hash: clone_opt_string(&self.hash),
            deleted: self.deleted,
        }
    }
}

} // verus!
