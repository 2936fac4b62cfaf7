//! The substring-search interface: a thin, case-insensitive query over the
//! record store's title and application-name fields.
use vstd::prelude::*;
use vstd::string::*;
use crate::error::AppError;
use crate::record::CaptureRecord;
use crate::record::RecordAbs;
use crate::record::clone_opt_string;
use crate::record::opt_str_abs;
use crate::store::Db;
use crate::store::latest_abs;
use crate::store::lemma_latest_cons;
use crate::store::lemma_latest_saturated;
use crate::text::chars_vec;
use crate::text::contains_chars;
use crate::text::has_substring;
use crate::text::lower;
use crate::text::lower_of;

verus! {

/// Handle of the search interface. The searched fields live in the primary
/// captures table, so the index holds only its location.
pub struct SearchIndex {
    db_path: String,
}

/// One search result row.
#[derive(Debug)]
pub struct SearchHit {
    pub id: String,
    pub ts: i64,
    pub window_title: Option<String>,
    pub app_name: Option<String>,
    pub event_type: String,
    pub path: String,
}

/// Mathematical image of a search result.
pub struct HitAbs {
    pub id: Seq<char>,
    pub ts: int,
    pub window_title: Option<Seq<char>>,
    pub app_name: Option<Seq<char>>,
    pub event_type: Seq<char>,
    pub path: Seq<char>,
}

impl View for SearchHit {
    type V = HitAbs;

    open spec fn view(&self) -> HitAbs {
        HitAbs {
            id: self.id@,
            ts: self.ts as int,
            window_title: opt_str_abs(self.window_title),
            app_name: opt_str_abs(self.app_name),
            event_type: self.event_type@,
            path: self.path@,
        }
    }
}

/// The hit a record projects to.
pub open spec fn hit_of(r: RecordAbs) -> HitAbs {
    HitAbs {
        id: r.id,
        ts: r.ts,
        window_title: r.window_title,
        app_name: r.app_name,
        event_type: r.event_type,
        path: r.path,
    }
}

/// An optional text field matches a (lowercased) query when it is present
/// and its lowercase form contains the query.
pub open spec fn opt_field_matches(o: Option<Seq<char>>, q: Seq<char>) -> bool {
    match o {
        Some(t) => has_substring(lower_of(t), q),
        None => false,
    }
}

/// A record matches a (lowercased) query when the lowercase form of its
/// title or of its application name contains it.
pub open spec fn hit_matches(r: RecordAbs, q: Seq<char>) -> bool {
    opt_field_matches(r.window_title, q) || opt_field_matches(r.app_name, q)
}

/// Whether an optional field's lowercase form contains the query.
fn field_matches(o: &Option<String>, qc: &Vec<char>) -> (r: bool)
    ensures
        r == opt_field_matches(opt_str_abs(*o), qc@),
{
    match o {
        Some(t) => {
            let lt = lower(t.as_str());
            let ltc = chars_vec(lt.as_str());
            contains_chars(&ltc, qc)
        },
        None => false,
    }
}

/// A row is returned by a search when it is visible and matches.
pub open spec fn search_pred(q: Seq<char>) -> spec_fn(RecordAbs) -> bool {
    |r: RecordAbs| !r.deleted && hit_matches(r, q)
}

/// The matching rows, newest first, capped at `limit`.
pub open spec fn search_abs(s: Seq<RecordAbs>, q: Seq<char>, limit: nat) -> Seq<RecordAbs> {
    latest_abs(s, limit, search_pred(q))
}

/// The images of a vector of hits.
pub open spec fn hits_abs(v: Seq<SearchHit>) -> Seq<HitAbs> {
    v.map_values(|h: SearchHit| h@)
}

/// The projections of a sequence of records.
pub open spec fn hits_of_records(s: Seq<RecordAbs>) -> Seq<HitAbs> {
    Seq::new(s.len(), |j: int| hit_of(s[j]))
}

impl SearchHit {
    /// The projection of one record into a search result.
    pub fn of_record(rec: &CaptureRecord) -> (r: Self)
        ensures
            r@ == hit_of(rec@),
    {
        SearchHit {
            id: rec.id.clone(),
            ts: rec.ts,
            window_title: clone_opt_string(&rec.window_title),
            app_name: clone_opt_string(&rec.app_name),
            event_type: rec.event_type.clone(),
            path: rec.path.clone(),
        }
    }
}

impl SearchIndex {
    pub closed spec fn spec_path(&self) -> Seq<char> {
        self.db_path@
    }

    pub fn new(db_path: &str) -> (r: Self)
        ensures
            r.spec_path() == db_path@,
    {
        SearchIndex { db_path: String::from_str(db_path) }
    }

    /// Where the index lives (the primary database).
    pub fn index_path(&self) -> (r: String)
        ensures
            r@ == self.spec_path(),
    {
        self.db_path.clone()
    }

    /// Feed one capture to the index. The primary table already stores the
    /// searched fields, so there is nothing further to record.
    pub fn add_capture(&self, record: &CaptureRecord, ocr_text: Option<&str>) -> (r: Result<
        (),
        AppError,
    >)
        ensures
            r is Ok,
    {
        Ok(())
    }

    /// The visible records whose lowercase title or application name
    /// contains the lowercase query, newest first, capped at `limit`.
    pub fn search(&self, db: &Db, query: &str, limit: usize) -> (r: Vec<SearchHit>)
        ensures
            hits_abs(r@) == hits_of_records(search_abs(db@, lower_of(query@), limit as nat)),
            db.wf() ==> forall|a: int, b: int|
                0 <= a < b < r@.len() ==> r@[a]@.ts >= r@[b]@.ts,
    {
        let ghost q = lower_of(query@);
        let ghost p = search_pred(q);
        let lq = lower(query);
        let qc = chars_vec(lq.as_str());
        let n = db.row_count();
        let mut out: Vec<SearchHit> = Vec::new();
        proof {
            assert(db@.skip(n as int) =~= Seq::<RecordAbs>::empty());
            assert(hits_abs(out@) =~= hits_of_records(
                latest_abs(db@.skip(n as int), limit as nat, p),
            ));
        }
        let mut i: usize = n;
        while i > 0 && out.len() < limit
            invariant
                i <= n,
                n == db@.len(),
                q == lower_of(query@),
                p == search_pred(q),
                qc@ == q,
                out@.len() <= limit,
                hits_abs(out@) == hits_of_records(latest_abs(db@.skip(i as int), limit as nat, p)),
            decreases i,
        {
            i = i - 1;
            let ghost suffix = db@.skip(i as int + 1);
            proof {
                assert(db@.skip(i as int) =~= seq![db@[i as int]] + suffix);
                lemma_latest_cons(db@[i as int], suffix, limit as nat, p);
            }
            let row = db.row_at(i);
            let title_hit = field_matches(&row.window_title, &qc);
            let app_hit = field_matches(&row.app_name, &qc);
            let row_hit = !row.deleted && (title_hit || app_hit);
            proof {
                assert(row@ == db@[i as int]);
                assert(search_pred(q)(db@[i as int]) == (!db@[i as int].deleted && hit_matches(
                    db@[i as int],
                    q,
                )));
                assert(row_hit == p(db@[i as int]));
                assert(hits_of_records(latest_abs(suffix, limit as nat, p)).len() == out@.len());
            }
            if row_hit {
                let ghost before = out@;
                out.push(SearchHit::of_record(row));
                proof {
                    let ext = latest_abs(suffix, limit as nat, p) + seq![db@[i as int]];
                    let new_hits = hits_abs(out@);
                    let tgt = hits_of_records(ext);
                    assert(new_hits.len() == tgt.len());
                    assert forall|j: int| 0 <= j < new_hits.len() implies new_hits[j] == tgt[j] by {
                        assert(new_hits[j] == out@[j]@);
                        assert(tgt[j] == hit_of(ext[j]));
                        if j < before.len() {
                            assert(out@[j] == before[j]);
                            assert(before[j]@ == hits_abs(before)[j]);
                            assert(hits_abs(before)[j] == hits_of_records(
                                latest_abs(suffix, limit as nat, p),
                            )[j]);
                            assert(ext[j] == latest_abs(suffix, limit as nat, p)[j]);
                        } else {
                            assert(out@[j]@ == hit_of(db@[i as int]));
                            assert(ext[j] == db@[i as int]);
                        }
                    }
                    assert(new_hits =~= tgt);
                }
            }
        }
        if i > 0 {
            proof {
                lemma_latest_saturated(db@.take(i as int), db@.skip(i as int), limit as nat, p);
                assert(db@.take(i as int) + db@.skip(i as int) =~= db@);
                assert(latest_abs(db@.skip(i as int), limit as nat, p).len() == out@.len());
            }
        } else {
            proof {
                assert(db@.skip(0) =~= db@);
            }
        }
        proof {
            if db.wf() {
                crate::store::lemma_latest_desc(db@, limit as nat, p);
                assert forall|a: int, b: int| 0 <= a < b < out@.len() implies out@[a]@.ts
                    >= out@[b]@.ts by {
                    assert(hits_abs(out@)[a] == hits_of_records(
                        latest_abs(db@, limit as nat, p),
                    )[a]);
                    assert(hits_abs(out@)[b] == hits_of_records(
                        latest_abs(db@, limit as nat, p),
                    )[b]);
                    assert(latest_abs(db@, limit as nat, p)[a].ts >= latest_abs(
                        db@,
                        limit as nat,
                        p,
                    )[b].ts);
                }
            }
        }
        out
    }
}

} // verus!
