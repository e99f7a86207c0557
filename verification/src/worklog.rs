//! The worklog store: dated, tagged time entries, their aggregate date
//! range maintained as min/max folds, the union of their tags, and
//! loading from CSV text.

use vstd::prelude::*;
use crate::dates::{DateTime, spec_start_secs, parse_start, DT_MIN_SECS, DT_MAX_SECS};
use crate::text::{split, trim, str_eq, parse_fixed2, spec_split, spec_trim, spec_parse_fixed2};

verus! {

broadcast use vstd::seq_lib::group_to_multiset_ensures, vstd::multiset::group_multiset_axioms;

/// Largest hours value of one record, in hundredths of an hour.
pub const HOURS_MAX: u64 = 10_000_000;

/// Largest hourly rate, in hundredths of a currency unit.
pub const RATE_MAX: u64 = 100_000_000;

/// Default hourly rate of a worklog, in hundredths of a currency unit.
pub const DEFAULT_RATE: u64 = 10_000;

/// Why a worklog row or file was rejected.
#[derive(Debug, Clone, Copy, PartialEq, Eq, Structural)]
pub enum WorklogError {
    /// The start text does not name a valid `MM/DD/YYYY HH:MM` time.
    InvalidStart,
    /// The hours text is not a fixed-point number within bounds.
    InvalidHours,
    /// The rate text is not a fixed-point number within bounds.
    InvalidRate,
    /// The CSV header lacks a required column.
    MissingColumn,
    /// A data row is shorter than the header.
    ShortRow,
    /// The CSV text could not be read at all.
    MalformedCsv,
}

/// The mathematical content of one time entry.
pub struct RecordView {
    pub tags: Seq<Seq<char>>,
    pub start: Seq<char>,
    pub begin: int,
    pub hours: int,
    pub rate: Option<int>,
    pub message: Seq<char>,
}

impl RecordView {
    /// End timestamp: begin plus the logged seconds (36 s per hundredth hour).
    pub open spec fn end(&self) -> int {
        self.begin + 36 * self.hours
    }

    pub open spec fn has_tag(&self, t: Seq<char>) -> bool {
        exists|i: int| 0 <= i < self.tags.len() && self.tags[i] == t
    }

    /// Net value in hundredths of a hundredth, using the record's own
    /// rate when present and the given default otherwise.
    pub open spec fn net(&self, dflt: int) -> int {
        self.hours * (match self.rate {
            Some(r) => r,
            None => dflt,
        })
    }

    pub open spec fn wf(&self) -> bool {
        &&& spec_start_secs(self.start) == Some(self.begin)
        &&& 0 <= self.hours <= HOURS_MAX
        &&& match self.rate {
            Some(r) => 0 <= r <= RATE_MAX,
            None => true,
        }
        &&& -62_167_219_200 <= self.begin <= 253_402_300_799
    }
}

/// One logged time entry: a set of tags, the start text and its parsed
/// timestamp, hours in hundredths, an optional rate in hundredths, and a
/// free-text message.
#[derive(Debug)]
pub struct WorklogRecord {
    pub(crate) tags: Vec<String>,
    pub(crate) start: String,
    pub(crate) start_dt: DateTime,
    pub(crate) hours: u64,
    pub(crate) rate: Option<u64>,
    pub(crate) message: String,
}

impl View for WorklogRecord {
    type V = RecordView;

    closed spec fn view(&self) -> RecordView {
        RecordView {
            tags: spec_tag_views(self.tags@),
            start: self.start@,
            begin: self.start_dt.secs as int,
            hours: self.hours as int,
            rate: match self.rate {
                Some(r) => Some(r as int),
                None => None,
            },
            message: self.message@,
        }
    }
}

impl WorklogRecord {
    /// A record built from already-split fields; the start text must
    /// parse and the numbers must lie within bounds.
    pub fn new(tags: Vec<String>, start: String, hours: u64, rate: Option<u64>, message: String)
        -> (r: Result<WorklogRecord, WorklogError>)
        ensures
            match r {
                Ok(rec) => {
                    &&& spec_start_secs(start@) is Some
                    &&& hours <= HOURS_MAX
                    &&& (rate matches Some(rr) ==> rr <= RATE_MAX)
                    &&& rec@ == (RecordView {
                        tags: spec_tag_views(tags@),
                        start: start@,
                        begin: spec_start_secs(start@)->Some_0,
                        hours: hours as int,
                        rate: match rate {
                            Some(rr) => Some(rr as int),
                            None => None,
                        },
                        message: message@,
                    })
                    &&& rec@.wf()
                },
                Err(e) => {
                    &&& (spec_start_secs(start@) is None || hours > HOURS_MAX || (
                    rate matches Some(rr) && rr > RATE_MAX))
                    &&& e == if spec_start_secs(start@) is None {
                        WorklogError::InvalidStart
                    } else if hours > HOURS_MAX {
                        WorklogError::InvalidHours
                    } else {
                        WorklogError::InvalidRate
                    }
                },
            },
    {
        let dt = match parse_start(start.as_str()) {
            Some(dt) => dt,
            None => {
                return Err(WorklogError::InvalidStart);
            },
        };
        if hours > HOURS_MAX {
            return Err(WorklogError::InvalidHours);
        }
        if let Some(rr) = rate {
            if rr > RATE_MAX {
                return Err(WorklogError::InvalidRate);
            }
        }
        Ok(WorklogRecord { tags, start, start_dt: dt, hours, rate, message })
    }

    pub fn begin_date(&self) -> (r: DateTime)
        requires
            self@.wf(),
        ensures
            r.secs == self@.begin,
            r.wf(),
    {
        self.start_dt
    }

    pub fn end_date(&self) -> (r: DateTime)
        requires
            self@.wf(),
        ensures
            r.secs == self@.end(),
            r.wf(),
    {
        DateTime { secs: self.start_dt.secs + 36 * self.hours as i64 }
    }

    pub fn has_tag(&self, tag: &str) -> (r: bool)
        ensures
            r == self@.has_tag(tag@),
    {
        let n = self.tags.len();
        let mut i: usize = 0;
        while i < n
            invariant
                n == self.tags@.len(),
                i <= n,
                forall|j: int| 0 <= j < i ==> #[trigger] self.tags@[j]@ != tag@,
            decreases n - i,
        {
            if str_eq(self.tags[i].as_str(), tag) {
                proof {
                    assert(self@.tags[i as int] == tag@);
                }
                return true;
            }
            i += 1;
        }
        proof {
            assert(forall|j: int| 0 <= j < self@.tags.len() ==> #[trigger] self@.tags[j]
                == self.tags@[j]@);
        }
        false
    }

    /// Net value in hundredths of a hundredth of a currency unit.
    pub fn net(&self, default_rate: u64) -> (r: u64)
        requires
            self@.wf(),
            default_rate <= RATE_MAX,
        ensures
            r == self@.net(default_rate as int),
    {
        let rate = match self.rate {
            Some(r) => r,
            None => default_rate,
        };
        proof {
            assert(self.hours as int * rate as int <= HOURS_MAX as int * RATE_MAX as int)
                by (nonlinear_arith)
                requires
                    self.hours <= HOURS_MAX,
                    rate <= RATE_MAX,
                    0 <= self.hours,
                    0 <= rate,
            ;
        }
        self.hours * rate
    }

    pub fn tags(&self) -> (r: &Vec<String>)
        ensures
            spec_tag_views(r@) == self@.tags,
    {
        &self.tags
    }

    pub fn start(&self) -> (r: &String)
        ensures
            r@ == self@.start,
    {
        &self.start
    }

    pub fn hours(&self) -> (r: u64)
        ensures
            r == self@.hours,
    {
        self.hours
    }

    pub fn rate(&self) -> (r: Option<u64>)
        ensures
            r == match self@.rate {
                Some(v) => Some(v as u64),
                None => None::<u64>,
            },
    {
        self.rate
    }

    pub fn message(&self) -> (r: &String)
        ensures
            r@ == self@.message,
    {
        &self.message
    }

    /// A structurally equal copy.
    pub fn duplicate(&self) -> (r: WorklogRecord)
        ensures
            r@ == self@,
    {
        let mut tags: Vec<String> = Vec::new();
        let n = self.tags.len();
        let mut i: usize = 0;
        while i < n
            invariant
                n == self.tags@.len(),
                i <= n,
                tags@.len() == i,
                forall|j: int| 0 <= j < i ==> tags@[j]@ == self.tags@[j]@,
            decreases n - i,
        {
            tags.push(self.tags[i].clone());
            i += 1;
        }
        let r = WorklogRecord {
            tags,
            start: self.start.clone(),
            start_dt: self.start_dt,
            hours: self.hours,
            rate: self.rate,
            message: self.message.clone(),
        };
        proof {
            assert(r@.tags =~= self@.tags);
            assert(r@ =~= self@);
        }
        r
    }
}

/// The minimum of all begin timestamps, or the upper sentinel when empty.
pub open spec fn spec_min_begin(rs: Seq<RecordView>) -> int
    decreases rs.len(),
{
    if rs.len() == 0 {
        DT_MAX_SECS as int
    } else {
        let prev = spec_min_begin(rs.drop_last());
        if rs.last().begin < prev {
            rs.last().begin
        } else {
            prev
        }
    }
}

/// The maximum of all end timestamps, or the lower sentinel when empty.
pub open spec fn spec_max_end(rs: Seq<RecordView>) -> int
    decreases rs.len(),
{
    if rs.len() == 0 {
        DT_MIN_SECS as int
    } else {
        let prev = spec_max_end(rs.drop_last());
        if rs.last().end() > prev {
            rs.last().end()
        } else {
            prev
        }
    }
}

pub open spec fn spec_tag_views(ts: Seq<String>) -> Seq<Seq<char>> {
    ts.map_values(|t: String| t@)
}

pub open spec fn spec_record_views(rs: Seq<WorklogRecord>) -> Seq<RecordView> {
    rs.map_values(|r: WorklogRecord| r@)
}

/// The records of `rs` that carry the tag `t`, in order.
pub proof fn lemma_tag_views_index(ts: Seq<String>)
    ensures
        spec_tag_views(ts).len() == ts.len(),
        forall|i: int| 0 <= i < ts.len() ==> #[trigger] spec_tag_views(ts)[i] == ts[i]@,
{
}

pub proof fn lemma_record_views_index(rs: Seq<WorklogRecord>)
    ensures
        spec_record_views(rs).len() == rs.len(),
        forall|i: int| 0 <= i < rs.len() ==> #[trigger] spec_record_views(rs)[i] == rs[i]@,
{
}

pub open spec fn spec_filter_tag(rs: Seq<RecordView>, t: Seq<char>) -> Seq<RecordView>
    decreases rs.len(),
{
    if rs.len() == 0 {
        rs
    } else {
        let prev = spec_filter_tag(rs.drop_last(), t);
        if rs.last().has_tag(t) {
            prev.push(rs.last())
        } else {
            prev
        }
    }
}

pub open spec fn spec_tags_has(ts: Seq<Seq<char>>, t: Seq<char>) -> bool {
    exists|i: int| 0 <= i < ts.len() && ts[i] == t
}

pub open spec fn spec_records_have(rs: Seq<RecordView>, t: Seq<char>) -> bool {
    exists|i: int| 0 <= i < rs.len() && rs[i].has_tag(t)
}

/// The tag list extended, in order, with the unseen tags of `new`.
pub open spec fn spec_add_tags(ts: Seq<Seq<char>>, new: Seq<Seq<char>>) -> Seq<Seq<char>>
    decreases new.len(),
{
    if new.len() == 0 {
        ts
    } else {
        let ts1 = if spec_tags_has(ts, new[0]) {
            ts
        } else {
            ts.push(new[0])
        };
        spec_add_tags(ts1, new.drop_first())
    }
}

proof fn lemma_add_tags_props(ts: Seq<Seq<char>>, new: Seq<Seq<char>>)
    requires
        forall|i: int, j: int| 0 <= i < j < ts.len() ==> ts[i] != ts[j],
    ensures
        forall|i: int, j: int|
            0 <= i < j < spec_add_tags(ts, new).len() ==> spec_add_tags(ts, new)[i]
                != spec_add_tags(ts, new)[j],
        forall|t: Seq<char>|
            #[trigger] spec_tags_has(spec_add_tags(ts, new), t) <==> (spec_tags_has(ts, t)
                || spec_tags_has(new, t)),
    decreases new.len(),
{
    if new.len() == 0 {
        assert(spec_add_tags(ts, new) == ts);
        assert(forall|t: Seq<char>| !(#[trigger] spec_tags_has(new, t)));
    } else {
        let ts1 = if spec_tags_has(ts, new[0]) {
            ts
        } else {
            ts.push(new[0])
        };
        assert(forall|i: int, j: int| 0 <= i < j < ts1.len() ==> ts1[i] != ts1[j]);
        lemma_add_tags_props(ts1, new.drop_first());
        assert(spec_add_tags(ts, new) == spec_add_tags(ts1, new.drop_first()));
        assert forall|t: Seq<char>|
            #[trigger] spec_tags_has(spec_add_tags(ts, new), t) <==> (spec_tags_has(ts, t)
                || spec_tags_has(new, t)) by {
            assert(spec_tags_has(spec_add_tags(ts1, new.drop_first()), t) <==> (spec_tags_has(
                ts1,
                t,
            ) || spec_tags_has(new.drop_first(), t)));
            assert(spec_tags_has(ts1, t) <==> spec_tags_has(ts, t) || new[0] == t) by {
                if spec_tags_has(ts1, t) && ts1 != ts {
                    let i = choose|i: int| 0 <= i < ts1.len() && ts1[i] == t;
                    if i < ts.len() {
                        assert(spec_tags_has(ts, t));
                    }
                }
                if spec_tags_has(ts, t) {
                    let i = choose|i: int| 0 <= i < ts.len() && ts[i] == t;
                    assert(ts1[i] == t);
                }
                if new[0] == t && !spec_tags_has(ts, t) {
                    assert(ts1[ts.len() as int] == t);
                }
            }
            assert(spec_tags_has(new, t) <==> new[0] == t || spec_tags_has(new.drop_first(), t))
                by {
                if spec_tags_has(new, t) {
                    let i = choose|i: int| 0 <= i < new.len() && new[i] == t;
                    if i > 0 {
                        assert(new.drop_first()[i - 1] == t);
                    }
                }
                if spec_tags_has(new.drop_first(), t) {
                    let i = choose|i: int|
                        0 <= i < new.drop_first().len() && new.drop_first()[i] == t;
                    assert(new[i + 1] == t);
                }
            }
        }
    }
}

/// The mathematical content of a worklog.
pub struct WorklogView {
    pub begin: int,
    pub end: int,
    pub records: Seq<RecordView>,
    pub tags: Seq<Seq<char>>,
    pub rate: int,
}

impl WorklogView {
    pub open spec fn wf(&self) -> bool {
        &&& forall|i: int| 0 <= i < self.records.len() ==> (#[trigger] self.records[i]).wf()
        &&& self.begin == spec_min_begin(self.records)
        &&& self.end == spec_max_end(self.records)
        &&& forall|i: int, j: int| 0 <= i < j < self.tags.len() ==> self.tags[i] != self.tags[j]
        &&& forall|i: int|
            0 <= i < self.tags.len() ==> spec_records_have(self.records, #[trigger] self.tags[i])
        &&& forall|i: int, k: int|
            0 <= i < self.records.len() && 0 <= k < self.records[i].tags.len() ==> spec_tags_has(
                self.tags,
                #[trigger] self.records[i].tags[k],
            )
        &&& 0 <= self.rate <= RATE_MAX
    }
}

/// Every record's dates lie within the worklog's range; an empty worklog
/// carries the sentinel range; a non-empty one attains both bounds.
pub proof fn lemma_worklog_range(v: WorklogView)
    requires
        v.wf(),
    ensures
        forall|i: int|
            0 <= i < v.records.len() ==> v.begin <= (#[trigger] v.records[i]).begin
                && v.records[i].end() <= v.end,
        v.records.len() == 0 ==> v.begin == DT_MAX_SECS as int && v.end == DT_MIN_SECS as int,
        v.records.len() > 0 ==> (exists|i: int|
            0 <= i < v.records.len() && v.begin == (#[trigger] v.records[i]).begin),
        v.records.len() > 0 ==> (exists|i: int|
            0 <= i < v.records.len() && v.end == (#[trigger] v.records[i]).end()),
{
    lemma_min_begin_props(v.records);
    lemma_max_end_props(v.records);
}

proof fn lemma_min_begin_props(rs: Seq<RecordView>)
    ensures
        forall|i: int| 0 <= i < rs.len() ==> spec_min_begin(rs) <= (#[trigger] rs[i]).begin,
        spec_min_begin(rs) <= DT_MAX_SECS as int,
        rs.len() > 0 ==> spec_min_begin(rs) == DT_MAX_SECS as int || (exists|i: int|
            0 <= i < rs.len() && spec_min_begin(rs) == (#[trigger] rs[i]).begin),
        rs.len() > 0 && (forall|i: int|
            0 <= i < rs.len() ==> (#[trigger] rs[i]).begin < DT_MAX_SECS as int) ==> (exists|
            i: int,
        |
            0 <= i < rs.len() && spec_min_begin(rs) == (#[trigger] rs[i]).begin),
    decreases rs.len(),
{
    if rs.len() > 0 {
        lemma_min_begin_props(rs.drop_last());
        assert(forall|i: int| 0 <= i < rs.len() - 1 ==> rs.drop_last()[i] == rs[i]);
        let m = spec_min_begin(rs);
        if rs.last().begin < spec_min_begin(rs.drop_last()) {
            assert(m == rs[rs.len() - 1].begin);
        } else {
            if rs.len() > 1 && spec_min_begin(rs.drop_last()) != DT_MAX_SECS as int {
                let i = choose|i: int|
                    0 <= i < rs.drop_last().len() && spec_min_begin(rs.drop_last()) == (
                    #[trigger] rs.drop_last()[i]).begin;
                assert(m == rs[i].begin);
            }
        }
    }
}

proof fn lemma_max_end_props(rs: Seq<RecordView>)
    ensures
        forall|i: int| 0 <= i < rs.len() ==> (#[trigger] rs[i]).end() <= spec_max_end(rs),
        spec_max_end(rs) >= DT_MIN_SECS as int,
        rs.len() > 0 ==> spec_max_end(rs) == DT_MIN_SECS as int || (exists|i: int|
            0 <= i < rs.len() && spec_max_end(rs) == (#[trigger] rs[i]).end()),
        rs.len() > 0 && (forall|i: int|
            0 <= i < rs.len() ==> (#[trigger] rs[i]).end() > DT_MIN_SECS as int) ==> (exists|
            i: int,
        |
            0 <= i < rs.len() && spec_max_end(rs) == (#[trigger] rs[i]).end()),
    decreases rs.len(),
{
    if rs.len() > 0 {
        lemma_max_end_props(rs.drop_last());
        assert(forall|i: int| 0 <= i < rs.len() - 1 ==> rs.drop_last()[i] == rs[i]);
        let m = spec_max_end(rs);
        if rs.last().end() > spec_max_end(rs.drop_last()) {
            assert(m == rs[rs.len() - 1].end());
        } else {
            if rs.len() > 1 && spec_max_end(rs.drop_last()) != DT_MIN_SECS as int {
                let i = choose|i: int|
                    0 <= i < rs.drop_last().len() && spec_max_end(rs.drop_last()) == (
                    #[trigger] rs.drop_last()[i]).end();
                assert(m == rs[i].end());
            }
        }
    }
}

/// The worklog date range depends only on which records are present, not
/// on the order in which they were added.
proof fn lemma_minmax_order_independent(rs1: Seq<RecordView>, rs2: Seq<RecordView>)
    requires
        rs1.to_multiset() == rs2.to_multiset(),
    ensures
        spec_min_begin(rs1) == spec_min_begin(rs2),
        spec_max_end(rs1) == spec_max_end(rs2),
{
    broadcast use vstd::seq_lib::group_to_multiset_ensures;

    lemma_min_begin_props(rs1);
    lemma_min_begin_props(rs2);
    lemma_max_end_props(rs1);
    lemma_max_end_props(rs2);
    assert(rs1.len() == rs1.to_multiset().len());
    assert(rs2.len() == rs2.to_multiset().len());
    assert(rs1.len() == rs2.len());
    if rs1.len() > 0 {
        assert(spec_min_begin(rs2) <= spec_min_begin(rs1)) by {
            if spec_min_begin(rs1) != DT_MAX_SECS as int {
                let i = choose|i: int|
                    0 <= i < rs1.len() && spec_min_begin(rs1) == (
                    #[trigger] rs1[i]).begin;
                assert(rs1.contains(rs1[i]));
                assert(rs1.to_multiset().count(rs1[i]) > 0);
                assert(rs2.to_multiset().count(rs1[i]) > 0);
                assert(rs2.contains(rs1[i]));
                let j = choose|j: int| 0 <= j < rs2.len() && rs2[j] == rs1[i];
                assert(spec_min_begin(rs2) <= rs2[j].begin);
            }
        }
        assert(spec_min_begin(rs1) <= spec_min_begin(rs2)) by {
            if spec_min_begin(rs2) != DT_MAX_SECS as int {
                let i = choose|i: int|
                    0 <= i < rs2.len() && spec_min_begin(rs2) == (
                    #[trigger] rs2[i]).begin;
                assert(rs2.contains(rs2[i]));
                assert(rs2.to_multiset().count(rs2[i]) > 0);
                assert(rs1.to_multiset().count(rs2[i]) > 0);
                assert(rs1.contains(rs2[i]));
                let j = choose|j: int| 0 <= j < rs1.len() && rs1[j] == rs2[i];
                assert(spec_min_begin(rs1) <= rs1[j].begin);
            }
        }
        assert(spec_max_end(rs2) >= spec_max_end(rs1)) by {
            if spec_max_end(rs1) != DT_MIN_SECS as int {
                let i = choose|i: int|
                    0 <= i < rs1.len() && spec_max_end(rs1) == (
                    #[trigger] rs1[i]).end();
                assert(rs1.contains(rs1[i]));
                assert(rs1.to_multiset().count(rs1[i]) > 0);
                assert(rs2.to_multiset().count(rs1[i]) > 0);
                assert(rs2.contains(rs1[i]));
                let j = choose|j: int| 0 <= j < rs2.len() && rs2[j] == rs1[i];
                assert(rs2[j].end() <= spec_max_end(rs2));
            }
        }
        assert(spec_max_end(rs1) >= spec_max_end(rs2)) by {
            if spec_max_end(rs2) != DT_MIN_SECS as int {
                let i = choose|i: int|
                    0 <= i < rs2.len() && spec_max_end(rs2) == (
                    #[trigger] rs2[i]).end();
                assert(rs2.contains(rs2[i]));
                assert(rs2.to_multiset().count(rs2[i]) > 0);
                assert(rs1.to_multiset().count(rs2[i]) > 0);
                assert(rs1.contains(rs2[i]));
                let j = choose|j: int| 0 <= j < rs1.len() && rs1[j] == rs2[i];
                assert(rs1[j].end() <= spec_max_end(rs1));
            }
        }
    }
}


/// Whether some record carries a tag depends only on which records are
/// present, not on their order.
proof fn lemma_have_order_independent(rs1: Seq<RecordView>, rs2: Seq<RecordView>)
    requires
        rs1.to_multiset() == rs2.to_multiset(),
    ensures
        forall|t: Seq<char>| #[trigger] spec_records_have(rs1, t) == spec_records_have(rs2, t),
{
    broadcast use vstd::seq_lib::group_to_multiset_ensures;

    assert forall|t: Seq<char>|
        #[trigger] spec_records_have(rs1, t) == spec_records_have(rs2, t) by {
        if spec_records_have(rs1, t) {
            let i = choose|i: int| 0 <= i < rs1.len() && rs1[i].has_tag(t);
            assert(rs1.contains(rs1[i]));
            assert(rs1.to_multiset().count(rs1[i]) > 0);
            assert(rs2.to_multiset().count(rs1[i]) > 0);
            assert(rs2.contains(rs1[i]));
            let j = choose|j: int| 0 <= j < rs2.len() && rs2[j] == rs1[i];
            assert(rs2[j].has_tag(t));
        }
        if spec_records_have(rs2, t) {
            let i = choose|i: int| 0 <= i < rs2.len() && rs2[i].has_tag(t);
            assert(rs2.contains(rs2[i]));
            assert(rs2.to_multiset().count(rs2[i]) > 0);
            assert(rs1.to_multiset().count(rs2[i]) > 0);
            assert(rs1.contains(rs2[i]));
            let j = choose|j: int| 0 <= j < rs1.len() && rs1[j] == rs2[i];
            assert(rs1[j].has_tag(t));
        }
    }
}

/// The worklog date range depends only on which records are present, not
/// on the order in which they were added.
pub proof fn lemma_range_order_independent(v1: WorklogView, v2: WorklogView)
    requires
        v1.wf(),
        v2.wf(),
        v1.records.to_multiset() == v2.records.to_multiset(),
    ensures
        v1.begin == v2.begin,
        v1.end == v2.end,
{
    lemma_minmax_order_independent(v1.records, v2.records);
}

/// Addition capped at the largest 64-bit value.
pub open spec fn spec_sat_add(a: int, b: int) -> int {
    if a + b > u64::MAX {
        u64::MAX as int
    } else {
        a + b
    }
}

/// The capped sum of all record net values under a default rate.
pub open spec fn spec_sum_nets(rs: Seq<RecordView>, dflt: int) -> int
    decreases rs.len(),
{
    if rs.len() == 0 {
        0
    } else {
        spec_sat_add(spec_sum_nets(rs.drop_last(), dflt), rs.last().net(dflt))
    }
}

/// The records stand in non-decreasing order of their begin timestamps.
pub open spec fn spec_sorted_by_begin(rs: Seq<RecordView>) -> bool {
    forall|i: int, j: int| 0 <= i < j < rs.len() ==> rs[i].begin <= rs[j].begin
}

/// An ordered collection of worklog records with derived aggregates: the
/// spanned date range, the union of all tags, and a fallback rate.
#[derive(Debug)]
pub struct Worklog {
    pub(crate) begin_date: DateTime,
    pub(crate) end_date: DateTime,
    pub(crate) records: Vec<WorklogRecord>,
    pub(crate) tags: Vec<String>,
    pub(crate) rate: u64,
}

impl View for Worklog {
    type V = WorklogView;

    closed spec fn view(&self) -> WorklogView {
        WorklogView {
            begin: self.begin_date.secs as int,
            end: self.end_date.secs as int,
            records: spec_record_views(self.records@),
            tags: spec_tag_views(self.tags@),
            rate: self.rate as int,
        }
    }
}

impl Worklog {
    /// An empty worklog with the sentinel date range and the default rate.
    pub fn new() -> (r: Worklog)
        ensures
            r@.wf(),
            r@.records.len() == 0,
            r@.tags.len() == 0,
            r@.begin == DT_MAX_SECS as int,
            r@.end == DT_MIN_SECS as int,
            r@.rate == DEFAULT_RATE as int,
    {
        Worklog {
            begin_date: DateTime::max_value(),
            end_date: DateTime::min_value(),
            records: Vec::new(),
            tags: Vec::new(),
            rate: DEFAULT_RATE,
        }
    }

    pub fn rate(&self) -> (r: u64)
        ensures
            r == self@.rate,
    {
        self.rate
    }

    pub fn set_rate(&mut self, rate: u64)
        requires
            rate <= RATE_MAX,
        ensures
            final(self)@ == (WorklogView { rate: rate as int, ..old(self)@ }),
            old(self)@.wf() ==> final(self)@.wf(),
    {
        self.rate = rate;
    }

    pub fn tags(&self) -> (r: &Vec<String>)
        ensures
            spec_tag_views(r@) == self@.tags,
    {
        &self.tags
    }

    pub fn records(&self) -> (r: &Vec<WorklogRecord>)
        ensures
            spec_record_views(r@) == self@.records,
    {
        &self.records
    }

    pub fn begin_date(&self) -> (r: DateTime)
        ensures
            r.secs == self@.begin,
    {
        self.begin_date
    }

    pub fn end_date(&self) -> (r: DateTime)
        ensures
            r.secs == self@.end,
    {
        self.end_date
    }

    pub fn len(&self) -> (r: usize)
        ensures
            r == self@.records.len(),
    {
        self.records.len()
    }

    /// Adds a record: the date range widens by min/max, the record's tags
    /// are united into the tag list, and the record is appended.
    pub fn add_record(&mut self, record: WorklogRecord)
        requires
            old(self)@.wf(),
            record@.wf(),
        ensures
            final(self)@.wf(),
            final(self)@.records == old(self)@.records.push(record@),
            final(self)@.begin == if record@.begin < old(self)@.begin {
                record@.begin
            } else {
                old(self)@.begin
            },
            final(self)@.end == if record@.end() > old(self)@.end {
                record@.end()
            } else {
                old(self)@.end
            },
            final(self)@.tags == spec_add_tags(old(self)@.tags, record@.tags),
            final(self)@.rate == old(self)@.rate,
    {
        let ghost old_view = self@;
        let rb = record.begin_date();
        if rb.secs < self.begin_date.secs {
            self.begin_date = rb;
        }
        let re = record.end_date();
        if re.secs > self.end_date.secs {
            self.end_date = re;
        }
        let ghost mid_begin = self.begin_date;
        let ghost mid_end = self.end_date;
        let n = record.tags.len();
        let mut k: usize = 0;
        proof {
            assert(record@.tags.skip(0) =~= record@.tags);
            assert(record@.tags.take(0) =~= Seq::<Seq<char>>::empty());
            assert(old_view.tags == spec_tag_views(self.tags@));
            assert(forall|j: int|
                0 <= j < record@.tags.len() ==> record@.tags[j] == #[trigger] record.tags@[j]@);
        }
        while k < n
            invariant
                n == record.tags@.len(),
                n == record@.tags.len(),
                k <= n,
                old_view == old(self)@,
                old_view.wf(),
                record@.wf(),
                self.records@ == old(self).records@,
                self.rate == old(self).rate,
                self.begin_date == mid_begin,
                self.end_date == mid_end,
                mid_begin.secs as int == (if record@.begin < old_view.begin {
                    record@.begin
                } else {
                    old_view.begin
                }),
                mid_end.secs as int == (if record@.end() > old_view.end {
                    record@.end()
                } else {
                    old_view.end
                }),
                forall|j: int| 0 <= j < n ==> record@.tags[j] == #[trigger] record.tags@[j]@,
                forall|i: int, j: int|
                    0 <= i < j < spec_tag_views(self.tags@).len() ==> spec_tag_views(
                        self.tags@,
                    )[i] != spec_tag_views(self.tags@)[j],
                spec_add_tags(old_view.tags, record@.tags) == spec_add_tags(
                    spec_tag_views(self.tags@),
                    record@.tags.skip(k as int),
                ),
                forall|t: Seq<char>|
                    #[trigger] spec_tags_has(spec_tag_views(self.tags@), t) <==> (
                    spec_tags_has(old_view.tags, t) || spec_tags_has(record@.tags.take(k as int), t)),
            decreases n - k,
        {
            let ghost cur = spec_tag_views(self.tags@);
            let tag_k = &record.tags[k];
            let mut present = false;
            let m = self.tags.len();
            let mut q: usize = 0;
            while q < m
                invariant
                    m == self.tags@.len(),
                    q <= m,
                    present <==> exists|j: int| 0 <= j < q && self.tags@[j]@ == tag_k@,
                decreases m - q,
            {
                if str_eq(self.tags[q].as_str(), tag_k.as_str()) {
                    present = true;
                }
                q += 1;
            }
            proof {
                assert(present <==> spec_tags_has(cur, tag_k@)) by {
                    if present {
                        let j = choose|j: int| 0 <= j < m && self.tags@[j]@ == tag_k@;
                        assert(cur[j] == tag_k@);
                    }
                    if spec_tags_has(cur, tag_k@) {
                        let j = choose|j: int| 0 <= j < cur.len() && cur[j] == tag_k@;
                        assert(self.tags@[j]@ == tag_k@);
                    }
                }
                assert(record@.tags.skip(k as int)[0] == record@.tags[k as int]);
                assert(record@.tags[k as int] == tag_k@);
                assert(record@.tags.skip(k as int).drop_first() =~= record@.tags.skip(k + 1));
            }
            if !present {
                self.tags.push(tag_k.clone());
                proof {
                    assert(spec_tag_views(self.tags@) =~= cur.push(tag_k@));
                }
            }
            proof {
                let cur1 = spec_tag_views(self.tags@);
                assert(spec_add_tags(cur, record@.tags.skip(k as int)) == spec_add_tags(
                    cur1,
                    record@.tags.skip(k + 1),
                ));
                assert forall|t: Seq<char>| #[trigger] spec_tags_has(cur1, t) <==> (spec_tags_has(
                    old_view.tags,
                    t,
                ) || spec_tags_has(record@.tags.take(k + 1), t)) by {
                    assert(spec_tags_has(cur1, t) <==> spec_tags_has(cur, t) || (!spec_tags_has(
                        cur,
                        tag_k@,
                    ) && tag_k@ == t)) by {
                        if spec_tags_has(cur1, t) && cur1 != cur {
                            let i = choose|i: int| 0 <= i < cur1.len() && cur1[i] == t;
                            if i < cur.len() {
                                assert(spec_tags_has(cur, t));
                            }
                        }
                        if spec_tags_has(cur, t) && cur1 != cur {
                            let i = choose|i: int| 0 <= i < cur.len() && cur[i] == t;
                            assert(cur1[i] == t);
                        }
                        if !spec_tags_has(cur, tag_k@) && tag_k@ == t {
                            assert(cur1[cur.len() as int] == t);
                        }
                    }
                    assert(spec_tags_has(record@.tags.take(k + 1), t) <==> spec_tags_has(
                        record@.tags.take(k as int),
                        t,
                    ) || record@.tags[k as int] == t) by {
                        let tk = record@.tags.take(k + 1);
                        let tk0 = record@.tags.take(k as int);
                        if spec_tags_has(tk, t) {
                            let i = choose|i: int| 0 <= i < tk.len() && tk[i] == t;
                            if i < k {
                                assert(tk0[i] == t);
                            }
                        }
                        if spec_tags_has(tk0, t) {
                            let i = choose|i: int| 0 <= i < tk0.len() && tk0[i] == t;
                            assert(tk[i] == t);
                        }
                        if record@.tags[k as int] == t {
                            assert(tk[k as int] == t);
                        }
                    }
                }
            }
            k += 1;
        }
        self.records.push(record);
        proof {
            assert(record@.tags.skip(n as int) =~= Seq::<Seq<char>>::empty());
            assert(record@.tags.take(n as int) =~= record@.tags);
            lemma_record_views_index(self.records@);
            lemma_record_views_index(old(self).records@);
            assert(self@.records =~= old_view.records.push(record@));
            let newrecs = old_view.records.push(record@);
            assert(newrecs.drop_last() =~= old_view.records);
            assert(newrecs.last() == record@);
            assert(self@.begin == spec_min_begin(newrecs)) by {
                assert(spec_min_begin(newrecs) == if record@.begin < spec_min_begin(
                    old_view.records,
                ) {
                    record@.begin
                } else {
                    spec_min_begin(old_view.records)
                });
            }
            assert(self@.end == spec_max_end(newrecs)) by {
                assert(spec_max_end(newrecs) == if record@.end() > spec_max_end(old_view.records) {
                    record@.end()
                } else {
                    spec_max_end(old_view.records)
                });
            }
            let ftags = self@.tags;
            assert forall|i: int|
                0 <= i < ftags.len() implies spec_records_have(
                newrecs,
                #[trigger] ftags[i],
            ) by {
                assert(spec_tags_has(ftags, ftags[i]));
                if spec_tags_has(old_view.tags, ftags[i]) {
                    assert(spec_records_have(old_view.records, ftags[i]));
                    let j = choose|j: int|
                        0 <= j < old_view.records.len() && old_view.records[j].has_tag(ftags[i]);
                    assert(newrecs[j].has_tag(ftags[i]));
                } else {
                    assert(spec_tags_has(record@.tags, ftags[i]));
                    assert(newrecs[newrecs.len() - 1].has_tag(ftags[i]));
                }
            }
            assert forall|i: int, kk: int|
                0 <= i < newrecs.len() && 0 <= kk < newrecs[i].tags.len() implies spec_tags_has(
                ftags,
                #[trigger] newrecs[i].tags[kk],
            ) by {
                if i < old_view.records.len() {
                    assert(spec_tags_has(old_view.tags, newrecs[i].tags[kk]));
                } else {
                    assert(newrecs[i] == record@);
                    assert(spec_tags_has(record@.tags, newrecs[i].tags[kk]));
                }
            }
        }
    }

    /// Every record of `other` added in order, as if by repeated
    /// `add_record` calls.
    pub fn append(&mut self, other: &Worklog)
        requires
            old(self)@.wf(),
            other@.wf(),
        ensures
            final(self)@.wf(),
            final(self)@.records == old(self)@.records + other@.records,
            final(self)@.rate == old(self)@.rate,
    {
        let n = other.records.len();
        let mut i: usize = 0;
        while i < n
            invariant
                n == other.records@.len(),
                i <= n,
                self@.wf(),
                other@.wf(),
                self@.records =~= old(self)@.records + other@.records.take(i as int),
                self@.rate == old(self)@.rate,
            decreases n - i,
        {
            proof {
                assert(other@.records[i as int] == other.records@[i as int]@);
            }
            let rec = other.records[i].duplicate();
            self.add_record(rec);
            proof {
                assert(self@.records =~= old(self)@.records + other@.records.take(i + 1));
            }
            i += 1;
        }
        proof {
            assert(other@.records.take(n as int) =~= other@.records);
        }
    }

    /// A new worklog holding exactly the records that carry `tag`, with
    /// its own recomputed range and tag set and the default rate.
    pub fn from_records_with_tag(&self, tag: &str) -> (r: Worklog)
        requires
            self@.wf(),
        ensures
            r@.wf(),
            r@.records == spec_filter_tag(self@.records, tag@),
            r@.rate == DEFAULT_RATE as int,
    {
        let mut out = Worklog::new();
        let n = self.records.len();
        proof {
            assert(spec_filter_tag(self@.records.take(0), tag@) =~= Seq::<RecordView>::empty());
        }
        let mut i: usize = 0;
        while i < n
            invariant
                n == self.records@.len(),
                i <= n,
                self@.wf(),
                out@.wf(),
                out@.records =~= spec_filter_tag(self@.records.take(i as int), tag@),
                out@.rate == DEFAULT_RATE as int,
            decreases n - i,
        {
            proof {
                assert(self@.records[i as int] == self.records@[i as int]@);
                assert(self@.records.take(i + 1).drop_last() =~= self@.records.take(i as int));
                assert(self@.records.take(i + 1).last() == self@.records[i as int]);
            }
            if self.records[i].has_tag(tag) {
                let rec = self.records[i].duplicate();
                out.add_record(rec);
            }
            proof {
                assert(out@.records =~= spec_filter_tag(self@.records.take(i + 1), tag@));
            }
            i += 1;
        }
        proof {
            assert(self@.records.take(n as int) =~= self@.records);
        }
        out
    }

    /// Saturating sum of all record net values, using the worklog's
    /// fallback rate for records without one.
    pub fn sum(&self) -> (r: u64)
        requires
            self@.wf(),
        ensures
            r == spec_sum_nets(self@.records, self@.rate),
    {
        let n = self.records.len();
        let mut acc: u64 = 0;
        proof {
            assert(self@.records.take(0) =~= Seq::<RecordView>::empty());
        }
        let mut i: usize = 0;
        while i < n
            invariant
                self@.wf(),
                n == self.records@.len(),
                i <= n,
                acc == spec_sum_nets(self@.records.take(i as int), self@.rate),
            decreases n - i,
        {
            proof {
                assert(self@.records[i as int] == self.records@[i as int]@);
                assert(self@.records.take(i + 1).drop_last() =~= self@.records.take(i as int));
                assert(self@.records.take(i + 1).last() == self@.records[i as int]);
            }
            let net = self.records[i].net(self.rate);
            if acc > u64::MAX - net {
                acc = u64::MAX;
            } else {
                acc = acc + net;
            }
            i += 1;
        }
        proof {
            assert(self@.records.take(n as int) =~= self@.records);
        }
        acc
    }

    /// Reorders the records by start time, ascending. Everything else,
    /// including the derived range and tag set, is unchanged.
    pub fn sort(&mut self)
        requires
            old(self)@.wf(),
        ensures
            final(self)@.wf(),
            spec_sorted_by_begin(final(self)@.records),
            final(self)@.records.to_multiset() == old(self)@.records.to_multiset(),
            final(self)@.begin == old(self)@.begin,
            final(self)@.end == old(self)@.end,
            final(self)@.tags == old(self)@.tags,
            final(self)@.rate == old(self)@.rate,
    {
        broadcast use vstd::seq_lib::group_to_multiset_ensures;

        let ghost old_view = self@;
        let mut rest: Vec<WorklogRecord> = Vec::new();
        core::mem::swap(&mut rest, &mut self.records);
        let ghost orig = spec_record_views(rest@);
        let mut out: Vec<WorklogRecord> = Vec::new();
        proof {
            lemma_record_views_index(rest@);
            lemma_record_views_index(out@);
            assert(spec_record_views(out@).to_multiset().add(
                spec_record_views(rest@).to_multiset(),
            ) =~= orig.to_multiset());
        }
        while rest.len() > 0
            invariant
                spec_record_views(out@).to_multiset().add(
                    spec_record_views(rest@).to_multiset(),
                ) == orig.to_multiset(),
                spec_sorted_by_begin(spec_record_views(out@)),
                forall|i: int, j: int|
                    0 <= i < out@.len() && 0 <= j < rest@.len() ==> #[trigger] out@[i]@.begin
                        <= #[trigger] rest@[j]@.begin,
            decreases rest.len(),
        {
            let m = rest.len();
            let mut mi: usize = 0;
            let mut q: usize = 1;
            while q < m
                invariant
                    m == rest@.len(),
                    mi < m,
                    q <= m,
                    forall|j: int| 0 <= j < q ==> rest@[mi as int]@.begin <= #[trigger] rest@[j]@.begin,
                decreases m - q,
            {
                if rest[q].start_dt.secs < rest[mi].start_dt.secs {
                    mi = q;
                }
                q += 1;
            }
            let ghost rest_before = rest@;
            let ghost out_before = out@;
            let x = rest.remove(mi);
            out.push(x);
            proof {
                lemma_record_views_index(rest_before);
                lemma_record_views_index(rest@);
                lemma_record_views_index(out_before);
                lemma_record_views_index(out@);
                let rv = rest_before[mi as int]@;
                assert(spec_record_views(rest_before)[mi as int] == rv);
                vstd::seq_lib::to_multiset_remove(spec_record_views(rest_before), mi as int);
                vstd::seq_lib::to_multiset_build(spec_record_views(out_before), rv);
                assert(spec_record_views(rest_before).contains(rv));
                assert(spec_record_views(rest_before).to_multiset().count(rv) > 0);
                assert(spec_record_views(rest@) =~= spec_record_views(rest_before).remove(
                    mi as int,
                ));
                assert(spec_record_views(out@) =~= spec_record_views(out_before).push(rv));
                assert(spec_record_views(rest_before).remove(mi as int).to_multiset()
                    =~= spec_record_views(rest_before).to_multiset().remove(rv));
                assert(spec_record_views(rest@).to_multiset() =~= spec_record_views(
                    rest_before,
                ).to_multiset().remove(rv));
                assert(spec_record_views(out_before).push(rv).to_multiset()
                    =~= spec_record_views(out_before).to_multiset().insert(rv));
                assert(spec_record_views(out@).to_multiset() =~= spec_record_views(
                    out_before,
                ).to_multiset().insert(rv));
                assert(spec_record_views(out@).to_multiset().add(
                    spec_record_views(rest@).to_multiset(),
                ) =~= orig.to_multiset());
                assert forall|i: int, j: int|
                    0 <= i < out@.len() && 0 <= j < rest@.len() implies #[trigger] out@[i]@.begin
                        <= #[trigger] rest@[j]@.begin by {
                    if j < mi {
                        assert(rest@[j] == rest_before[j]);
                    } else {
                        assert(rest@[j] == rest_before[j + 1]);
                    }
                    if i < out_before.len() {
                        assert(out@[i] == out_before[i]);
                    } else {
                        assert(out@[i] == rest_before[mi as int]);
                    }
                }
                assert(spec_sorted_by_begin(spec_record_views(out@)));
            }
        }
        core::mem::swap(&mut out, &mut self.records);
        proof {
            lemma_record_views_index(self.records@);
            assert(spec_record_views(rest@).to_multiset().len() == 0);
            assert(self@.records.to_multiset() =~= orig.to_multiset());
            assert(orig =~= old_view.records);
            lemma_minmax_order_independent(self@.records, old_view.records);
            lemma_have_order_independent(self@.records, old_view.records);
            assert(self@.tags == old_view.tags);
            assert(self@.begin == old_view.begin);
            assert(self@.end == old_view.end);
            assert(spec_sorted_by_begin(self@.records));
            assert forall|i: int|
                0 <= i < self@.tags.len() implies spec_records_have(
                self@.records,
                #[trigger] self@.tags[i],
            ) by {
                assert(spec_records_have(old_view.records, self@.tags[i]));
            }
            assert forall|i: int| 0 <= i < self@.records.len() implies (
            #[trigger] self@.records[i]).wf() by {
                assert(self@.records.contains(self@.records[i]));
                assert(self@.records.to_multiset().count(self@.records[i]) > 0);
                assert(old_view.records.to_multiset().count(self@.records[i]) > 0);
                assert(old_view.records.contains(self@.records[i]));
                let j = choose|j: int|
                    0 <= j < old_view.records.len() && old_view.records[j] == self@.records[i];
                assert(old_view.records[j].wf());
            }
            assert forall|i: int, k: int|
                0 <= i < self@.records.len() && 0 <= k < self@.records[i].tags.len()
                    implies spec_tags_has(self@.tags, #[trigger] self@.records[i].tags[k]) by {
                assert(self@.records[i].has_tag(self@.records[i].tags[k]));
                assert(spec_records_have(self@.records, self@.records[i].tags[k]));
                assert(spec_records_have(old_view.records, self@.records[i].tags[k]));
                let j = choose|j: int|
                    0 <= j < old_view.records.len() && old_view.records[j].has_tag(
                        self@.records[i].tags[k],
                    );
                let kk = choose|kk: int|
                    0 <= kk < old_view.records[j].tags.len() && old_view.records[j].tags[kk]
                        == self@.records[i].tags[k];
                assert(spec_tags_has(old_view.tags, old_view.records[j].tags[kk]));
            }
        }
    }

}

/// The header fields of a CSV text and its data rows, as the csv crate
/// reads them; `None` when the reader reports any error.
pub uninterp spec fn spec_csv_parse(data: Seq<u8>) -> Option<(Seq<Seq<char>>, Seq<Seq<Seq<char>>>)>;

pub open spec fn spec_row_views(rows: Seq<Vec<String>>) -> Seq<Seq<Seq<char>>> {
    rows.map_values(|r: Vec<String>| spec_tag_views(r@))
}

/// Relies on csv's ReaderBuilder::from_reader, Reader::headers and
/// Reader::records: the header and rows read from a byte text depend on
/// the bytes alone, and any read error is reported as an `Err` value.
#[verifier::external_body]
fn csv_parse(data: &[u8]) -> (r: Option<(Vec<String>, Vec<Vec<String>>)>)
    ensures
        match r {
            Some(hr) => spec_csv_parse(data@) == Some(
                (spec_tag_views(hr.0@), spec_row_views(hr.1@)),
            ),
            None => spec_csv_parse(data@) is None,
        },
{
    let mut rdr = csv::ReaderBuilder::new().from_reader(data);
    let headers: Vec<String> = match rdr.headers() {
        Ok(h) => h.iter().map(|f| f.to_string()).collect(),
        Err(_) => return None,
    };
    let mut rows: Vec<Vec<String>> = Vec::new();
    for rec in rdr.records() {
        match rec {
            Ok(rr) => rows.push(rr.iter().map(|f| f.to_string()).collect()),
            Err(_) => return None,
        }
    }
    Some((headers, rows))
}

/// The position of the first header field equal to `name`.
pub open spec fn spec_opt_col(h: Seq<Seq<char>>, name: Seq<char>) -> Option<int>
    decreases h.len(),
{
    if h.len() == 0 {
        None
    } else if h[0] == name {
        Some(0)
    } else {
        match spec_opt_col(h.drop_first(), name) {
            None => None,
            Some(i) => Some(i + 1),
        }
    }
}

proof fn lemma_opt_col_at(h: Seq<Seq<char>>, name: Seq<char>, j: int)
    requires
        0 <= j <= h.len(),
        forall|l: int| 0 <= l < j ==> h[l] != name,
        j < h.len() ==> h[j] == name,
    ensures
        j < h.len() ==> spec_opt_col(h, name) == Some(j),
        j == h.len() ==> spec_opt_col(h, name) is None,
    decreases j + 1,
{
    if h.len() == 0 {
    } else if h[0] == name {
        assert(j == 0);
    } else {
        assert(forall|l: int| 0 <= l < j - 1 ==> h.drop_first()[l] == h[l + 1]);
        if j < h.len() {
            assert(h.drop_first()[j - 1] == h[j]);
        }
        lemma_opt_col_at(h.drop_first(), name, j - 1);
    }
}

fn find_col(headers: &Vec<String>, name: &str) -> (r: Option<usize>)
    ensures
        match r {
            Some(i) => spec_opt_col(spec_tag_views(headers@), name@) == Some(i as int) && i
                < headers@.len(),
            None => spec_opt_col(spec_tag_views(headers@), name@) is None,
        },
{
    proof {
        lemma_tag_views_index(headers@);
    }
    let n = headers.len();
    let mut j: usize = 0;
    while j < n
        invariant
            n == headers@.len(),
            j <= n,
            forall|l: int| 0 <= l < j ==> spec_tag_views(headers@)[l] != name@,
        decreases n - j,
    {
        if str_eq(headers[j].as_str(), name) {
            proof {
                lemma_tag_views_index(headers@);
                lemma_opt_col_at(spec_tag_views(headers@), name@, j as int);
            }
            return Some(j);
        }
        proof {
            lemma_tag_views_index(headers@);
        }
        j += 1;
    }
    proof {
        lemma_opt_col_at(spec_tag_views(headers@), name@, n as int);
    }
    None
}

/// A tags field split at commas, each piece trimmed.
pub open spec fn spec_tags_of_field(f: Seq<char>) -> Seq<Seq<char>> {
    spec_split(f, ',').map_values(|p: Seq<char>| spec_trim(p))
}

/// One data row interpreted under the resolved column positions.
pub open spec fn spec_row_record(
    row: Seq<Seq<char>>,
    ti: Option<int>,
    si: int,
    hi: int,
    ri: Option<int>,
    mi: int,
) -> Result<RecordView, WorklogError> {
    if !(0 <= si < row.len() && 0 <= hi < row.len() && 0 <= mi < row.len() && (
    ti matches Some(t) ==> 0 <= t < row.len()) && (ri matches Some(rr) ==> 0 <= rr < row.len())) {
        Err(WorklogError::ShortRow)
    } else if spec_parse_fixed2(row[hi]) is None {
        Err(WorklogError::InvalidHours)
    } else if ri is Some && row[ri->Some_0].len() > 0 && spec_parse_fixed2(row[ri->Some_0])
        is None {
        Err(WorklogError::InvalidRate)
    } else {
        let hours = spec_parse_fixed2(row[hi])->Some_0;
        let rate = if ri is Some && row[ri->Some_0].len() > 0 {
            Some(spec_parse_fixed2(row[ri->Some_0])->Some_0)
        } else {
            None
        };
        match spec_start_secs(row[si]) {
            None => Err(WorklogError::InvalidStart),
            Some(b) => {
                if hours > HOURS_MAX {
                    Err(WorklogError::InvalidHours)
                } else if rate matches Some(rv) && rv > RATE_MAX {
                    Err(WorklogError::InvalidRate)
                } else {
                    Ok(
                        RecordView {
                            tags: match ti {
                                Some(t) => spec_tags_of_field(row[t]),
                                None => Seq::empty(),
                            },
                            start: row[si],
                            begin: b,
                            hours: hours,
                            rate: rate,
                            message: row[mi],
                        },
                    )
                }
            },
        }
    }
}

/// The rows interpreted in order; the first failing row decides the error.
pub open spec fn spec_rows_records(
    rows: Seq<Seq<Seq<char>>>,
    ti: Option<int>,
    si: int,
    hi: int,
    ri: Option<int>,
    mi: int,
) -> Result<Seq<RecordView>, WorklogError>
    decreases rows.len(),
{
    if rows.len() == 0 {
        Ok(Seq::empty())
    } else {
        match spec_rows_records(rows.drop_last(), ti, si, hi, ri, mi) {
            Err(e) => Err(e),
            Ok(s) => match spec_row_record(rows.last(), ti, si, hi, ri, mi) {
                Err(e) => Err(e),
                Ok(rv) => Ok(s.push(rv)),
            },
        }
    }
}

/// What a whole CSV table means: the required `Start`, `Hours` and
/// `Message` columns are resolved, then the rows are interpreted.
pub open spec fn spec_worklog_result(h: Seq<Seq<char>>, rows: Seq<Seq<Seq<char>>>) -> Result<
    Seq<RecordView>,
    WorklogError,
> {
    let si = spec_opt_col(h, "Start"@);
    let hi = spec_opt_col(h, "Hours"@);
    let mi = spec_opt_col(h, "Message"@);
    if si is None || hi is None || mi is None {
        Err(WorklogError::MissingColumn)
    } else {
        spec_rows_records(
            rows,
            spec_opt_col(h, "Tags"@),
            si->Some_0,
            hi->Some_0,
            spec_opt_col(h, "Rate"@),
            mi->Some_0,
        )
    }
}

/// A CSV byte text read into records, or the error of the first failure.
pub open spec fn spec_csv_result(data: Seq<u8>) -> Result<Seq<RecordView>, WorklogError> {
    match spec_csv_parse(data) {
        None => Err(WorklogError::MalformedCsv),
        Some(p) => spec_worklog_result(p.0, p.1),
    }
}

fn row_to_record(
    row: &Vec<String>,
    ti: Option<usize>,
    si: usize,
    hi: usize,
    ri: Option<usize>,
    mi: usize,
) -> (r: Result<WorklogRecord, WorklogError>)
    ensures
        match r {
            Ok(rec) => spec_row_record(
                spec_tag_views(row@),
                match ti {
                    Some(t) => Some(t as int),
                    None => None,
                },
                si as int,
                hi as int,
                match ri {
                    Some(t) => Some(t as int),
                    None => None,
                },
                mi as int,
            ) == Ok::<RecordView, WorklogError>(rec@) && rec@.wf(),
            Err(e) => spec_row_record(
                spec_tag_views(row@),
                match ti {
                    Some(t) => Some(t as int),
                    None => None,
                },
                si as int,
                hi as int,
                match ri {
                    Some(t) => Some(t as int),
                    None => None,
                },
                mi as int,
            ) == Err::<RecordView, WorklogError>(e),
        },
{
    proof {
        lemma_tag_views_index(row@);
    }
    let n = row.len();
    let mut short = si >= n || hi >= n || mi >= n;
    if let Some(t) = ti {
        if t >= n {
            short = true;
        }
    }
    if let Some(t) = ri {
        if t >= n {
            short = true;
        }
    }
    if short {
        return Err(WorklogError::ShortRow);
    }
    let hours = match parse_fixed2(row[hi].as_str()) {
        None => {
            return Err(WorklogError::InvalidHours);
        },
        Some(v) => v,
    };
    let rate: Option<u64> = match ri {
        Some(t) => {
            if row[t].as_str().unicode_len() > 0 {
                match parse_fixed2(row[t].as_str()) {
                    None => {
                        return Err(WorklogError::InvalidRate);
                    },
                    Some(v) => Some(v),
                }
            } else {
                None
            }
        },
        None => None,
    };
    let tags: Vec<String> = match ti {
        Some(t) => {
            proof {
                reveal_strlit(",");
            }
            let pieces = split(row[t].as_str(), ",");
            let m = pieces.len();
            let mut out: Vec<String> = Vec::new();
            let mut q: usize = 0;
            while q < m
                invariant
                    m == pieces@.len(),
                    q <= m,
                    out@.len() == q,
                    forall|l: int| 0 <= l < q ==> #[trigger] out@[l]@ == spec_trim(pieces@[l]@),
                decreases m - q,
            {
                let piece = trim(pieces[q].as_str());
                out.push(piece);
                q += 1;
            }
            proof {
                lemma_tag_views_index(out@);
                assert(spec_tag_views(out@) =~= spec_tags_of_field(row@[t as int]@));
            }
            out
        },
        None => Vec::new(),
    };
    proof {
        if ti is None {
            assert(spec_tag_views(Seq::<String>::empty()) =~= Seq::<Seq<char>>::empty());
        }
    }
    let start = row[si].clone();
    let message = row[mi].clone();
    WorklogRecord::new(tags, start, hours, rate, message)
}

impl Worklog {
    /// A worklog built from a CSV header and its rows; the first
    /// malformed row fails the whole load.
    pub fn from_rows(headers: &Vec<String>, rows: &Vec<Vec<String>>) -> (r: Result<
        Worklog,
        WorklogError,
    >)
        ensures
            match r {
                Ok(wl) => {
                    &&& spec_worklog_result(spec_tag_views(headers@), spec_row_views(rows@))
                        == Ok::<Seq<RecordView>, WorklogError>(wl@.records)
                    &&& wl@.wf()
                    &&& wl@.rate == DEFAULT_RATE as int
                },
                Err(e) => spec_worklog_result(spec_tag_views(headers@), spec_row_views(rows@))
                    == Err::<Seq<RecordView>, WorklogError>(e),
            },
    {
        proof {
            reveal_strlit("Start");
            reveal_strlit("Hours");
            reveal_strlit("Message");
            reveal_strlit("Tags");
            reveal_strlit("Rate");
        }
        let si = match find_col(headers, "Start") {
            Some(i) => i,
            None => {
                return Err(WorklogError::MissingColumn);
            },
        };
        let hi = match find_col(headers, "Hours") {
            Some(i) => i,
            None => {
                return Err(WorklogError::MissingColumn);
            },
        };
        let mi = match find_col(headers, "Message") {
            Some(i) => i,
            None => {
                return Err(WorklogError::MissingColumn);
            },
        };
        let ti = find_col(headers, "Tags");
        let ri = find_col(headers, "Rate");
        let ghost gti: Option<int> = match ti {
            Some(t) => Some(t as int),
            None => None,
        };
        let ghost gri: Option<int> = match ri {
            Some(t) => Some(t as int),
            None => None,
        };
        let mut wl = Worklog::new();
        let n = rows.len();
        proof {
            assert(spec_row_views(rows@).take(0) =~= Seq::<Seq<Seq<char>>>::empty());
            assert(wl@.records =~= Seq::<RecordView>::empty());
        }
        let mut i: usize = 0;
        while i < n
            invariant
                n == rows@.len(),
                i <= n,
                wl@.wf(),
                wl@.rate == DEFAULT_RATE as int,
                gti == match ti {
                    Some(t) => Some(t as int),
                    None => None::<int>,
                },
                gri == match ri {
                    Some(t) => Some(t as int),
                    None => None::<int>,
                },
                spec_opt_col(spec_tag_views(headers@), "Start"@) == Some(si as int),
                spec_opt_col(spec_tag_views(headers@), "Hours"@) == Some(hi as int),
                spec_opt_col(spec_tag_views(headers@), "Message"@) == Some(mi as int),
                spec_opt_col(spec_tag_views(headers@), "Tags"@) == gti,
                spec_opt_col(spec_tag_views(headers@), "Rate"@) == gri,
                spec_rows_records(
                    spec_row_views(rows@).take(i as int),
                    gti,
                    si as int,
                    hi as int,
                    gri,
                    mi as int,
                ) == Ok::<Seq<RecordView>, WorklogError>(wl@.records),
            decreases n - i,
        {
            proof {
                assert(spec_row_views(rows@)[i as int] == spec_tag_views(rows@[i as int]@));
                assert(spec_row_views(rows@).take(i + 1).drop_last() =~= spec_row_views(
                    rows@,
                ).take(i as int));
                assert(spec_row_views(rows@).take(i + 1).last() == spec_row_views(rows@)[i as int]);
            }
            match row_to_record(&rows[i], ti, si, hi, ri, mi) {
                Ok(rec) => {
                    wl.add_record(rec);
                },
                Err(e) => {
                    proof {
                        assert(spec_rows_records(
                            spec_row_views(rows@).take(i + 1),
                            gti,
                            si as int,
                            hi as int,
                            gri,
                            mi as int,
                        ) == Err::<Seq<RecordView>, WorklogError>(e));
                        lemma_rows_error_persists(
                            spec_row_views(rows@),
                            gti,
                            si as int,
                            hi as int,
                            gri,
                            mi as int,
                            i + 1,
                            e,
                        );
                    }
                    return Err(e);
                },
            }
            i += 1;
        }
        proof {
            assert(spec_row_views(rows@).take(n as int) =~= spec_row_views(rows@));
        }
        Ok(wl)
    }

    /// A worklog read from CSV bytes through the csv crate.
    pub fn from_csv(data: &[u8]) -> (r: Result<Worklog, WorklogError>)
        ensures
            match r {
                Ok(wl) => {
                    &&& spec_csv_result(data@) == Ok::<Seq<RecordView>, WorklogError>(wl@.records)
                    &&& wl@.wf()
                    &&& wl@.rate == DEFAULT_RATE as int
                },
                Err(e) => spec_csv_result(data@) == Err::<Seq<RecordView>, WorklogError>(e),
            },
    {
        match csv_parse(data) {
            None => Err(WorklogError::MalformedCsv),
            Some(hr) => Worklog::from_rows(&hr.0, &hr.1),
        }
    }
}

/// Once a prefix of the rows fails, the whole row list fails the same way.
proof fn lemma_rows_error_persists(
    rows: Seq<Seq<Seq<char>>>,
    ti: Option<int>,
    si: int,
    hi: int,
    ri: Option<int>,
    mi: int,
    k: int,
    e: WorklogError,
)
    requires
        0 <= k <= rows.len(),
        spec_rows_records(rows.take(k), ti, si, hi, ri, mi) == Err::<Seq<RecordView>, WorklogError>(
            e,
        ),
    ensures
        spec_rows_records(rows, ti, si, hi, ri, mi) == Err::<Seq<RecordView>, WorklogError>(e),
    decreases rows.len() - k,
{
    if k == rows.len() {
        assert(rows.take(k) =~= rows);
    } else {
        assert(rows.take(k + 1).drop_last() =~= rows.take(k));
        lemma_rows_error_persists(rows, ti, si, hi, ri, mi, k + 1, e);
    }
}

impl Default for Worklog {
    fn default() -> (r: Self)
        ensures
            r@.wf(),
            r@.records.len() == 0,
            r@.tags.len() == 0,
            r@.rate == DEFAULT_RATE as int,
    {
        Worklog::new()
    }
}

} // verus!
