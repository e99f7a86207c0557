//! Invoice building: priced positions merged by a quantity-weighted
//! average, tag-based grouping of worklog records, the timesheet, and
//! the derived invoice numbers, sums and file names.

use vstd::prelude::*;
use crate::dates::{DateTime, DT_MIN_SECS, DT_MAX_SECS, spec_year_of, spec_month_of, year_of_secs,
    month_of_secs};
use crate::helpers::{path_join, file_name, parent, spec_file_name, spec_parent};
use crate::locale::{Locale, spec_lookup};
use crate::recipient::{Contact, InvoiceConfig, Payment, Recipient, RecipientTagInfo,
    spec_default_tag_name, spec_tag_lookup, spec_opt_str};
use crate::invoicer::Invoicer;
use crate::text::{replace_all, spec_lex_lt, spec_replace_all, spec_i64_str_pad, spec_u64_str,
    spec_zero_pad, str_eq, str_lt, i64_to_string_pad, u64_to_string_pad};
use crate::worklog::{RecordView, Worklog, WorklogRecord, WorklogView, spec_min_begin,
    spec_max_end, spec_sat_add, spec_record_views, lemma_record_views_index, lemma_tag_views_index,
    RATE_MAX, DEFAULT_RATE};

verus! {

/// Why two positions could not be merged.
#[derive(Debug, Clone, Copy, PartialEq, Eq, Structural)]
pub enum InvoiceError {
    /// The positions share a grouping key but differ in text or unit.
    MergeMismatch,
}

/// The mathematical content of one invoice line: a label, a quantity in
/// hundredths, the net value in hundredths of a hundredth, and the unit
/// label. The unit price is the ratio of net to amount.
pub struct PositionView {
    pub text: Seq<char>,
    pub amount: int,
    pub net: int,
    pub unit: Seq<char>,
}

/// One priced invoice line.
#[derive(Debug)]
pub struct InvoicePosition {
    pub(crate) text: String,
    pub(crate) amount: u64,
    pub(crate) net: u64,
    pub(crate) unit: String,
}

impl View for InvoicePosition {
    type V = PositionView;

    closed spec fn view(&self) -> PositionView {
        PositionView {
            text: self.text@,
            amount: self.amount as int,
            net: self.net as int,
            unit: self.unit@,
        }
    }
}

/// The merge of two positions: amounts add, nets add, both capped.
pub open spec fn spec_merge(a: PositionView, b: PositionView) -> PositionView {
    PositionView {
        text: a.text,
        unit: a.unit,
        amount: spec_sat_add(a.amount, b.amount),
        net: spec_sat_add(a.net, b.net),
    }
}

impl InvoicePosition {
    /// The position of a single record: its message as label, its hours
    /// as amount, the net at the record's rate or the given default.
    pub fn from_worklog_record(w: &WorklogRecord, default_rate: u64) -> (r: InvoicePosition)
        requires
            w@.wf(),
            default_rate <= RATE_MAX,
        ensures
            r@ == spec_position_of(w@, default_rate as int),
    {
        let unit: &str = "h";
        let r = InvoicePosition {
            text: w.message().clone(),
            amount: w.hours(),
            net: w.net(default_rate),
            unit: unit.to_owned(),
        };
        r
    }

    pub fn text(&self) -> (r: &String)
        ensures
            r@ == self@.text,
    {
        &self.text
    }

    pub fn amount(&self) -> (r: u64)
        ensures
            r == self@.amount,
    {
        self.amount
    }

    pub fn unit(&self) -> (r: &String)
        ensures
            r@ == self@.unit,
    {
        &self.unit
    }

    /// The net value of this line.
    pub fn net(&self) -> (r: u64)
        ensures
            r == self@.net,
    {
        self.net
    }

    /// The unit price in hundredths, rounded toward zero.
    pub fn price_per_item(&self) -> (r: u64)
        requires
            self@.amount > 0,
        ensures
            r == self@.net / self@.amount,
    {
        self.net / self.amount
    }

    /// Two positions with equal text and unit merge into one; amounts
    /// add and nets add, so the unit price becomes the quantity-weighted
    /// average of the two prices. Differing text or unit is an error.
    pub fn merge(&self, other: &InvoicePosition) -> (r: Result<InvoicePosition, InvoiceError>)
        ensures
            match r {
                Ok(p) => self@.text == other@.text && self@.unit == other@.unit && p@ == spec_merge(
                    self@,
                    other@,
                ),
                Err(e) => (self@.text != other@.text || self@.unit != other@.unit) && e
                    == InvoiceError::MergeMismatch,
            },
    {
        if !str_eq(self.text.as_str(), other.text.as_str()) || !str_eq(
            self.unit.as_str(),
            other.unit.as_str(),
        ) {
            return Err(InvoiceError::MergeMismatch);
        }
        let amount: u64 = if self.amount > u64::MAX - other.amount {
            u64::MAX
        } else {
            self.amount + other.amount
        };
        let net: u64 = if self.net > u64::MAX - other.net {
            u64::MAX
        } else {
            self.net + other.net
        };
        Ok(InvoicePosition { text: self.text.clone(), amount, net, unit: self.unit.clone() })
    }

    /// A structurally equal copy.
    pub fn duplicate(&self) -> (r: InvoicePosition)
        ensures
            r@ == self@,
    {
        InvoicePosition {
            text: self.text.clone(),
            amount: self.amount,
            net: self.net,
            unit: self.unit.clone(),
        }
    }
}

/// Merging positions built from unit prices p1 and p2 yields the sum of
/// the amounts, the exact weighted net a1·p1 + a2·p2, and therefore the
/// quantity-weighted average unit price (a1·p1 + a2·p2) / (a1 + a2).
pub proof fn lemma_merge_weighted_average(v1: PositionView, v2: PositionView, p1: int, p2: int)
    requires
        v1.net == v1.amount * p1,
        v2.net == v2.amount * p2,
        0 <= v1.amount,
        0 <= v2.amount,
        0 <= v1.net,
        0 <= v2.net,
        0 < v1.amount + v2.amount,
        v1.amount + v2.amount <= u64::MAX,
        v1.net + v2.net <= u64::MAX,
    ensures
        spec_merge(v1, v2).amount == v1.amount + v2.amount,
        spec_merge(v1, v2).net == v1.amount * p1 + v2.amount * p2,
        spec_merge(v1, v2).net / spec_merge(v1, v2).amount == (v1.amount * p1 + v2.amount * p2) / (
        v1.amount + v2.amount),
{
}

/// The position a single record contributes, before any grouping.
pub open spec fn spec_position_of(rv: RecordView, rate: int) -> PositionView {
    PositionView { text: rv.message, amount: rv.hours, net: rv.net(rate), unit: "h"@ }
}

/// The rightmost of the record's tags that appears in the recipient's
/// tag map; scanning the tags in order, each match overwrites the last.
pub open spec fn spec_last_matching_tag(
    rtags: Seq<(String, RecipientTagInfo)>,
    tags: Seq<Seq<char>>,
) -> Option<Seq<char>>
    decreases tags.len(),
{
    if tags.len() == 0 {
        None
    } else if spec_tag_lookup(rtags, tags.last()) is Some {
        Some(tags.last())
    } else {
        spec_last_matching_tag(rtags, tags.drop_last())
    }
}

/// The grouping key of a record: its last tag found in the recipient's
/// tag map, else the recipient's default tag name, else the record's
/// own message.
pub open spec fn spec_record_key(rv: RecordView, rtags: Seq<(String, RecipientTagInfo)>) -> Seq<
    char,
> {
    match spec_last_matching_tag(rtags, rv.tags) {
        Some(t) => t,
        None => match spec_default_tag_name(rtags) {
            Some(d) => d,
            None => rv.message,
        },
    }
}

/// The display text of a record's position: the configured text of the
/// matched or default tag, else the record's message.
pub open spec fn spec_record_text(rv: RecordView, rtags: Seq<(String, RecipientTagInfo)>) -> Seq<
    char,
> {
    match spec_last_matching_tag(rtags, rv.tags) {
        Some(t) => match spec_tag_lookup(rtags, t) {
            Some(info) => info.position_text@,
            None => rv.message,
        },
        None => match spec_default_tag_name(rtags) {
            Some(d) => match spec_tag_lookup(rtags, d) {
                Some(info) => info.position_text@,
                None => rv.message,
            },
            None => rv.message,
        },
    }
}

/// A record's position after tag-based renaming.
pub open spec fn spec_keyed_position(rv: RecordView, rtags: Seq<(String, RecipientTagInfo)>, rate: int)
    -> PositionView {
    PositionView { text: spec_record_text(rv, rtags), ..spec_position_of(rv, rate) }
}

/// The grouping key depends only on the record's tags and message: two
/// records with the same tags and message always resolve to the same
/// key and the same display text, wherever they stand in the input.
pub proof fn lemma_key_assignment_uniform(
    r1: RecordView,
    r2: RecordView,
    rtags: Seq<(String, RecipientTagInfo)>,
)
    requires
        r1.tags == r2.tags,
        r1.message == r2.message,
    ensures
        spec_record_key(r1, rtags) == spec_record_key(r2, rtags),
        spec_record_text(r1, rtags) == spec_record_text(r2, rtags),
{
}

/// The key-and-position views of grouped entries.
pub open spec fn spec_entry_views(v: Seq<(String, InvoicePosition)>) -> Seq<
    (Seq<char>, PositionView),
> {
    v.map_values(|e: (String, InvoicePosition)| (e.0@, e.1@))
}

pub proof fn lemma_entry_views_index(v: Seq<(String, InvoicePosition)>)
    ensures
        spec_entry_views(v).len() == v.len(),
        forall|i: int|
            0 <= i < v.len() ==> #[trigger] spec_entry_views(v)[i] == (v[i].0@, v[i].1@),
{
}

/// One keyed position inserted into a key-sorted entry list: before the
/// first larger key, merged into an equal key, or appended at the end.
/// An equal key with a different text or unit is an error.
pub open spec fn spec_insert_position(
    list: Seq<(Seq<char>, PositionView)>,
    key: Seq<char>,
    pos: PositionView,
) -> Result<Seq<(Seq<char>, PositionView)>, InvoiceError>
    decreases list.len(),
{
    if list.len() == 0 {
        Ok(seq![(key, pos)])
    } else if spec_lex_lt(key, list[0].0) {
        Ok(seq![(key, pos)] + list)
    } else if key == list[0].0 {
        if pos.text == list[0].1.text && pos.unit == list[0].1.unit {
            Ok(seq![(key, spec_merge(list[0].1, pos))] + list.drop_first())
        } else {
            Err(InvoiceError::MergeMismatch)
        }
    } else {
        match spec_insert_position(list.drop_first(), key, pos) {
            Ok(s) => Ok(seq![list[0]] + s),
            Err(e) => Err(e),
        }
    }
}

/// The records of a worklog folded, in input order, into key-sorted
/// grouped positions under the recipient's tag map.
pub open spec fn spec_fold_positions(
    rs: Seq<RecordView>,
    rtags: Seq<(String, RecipientTagInfo)>,
    rate: int,
) -> Result<Seq<(Seq<char>, PositionView)>, InvoiceError>
    decreases rs.len(),
{
    if rs.len() == 0 {
        Ok(Seq::empty())
    } else {
        match spec_fold_positions(rs.drop_last(), rtags, rate) {
            Err(e) => Err(e),
            Ok(l) => spec_insert_position(
                l,
                spec_record_key(rs.last(), rtags),
                spec_keyed_position(rs.last(), rtags, rate),
            ),
        }
    }
}

/// The positions of grouped entries, keys dropped.
pub open spec fn spec_entry_positions(l: Seq<(Seq<char>, PositionView)>) -> Seq<PositionView> {
    l.map_values(|e: (Seq<char>, PositionView)| e.1)
}

fn insert_position(list: Vec<(String, InvoicePosition)>, key: String, pos: InvoicePosition) -> (r:
    Result<Vec<(String, InvoicePosition)>, InvoiceError>)
    ensures
        match r {
            Ok(v) => spec_insert_position(spec_entry_views(list@), key@, pos@) == Ok::<
                Seq<(Seq<char>, PositionView)>,
                InvoiceError,
            >(spec_entry_views(v@)),
            Err(e) => spec_insert_position(spec_entry_views(list@), key@, pos@) == Err::<
                Seq<(Seq<char>, PositionView)>,
                InvoiceError,
            >(e),
        },
    decreases list@.len(),
{
    proof {
        lemma_entry_views_index(list@);
    }
    let mut list = list;
    if list.len() == 0 {
        let mut v: Vec<(String, InvoicePosition)> = Vec::new();
        v.push((key, pos));
        proof {
            lemma_entry_views_index(v@);
            assert(spec_entry_views(v@) =~= seq![(key@, pos@)]);
        }
        return Ok(v);
    }
    let ghost old_list = list@;
    let first = list.remove(0);
    proof {
        lemma_entry_views_index(list@);
        assert(spec_entry_views(list@) =~= spec_entry_views(old_list).drop_first());
    }
    if str_lt(key.as_str(), first.0.as_str()) {
        list.insert(0, first);
        list.insert(0, (key, pos));
        proof {
            lemma_entry_views_index(list@);
            assert(spec_entry_views(list@) =~= seq![(key@, pos@)] + spec_entry_views(old_list));
        }
        Ok(list)
    } else if str_eq(key.as_str(), first.0.as_str()) {
        match first.1.merge(&pos) {
            Ok(m) => {
                list.insert(0, (key, m));
                proof {
                    lemma_entry_views_index(list@);
                    assert(spec_entry_views(list@) =~= seq![
                        (key@, spec_merge(spec_entry_views(old_list)[0].1, pos@)),
                    ] + spec_entry_views(old_list).drop_first());
                }
                Ok(list)
            },
            Err(e) => Err(e),
        }
    } else {
        match insert_position(list, key, pos) {
            Ok(mut rest) => {
                let ghost rest_view = rest@;
                rest.insert(0, first);
                proof {
                    lemma_entry_views_index(rest@);
                    lemma_entry_views_index(rest_view);
                    assert(spec_entry_views(rest@) =~= seq![spec_entry_views(old_list)[0]]
                        + spec_entry_views(rest_view));
                }
                Ok(rest)
            },
            Err(e) => Err(e),
        }
    }
}

/// A secondary rendering target: the raw records of the added worklogs,
/// kept sorted by start time, with the timesheet template's location.
pub struct Timesheet {
    pub(crate) worklog: Worklog,
    pub(crate) template_file: String,
    pub(crate) template_dir: String,
}

/// The mathematical content of a timesheet.
pub struct TimesheetView {
    pub worklog: WorklogView,
    pub template_file: Seq<char>,
    pub template_dir: Seq<char>,
}

impl View for Timesheet {
    type V = TimesheetView;

    closed spec fn view(&self) -> TimesheetView {
        TimesheetView {
            worklog: self.worklog@,
            template_file: self.template_file@,
            template_dir: self.template_dir@,
        }
    }
}

impl Timesheet {
    /// An empty timesheet bound to a template path, split into its
    /// directory and file name.
    pub fn new(template_path: &str) -> (r: Timesheet)
        ensures
            r@.worklog.wf(),
            r@.worklog.records.len() == 0,
            r@.template_file == spec_file_name(template_path@),
            r@.template_dir == spec_parent(template_path@),
    {
        Timesheet {
            worklog: Worklog::new(),
            template_file: file_name(template_path),
            template_dir: parent(template_path),
        }
    }

    pub fn add_record(&mut self, record: WorklogRecord)
        requires
            old(self)@.worklog.wf(),
            record@.wf(),
        ensures
            final(self)@.worklog.wf(),
            final(self)@.worklog.records == old(self)@.worklog.records.push(record@),
            final(self)@.worklog.rate == old(self)@.worklog.rate,
            final(self)@.template_file == old(self)@.template_file,
            final(self)@.template_dir == old(self)@.template_dir,
    {
        self.worklog.add_record(record);
    }

    pub fn sort(&mut self)
        requires
            old(self)@.worklog.wf(),
        ensures
            final(self)@.worklog.wf(),
            crate::worklog::spec_sorted_by_begin(final(self)@.worklog.records),
            final(self)@.worklog.records.to_multiset() == old(
                self,
            )@.worklog.records.to_multiset(),
            final(self)@.template_file == old(self)@.template_file,
            final(self)@.template_dir == old(self)@.template_dir,
    {
        self.worklog.sort();
    }

    pub fn records(&self) -> (r: &Vec<WorklogRecord>)
        ensures
            spec_record_views(r@) == self@.worklog.records,
    {
        self.worklog.records()
    }
}

/// The aggregate root of one billing run against one recipient.
pub struct Invoice {
    pub(crate) config: InvoiceConfig,
    pub(crate) counter: u32,
    pub(crate) recipient: Recipient,
    pub(crate) positions: Vec<InvoicePosition>,
    pub(crate) timesheet: Option<Timesheet>,
    pub(crate) begin_date: DateTime,
    pub(crate) end_date: DateTime,
    pub(crate) date: DateTime,
    pub(crate) locale: Locale,
    pub(crate) template_dir: String,
    pub(crate) payment: Payment,
    pub(crate) biller_contact: Contact,
}

/// The mathematical content of an invoice.
pub struct InvoiceView {
    pub config: InvoiceConfig,
    pub counter: int,
    pub recipient: Recipient,
    pub positions: Seq<PositionView>,
    pub timesheet: Option<TimesheetView>,
    pub begin: int,
    pub end: int,
    pub date: int,
    pub locale: Locale,
    pub template_dir: Seq<char>,
    pub payment: Payment,
    pub contact: Contact,
}

impl InvoiceView {
    pub open spec fn wf(&self) -> bool {
        &&& DT_MIN_SECS <= self.begin <= DT_MAX_SECS
        &&& DT_MIN_SECS <= self.end <= DT_MAX_SECS
        &&& DT_MIN_SECS <= self.date <= DT_MAX_SECS
        &&& match self.timesheet {
            Some(ts) => ts.worklog.wf(),
            None => true,
        }
    }

    /// Whether a timesheet is produced: a timesheet template is
    /// configured, or one was already begun.
    pub open spec fn gen_timesheet(&self) -> bool {
        spec_opt_str(self.config.timesheet_template, Seq::empty()).len() > 0
            || self.timesheet is Some
    }
}

/// The positions seq of invoice position values.
pub open spec fn spec_position_views(v: Seq<InvoicePosition>) -> Seq<PositionView> {
    v.map_values(|p: InvoicePosition| p@)
}

pub proof fn lemma_position_views_index(v: Seq<InvoicePosition>)
    ensures
        spec_position_views(v).len() == v.len(),
        forall|i: int| 0 <= i < v.len() ==> #[trigger] spec_position_views(v)[i] == v[i]@,
{
}

impl View for Invoice {
    type V = InvoiceView;

    closed spec fn view(&self) -> InvoiceView {
        InvoiceView {
            config: self.config,
            counter: self.counter as int,
            recipient: self.recipient,
            positions: spec_position_views(self.positions@),
            timesheet: match self.timesheet {
                Some(ts) => Some(ts@),
                None => None,
            },
            begin: self.begin_date.secs as int,
            end: self.end_date.secs as int,
            date: self.date.secs as int,
            locale: self.locale,
            template_dir: self.template_dir@,
            payment: self.payment,
            contact: self.biller_contact,
        }
    }
}

impl Invoice {
    /// An empty invoice for one recipient, bound to the biller context:
    /// the settings are the recipient's over the global ones, and the
    /// date range starts at the sentinel values.
    pub fn new(invoicer: &Invoicer, recipient: Recipient, locale: Locale, template_dir: String)
        -> (inv: Invoice)
        requires
            invoicer@.wf(),
        ensures
            inv@.wf(),
            inv@.config == InvoiceConfig::spec_resolved(recipient.invoice, invoicer@.config.invoice),
            inv@.counter == 0,
            inv@.recipient == recipient,
            inv@.positions.len() == 0,
            inv@.timesheet is None,
            inv@.begin == DT_MAX_SECS as int,
            inv@.end == DT_MIN_SECS as int,
            inv@.date == invoicer@.date.secs as int,
            inv@.locale == locale,
            inv@.template_dir == template_dir@,
            inv@.payment == invoicer@.config.payment,
            inv@.contact == invoicer@.config.contact,
    {
        let config = InvoiceConfig::resolve(&recipient.invoice, invoicer.config().invoice());
        let payment = invoicer.config().payment().duplicate();
        let biller_contact = invoicer.config().contact().duplicate();
        Invoice {
            config,
            counter: 0,
            recipient,
            positions: Vec::new(),
            timesheet: None,
            begin_date: DateTime::max_value(),
            end_date: DateTime::min_value(),
            date: invoicer.date(),
            locale,
            template_dir,
            payment,
            biller_contact,
        }
    }

    pub fn locale(&self) -> (r: &Locale)
        ensures
            *r == self@.locale,
    {
        &self.locale
    }

    pub fn date(&self) -> (r: DateTime)
        ensures
            r.secs == self@.date,
    {
        self.date
    }

    pub fn begin_date(&self) -> (r: DateTime)
        ensures
            r.secs == self@.begin,
    {
        self.begin_date
    }

    pub fn end_date(&self) -> (r: DateTime)
        ensures
            r.secs == self@.end,
    {
        self.end_date
    }

    pub fn set_counter(&mut self, counter: u32)
        ensures
            final(self)@ == (InvoiceView { counter: counter as int, ..old(self)@ }),
    {
        self.counter = counter;
    }

    pub fn add_position(&mut self, position: InvoicePosition)
        ensures
            final(self)@ == (InvoiceView {
                positions: old(self)@.positions.push(position@),
                ..old(self)@
            }),
    {
        proof {
            lemma_position_views_index(self.positions@);
        }
        self.positions.push(position);
        proof {
            lemma_position_views_index(self.positions@);
            assert(spec_position_views(self.positions@) =~= old(self)@.positions.push(position@));
        }
    }

    pub fn positions(&self) -> (r: &Vec<InvoicePosition>)
        ensures
            spec_position_views(r@) == self@.positions,
    {
        &self.positions
    }

    /// The hourly rate for records without one: the recipient's, else
    /// the biller's, else the built-in default.
    pub fn default_rate(&self) -> (r: u64)
        ensures
            r as int == spec_default_rate(self@),
    {
        match self.recipient.default_rate {
            Some(v) => v,
            None => match self.payment.default_rate {
                Some(v) => v,
                None => DEFAULT_RATE,
            },
        }
    }

    pub fn generate_timesheet(&self) -> (r: bool)
        ensures
            r == self@.gen_timesheet(),
    {
        let t = self.config.timesheet_template();
        t.as_str().unicode_len() > 0 || self.timesheet.is_some()
    }

    pub fn payment(&self) -> (r: &Payment)
        ensures
            *r == self@.payment,
    {
        &self.payment
    }

    pub fn tax_rate(&self) -> (r: u64)
        ensures
            r as int == self@.payment.tax_rate,
    {
        self.payment.tax_rate
    }

    pub fn calculate_value_added_tax(&self) -> (r: bool)
        ensures
            r == match self@.config.calculate_value_added_tax {
                Some(v) => v,
                None => true,
            },
    {
        self.config.calculate_value_added_tax()
    }
}

/// The entries stand in strictly increasing key order.
pub open spec fn spec_sorted_keys(l: Seq<(Seq<char>, PositionView)>) -> bool {
    forall|i: int, j: int| 0 <= i < j < l.len() ==> spec_lex_lt(l[i].0, l[j].0)
}

/// Inserting keeps the entry list strictly key-sorted, and adds no key
/// but the inserted one.
proof fn lemma_insert_position_sorted(
    list: Seq<(Seq<char>, PositionView)>,
    key: Seq<char>,
    pos: PositionView,
)
    requires
        spec_sorted_keys(list),
        spec_insert_position(list, key, pos) is Ok,
    ensures
        spec_sorted_keys(spec_insert_position(list, key, pos)->Ok_0),
        forall|j: int|
            0 <= j < spec_insert_position(list, key, pos)->Ok_0.len() ==> (#[trigger] (
            spec_insert_position(list, key, pos)->Ok_0[j].0) == key || exists|i: int|
                0 <= i < list.len() && list[i].0 == spec_insert_position(list, key, pos)->Ok_0[j].0),
    decreases list.len(),
{
    let r = spec_insert_position(list, key, pos)->Ok_0;
    if list.len() == 0 {
    } else if spec_lex_lt(key, list[0].0) {
        assert(r =~= seq![(key, pos)] + list);
        assert forall|i: int, j: int| 0 <= i < j < r.len() implies spec_lex_lt(
            r[i].0,
            r[j].0,
        ) by {
            if i == 0 && j > 1 {
                crate::text::lemma_lex_lt_transitive(key, list[0].0, list[j - 1].0);
            }
        }
    } else if key == list[0].0 {
        assert(r =~= seq![(key, spec_merge(list[0].1, pos))] + list.drop_first());
    } else {
        let sub = spec_insert_position(list.drop_first(), key, pos);
        assert(forall|i: int, j: int|
            0 <= i < j < list.drop_first().len() ==> spec_lex_lt(
                #[trigger] list.drop_first()[i].0,
                #[trigger] list.drop_first()[j].0,
            ));
        lemma_insert_position_sorted(list.drop_first(), key, pos);
        assert(r =~= seq![list[0]] + sub->Ok_0);
        assert(!spec_lex_lt(key, list[0].0) && key != list[0].0);
        crate::text::lemma_lex_lt_irreflexive(key);
        if !spec_lex_lt(list[0].0, key) {
            crate::text::lemma_lex_lt_connected(key, list[0].0);
        }
        assert(spec_lex_lt(list[0].0, key));
        assert forall|i: int, j: int| 0 <= i < j < r.len() implies spec_lex_lt(
            r[i].0,
            r[j].0,
        ) by {
            if i == 0 {
                assert(r[j].0 == sub->Ok_0[j - 1].0);
                if r[j].0 == key {
                } else {
                    let w = choose|w: int|
                        0 <= w < list.drop_first().len() && list.drop_first()[w].0 == r[j].0;
                    assert(spec_lex_lt(list[0].0, list[w + 1].0));
                }
            }
        }
    }
}

/// Grouped positions come out in strictly increasing key order, so the
/// rendering order is deterministic and independent of the input order.
pub proof fn lemma_fold_positions_sorted(
    rs: Seq<RecordView>,
    rtags: Seq<(String, RecipientTagInfo)>,
    rate: int,
)
    requires
        spec_fold_positions(rs, rtags, rate) is Ok,
    ensures
        spec_sorted_keys(spec_fold_positions(rs, rtags, rate)->Ok_0),
    decreases rs.len(),
{
    if rs.len() > 0 {
        lemma_fold_positions_sorted(rs.drop_last(), rtags, rate);
        lemma_insert_position_sorted(
            spec_fold_positions(rs.drop_last(), rtags, rate)->Ok_0,
            spec_record_key(rs.last(), rtags),
            spec_keyed_position(rs.last(), rtags, rate),
        );
    }
}

/// The grouping key and display text of one record under a recipient's
/// tag map.
fn key_and_text(recipient: &Recipient, record: &WorklogRecord) -> (r: (String, String))
    ensures
        r.0@ == spec_record_key(record@, recipient.tags@),
        r.1@ == spec_record_text(record@, recipient.tags@),
{
    let tags = record.tags();
    let m = tags.len();
    proof {
        lemma_tag_views_index(tags@);
        assert(record@.tags.take(0) =~= Seq::<Seq<char>>::empty());
    }
    let mut found: Option<(String, String)> = None;
    let mut j: usize = 0;
    while j < m
        invariant
            m == tags@.len(),
            crate::worklog::spec_tag_views(tags@) == record@.tags,
            j <= m,
            match found {
                Some(kt) => {
                    &&& spec_last_matching_tag(recipient.tags@, record@.tags.take(j as int))
                        == Some(kt.0@)
                    &&& (spec_tag_lookup(recipient.tags@, kt.0@) matches Some(info)
                        && info.position_text@ == kt.1@)
                },
                None => spec_last_matching_tag(recipient.tags@, record@.tags.take(j as int))
                    is None,
            },
        decreases m - j,
    {
        proof {
            lemma_tag_views_index(tags@);
            assert(record@.tags.take(j + 1).drop_last() =~= record@.tags.take(j as int));
            assert(record@.tags.take(j + 1).last() == record@.tags[j as int]);
            assert(record@.tags[j as int] == tags@[j as int]@);
        }
        match recipient.tag_lookup(tags[j].as_str()) {
            Some(info) => {
                let key = tags[j].clone();
                let text = info.position_text.clone();
                found = Some((key, text));
            },
            None => {
            },
        }
        j += 1;
    }
    proof {
        assert(record@.tags.take(m as int) =~= record@.tags);
    }
    match found {
        Some(kt) => kt,
        None => {
            let dname: Option<String> = match recipient.default_tag_name() {
                Some(d) => Some(d.clone()),
                None => None,
            };
            match dname {
                Some(key) => {
                    let text = match recipient.tag_lookup(key.as_str()) {
                        Some(info) => info.position_text.clone(),
                        None => record.message().clone(),
                    };
                    (key, text)
                },
                None => (record.message().clone(), record.message().clone()),
            }
        },
    }
}

/// Once a prefix of the records fails to fold, the whole list fails the
/// same way.
proof fn lemma_fold_error_persists(
    rs: Seq<RecordView>,
    rtags: Seq<(String, RecipientTagInfo)>,
    rate: int,
    k: int,
    e: InvoiceError,
)
    requires
        0 <= k <= rs.len(),
        spec_fold_positions(rs.take(k), rtags, rate) == Err::<
            Seq<(Seq<char>, PositionView)>,
            InvoiceError,
        >(e),
    ensures
        spec_fold_positions(rs, rtags, rate) == Err::<
            Seq<(Seq<char>, PositionView)>,
            InvoiceError,
        >(e),
    decreases rs.len() - k,
{
    if k == rs.len() {
        assert(rs.take(k) =~= rs);
    } else {
        assert(rs.take(k + 1).drop_last() =~= rs.take(k));
        lemma_fold_error_persists(rs, rtags, rate, k + 1, e);
    }
}

pub proof fn lemma_entry_positions_index(l: Seq<(Seq<char>, PositionView)>)
    ensures
        spec_entry_positions(l).len() == l.len(),
        forall|i: int| 0 <= i < l.len() ==> #[trigger] spec_entry_positions(l)[i] == l[i].1,
{
}

impl Invoice {
    /// Folds a worklog into the invoice: the date range widens to cover
    /// the records, the records are grouped into key-sorted positions
    /// which are appended to the position list, and, when a timesheet is
    /// produced, the records are added to it and it is re-sorted. An
    /// empty worklog leaves the invoice unchanged. Two records may share
    /// a grouping key and still name different position texts; that
    /// conflict is reported and the invoice is left unchanged.
    pub fn add_worklog(&mut self, worklog: &Worklog) -> (r: Result<(), InvoiceError>)
        requires
            old(self)@.wf(),
            worklog@.wf(),
        ensures
            match r {
                Ok(u) => {
                    &&& (spec_fold_positions(
                        worklog@.records,
                        old(self)@.recipient.tags@,
                        worklog@.rate,
                    ) matches Ok(l) && final(self)@.positions == old(self)@.positions
                        + spec_entry_positions(l))
                    &&& final(self)@.begin == if spec_min_begin(worklog@.records) < old(
                        self,
                    )@.begin {
                        spec_min_begin(worklog@.records)
                    } else {
                        old(self)@.begin
                    }
                    &&& final(self)@.end == if spec_max_end(worklog@.records) > old(self)@.end {
                        spec_max_end(worklog@.records)
                    } else {
                        old(self)@.end
                    }
                    &&& final(self)@.config == old(self)@.config
                    &&& final(self)@.counter == old(self)@.counter
                    &&& final(self)@.recipient == old(self)@.recipient
                    &&& final(self)@.date == old(self)@.date
                    &&& final(self)@.locale == old(self)@.locale
                    &&& final(self)@.template_dir == old(self)@.template_dir
                    &&& final(self)@.payment == old(self)@.payment
                    &&& final(self)@.contact == old(self)@.contact
                    &&& final(self)@.wf()
                    &&& (old(self)@.gen_timesheet() && worklog@.records.len() > 0 ==> (final(self)@.timesheet matches Some(ts)
                        && ts.worklog.records.to_multiset() == (match old(self)@.timesheet {
                        Some(o) => o.worklog.records,
                        None => Seq::<RecordView>::empty(),
                    }).to_multiset().add(worklog@.records.to_multiset())
                        && crate::worklog::spec_sorted_by_begin(ts.worklog.records)))
                    &&& (!old(self)@.gen_timesheet() || worklog@.records.len() == 0
                        ==> final(self)@.timesheet == old(self)@.timesheet)
                    &&& (worklog@.records.len() == 0 ==> final(self)@ == old(self)@)
                },
                Err(e) => {
                    &&& spec_fold_positions(
                        worklog@.records,
                        old(self)@.recipient.tags@,
                        worklog@.rate,
                    ) == Err::<Seq<(Seq<char>, PositionView)>, InvoiceError>(e)
                    &&& final(self)@ == old(self)@
                },
            },
    {
        broadcast use vstd::seq_lib::group_to_multiset_ensures, vstd::multiset::group_multiset_axioms;

        let ghost old_view = self@;
        let ghost rtags = self.recipient.tags@;
        let recs = worklog.records();
        let rate = worklog.rate();
        let n = recs.len();
        proof {
            lemma_record_views_index(recs@);
            assert(worklog@.records.take(0) =~= Seq::<RecordView>::empty());
        }
        let mut entries: Vec<(String, InvoicePosition)> = Vec::new();
        let mut rb: i64 = DT_MAX_SECS;
        let mut re_max: i64 = DT_MIN_SECS;
        proof {
            lemma_entry_views_index(entries@);
            assert(spec_entry_views(entries@) =~= Seq::<(Seq<char>, PositionView)>::empty());
        }
        let mut i: usize = 0;
        while i < n
            invariant
                n == recs@.len(),
                worklog@.wf(),
                spec_record_views(recs@) == worklog@.records,
                rate as int == worklog@.rate,
                rtags == self.recipient.tags@,
                i <= n,
                rb as int == spec_min_begin(worklog@.records.take(i as int)),
                re_max as int == spec_max_end(worklog@.records.take(i as int)),
                spec_fold_positions(worklog@.records.take(i as int), rtags, rate as int) == Ok::<
                    Seq<(Seq<char>, PositionView)>,
                    InvoiceError,
                >(spec_entry_views(entries@)),
            decreases n - i,
        {
            proof {
                lemma_record_views_index(recs@);
                assert(worklog@.records[i as int] == recs@[i as int]@);
                assert(worklog@.records.take(i + 1).drop_last() =~= worklog@.records.take(i as int));
                assert(worklog@.records.take(i + 1).last() == worklog@.records[i as int]);
            }
            let record = &recs[i];
            let b = record.begin_date();
            if b.secs < rb {
                rb = b.secs;
            }
            let e = record.end_date();
            if e.secs > re_max {
                re_max = e.secs;
            }
            let kt = key_and_text(&self.recipient, record);
            let mut pos = InvoicePosition::from_worklog_record(record, rate);
            pos.text = kt.1;
            proof {
                assert(pos@ =~= spec_keyed_position(record@, rtags, rate as int));
            }
            entries = match insert_position(entries, kt.0, pos) {
                Ok(v) => v,
                Err(err) => {
                    proof {
                        lemma_fold_error_persists(worklog@.records, rtags, rate as int, i + 1, err);
                    }
                    return Err(err);
                },
            };
            i += 1;
        }
        proof {
            assert(worklog@.records.take(n as int) =~= worklog@.records);
            crate::worklog::lemma_worklog_range(worklog@);
            assert(rb as int == worklog@.begin);
            assert(re_max as int == worklog@.end);
            if worklog@.records.len() > 0 {
                let wi = choose|wi: int|
                    0 <= wi < worklog@.records.len() && worklog@.begin == (
                    #[trigger] worklog@.records[wi]).begin;
                assert(worklog@.records[wi].wf());
                let we = choose|we: int|
                    0 <= we < worklog@.records.len() && worklog@.end == (
                    #[trigger] worklog@.records[we]).end();
                assert(worklog@.records[we].wf());
            }
            assert(DT_MIN_SECS <= rb <= DT_MAX_SECS);
            assert(DT_MIN_SECS <= re_max <= DT_MAX_SECS);
        }
        if rb < self.begin_date.secs {
            self.begin_date = DateTime { secs: rb };
        }
        if re_max > self.end_date.secs {
            self.end_date = DateTime { secs: re_max };
        }
        let ghost entry_list = spec_entry_views(entries@);
        let m = entries.len();
        proof {
            lemma_entry_positions_index(entry_list);
            lemma_position_views_index(self.positions@);
            assert(spec_position_views(self.positions@) == old_view.positions);
            assert(spec_entry_positions(entry_list).take(0)
                =~= Seq::<PositionView>::empty());
            assert(old_view.positions + spec_entry_positions(entry_list).take(0)
                =~= old_view.positions);
        }
        let mut k: usize = 0;
        while k < m
            invariant
                m == entries@.len(),
                entry_list == spec_entry_views(entries@),
                k <= m,
                spec_position_views(self.positions@) == old_view.positions + spec_entry_positions(
                    entry_list,
                ).take(k as int),
                self.begin_date == final_begin_date_at(old_view, worklog@),
                self.end_date == final_end_date_at(old_view, worklog@),
                self.config == old(self).config,
                self.counter == old(self).counter,
                self.recipient == old(self).recipient,
                self.date == old(self).date,
                self.locale == old(self).locale,
                self.template_dir == old(self).template_dir,
                self.payment == old(self).payment,
                self.biller_contact == old(self).biller_contact,
                self.timesheet == old(self).timesheet,
            decreases m - k,
        {
            proof {
                lemma_entry_views_index(entries@);
                lemma_entry_positions_index(entry_list);
                lemma_position_views_index(self.positions@);
            }
            let p = entries[k].1.duplicate();
            proof {
                assert(entry_list[k as int] == (entries@[k as int].0@, entries@[k as int].1@));
                assert(spec_entry_positions(entry_list)[k as int] == entry_list[k as int].1);
                assert(p@ == spec_entry_positions(entry_list)[k as int]);
            }
            let ghost prev = self.positions@;
            self.positions.push(p);
            proof {
                lemma_position_views_index(prev);
                lemma_position_views_index(self.positions@);
                assert(spec_position_views(self.positions@) =~= spec_position_views(prev).push(
                    p@,
                ));
                assert(spec_entry_positions(entry_list).take(k + 1) =~= spec_entry_positions(
                    entry_list,
                ).take(k as int).push(spec_entry_positions(entry_list)[k as int]));
                assert(spec_position_views(self.positions@) =~= old_view.positions
                    + spec_entry_positions(entry_list).take(k + 1));
            }
            k += 1;
        }
        proof {
            assert(spec_entry_positions(entry_list).take(m as int) =~= spec_entry_positions(
                entry_list,
            ));
        }
        if n > 0 && self.generate_timesheet() {
            let mut tmp: Option<Timesheet> = None;
            core::mem::swap(&mut tmp, &mut self.timesheet);
            let mut ts: Timesheet = match tmp {
                Some(t) => t,
                None => {
                    let name = self.config.timesheet_template();
                    let path = path_join(self.template_dir.as_str(), name.as_str());
                    Timesheet::new(path.as_str())
                },
            };
            let ghost ts0 = ts@.worklog.records;
            proof {
                assert(worklog@.records.take(0) =~= Seq::<RecordView>::empty());
                assert(ts0 + worklog@.records.take(0) =~= ts0);
                if old_view.timesheet is None {
                    assert(ts0 =~= Seq::<RecordView>::empty());
                }
            }
            let mut q: usize = 0;
            while q < n
                invariant
                    n == recs@.len(),
                    worklog@.wf(),
                    spec_record_views(recs@) == worklog@.records,
                    q <= n,
                    ts@.worklog.wf(),
                    ts@.worklog.records == ts0 + worklog@.records.take(q as int),
                decreases n - q,
            {
                proof {
                    lemma_record_views_index(recs@);
                    assert(worklog@.records[q as int] == recs@[q as int]@);
                }
                let rec = recs[q].duplicate();
                ts.add_record(rec);
                proof {
                    assert(ts@.worklog.records =~= ts0 + worklog@.records.take(q + 1));
                }
                q += 1;
            }
            proof {
                assert(worklog@.records.take(n as int) =~= worklog@.records);
            }
            ts.sort();
            proof {
                vstd::seq_lib::lemma_multiset_commutative(ts0, worklog@.records);
            }
            self.timesheet = Some(ts);
        }
        Ok(())
    }
}

/// The invoice begin date after a worklog was added.
pub open spec fn final_begin_date_at(old_view: InvoiceView, wl: WorklogView) -> DateTime {
    if spec_min_begin(wl.records) < old_view.begin {
        DateTime { secs: spec_min_begin(wl.records) as i64 }
    } else {
        DateTime { secs: old_view.begin as i64 }
    }
}

/// The invoice end date after a worklog was added.
pub open spec fn final_end_date_at(old_view: InvoiceView, wl: WorklogView) -> DateTime {
    if spec_max_end(wl.records) > old_view.end {
        DateTime { secs: spec_max_end(wl.records) as i64 }
    } else {
        DateTime { secs: old_view.end as i64 }
    }
}

/// The capped sum of all position net values.
pub open spec fn spec_sum_positions(ps: Seq<PositionView>) -> int
    decreases ps.len(),
{
    if ps.len() == 0 {
        0
    } else {
        spec_sat_add(spec_sum_positions(ps.drop_last()), ps.last().net)
    }
}

/// The tax on a sum at a rate in hundredths of a percent, capped.
pub open spec fn spec_tax_of(sum: int, rate: int) -> int {
    if sum * rate / 10000 > u64::MAX {
        u64::MAX as int
    } else {
        sum * rate / 10000
    }
}

/// The invoice number: the number pattern with `%Y` as the four-digit
/// year, `%m` as the two-digit month and `${COUNTER}` as the two-digit
/// counter.
pub open spec fn spec_number(v: InvoiceView) -> Seq<char> {
    spec_replace_all(
        spec_replace_all(
            spec_replace_all(
                spec_opt_str(v.config.number_format, "%Y%m${COUNTER}"@),
                "%Y"@,
                spec_i64_str_pad(spec_year_of(v.date), 4),
            ),
            "%m"@,
            spec_zero_pad(spec_u64_str(spec_month_of(v.date)), 2),
        ),
        "${COUNTER}"@,
        spec_zero_pad(spec_u64_str(v.counter), 2),
    )
}

/// The output file name: the name pattern with `${INVOICENUMBER}` as the
/// invoice number, `${INVOICE}` as the locale's word for an invoice, and
/// `${RECIPIENT}` as the recipient's name.
pub open spec fn spec_filename(v: InvoiceView) -> Seq<char> {
    spec_replace_all(
        spec_replace_all(
            spec_replace_all(
                spec_opt_str(
                    v.config.filename_format,
                    "${INVOICENUMBER}_${INVOICE}_${RECIPIENT}.tex"@,
                ),
                "${INVOICENUMBER}"@,
                spec_number(v),
            ),
            "${INVOICE}"@,
            spec_lookup(v.locale.translations@, "invoice"@)->Some_0,
        ),
        "${RECIPIENT}"@,
        v.recipient.name@,
    )
}

impl Invoice {
    pub fn number(&self) -> (r: String)
        requires
            self@.wf(),
        ensures
            r@ == spec_number(self@),
    {
        proof {
            reveal_strlit("%Y");
            reveal_strlit("%m");
            reveal_strlit("${COUNTER}");
        }
        let fmt = self.config.number_format();
        let y = year_of_secs(self.date.secs);
        let ys = i64_to_string_pad(y, 4);
        let mo = month_of_secs(self.date.secs);
        let ms = u64_to_string_pad(mo as u64, 2);
        let cs = u64_to_string_pad(self.counter as u64, 2);
        let a = replace_all(fmt.as_str(), "%Y", ys.as_str());
        let b = replace_all(a.as_str(), "%m", ms.as_str());
        replace_all(b.as_str(), "${COUNTER}", cs.as_str())
    }

    /// The output file name; the locale must carry the word for an
    /// invoice.
    pub fn filename(&self) -> (r: String)
        requires
            self@.wf(),
            spec_lookup(self@.locale.translations@, "invoice"@) is Some,
        ensures
            r@ == spec_filename(self@),
    {
        proof {
            reveal_strlit("${INVOICENUMBER}");
            reveal_strlit("${INVOICE}");
            reveal_strlit("${RECIPIENT}");
        }
        let fmt = self.config.filename_format();
        let num = self.number();
        let word = self.locale.tr("invoice");
        let a = replace_all(fmt.as_str(), "${INVOICENUMBER}", num.as_str());
        let b = replace_all(a.as_str(), "${INVOICE}", word.as_str());
        replace_all(b.as_str(), "${RECIPIENT}", self.recipient.name.as_str())
    }

    /// The capped sum of all position net values.
    pub fn sum(&self) -> (r: u64)
        ensures
            r == spec_sum_positions(self@.positions),
    {
        let n = self.positions.len();
        proof {
            lemma_position_views_index(self.positions@);
            assert(self@.positions.take(0) =~= Seq::<PositionView>::empty());
        }
        let mut acc: u64 = 0;
        let mut i: usize = 0;
        while i < n
            invariant
                n == self.positions@.len(),
                i <= n,
                acc == spec_sum_positions(self@.positions.take(i as int)),
            decreases n - i,
        {
            proof {
                lemma_position_views_index(self.positions@);
                assert(self@.positions[i as int] == self.positions@[i as int]@);
                assert(self@.positions.take(i + 1).drop_last() =~= self@.positions.take(i as int));
                assert(self@.positions.take(i + 1).last() == self@.positions[i as int]);
            }
            let net = self.positions[i].net();
            if acc > u64::MAX - net {
                acc = u64::MAX;
            } else {
                acc = acc + net;
            }
            i += 1;
        }
        proof {
            assert(self@.positions.take(n as int) =~= self@.positions);
        }
        acc
    }

    /// The value-added tax on the sum, at the payment's tax rate.
    pub fn tax(&self) -> (r: u64)
        ensures
            r == spec_tax_of(spec_sum_positions(self@.positions), self@.payment.tax_rate as int),
    {
        let sum = self.sum();
        proof {
            assert((sum as int) * (self.payment.tax_rate as int) <= u64::MAX as int * u64::MAX
                as int) by (nonlinear_arith)
                requires
                    0 <= sum <= u64::MAX,
                    0 <= self.payment.tax_rate <= u64::MAX,
            ;
        }
        let wide: u128 = (sum as u128) * (self.payment.tax_rate as u128) / 10000;
        if wide > u64::MAX as u128 {
            u64::MAX
        } else {
            wide as u64
        }
    }

    /// The sum with the tax added, capped.
    pub fn sum_with_tax(&self) -> (r: u64)
        ensures
            r as int == spec_sat_add(
                spec_sum_positions(self@.positions),
                spec_tax_of(spec_sum_positions(self@.positions), self@.payment.tax_rate as int),
            ),
    {
        let sum = self.sum();
        let tax = self.tax();
        if sum > u64::MAX - tax {
            u64::MAX
        } else {
            sum + tax
        }
    }

    pub fn currency(&self) -> (r: crate::locale::Currency)
        ensures
            r.0@ == match self@.payment.currency {
                Some(ref c) => c.0@,
                None => "EUR"@,
            },
    {
        self.payment.currency()
    }

    pub fn currency_symbol(&self) -> (r: String)
        ensures
            r@ == crate::locale::spec_symbol(
                match self@.payment.currency {
                    Some(ref c) => c.0@,
                    None => "EUR"@,
                },
            ),
    {
        self.payment.currency_symbol()
    }
}

impl Invoice {
    pub fn recipient(&self) -> (r: &Recipient)
        ensures
            *r == self@.recipient,
    {
        &self.recipient
    }

    pub fn biller_contact(&self) -> (r: &Contact)
        ensures
            *r == self@.contact,
    {
        &self.biller_contact
    }

    pub fn config(&self) -> (r: &InvoiceConfig)
        ensures
            *r == self@.config,
    {
        &self.config
    }

    pub fn timesheet(&self) -> (r: &Option<Timesheet>)
        ensures
            self@.timesheet == match *r {
                Some(ts) => Some(ts@),
                None => None::<TimesheetView>,
            },
    {
        &self.timesheet
    }
}

impl Timesheet {
    pub fn template_file(&self) -> (r: &String)
        ensures
            r@ == self@.template_file,
    {
        &self.template_file
    }

    pub fn template_dir(&self) -> (r: &String)
        ensures
            r@ == self@.template_dir,
    {
        &self.template_dir
    }
}

/// How the invoice's parts stand in its view.
pub(crate) proof fn lemma_invoice_view_parts(inv: &Invoice)
    ensures
        inv@.config == inv.config,
        inv@.recipient == inv.recipient,
        inv@.contact == inv.biller_contact,
        inv@.payment == inv.payment,
        inv@.locale == inv.locale,
        inv@.positions == spec_position_views(inv.positions@),
        inv@.timesheet == match inv.timesheet {
            Some(ref ts) => Some(ts@),
            None => None::<TimesheetView>,
        },
        inv@.date == inv.date.secs as int,
        inv@.begin == inv.begin_date.secs as int,
        inv@.end == inv.end_date.secs as int,
        inv@.counter == inv.counter as int,
        inv@.template_dir == inv.template_dir@,
{
}

/// The recipient's default rate, else the biller's, else the built-in one.
pub open spec fn spec_default_rate(v: InvoiceView) -> int {
    match v.recipient.default_rate {
        Some(r) => r as int,
        None => match v.payment.default_rate {
            Some(r) => r as int,
            None => DEFAULT_RATE as int,
        },
    }
}

} // verus!
