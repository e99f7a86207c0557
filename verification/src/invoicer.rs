//! The biller context: global configuration, directory resolution from
//! placeholder patterns, the fingerprint store of issued invoices, and
//! the top-level state that collects worklogs and recipients.

use vstd::prelude::*;
use crate::dates::{DateTime, spec_year_of, year_of_secs};
use crate::recipient::{Contact, InvoiceConfig, Payment, Recipient};
use crate::text::{replace_all, spec_replace_all, spec_i64_str_pad, spec_hex_str, spec_zero_pad,
    str_eq, i64_to_string_pad, u64_to_hex_pad};
use crate::worklog::{Worklog, WorklogView, DEFAULT_RATE};

verus! {

/// What to do when an output file already exists.
#[derive(Debug, Clone, Copy, PartialEq, Eq, Structural)]
pub enum OverwriteBehaviour {
    Force,
    RenameOld,
    RenameNew,
    Skip,
}

impl Default for OverwriteBehaviour {
    fn default() -> (r: Self)
        ensures
            r == OverwriteBehaviour::RenameOld,
    {
        OverwriteBehaviour::RenameOld
    }
}

/// Directory settings with `${HOME}`, `${WORKING_DIR}`, `${CONFIG_DIR}`
/// and `${YEAR}` placeholders.
pub struct Directories {
    pub config: Option<String>,
    pub tags: Option<String>,
    pub templates: Option<String>,
    pub invoices: Option<String>,
    pub locales: Option<String>,
}

/// A pattern with `${HOME}` and `${WORKING_DIR}` substituted.
pub open spec fn spec_home_path(s: Seq<char>, home: Seq<char>, wd: Seq<char>) -> Seq<char> {
    spec_replace_all(spec_replace_all(s, "${HOME}"@, home), "${WORKING_DIR}"@, wd)
}

/// A pattern with `${HOME}`, `${WORKING_DIR}` and `${CONFIG_DIR}` substituted.
pub open spec fn spec_full_path(
    s: Seq<char>,
    home: Seq<char>,
    wd: Seq<char>,
    config_dir: Seq<char>,
) -> Seq<char> {
    spec_replace_all(spec_home_path(s, home, wd), "${CONFIG_DIR}"@, config_dir)
}

pub open spec fn spec_config_dir(d: Directories, home: Seq<char>, wd: Seq<char>) -> Seq<char> {
    spec_home_path(
        match d.config {
            Some(s) => s@,
            None => "${HOME}/.invoicer"@,
        },
        home,
        wd,
    )
}

impl Directories {
    pub fn empty() -> (r: Directories)
        ensures
            r.config is None,
            r.tags is None,
            r.templates is None,
            r.invoices is None,
            r.locales is None,
    {
        Directories { config: None, tags: None, templates: None, invoices: None, locales: None }
    }

    fn home_path(s: &str, home: &str, wd: &str) -> (r: String)
        ensures
            r@ == spec_home_path(s@, home@, wd@),
    {
        proof {
            reveal_strlit("${HOME}");
            reveal_strlit("${WORKING_DIR}");
        }
        let a = replace_all(s, "${HOME}", home);
        replace_all(a.as_str(), "${WORKING_DIR}", wd)
    }

    /// The configuration directory, by default `${HOME}/.invoicer`.
    pub fn config_dir(&self, home: &str, wd: &str) -> (r: String)
        ensures
            r@ == spec_config_dir(*self, home@, wd@),
    {
        match &self.config {
            Some(s) => Self::home_path(s.as_str(), home, wd),
            None => Self::home_path("${HOME}/.invoicer", home, wd),
        }
    }

    fn format_path(&self, s: &str, home: &str, wd: &str) -> (r: String)
        ensures
            r@ == spec_full_path(s@, home@, wd@, spec_config_dir(*self, home@, wd@)),
    {
        proof {
            reveal_strlit("${CONFIG_DIR}");
        }
        let cd = self.config_dir(home, wd);
        let a = Self::home_path(s, home, wd);
        replace_all(a.as_str(), "${CONFIG_DIR}", cd.as_str())
    }

    /// The tag directory, by default `${CONFIG_DIR}/tags`.
    pub fn tag_dir(&self, home: &str, wd: &str) -> (r: String)
        ensures
            r@ == spec_full_path(
                match self.tags {
                    Some(ref s) => s@,
                    None => "${CONFIG_DIR}/tags"@,
                },
                home@,
                wd@,
                spec_config_dir(*self, home@, wd@),
            ),
    {
        match &self.tags {
            Some(s) => {
                let t = s.clone();
                self.format_path(t.as_str(), home, wd)
            },
            None => self.format_path("${CONFIG_DIR}/tags", home, wd),
        }
    }

    /// The template directory, by default `${CONFIG_DIR}/templates`.
    pub fn template_dir(&self, home: &str, wd: &str) -> (r: String)
        ensures
            r@ == spec_full_path(
                match self.templates {
                    Some(ref s) => s@,
                    None => "${CONFIG_DIR}/templates"@,
                },
                home@,
                wd@,
                spec_config_dir(*self, home@, wd@),
            ),
    {
        match &self.templates {
            Some(s) => {
                let t = s.clone();
                self.format_path(t.as_str(), home, wd)
            },
            None => self.format_path("${CONFIG_DIR}/templates", home, wd),
        }
    }

    /// The locale directory, by default `${CONFIG_DIR}/locales`.
    pub fn locale_dir(&self, home: &str, wd: &str) -> (r: String)
        ensures
            r@ == spec_full_path(
                match self.locales {
                    Some(ref s) => s@,
                    None => "${CONFIG_DIR}/locales"@,
                },
                home@,
                wd@,
                spec_config_dir(*self, home@, wd@),
            ),
    {
        match &self.locales {
            Some(s) => {
                let t = s.clone();
                self.format_path(t.as_str(), home, wd)
            },
            None => self.format_path("${CONFIG_DIR}/locales", home, wd),
        }
    }

    /// The invoice output directory pattern, by default
    /// `${HOME}/Documents/invoices/${YEAR}`; `${YEAR}` stays in place
    /// here and is substituted by the invoicer.
    pub fn invoice_dir(&self, home: &str, wd: &str) -> (r: String)
        ensures
            r@ == spec_full_path(
                match self.invoices {
                    Some(ref s) => s@,
                    None => "${HOME}/Documents/invoices/${YEAR}"@,
                },
                home@,
                wd@,
                spec_config_dir(*self, home@, wd@),
            ),
    {
        match &self.invoices {
            Some(s) => {
                let t = s.clone();
                self.format_path(t.as_str(), home, wd)
            },
            None => self.format_path("${HOME}/Documents/invoices/${YEAR}", home, wd),
        }
    }
}

/// The global configuration of the biller.
pub struct Config {
    pub pdf_generator: Option<String>,
    pub overwrite: OverwriteBehaviour,
    pub directories: Directories,
    pub contact: Contact,
    pub payment: Payment,
    pub invoice: InvoiceConfig,
}

impl Config {
    pub fn contact(&self) -> (r: &Contact)
        ensures
            r == &self.contact,
    {
        &self.contact
    }

    pub fn payment(&self) -> (r: &Payment)
        ensures
            r == &self.payment,
    {
        &self.payment
    }

    pub fn invoice(&self) -> (r: &InvoiceConfig)
        ensures
            r == &self.invoice,
    {
        &self.invoice
    }

    pub fn set_invoice_dir(&mut self, p: String)
        ensures
            final(self).directories.invoices == Some(p),
            final(self).pdf_generator == old(self).pdf_generator,
            final(self).overwrite == old(self).overwrite,
            final(self).contact == old(self).contact,
            final(self).payment == old(self).payment,
            final(self).invoice == old(self).invoice,
            final(self).directories.config == old(self).directories.config,
            final(self).directories.tags == old(self).directories.tags,
            final(self).directories.templates == old(self).directories.templates,
            final(self).directories.locales == old(self).directories.locales,
    {
        self.directories.invoices = Some(p);
    }
}

/// One step of the 64-bit FNV-1a hash: the byte is folded in by
/// exclusive or, then the state is multiplied by the FNV prime modulo
/// two to the sixty-fourth.
pub open spec fn spec_fnv1a_step(h: u64, b: u8) -> u64 {
    ((((h ^ (b as u64)) as int) * 0x100000001b3) % 0x1_0000_0000_0000_0000) as u64
}

/// The 64-bit FNV-1a hash of a byte text, from the standard offset basis.
pub open spec fn spec_fnv1a(data: Seq<u8>) -> u64
    decreases data.len(),
{
    if data.len() == 0 {
        0xcbf29ce484222325u64
    } else {
        spec_fnv1a_step(spec_fnv1a(data.drop_last()), data.last())
    }
}

/// A stable identifier of rendered invoice content: its 64-bit FNV-1a
/// hash, shown as sixteen lower-case hexadecimal digits.
#[verifier::rlimit(60)]
pub fn content_fingerprint(data: &[u8]) -> (r: String)
    ensures
        r@ == spec_zero_pad(spec_hex_str(spec_fnv1a(data@) as int), 16),
{
    let n = data.len();
    let mut h: u64 = 0xcbf29ce484222325;
    proof {
        assert(data@.take(0) =~= Seq::<u8>::empty());
    }
    let mut i: usize = 0;
    while i < n
        invariant
            n == data@.len(),
            i <= n,
            h == spec_fnv1a(data@.take(i as int)),
        decreases n - i,
    {
        proof {
            assert(data@.take(i + 1).drop_last() =~= data@.take(i as int));
            assert(data@.take(i + 1).last() == data@[i as int]);
        }
        let ghost h0 = h;
        let x: u64 = h ^ (data[i] as u64);
        let wide: u128 = (x as u128) * 0x100000001b3;
        let reduced: u128 = wide % 0x1_0000_0000_0000_0000;
        h = reduced as u64;
        proof {
            assert(wide == (x as int) * 0x100000001b3);
            assert(h == spec_fnv1a_step(h0, data@[i as int]));
        }
        i += 1;
    }
    proof {
        assert(data@.take(n as int) =~= data@);
    }
    u64_to_hex_pad(h, 16)
}

/// The first number paired with a fingerprint, searched in order.
pub open spec fn spec_fp_number(pairs: Seq<(String, String)>, f: Seq<char>) -> Option<Seq<char>>
    decreases pairs.len(),
{
    if pairs.len() == 0 {
        None
    } else if pairs[0].0@ == f {
        Some(pairs[0].1@)
    } else {
        spec_fp_number(pairs.drop_first(), f)
    }
}

pub open spec fn spec_fp_has_number(pairs: Seq<(String, String)>, n: Seq<char>) -> bool {
    exists|i: int| 0 <= i < pairs.len() && pairs[i].1@ == n
}

/// The pairs that collide with a new (fingerprint, number) pair removed.
pub open spec fn spec_fp_without(
    pairs: Seq<(String, String)>,
    f: Seq<char>,
    n: Seq<char>,
) -> Seq<(String, String)>
    decreases pairs.len(),
{
    if pairs.len() == 0 {
        pairs
    } else {
        let prev = spec_fp_without(pairs.drop_last(), f, n);
        if pairs.last().0@ == f || pairs.last().1@ == n {
            prev
        } else {
            prev.push(pairs.last())
        }
    }
}

/// Which invoices were already issued: pairs of a content fingerprint
/// and the invoice number it received.
pub struct InvoiceFingerprints {
    pub(crate) pairs: Vec<(String, String)>,
}

impl View for InvoiceFingerprints {
    type V = Seq<(String, String)>;

    closed spec fn view(&self) -> Seq<(String, String)> {
        self.pairs@
    }
}

impl InvoiceFingerprints {
    /// Records that an invoice with this fingerprint got this number;
    /// any earlier pair with the same fingerprint or number is dropped.
    pub fn add(&mut self, fingerprint: String, number: String)
        ensures
            final(self)@ == spec_fp_without(old(self)@, fingerprint@, number@).push(
                (fingerprint, number),
            ),
    {
        let n = self.pairs.len();
        let mut kept: Vec<(String, String)> = Vec::new();
        proof {
            assert(spec_fp_without(self.pairs@.take(0), fingerprint@, number@)
                =~= Seq::<(String, String)>::empty());
            assert(kept@ =~= Seq::<(String, String)>::empty());
        }
        let mut i: usize = 0;
        while i < n
            invariant
                n == self.pairs@.len(),
                i <= n,
                kept@ == spec_fp_without(self.pairs@.take(i as int), fingerprint@, number@),
            decreases n - i,
        {
            proof {
                assert(self.pairs@.take(i + 1).drop_last() =~= self.pairs@.take(i as int));
                assert(self.pairs@.take(i + 1).last() == self.pairs@[i as int]);
            }
            let keep = !str_eq(self.pairs[i].0.as_str(), fingerprint.as_str()) && !str_eq(
                self.pairs[i].1.as_str(),
                number.as_str(),
            );
            if keep {
                let pair = (self.pairs[i].0.clone(), self.pairs[i].1.clone());
                proof {
                    assert(pair == self.pairs@[i as int]);
                }
                kept.push(pair);
            }
            i += 1;
        }
        proof {
            assert(self.pairs@.take(n as int) =~= self.pairs@);
        }
        kept.push((fingerprint, number));
        self.pairs = kept;
    }

    /// Whether some pair carries this fingerprint.
    pub fn contains_fingerprint(&self, f: String) -> (r: bool)
        ensures
            r == (spec_fp_number(self@, f@) is Some),
    {
        match self.number_for_fingerprint(f) {
            Some(_) => true,
            None => false,
        }
    }

    /// Whether some pair carries this invoice number.
    pub fn contains_number(&self, n: String) -> (r: bool)
        ensures
            r == spec_fp_has_number(self@, n@),
    {
        let len = self.pairs.len();
        let mut i: usize = 0;
        while i < len
            invariant
                len == self.pairs@.len(),
                i <= len,
                forall|j: int| 0 <= j < i ==> #[trigger] self.pairs@[j].1@ != n@,
            decreases len - i,
        {
            if str_eq(self.pairs[i].1.as_str(), n.as_str()) {
                return true;
            }
            i += 1;
        }
        false
    }

    /// The number recorded for a fingerprint, if any.
    pub fn number_for_fingerprint(&self, f: String) -> (r: Option<String>)
        ensures
            match r {
                Some(v) => spec_fp_number(self@, f@) == Some(v@),
                None => spec_fp_number(self@, f@) is None,
            },
    {
        let len = self.pairs.len();
        proof {
            assert(self.pairs@.skip(0) =~= self.pairs@);
        }
        let mut i: usize = 0;
        while i < len
            invariant
                len == self.pairs@.len(),
                i <= len,
                spec_fp_number(self.pairs@, f@) == spec_fp_number(self.pairs@.skip(i as int), f@),
            decreases len - i,
        {
            proof {
                assert(self.pairs@.skip(i as int)[0] == self.pairs@[i as int]);
                assert(self.pairs@.skip(i as int).drop_first() =~= self.pairs@.skip(i + 1));
            }
            if str_eq(self.pairs[i].0.as_str(), f.as_str()) {
                return Some(self.pairs[i].1.clone());
            }
            i += 1;
        }
        None
    }

    /// The stored pairs, fingerprint first.
    pub fn pairs(&self) -> (r: &Vec<(String, String)>)
        ensures
            r@ == self@,
    {
        &self.pairs
    }

    pub fn from_pairs(pairs: Vec<(String, String)>) -> (r: InvoiceFingerprints)
        ensures
            r@ == pairs@,
    {
        InvoiceFingerprints { pairs }
    }
}

impl Default for InvoiceFingerprints {
    fn default() -> (r: Self)
        ensures
            r@.len() == 0,
    {
        InvoiceFingerprints { pairs: Vec::new() }
    }
}

/// The top-level state of one billing run: the configuration, the run
/// date, the numbering counter, the merged worklog, and the recipients.
pub struct Invoicer {
    pub(crate) config: Config,
    pub(crate) date: DateTime,
    pub(crate) counter: u32,
    pub(crate) worklog: Worklog,
    pub(crate) recipients: Vec<Recipient>,
}

/// The mathematical content of the invoicer state.
pub struct InvoicerView {
    pub config: Config,
    pub date: DateTime,
    pub counter: int,
    pub worklog: WorklogView,
    pub recipients: Seq<Recipient>,
}

impl InvoicerView {
    pub open spec fn wf(&self) -> bool {
        &&& self.worklog.wf()
        &&& self.date.wf()
    }
}

impl View for Invoicer {
    type V = InvoicerView;

    closed spec fn view(&self) -> InvoicerView {
        InvoicerView {
            config: self.config,
            date: self.date,
            counter: self.counter as int,
            worklog: self.worklog@,
            recipients: self.recipients@,
        }
    }
}

impl Invoicer {

    /// A fresh invoicer; the counter falls back to 1.
    pub fn new(config: Config, date: DateTime, counter: Option<u32>) -> (r: Invoicer)
        requires
            date.wf(),
        ensures
            r@.wf(),
            r@.config == config,
            r@.date == date,
            r@.counter == match counter {
                Some(c) => c as int,
                None => 1int,
            },
            r@.worklog.records.len() == 0,
            r@.worklog.rate == DEFAULT_RATE as int,
            r@.recipients.len() == 0,
    {
        Invoicer {
            config,
            date,
            counter: match counter {
                Some(c) => c,
                None => 1,
            },
            worklog: Worklog::new(),
            recipients: Vec::new(),
        }
    }

    /// Merges a worklog into the invoicer's own.
    pub fn append_worklog(&mut self, worklog: &Worklog)
        requires
            old(self)@.wf(),
            worklog@.wf(),
        ensures
            final(self)@.wf(),
            final(self)@.worklog.records == old(self)@.worklog.records + worklog@.records,
            final(self)@.worklog.rate == old(self)@.worklog.rate,
            final(self)@.config == old(self)@.config,
            final(self)@.date == old(self)@.date,
            final(self)@.counter == old(self)@.counter,
            final(self)@.recipients == old(self)@.recipients,
    {
        self.worklog.append(worklog);
    }

    pub fn has_recipients(&self) -> (r: bool)
        ensures
            r == (self@.recipients.len() > 0),
    {
        self.recipients.len() > 0
    }

    pub fn add_recipient(&mut self, recipient: Recipient)
        ensures
            final(self)@.recipients == old(self)@.recipients.push(recipient),
            final(self)@.config == old(self)@.config,
            final(self)@.date == old(self)@.date,
            final(self)@.counter == old(self)@.counter,
            final(self)@.worklog == old(self)@.worklog,
    {
        self.recipients.push(recipient);
    }

    pub fn recipients(&self) -> (r: &Vec<Recipient>)
        ensures
            r@ == self@.recipients,
    {
        &self.recipients
    }

    pub fn config(&self) -> (r: &Config)
        ensures
            *r == self@.config,
    {
        &self.config
    }

    pub fn date(&self) -> (r: DateTime)
        ensures
            r == self@.date,
    {
        self.date
    }

    pub fn counter(&self) -> (r: u32)
        ensures
            r as int == self@.counter,
    {
        self.counter
    }

    pub fn worklog(&self) -> (r: &Worklog)
        ensures
            r@ == self@.worklog,
    {
        &self.worklog
    }

    /// The output directory with `${YEAR}` replaced by the run year.
    pub fn invoice_dir(&self, home: &str, wd: &str) -> (r: String)
        requires
            self@.date.wf(),
        ensures
            r@ == spec_replace_all(
                spec_full_path(
                    match self@.config.directories.invoices {
                        Some(ref s) => s@,
                        None => "${HOME}/Documents/invoices/${YEAR}"@,
                    },
                    home@,
                    wd@,
                    spec_config_dir(self@.config.directories, home@, wd@),
                ),
                "${YEAR}"@,
                spec_i64_str_pad(spec_year_of(self@.date.secs as int), 0),
            ),
    {
        proof {
            reveal_strlit("${YEAR}");
        }
        let base = self.config.directories.invoice_dir(home, wd);
        let y = year_of_secs(self.date.secs);
        let ys = i64_to_string_pad(y, 0);
        replace_all(base.as_str(), "${YEAR}", ys.as_str())
    }
}

} // verus!
