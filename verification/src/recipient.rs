//! The billing-target model: contact and payment blocks, per-recipient
//! invoice settings with override resolution, and the tag map that
//! renames worklog entries into invoice position texts.

use vstd::prelude::*;
use crate::locale::{Currency, spec_symbol};
use crate::text::{spec_starts_with, spec_trim, starts_with, trim};

verus! {

/// A postal and electronic contact block.
#[derive(Debug, Clone)]
pub struct Contact {
    pub companyname: Option<String>,
    pub fullname: String,
    pub street: String,
    pub zipcode: u32,
    pub city: String,
    pub country: Option<String>,
    pub phone: Option<String>,
    pub fax: Option<String>,
    pub email: String,
    pub website: Option<String>,
}

impl Contact {
    /// A structurally equal copy.
    pub fn duplicate(&self) -> (r: Contact)
        ensures
            r == *self,
    {
        Contact {
            companyname: opt_clone(&self.companyname),
            fullname: self.fullname.clone(),
            street: self.street.clone(),
            zipcode: self.zipcode,
            city: self.city.clone(),
            country: opt_clone(&self.country),
            phone: opt_clone(&self.phone),
            fax: opt_clone(&self.fax),
            email: self.email.clone(),
            website: opt_clone(&self.website),
        }
    }
}

fn opt_clone(a: &Option<String>) -> (r: Option<String>)
    ensures
        r == *a,
{
    match a {
        Some(s) => Some(s.clone()),
        None => None,
    }
}

/// Bank and tax data of the biller. Rates are fixed-point: `tax_rate`
/// and `default_rate` are hundredths (of a percent, and of a currency
/// unit per hour).
#[derive(Debug, Clone)]
pub struct Payment {
    pub accountholder: Option<String>,
    pub iban: String,
    pub bic: String,
    pub taxid: String,
    pub currency: Option<Currency>,
    pub tax_rate: u64,
    pub default_rate: Option<u64>,
}

impl Payment {
    /// The configured currency, or euro.
    pub fn currency(&self) -> (r: Currency)
        ensures
            r.0@ == match self.currency {
                Some(ref c) => c.0@,
                None => "EUR"@,
            },
    {
        match &self.currency {
            Some(c) => Currency(c.0.clone()),
            None => Currency::default(),
        }
    }

    /// A structurally equal copy.
    pub fn duplicate(&self) -> (r: Payment)
        ensures
            r == *self,
    {
        Payment {
            accountholder: opt_clone(&self.accountholder),
            iban: self.iban.clone(),
            bic: self.bic.clone(),
            taxid: self.taxid.clone(),
            currency: match &self.currency {
                Some(c) => Some(Currency(c.0.clone())),
                None => None,
            },
            tax_rate: self.tax_rate,
            default_rate: self.default_rate,
        }
    }

    pub fn currency_symbol(&self) -> (r: String)
        ensures
            r@ == spec_symbol(
                match self.currency {
                    Some(ref c) => c.0@,
                    None => "EUR"@,
                },
            ),
    {
        self.currency().symbol()
    }
}

/// How a worklog tag appears on the invoice, and whether it is the
/// recipient's default tag.
#[derive(Debug, Clone)]
pub struct RecipientTagInfo {
    pub is_default: bool,
    pub position_text: String,
}

/// Whether a stored tag value marks the default tag: its trimmed text
/// starts with `[default]`.
pub open spec fn spec_tag_is_default(s: Seq<char>) -> bool {
    spec_starts_with(spec_trim(s), "[default]"@)
}

/// The position text of a stored tag value: the trimmed text, with a
/// leading `[default]` marker stripped and the remainder trimmed again.
pub open spec fn spec_tag_text(s: Seq<char>) -> Seq<char> {
    let t = spec_trim(s);
    if spec_starts_with(t, "[default]"@) {
        spec_trim(t.skip("[default]"@.len() as int))
    } else {
        t
    }
}

impl RecipientTagInfo {
    /// A tag map value parsed from its stored text form.
    pub fn from_value(s: &str) -> (r: RecipientTagInfo)
        ensures
            r.is_default == spec_tag_is_default(s@),
            r.position_text@ == spec_tag_text(s@),
    {
        proof {
            reveal_strlit("[default]");
        }
        let marker: &str = "[default]";
        let t = trim(s);
        let tlen = t.as_str().unicode_len();
        if starts_with(t.as_str(), marker) {
            let rest = t.as_str().substring_char(9, tlen);
            let text = trim(rest);
            proof {
                assert(rest@ =~= spec_trim(s@).skip(9));
            }
            RecipientTagInfo { is_default: true, position_text: text }
        } else {
            RecipientTagInfo { is_default: false, position_text: t }
        }
    }
}

/// Per-recipient invoice settings; unset fields fall back to the global
/// configuration and then to built-in defaults.
#[derive(Debug, Clone)]
pub struct InvoiceConfig {
    pub locale_str: Option<String>,
    pub template: Option<String>,
    pub date_format: Option<String>,
    pub number_format: Option<String>,
    pub filename_format: Option<String>,
    pub days_for_payment: Option<u32>,
    pub calculate_value_added_tax: Option<bool>,
    pub timesheet_template: Option<String>,
}

impl InvoiceConfig {
    /// The field-wise override of `first` over `second`.
    pub open spec fn spec_resolved(first: InvoiceConfig, second: InvoiceConfig) -> InvoiceConfig {
        InvoiceConfig {
            locale_str: spec_or_string(first.locale_str, second.locale_str),
            template: spec_or_string(first.template, second.template),
            date_format: spec_or_string(first.date_format, second.date_format),
            number_format: spec_or_string(first.number_format, second.number_format),
            filename_format: spec_or_string(first.filename_format, second.filename_format),
            days_for_payment: if first.days_for_payment is Some {
                first.days_for_payment
            } else {
                second.days_for_payment
            },
            calculate_value_added_tax: if first.calculate_value_added_tax is Some {
                first.calculate_value_added_tax
            } else {
                second.calculate_value_added_tax
            },
            timesheet_template: spec_or_string(
                first.timesheet_template,
                second.timesheet_template,
            ),
        }
    }

    pub fn empty() -> (r: InvoiceConfig)
        ensures
            r.locale_str is None,
            r.template is None,
            r.date_format is None,
            r.number_format is None,
            r.filename_format is None,
            r.days_for_payment is None,
            r.calculate_value_added_tax is None,
            r.timesheet_template is None,
    {
        InvoiceConfig {
            locale_str: None,
            template: None,
            date_format: None,
            number_format: None,
            filename_format: None,
            days_for_payment: None,
            calculate_value_added_tax: None,
            timesheet_template: None,
        }
    }

    /// Field-wise override: a setting of `first` wins over one of `second`.
    pub fn resolve(first: &InvoiceConfig, second: &InvoiceConfig) -> (r: InvoiceConfig)
        ensures
            r == InvoiceConfig::spec_resolved(*first, *second),
            r.locale_str == spec_or_string(first.locale_str, second.locale_str),
            r.template == spec_or_string(first.template, second.template),
            r.date_format == spec_or_string(first.date_format, second.date_format),
            r.number_format == spec_or_string(first.number_format, second.number_format),
            r.filename_format == spec_or_string(first.filename_format, second.filename_format),
            r.days_for_payment == if first.days_for_payment is Some {
                first.days_for_payment
            } else {
                second.days_for_payment
            },
            r.calculate_value_added_tax == if first.calculate_value_added_tax is Some {
                first.calculate_value_added_tax
            } else {
                second.calculate_value_added_tax
            },
            r.timesheet_template == spec_or_string(
                first.timesheet_template,
                second.timesheet_template,
            ),
    {
        InvoiceConfig {
            locale_str: or_string(&first.locale_str, &second.locale_str),
            template: or_string(&first.template, &second.template),
            date_format: or_string(&first.date_format, &second.date_format),
            number_format: or_string(&first.number_format, &second.number_format),
            filename_format: or_string(&first.filename_format, &second.filename_format),
            days_for_payment: match first.days_for_payment {
                Some(v) => Some(v),
                None => second.days_for_payment,
            },
            calculate_value_added_tax: match first.calculate_value_added_tax {
                Some(v) => Some(v),
                None => second.calculate_value_added_tax,
            },
            timesheet_template: or_string(&first.timesheet_template, &second.timesheet_template),
        }
    }

    /// The locale name, by default `"en"`.
    pub fn locale_str(&self) -> (r: String)
        ensures
            r@ == spec_opt_str(self.locale_str, "en"@),
    {
        opt_str(&self.locale_str, "en")
    }

    /// The template file name, by default `"invoice.tex"`.
    pub fn template(&self) -> (r: String)
        ensures
            r@ == spec_opt_str(self.template, "invoice.tex"@),
    {
        opt_str(&self.template, "invoice.tex")
    }

    /// The chrono date format, by default `"%Y/%m/%d"`.
    pub fn date_format(&self) -> (r: String)
        ensures
            r@ == spec_opt_str(self.date_format, "%Y/%m/%d"@),
    {
        opt_str(&self.date_format, "%Y/%m/%d")
    }

    /// The invoice number pattern, by default `"%Y%m${COUNTER}"`.
    pub fn number_format(&self) -> (r: String)
        ensures
            r@ == spec_opt_str(self.number_format, "%Y%m${COUNTER}"@),
    {
        opt_str(&self.number_format, "%Y%m${COUNTER}")
    }

    /// The output name pattern, by default
    /// `"${INVOICENUMBER}_${INVOICE}_${RECIPIENT}.tex"`.
    pub fn filename_format(&self) -> (r: String)
        ensures
            r@ == spec_opt_str(self.filename_format, "${INVOICENUMBER}_${INVOICE}_${RECIPIENT}.tex"@),
    {
        opt_str(&self.filename_format, "${INVOICENUMBER}_${INVOICE}_${RECIPIENT}.tex")
    }

    /// Days until payment is due, by default 14.
    pub fn days_for_payment(&self) -> (r: u32)
        ensures
            r == match self.days_for_payment {
                Some(v) => v,
                None => 14u32,
            },
    {
        match self.days_for_payment {
            Some(v) => v,
            None => 14,
        }
    }

    /// Whether value-added tax is itemised, by default true.
    pub fn calculate_value_added_tax(&self) -> (r: bool)
        ensures
            r == match self.calculate_value_added_tax {
                Some(v) => v,
                None => true,
            },
    {
        match self.calculate_value_added_tax {
            Some(v) => v,
            None => true,
        }
    }

    /// The timesheet template name, empty when none is configured.
    pub fn timesheet_template(&self) -> (r: String)
        ensures
            r@ == spec_opt_str(self.timesheet_template, Seq::empty()),
    {
        match &self.timesheet_template {
            Some(v) => v.clone(),
            None => String::new(),
        }
    }
}

pub open spec fn spec_or_string(a: Option<String>, b: Option<String>) -> Option<String> {
    if a is Some {
        a
    } else {
        b
    }
}

fn or_string(a: &Option<String>, b: &Option<String>) -> (r: Option<String>)
    ensures
        r == spec_or_string(*a, *b),
{
    match a {
        Some(v) => Some(v.clone()),
        None => match b {
            Some(v) => Some(v.clone()),
            None => None,
        },
    }
}

pub open spec fn spec_opt_str(a: Option<String>, dflt: Seq<char>) -> Seq<char> {
    match a {
        Some(s) => s@,
        None => dflt,
    }
}

fn opt_str(a: &Option<String>, dflt: &str) -> (r: String)
    ensures
        r@ == spec_opt_str(*a, dflt@),
{
    match a {
        Some(v) => v.clone(),
        None => dflt.to_owned(),
    }
}

/// The name of the first tag flagged as default, in declaration order.
pub open spec fn spec_default_tag_name(t: Seq<(String, RecipientTagInfo)>) -> Option<Seq<char>>
    decreases t.len(),
{
    if t.len() == 0 {
        None
    } else if t[0].1.is_default {
        Some(t[0].0@)
    } else {
        spec_default_tag_name(t.drop_first())
    }
}

/// The tag map value stored under `name`, searched in declaration order.
pub open spec fn spec_tag_lookup(t: Seq<(String, RecipientTagInfo)>, name: Seq<char>) -> Option<
    RecipientTagInfo,
>
    decreases t.len(),
{
    if t.len() == 0 {
        None
    } else if t[0].0@ == name {
        Some(t[0].1)
    } else {
        spec_tag_lookup(t.drop_first(), name)
    }
}

/// A billing target: display name, contact block, per-recipient invoice
/// settings, an optional hourly rate in cents, and the tag map as an
/// ordered list of (tag name, tag info) pairs.
#[derive(Debug, Clone)]
pub struct Recipient {
    pub name: String,
    pub contact: Contact,
    pub invoice: InvoiceConfig,
    pub default_rate: Option<u64>,
    pub tags: Vec<(String, RecipientTagInfo)>,
}

impl Recipient {
    pub fn name(&self) -> (r: &String)
        ensures
            r@ == self.name@,
    {
        &self.name
    }

    pub fn tags(&self) -> (r: &Vec<(String, RecipientTagInfo)>)
        ensures
            r@ == self.tags@,
    {
        &self.tags
    }

    /// The first tag flagged as default, in declaration order.
    pub fn default_tag_name(&self) -> (r: Option<&String>)
        ensures
            match r {
                Some(n) => spec_default_tag_name(self.tags@) == Some(n@),
                None => spec_default_tag_name(self.tags@) is None,
            },
    {
        let n = self.tags.len();
        proof {
            assert(self.tags@.skip(0) =~= self.tags@);
        }
        let mut i: usize = 0;
        while i < n
            invariant
                n == self.tags@.len(),
                i <= n,
                spec_default_tag_name(self.tags@) == spec_default_tag_name(
                    self.tags@.skip(i as int),
                ),
            decreases n - i,
        {
            let pair = &self.tags[i];
            proof {
                assert(self.tags@.skip(i as int)[0] == self.tags@[i as int]);
                assert(self.tags@.skip(i as int).drop_first() =~= self.tags@.skip(i + 1));
            }
            if pair.1.is_default {
                return Some(&pair.0);
            }
            i += 1;
        }
        None
    }

    /// The tag map value stored under `name`.
    pub fn tag_lookup(&self, name: &str) -> (r: Option<&RecipientTagInfo>)
        ensures
            match r {
                Some(info) => spec_tag_lookup(self.tags@, name@) == Some(*info),
                None => spec_tag_lookup(self.tags@, name@) is None,
            },
    {
        let n = self.tags.len();
        proof {
            assert(self.tags@.skip(0) =~= self.tags@);
        }
        let mut i: usize = 0;
        while i < n
            invariant
                n == self.tags@.len(),
                i <= n,
                spec_tag_lookup(self.tags@, name@) == spec_tag_lookup(
                    self.tags@.skip(i as int),
                    name@,
                ),
            decreases n - i,
        {
            let pair = &self.tags[i];
            proof {
                assert(self.tags@.skip(i as int)[0] == self.tags@[i as int]);
                assert(self.tags@.skip(i as int).drop_first() =~= self.tags@.skip(i + 1));
            }
            if crate::text::str_eq(pair.0.as_str(), name) {
                return Some(&pair.1);
            }
            i += 1;
        }
        None
    }
}

} // verus!
