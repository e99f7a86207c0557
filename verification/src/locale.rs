//! Locale model: currency symbols, translations, and display of
//! fixed-point amounts with decimal and thousands separators.

use vstd::prelude::*;
use crate::text::{
    push_char, replace_all, spec_replace_all, spec_u64_str, spec_zero_pad, u64_to_string,
    u64_to_string_pad,
};

verus! {

/// A currency code such as `"EUR"`.
#[derive(Debug, Clone)]
pub struct Currency(pub String);

/// The display symbol of a currency code: the euro sign for `"EUR"` and
/// for unknown codes, the dollar sign for `"USD"`.
pub open spec fn spec_symbol(code: Seq<char>) -> Seq<char> {
    if code == "USD"@ {
        "$"@
    } else {
        "€"@
    }
}

impl Currency {
    pub fn from_str(s: String) -> (r: Currency)
        ensures
            r.0@ == s@,
    {
        Currency(s)
    }

    pub fn str(&self) -> (r: &String)
        ensures
            r@ == self.0@,
    {
        &self.0
    }

    pub fn symbol(&self) -> (r: String)
        ensures
            r@ == spec_symbol(self.0@),
    {
        let usd: &str = "USD";
        if crate::text::str_eq(self.0.as_str(), usd) {
            let s: &str = "$";
            s.to_owned()
        } else {
            let s: &str = "€";
            s.to_owned()
        }
    }
}

impl Default for Currency {
    fn default() -> (r: Self)
        ensures
            r.0@ == "EUR"@,
    {
        let s: &str = "EUR";
        Currency(s.to_owned())
    }
}

/// The first value paired with `key`, searched in order.
pub open spec fn spec_lookup(t: Seq<(String, String)>, key: Seq<char>) -> Option<Seq<char>>
    decreases t.len(),
{
    if t.len() == 0 {
        None
    } else if t[0].0@ == key {
        Some(t[0].1@)
    } else {
        spec_lookup(t.drop_first(), key)
    }
}

/// Whether the separator belongs before the character at reversed
/// position `i` of a numeric text whose decimal separator is `dlen`
/// characters long.
pub open spec fn spec_group_cond(i: int, dlen: int) -> bool {
    i % 3 == 0 && i > 2 + dlen
}

/// The first `i` reversed positions of `s` regrouped with `sep`.
pub open spec fn spec_group_rev(s: Seq<char>, sep: Seq<char>, dlen: int, i: int) -> Seq<char>
    decreases i,
{
    if i <= 0 || i > s.len() {
        Seq::empty()
    } else {
        seq![s[s.len() - i]] + (if spec_group_cond(i - 1, dlen) {
            sep
        } else {
            Seq::empty()
        }) + spec_group_rev(s, sep, dlen, i - 1)
    }
}

/// A numeric text with the thousands separator inserted every three
/// characters from the right, skipping the two fraction digits and the
/// decimal separator.
pub open spec fn spec_grouped(s: Seq<char>, sep: Seq<char>, dlen: int) -> Seq<char> {
    spec_group_rev(s, sep, dlen, s.len() as int)
}

fn group_digits(s: &str, sep: &str, dlen: usize) -> (r: String)
    ensures
        r@ == spec_grouped(s@, sep@, dlen as int),
{
    let n = s.unicode_len();
    let mut fs = String::new();
    let mut i: usize = 0;
    while i < n
        invariant
            n == s@.len(),
            i <= n,
            fs@ == spec_group_rev(s@, sep@, dlen as int, i as int),
        decreases n - i,
    {
        let c = s.get_char(n - 1 - i);
        let mut ns = String::new();
        push_char(&mut ns, c);
        if i % 3 == 0 && i > dlen && i - dlen > 2 {
            ns.append(sep);
        }
        ns.append(fs.as_str());
        fs = ns;
        proof {
            assert(fs@ =~= spec_group_rev(s@, sep@, dlen as int, i + 1));
        }
        i += 1;
    }
    fs
}

/// Language-dependent display settings and translations.
#[derive(Debug, Clone)]
pub struct Locale {
    pub name: String,
    pub decimal: String,
    pub separator: String,
    pub pattern: String,
    pub currency: Currency,
    pub translations: Vec<(String, String)>,
}

/// An amount in hundredths rendered with two fraction digits, the
/// locale's decimal separator, and grouping.
pub open spec fn spec_format_number(c: int, decimal: Seq<char>, sep: Seq<char>) -> Seq<char> {
    spec_grouped(
        spec_u64_str(c / 100) + decimal + spec_zero_pad(spec_u64_str(c % 100), 2),
        sep,
        decimal.len() as int,
    )
}

/// An integer rendered without fraction digits, grouped by the same rule.
pub open spec fn spec_format_number_int(n: int, decimal: Seq<char>, sep: Seq<char>) -> Seq<char> {
    spec_grouped(spec_u64_str(n), sep, decimal.len() as int)
}

/// A formatted number substituted into the locale pattern: `#` carries
/// the number, `!` the currency symbol.
pub open spec fn spec_apply_pattern(pattern: Seq<char>, num: Seq<char>, code: Seq<char>) -> Seq<
    char,
> {
    spec_replace_all(spec_replace_all(pattern, seq!['#'], num), seq!['!'], spec_symbol(code))
}

impl Default for Locale {
    /// The built-in English locale.
    fn default() -> (r: Self)
        ensures
            r.name@ == "en"@,
            r.decimal@ == "."@,
            r.separator@ == ","@,
            r.pattern@ == "#!"@,
            r.currency.0@ == "EUR"@,
            r.translations@.len() == 0,
    {
        let name: &str = "en";
        let decimal: &str = ".";
        let separator: &str = ",";
        let pattern: &str = "#!";
        Locale {
            name: name.to_owned(),
            decimal: decimal.to_owned(),
            separator: separator.to_owned(),
            pattern: pattern.to_owned(),
            currency: Currency::default(),
            translations: Vec::new(),
        }
    }
}

impl Locale {
    pub fn new(
        name: String,
        decimal: String,
        separator: String,
        pattern: String,
        currency: Currency,
        translations: Vec<(String, String)>,
    ) -> (r: Locale)
        ensures
            r.name@ == name@,
            r.decimal@ == decimal@,
            r.separator@ == separator@,
            r.pattern@ == pattern@,
            r.currency.0@ == currency.0@,
            r.translations@ == translations@,
    {
        Locale { name, decimal, separator, pattern, currency, translations }
    }

    pub fn name(&self) -> (r: &String)
        ensures
            r@ == self.name@,
    {
        &self.name
    }

    pub fn currency(&self) -> (r: &Currency)
        ensures
            r.0@ == self.currency.0@,
    {
        &self.currency
    }

    /// The translation stored for `key`, if any.
    pub fn translation(&self, key: &str) -> (r: Option<String>)
        ensures
            match r {
                Some(v) => spec_lookup(self.translations@, key@) == Some(v@),
                None => spec_lookup(self.translations@, key@) is None,
            },
    {
        let n = self.translations.len();
        proof {
            assert(self.translations@.skip(0) =~= self.translations@);
        }
        let mut i: usize = 0;
        while i < n
            invariant
                n == self.translations@.len(),
                i <= n,
                spec_lookup(self.translations@, key@) == spec_lookup(
                    self.translations@.skip(i as int),
                    key@,
                ),
            decreases n - i,
        {
            let pair = &self.translations[i];
            proof {
                assert(self.translations@.skip(i as int)[0] == self.translations@[i as int]);
                assert(self.translations@.skip(i as int).drop_first() =~= self.translations@.skip(
                    i + 1,
                ));
            }
            if crate::text::str_eq(pair.0.as_str(), key) {
                return Some(pair.1.as_str().to_owned());
            }
            i += 1;
        }
        None
    }

    /// The translation stored for `key`, which must exist.
    pub fn tr(&self, key: &str) -> (r: String)
        requires
            spec_lookup(self.translations@, key@) is Some,
        ensures
            Some(r@) == spec_lookup(self.translations@, key@),
    {
        match self.translation(key) {
            Some(v) => v,
            None => {
                proof {
                    assert(false);
                }
                String::new()
            },
        }
    }

    /// An amount in hundredths, e.g. cents, shown with two fraction digits.
    pub fn format_number(&self, c: u64) -> (r: String)
        ensures
            r@ == spec_format_number(c as int, self.decimal@, self.separator@),
    {
        let mut raw = u64_to_string(c / 100);
        raw.append(self.decimal.as_str());
        let frac = u64_to_string_pad(c % 100, 2);
        raw.append(frac.as_str());
        let dlen = self.decimal.as_str().unicode_len();
        group_digits(raw.as_str(), self.separator.as_str(), dlen)
    }

    /// An integer shown without fraction digits.
    pub fn format_number_int(&self, n: u64) -> (r: String)
        ensures
            r@ == spec_format_number_int(n as int, self.decimal@, self.separator@),
    {
        let raw = u64_to_string(n);
        let dlen = self.decimal.as_str().unicode_len();
        group_digits(raw.as_str(), self.separator.as_str(), dlen)
    }

    /// An amount in hundredths rendered through the locale pattern with
    /// the currency symbol.
    pub fn format_amount(&self, c: u64) -> (r: String)
        ensures
            r@ == spec_apply_pattern(
                self.pattern@,
                spec_format_number(c as int, self.decimal@, self.separator@),
                self.currency.0@,
            ),
    {
        let num = self.format_number(c);
        self.apply_pattern(num.as_str())
    }

    /// An integer amount rendered through the locale pattern.
    pub fn format_amount_int(&self, n: u64) -> (r: String)
        ensures
            r@ == spec_apply_pattern(
                self.pattern@,
                spec_format_number_int(n as int, self.decimal@, self.separator@),
                self.currency.0@,
            ),
    {
        let num = self.format_number_int(n);
        self.apply_pattern(num.as_str())
    }

    fn apply_pattern(&self, num: &str) -> (r: String)
        ensures
            r@ == spec_apply_pattern(self.pattern@, num@, self.currency.0@),
    {
        proof {
            reveal_strlit("#");
            reveal_strlit("!");
            assert("#"@ =~= seq!['#']);
            assert("!"@ =~= seq!['!']);
        }
        let hash: &str = "#";
        let bang: &str = "!";
        let with_num = replace_all(self.pattern.as_str(), hash, num);
        let sym = self.currency.symbol();
        replace_all(with_num.as_str(), bang, sym.as_str())
    }
}

} // verus!
