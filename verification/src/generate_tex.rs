//! The line-oriented template engine and the TeX command emission: a
//! template is rendered line by line, include directives splice named
//! secondary templates, and token marker lines inject registered
//! content right after themselves.

use vstd::prelude::*;
use crate::invoice::{Invoice, InvoicePosition, InvoiceView, PositionView, Timesheet,
    spec_sum_positions, spec_tax_of, spec_number, lemma_position_views_index};
use crate::locale::{Locale, spec_format_number, spec_apply_pattern, spec_symbol};
use crate::recipient::{Contact, Payment, Recipient, spec_opt_str};
use crate::dates::{spec_date_to_str, date_to_str};
use crate::text::{replace_all, spec_replace_all, spec_starts_with, spec_trim, spec_u64_str,
    starts_with, str_eq, trim, u64_to_string};
use crate::worklog::{RecordView, spec_record_views, spec_sat_add, lemma_record_views_index};

verus! {

/// A field value handed to the TeX command emitter: plain text, absent
/// or present text, or a number.
pub enum TexValue {
    Text(String),
    OptText(Option<String>),
    Number(u32),
}

/// What a field value shows as text: numbers in decimal, absent
/// optional text as nothing.
pub open spec fn spec_any_to_str(v: TexValue) -> Option<Seq<char>> {
    match v {
        TexValue::Text(s) => Some(s@),
        TexValue::OptText(o) => match o {
            Some(s) => Some(s@),
            None => None,
        },
        TexValue::Number(n) => Some(spec_u64_str(n as int)),
    }
}

/// The shown text of an optional string field.
pub open spec fn spec_opt_view(o: Option<String>) -> Option<Seq<char>> {
    match o {
        Some(s) => Some(s@),
        None => None,
    }
}

pub fn any_to_str(any: &TexValue) -> (r: Option<String>)
    ensures
        match r {
            Some(s) => spec_any_to_str(*any) == Some(s@),
            None => spec_any_to_str(*any) is None,
        },
{
    match any {
        TexValue::Text(s) => Some(s.clone()),
        TexValue::OptText(o) => match o {
            Some(s) => Some(s.clone()),
            None => None,
        },
        TexValue::Number(n) => Some(u64_to_string(*n as u64)),
    }
}

/// A `\newcommand` line defining `\<name>` (underscores dropped from the
/// name) as the given content.
pub open spec fn spec_tex_command(name: Seq<char>, content: Seq<char>) -> Seq<char> {
    "\\newcommand{\\"@ + spec_replace_all(name, "_"@, Seq::empty()) + "}{"@ + content + "}"@
}

/// The `\newcommand` line for a named value, or nothing when the value
/// shows as nothing.
pub fn generate_tex_command(commandname: &str, content: &TexValue) -> (r: Option<String>)
    ensures
        match r {
            Some(s) => spec_any_to_str(*content) matches Some(c) && s@ == spec_tex_command(
                commandname@,
                c,
            ),
            None => spec_any_to_str(*content) is None,
        },
{
    proof {
        reveal_strlit("_");
        reveal_strlit("");
    }
    match any_to_str(content) {
        None => None,
        Some(c) => {
            let mut s = String::new();
            s.append("\\newcommand{\\");
            let name = replace_all(commandname, "_", "");
            s.append(name.as_str());
            s.append("}{");
            s.append(c.as_str());
            s.append("}");
            proof {
                assert(""@ =~= Seq::<char>::empty());
                assert(s@ =~= spec_tex_command(commandname@, spec_any_to_str(*content)->Some_0));
            }
            Some(s)
        },
    }
}

/// The views of a field list: the name and what the value shows as.
pub open spec fn spec_field_views(v: Seq<(String, TexValue)>) -> Seq<
    (Seq<char>, Option<Seq<char>>),
> {
    v.map_values(|e: (String, TexValue)| (e.0@, spec_any_to_str(e.1)))
}

/// The `\newcommand` lines of a prefixed field list, skipping fields
/// that show as nothing.
pub open spec fn spec_tex_commands(
    fs: Seq<(Seq<char>, Option<Seq<char>>)>,
    prefix: Seq<char>,
) -> Seq<Seq<char>>
    decreases fs.len(),
{
    if fs.len() == 0 {
        Seq::empty()
    } else {
        let prev = spec_tex_commands(fs.drop_last(), prefix);
        match fs.last().1 {
            Some(c) => prev.push(spec_tex_command(prefix + fs.last().0, c)),
            None => prev,
        }
    }
}

/// The command lines of a field list under a prefix.
pub fn tex_command_lines(fields: Vec<(String, TexValue)>, prefix: &str) -> (r: Vec<String>)
    ensures
        crate::worklog::spec_tag_views(r@) == spec_tex_commands(spec_field_views(fields@), prefix@),
{
    let n = fields.len();
    let mut out: Vec<String> = Vec::new();
    proof {
        assert(spec_field_views(fields@).take(0) =~= Seq::<(Seq<char>, Option<Seq<char>>)>::empty());
        assert(crate::worklog::spec_tag_views(out@) =~= Seq::<Seq<char>>::empty());
    }
    let mut i: usize = 0;
    while i < n
        invariant
            n == fields@.len(),
            i <= n,
            crate::worklog::spec_tag_views(out@) == spec_tex_commands(
                spec_field_views(fields@).take(i as int),
                prefix@,
            ),
        decreases n - i,
    {
        proof {
            assert(spec_field_views(fields@)[i as int] == (
                fields@[i as int].0@,
                spec_any_to_str(fields@[i as int].1),
            ));
            assert(spec_field_views(fields@).take(i + 1).drop_last() =~= spec_field_views(
                fields@,
            ).take(i as int));
            assert(spec_field_views(fields@).take(i + 1).last() == spec_field_views(
                fields@,
            )[i as int]);
        }
        let mut name = prefix.to_owned();
        name.append(fields[i].0.as_str());
        match generate_tex_command(name.as_str(), &fields[i].1) {
            Some(line) => {
                let ghost old_out = out@;
                out.push(line);
                proof {
                    crate::worklog::lemma_tag_views_index(old_out);
                    crate::worklog::lemma_tag_views_index(out@);
                    assert(crate::worklog::spec_tag_views(out@)
                        =~= crate::worklog::spec_tag_views(old_out).push(out@.last()@));
                }
            },
            None => {
            },
        }
        i += 1;
    }
    proof {
        assert(spec_field_views(fields@).take(n as int) =~= spec_field_views(fields@));
    }
    out
}

/// Exposes a type's fields, in order, for templated TeX output.
pub trait GenerateTexCommands {
    /// The fields as (name, shown text) pairs, in declaration order.
    spec fn spec_tex_fields(&self) -> Seq<(Seq<char>, Option<Seq<char>>)>;

    fn tex_fields(&self) -> (r: Vec<(String, TexValue)>)
        ensures
            spec_field_views(r@) == self.spec_tex_fields(),
    ;

    fn generate_tex_commands(&self, prefix: &str) -> (r: Vec<String>)
        ensures
            crate::worklog::spec_tag_views(r@) == spec_tex_commands(
                self.spec_tex_fields(),
                prefix@,
            ),
    {
        tex_command_lines(self.tex_fields(), prefix)
    }
}

impl GenerateTexCommands for Contact {
    open spec fn spec_tex_fields(&self) -> Seq<(Seq<char>, Option<Seq<char>>)> {
        seq![
            ("companyname"@, spec_opt_view(self.companyname)),
            ("fullname"@, Some(self.fullname@)),
            ("street"@, Some(self.street@)),
            ("zipcode"@, Some(spec_u64_str(self.zipcode as int))),
            ("city"@, Some(self.city@)),
            ("country"@, spec_opt_view(self.country)),
            ("phone"@, spec_opt_view(self.phone)),
            ("fax"@, spec_opt_view(self.fax)),
            ("email"@, Some(self.email@)),
            ("website"@, spec_opt_view(self.website)),
        ]
    }

    fn tex_fields(&self) -> (r: Vec<(String, TexValue)>) {
        let c = self.duplicate();
        let mut v: Vec<(String, TexValue)> = Vec::new();
        v.push(("companyname".to_owned(), TexValue::OptText(c.companyname)));
        v.push(("fullname".to_owned(), TexValue::Text(c.fullname)));
        v.push(("street".to_owned(), TexValue::Text(c.street)));
        v.push(("zipcode".to_owned(), TexValue::Number(c.zipcode)));
        v.push(("city".to_owned(), TexValue::Text(c.city)));
        v.push(("country".to_owned(), TexValue::OptText(c.country)));
        v.push(("phone".to_owned(), TexValue::OptText(c.phone)));
        v.push(("fax".to_owned(), TexValue::OptText(c.fax)));
        v.push(("email".to_owned(), TexValue::Text(c.email)));
        v.push(("website".to_owned(), TexValue::OptText(c.website)));
        proof {
            assert(spec_field_views(v@) =~= self.spec_tex_fields());
        }
        v
    }
}

impl GenerateTexCommands for Payment {
    /// Only the textual fields are emitted; the currency and the rates
    /// have no plain text form here and show as nothing.
    open spec fn spec_tex_fields(&self) -> Seq<(Seq<char>, Option<Seq<char>>)> {
        seq![
            ("accountholder"@, spec_opt_view(self.accountholder)),
            ("iban"@, Some(self.iban@)),
            ("bic"@, Some(self.bic@)),
            ("taxid"@, Some(self.taxid@)),
        ]
    }

    fn tex_fields(&self) -> (r: Vec<(String, TexValue)>) {
        let p = self.duplicate();
        let mut v: Vec<(String, TexValue)> = Vec::new();
        v.push(("accountholder".to_owned(), TexValue::OptText(p.accountholder)));
        v.push(("iban".to_owned(), TexValue::Text(p.iban)));
        v.push(("bic".to_owned(), TexValue::Text(p.bic)));
        v.push(("taxid".to_owned(), TexValue::Text(p.taxid)));
        proof {
            assert(spec_field_views(v@) =~= self.spec_tex_fields());
        }
        v
    }
}

impl GenerateTexCommands for Recipient {
    /// The recipient emits its display name and then its contact block.
    open spec fn spec_tex_fields(&self) -> Seq<(Seq<char>, Option<Seq<char>>)> {
        seq![("name"@, Some(self.name@))] + self.contact.spec_tex_fields()
    }

    fn tex_fields(&self) -> (r: Vec<(String, TexValue)>) {
        let mut v: Vec<(String, TexValue)> = Vec::new();
        v.push(("name".to_owned(), TexValue::Text(self.name.clone())));
        let mut cf = self.contact.tex_fields();
        let n = cf.len();
        let ghost cviews = spec_field_views(cf@);
        let mut i: usize = 0;
        while i < n
            invariant
                n == cf@.len() + i,
                i <= n,
                cviews == self.contact.spec_tex_fields(),
                cviews.len() == n,
                spec_field_views(v@) =~= seq![("name"@, Some(self.name@))] + cviews.take(
                    i as int,
                ),
                forall|j: int| 0 <= j < cf@.len() ==> (#[trigger] spec_field_views(cf@)[j])
                    == cviews[i + j],
            decreases n - i,
        {
            proof {
                assert(spec_field_views(cf@)[0] == (cf@[0].0@, spec_any_to_str(cf@[0].1)));
            }
            let ghost old_cf = cf@;
            let e = cf.remove(0);
            let ghost old_v = v@;
            v.push(e);
            proof {
                assert(spec_field_views(v@) =~= spec_field_views(old_v).push(cviews[i as int]));
                assert(spec_field_views(v@) =~= seq![("name"@, Some(self.name@))] + cviews.take(
                    i + 1,
                ));
                assert forall|j: int|
                    0 <= j < cf@.len() implies (#[trigger] spec_field_views(cf@)[j]) == cviews[i
                    + 1 + j] by {
                    assert(cf@[j] == old_cf[j + 1]);
                    assert(spec_field_views(old_cf)[j + 1] == (
                        old_cf[j + 1].0@,
                        spec_any_to_str(old_cf[j + 1].1),
                    ));
                    assert(spec_field_views(cf@)[j] == (cf@[j].0@, spec_any_to_str(cf@[j].1)));
                }
            }
            i += 1;
        }
        proof {
            assert(cviews.take(n as int) =~= cviews);
        }
        v
    }
}

/// The translation commands of a locale: one `\tr<name>` definition per
/// translation, in stored order.
pub open spec fn spec_language_lines(ts: Seq<(String, String)>) -> Seq<Seq<char>>
    decreases ts.len(),
{
    if ts.len() == 0 {
        Seq::empty()
    } else {
        spec_language_lines(ts.drop_last()).push(
            spec_tex_command("tr"@ + ts.last().0@, ts.last().1@),
        )
    }
}

impl Locale {
    /// The `\newcommand` lines defining the locale's translations.
    pub fn generate_tex(&self) -> (r: Vec<String>)
        ensures
            crate::worklog::spec_tag_views(r@) == spec_language_lines(self.translations@),
    {
        proof {
            reveal_strlit("tr");
        }
        let n = self.translations.len();
        let mut out: Vec<String> = Vec::new();
        proof {
            assert(self.translations@.take(0) =~= Seq::<(String, String)>::empty());
            assert(crate::worklog::spec_tag_views(out@) =~= Seq::<Seq<char>>::empty());
        }
        let mut i: usize = 0;
        while i < n
            invariant
                n == self.translations@.len(),
                i <= n,
                crate::worklog::spec_tag_views(out@) == spec_language_lines(
                    self.translations@.take(i as int),
                ),
            decreases n - i,
        {
            proof {
                assert(self.translations@.take(i + 1).drop_last() =~= self.translations@.take(
                    i as int,
                ));
                assert(self.translations@.take(i + 1).last() == self.translations@[i as int]);
            }
            let mut name = String::new();
            name.append("tr");
            name.append(self.translations[i].0.as_str());
            let value = TexValue::Text(self.translations[i].1.clone());
            match generate_tex_command(name.as_str(), &value) {
                Some(line) => {
                    let ghost old_out = out@;
                    out.push(line);
                    proof {
                        crate::worklog::lemma_tag_views_index(old_out);
                        crate::worklog::lemma_tag_views_index(out@);
                        assert(crate::worklog::spec_tag_views(out@)
                            =~= crate::worklog::spec_tag_views(old_out).push(out@.last()@));
                    }
                },
                None => {
                    proof {
                        assert(false);
                    }
                },
            }
            i += 1;
        }
        proof {
            assert(self.translations@.take(n as int) =~= self.translations@);
        }
        out
    }
}

/// The token name of a marker line: the trimmed line must start with
/// `%$`; every `%$` is removed and the rest trimmed again.
pub open spec fn spec_token_name_from_line(line: Seq<char>) -> Option<Seq<char>> {
    let l = spec_trim(line);
    if spec_starts_with(l, "%$"@) {
        Some(spec_trim(spec_replace_all(l, "%$"@, Seq::empty())))
    } else {
        None
    }
}

/// The views of a named-lines list.
pub open spec fn spec_named_views(l: Seq<(String, Vec<String>)>) -> Seq<
    (Seq<char>, Seq<Seq<char>>),
> {
    l.map_values(|e: (String, Vec<String>)| (e.0@, crate::worklog::spec_tag_views(e.1@)))
}

/// The lines value most recently stored under `key` in a named-lines
/// list: the last matching entry wins, so a later registration of the
/// same name overrides an earlier one.
pub open spec fn spec_lines_lookup(l: Seq<(Seq<char>, Seq<Seq<char>>)>, key: Seq<char>) -> Option<
    Seq<Seq<char>>,
>
    decreases l.len(),
{
    if l.len() == 0 {
        None
    } else if l.last().0 == key {
        Some(l.last().1)
    } else {
        spec_lines_lookup(l.drop_last(), key)
    }
}

pub proof fn lemma_named_views_index(l: Seq<(String, Vec<String>)>)
    ensures
        spec_named_views(l).len() == l.len(),
        forall|i: int|
            0 <= i < l.len() ==> #[trigger] spec_named_views(l)[i] == (
                l[i].0@,
                crate::worklog::spec_tag_views(l[i].1@),
            ),
{
}

fn lines_lookup<'a>(list: &'a Vec<(String, Vec<String>)>, key: &str) -> (r: Option<
    &'a Vec<String>,
>)
    ensures
        match r {
            Some(v) => spec_lines_lookup(spec_named_views(list@), key@) == Some(
                crate::worklog::spec_tag_views(v@),
            ),
            None => spec_lines_lookup(spec_named_views(list@), key@) is None,
        },
{
    let n = list.len();
    let ghost lv = spec_named_views(list@);
    proof {
        lemma_named_views_index(list@);
        assert(lv.take(n as int) =~= lv);
    }
    let mut i: usize = n;
    while i > 0
        invariant
            n == list@.len(),
            lv == spec_named_views(list@),
            lv.len() == n,
            i <= n,
            spec_lines_lookup(lv, key@) == spec_lines_lookup(lv.take(i as int), key@),
        decreases i,
    {
        proof {
            lemma_named_views_index(list@);
            assert(lv.take(i as int).last() == lv[i - 1]);
            assert(lv.take(i as int).drop_last() =~= lv.take(i - 1));
        }
        if str_eq(list[i - 1].0.as_str(), key) {
            return Some(&list[i - 1].1);
        }
        i -= 1;
    }
    proof {
        assert(lv.take(0) =~= Seq::<(Seq<char>, Seq<Seq<char>>)>::empty());
    }
    None
}

/// What one template line contributes to the output: an include line is
/// replaced by the included lines (or nothing), any other line is
/// written and, when it is a marker with a registered token, followed by
/// the token's lines.
pub open spec fn spec_line_output(
    line: Seq<char>,
    includes: Seq<(Seq<char>, Seq<Seq<char>>)>,
    tokens: Seq<(Seq<char>, Seq<Seq<char>>)>,
) -> Seq<Seq<char>> {
    if spec_starts_with(line, "\\input{"@) {
        let name = spec_replace_all(spec_replace_all(line, "\\input{"@, Seq::empty()), "}"@, Seq::empty());
        match spec_lines_lookup(includes, name) {
            Some(ls) => ls,
            None => Seq::empty(),
        }
    } else {
        seq![line] + (match spec_token_name_from_line(line) {
            Some(t) => match spec_lines_lookup(tokens, t) {
                Some(ls) => ls,
                None => Seq::empty(),
            },
            None => Seq::empty(),
        })
    }
}

/// A whole template rendered line by line.
pub open spec fn spec_render(
    lines: Seq<Seq<char>>,
    includes: Seq<(Seq<char>, Seq<Seq<char>>)>,
    tokens: Seq<(Seq<char>, Seq<Seq<char>>)>,
) -> Seq<Seq<char>>
    decreases lines.len(),
{
    if lines.len() == 0 {
        Seq::empty()
    } else {
        spec_render(lines.drop_last(), includes, tokens) + spec_line_output(
            lines.last(),
            includes,
            tokens,
        )
    }
}

/// The names of the include directives of a template, in order.
pub open spec fn spec_include_targets(lines: Seq<Seq<char>>) -> Seq<Seq<char>>
    decreases lines.len(),
{
    if lines.len() == 0 {
        Seq::empty()
    } else {
        let prev = spec_include_targets(lines.drop_last());
        if spec_starts_with(lines.last(), "\\input{"@) {
            prev.push(
                spec_replace_all(
                    spec_replace_all(lines.last(), "\\input{"@, Seq::empty()),
                    "}"@,
                    Seq::empty(),
                ),
            )
        } else {
            prev
        }
    }
}

/// A template bound to a file name, with content registered for its
/// token markers.
pub struct TexTemplate {
    pub(crate) filename: String,
    pub(crate) tokens: Vec<(String, Vec<String>)>,
}

/// The mathematical content of a template.
pub struct TexTemplateView {
    pub filename: Seq<char>,
    pub tokens: Seq<(Seq<char>, Seq<Seq<char>>)>,
}

impl View for TexTemplate {
    type V = TexTemplateView;

    closed spec fn view(&self) -> TexTemplateView {
        TexTemplateView { filename: self.filename@, tokens: spec_named_views(self.tokens@) }
    }
}

/// The token name of a marker line, or nothing for an ordinary line.
pub fn token_name_from_line(line: &str) -> (r: Option<String>)
    ensures
        match r {
            Some(t) => spec_token_name_from_line(line@) == Some(t@),
            None => spec_token_name_from_line(line@) is None,
        },
{
    proof {
        reveal_strlit("%$");
        reveal_strlit("");
        assert(""@ =~= Seq::<char>::empty());
    }
    let l = trim(line);
    if starts_with(l.as_str(), "%$") {
        let stripped = replace_all(l.as_str(), "%$", "");
        Some(trim(stripped.as_str()))
    } else {
        None
    }
}

impl TexTemplate {
    pub fn new(filename: String) -> (r: TexTemplate)
        ensures
            r@.filename == filename@,
            r@.tokens.len() == 0,
    {
        TexTemplate { filename, tokens: Vec::new() }
    }

    pub fn filename(&self) -> (r: &String)
        ensures
            r@ == self@.filename,
    {
        &self.filename
    }

    /// Registers the content written for a token name. Registering a
    /// name again overrides the earlier content: lookups take the last
    /// registration, and other names keep their content.
    pub fn token(&mut self, name: &str, lines: Vec<String>)
        ensures
            final(self)@.filename == old(self)@.filename,
            final(self)@.tokens.len() == old(self)@.tokens.len() + 1,
            forall|i: int|
                0 <= i < old(self)@.tokens.len() ==> final(self)@.tokens[i] == old(
                    self,
                )@.tokens[i],
            final(self)@.tokens.last().0 == name@,
            final(self)@.tokens.last().1 == crate::worklog::spec_tag_views(lines@),
            spec_lines_lookup(final(self)@.tokens, name@) == Some(
                crate::worklog::spec_tag_views(lines@),
            ),
            forall|k: Seq<char>|
                k != name@ ==> #[trigger] spec_lines_lookup(final(self)@.tokens, k)
                    == spec_lines_lookup(old(self)@.tokens, k),
    {
        let ghost old_tokens = spec_named_views(self.tokens@);
        proof {
            lemma_named_views_index(self.tokens@);
        }
        self.tokens.push((name.to_owned(), lines));
        proof {
            lemma_named_views_index(self.tokens@);
            let new_tokens = spec_named_views(self.tokens@);
            assert(new_tokens.drop_last() =~= old_tokens);
            assert forall|k: Seq<char>|
                k != name@ implies #[trigger] spec_lines_lookup(new_tokens, k)
                == spec_lines_lookup(old_tokens, k) by {
                assert(new_tokens.last().0 != k);
            }
        }
    }

    /// Renders the template's lines against the given include contents
    /// and the registered tokens.
    pub fn generate(&self, template_lines: &Vec<String>, includes: &Vec<(String, Vec<String>)>)
        -> (r: Vec<String>)
        ensures
            crate::worklog::spec_tag_views(r@) == spec_render(
                crate::worklog::spec_tag_views(template_lines@),
                spec_named_views(includes@),
                self@.tokens,
            ),
    {
        proof {
            reveal_strlit("\\input{");
            reveal_strlit("}");
            reveal_strlit("");
            assert(""@ =~= Seq::<char>::empty());
        }
        let n = template_lines.len();
        let ghost tviews = crate::worklog::spec_tag_views(template_lines@);
        let mut out: Vec<String> = Vec::new();
        proof {
            crate::worklog::lemma_tag_views_index(template_lines@);
            assert(tviews.take(0) =~= Seq::<Seq<char>>::empty());
            assert(crate::worklog::spec_tag_views(out@) =~= Seq::<Seq<char>>::empty());
        }
        let mut i: usize = 0;
        while i < n
            invariant
                n == template_lines@.len(),
                tviews == crate::worklog::spec_tag_views(template_lines@),
                tviews.len() == n,
                i <= n,
                crate::worklog::spec_tag_views(out@) == spec_render(
                    tviews.take(i as int),
                    spec_named_views(includes@),
                    self@.tokens,
                ),
            decreases n - i,
        {
            proof {
                reveal_strlit("\\input{");
                reveal_strlit("}");
                reveal_strlit("");
                assert(""@ =~= Seq::<char>::empty());
                crate::worklog::lemma_tag_views_index(template_lines@);
                assert(tviews[i as int] == template_lines@[i as int]@);
                assert(tviews.take(i + 1).drop_last() =~= tviews.take(i as int));
                assert(tviews.take(i + 1).last() == tviews[i as int]);
            }
            let line = &template_lines[i];
            if starts_with(line.as_str(), "\\input{") {
                let a = replace_all(line.as_str(), "\\input{", "");
                let name = replace_all(a.as_str(), "}", "");
                match lines_lookup(includes, name.as_str()) {
                    Some(ls) => {
                        append_lines(&mut out, ls);
                    },
                    None => {
                    },
                }
            } else {
                let ghost before = out@;
                out.push(line.clone());
                proof {
                    crate::worklog::lemma_tag_views_index(before);
                    crate::worklog::lemma_tag_views_index(out@);
                    assert(crate::worklog::spec_tag_views(out@)
                        =~= crate::worklog::spec_tag_views(before).push(tviews[i as int]));
                }
                match token_name_from_line(line.as_str()) {
                    Some(t) => {
                        match lines_lookup(&self.tokens, t.as_str()) {
                            Some(ls) => {
                                append_lines(&mut out, ls);
                            },
                            None => {
                            },
                        }
                    },
                    None => {
                    },
                }
            }
            proof {
                assert(crate::worklog::spec_tag_views(out@) =~= spec_render(
                    tviews.take(i + 1),
                    spec_named_views(includes@),
                    self@.tokens,
                ));
            }
            i += 1;
        }
        proof {
            assert(tviews.take(n as int) =~= tviews);
        }
        out
    }
}

/// Appends the lines of `ls` to `out`.
fn append_lines(out: &mut Vec<String>, ls: &Vec<String>)
    ensures
        crate::worklog::spec_tag_views(final(out)@) == crate::worklog::spec_tag_views(old(out)@)
            + crate::worklog::spec_tag_views(ls@),
{
    let n = ls.len();
    proof {
        crate::worklog::lemma_tag_views_index(ls@);
        assert(crate::worklog::spec_tag_views(ls@).take(0) =~= Seq::<Seq<char>>::empty());
        assert(crate::worklog::spec_tag_views(old(out)@) + crate::worklog::spec_tag_views(
            ls@,
        ).take(0) =~= crate::worklog::spec_tag_views(old(out)@));
    }
    let mut i: usize = 0;
    while i < n
        invariant
            n == ls@.len(),
            i <= n,
            crate::worklog::spec_tag_views(out@) == crate::worklog::spec_tag_views(old(out)@)
                + crate::worklog::spec_tag_views(ls@).take(i as int),
        decreases n - i,
    {
        proof {
            crate::worklog::lemma_tag_views_index(ls@);
        }
        let ghost before = out@;
        out.push(ls[i].clone());
        proof {
            crate::worklog::lemma_tag_views_index(before);
            crate::worklog::lemma_tag_views_index(out@);
            assert(crate::worklog::spec_tag_views(ls@).take(i + 1)
                =~= crate::worklog::spec_tag_views(ls@).take(i as int).push(ls@[i as int]@));
            assert(crate::worklog::spec_tag_views(out@)
                =~= crate::worklog::spec_tag_views(before).push(ls@[i as int]@));
            assert(crate::worklog::spec_tag_views(out@) =~= crate::worklog::spec_tag_views(
                old(out)@,
            ) + crate::worklog::spec_tag_views(ls@).take(i + 1));
        }
        i += 1;
    }
    proof {
        assert(crate::worklog::spec_tag_views(ls@).take(n as int) =~= crate::worklog::spec_tag_views(
            ls@,
        ));
    }
}

/// The include names of a template, for the caller to resolve.
pub fn include_targets(lines: &Vec<String>) -> (r: Vec<String>)
    ensures
        crate::worklog::spec_tag_views(r@) == spec_include_targets(
            crate::worklog::spec_tag_views(lines@),
        ),
{
    proof {
        reveal_strlit("\\input{");
        reveal_strlit("}");
        reveal_strlit("");
        assert(""@ =~= Seq::<char>::empty());
    }
    let n = lines.len();
    let ghost lviews = crate::worklog::spec_tag_views(lines@);
    let mut out: Vec<String> = Vec::new();
    proof {
        crate::worklog::lemma_tag_views_index(lines@);
        assert(lviews.take(0) =~= Seq::<Seq<char>>::empty());
        assert(crate::worklog::spec_tag_views(out@) =~= Seq::<Seq<char>>::empty());
    }
    let mut i: usize = 0;
    while i < n
        invariant
            n == lines@.len(),
            lviews == crate::worklog::spec_tag_views(lines@),
            lviews.len() == n,
            i <= n,
            crate::worklog::spec_tag_views(out@) == spec_include_targets(lviews.take(i as int)),
        decreases n - i,
    {
        proof {
            reveal_strlit("\\input{");
            reveal_strlit("}");
            reveal_strlit("");
            assert(""@ =~= Seq::<char>::empty());
            crate::worklog::lemma_tag_views_index(lines@);
            assert(lviews[i as int] == lines@[i as int]@);
            assert(lviews.take(i + 1).drop_last() =~= lviews.take(i as int));
            assert(lviews.take(i + 1).last() == lviews[i as int]);
        }
        if starts_with(lines[i].as_str(), "\\input{") {
            let a = replace_all(lines[i].as_str(), "\\input{", "");
            let name = replace_all(a.as_str(), "}", "");
            let ghost before = out@;
            out.push(name);
            proof {
                crate::worklog::lemma_tag_views_index(before);
                crate::worklog::lemma_tag_views_index(out@);
                assert(crate::worklog::spec_tag_views(out@)
                    =~= crate::worklog::spec_tag_views(before).push(out@.last()@));
            }
        }
        i += 1;
    }
    proof {
        assert(lviews.take(n as int) =~= lviews);
    }
    out
}


/// The computed header data of an invoice, rendered as text fields.
pub struct InvoiceDetails {
    pub date: String,
    pub number: String,
    pub periodbegin: String,
    pub periodend: String,
    pub daysforpayment: u32,
}

impl InvoiceDetails {
    /// The details of an invoice: the run date, the invoice number, the
    /// period bounds in the configured date format, and the payment term.
    pub fn from_invoice(invoice: &Invoice) -> (r: InvoiceDetails)
        requires
            invoice@.wf(),
        ensures
            r.date@ == spec_date_to_str(invoice@.date, spec_opt_str(
                invoice@.config.date_format,
                "%Y/%m/%d"@,
            )),
            r.number@ == spec_number(invoice@),
            r.periodbegin@ == spec_date_to_str(invoice@.begin, spec_opt_str(
                invoice@.config.date_format,
                "%Y/%m/%d"@,
            )),
            r.periodend@ == spec_date_to_str(invoice@.end, spec_opt_str(
                invoice@.config.date_format,
                "%Y/%m/%d"@,
            )),
            r.daysforpayment == match invoice@.config.days_for_payment {
                Some(v) => v,
                None => 14u32,
            },
    {
        let fmt = invoice.config().date_format();
        InvoiceDetails {
            date: date_to_str(&invoice.date(), fmt.as_str()),
            number: invoice.number(),
            periodbegin: date_to_str(&invoice.begin_date(), fmt.as_str()),
            periodend: date_to_str(&invoice.end_date(), fmt.as_str()),
            daysforpayment: invoice.config().days_for_payment(),
        }
    }
}

impl GenerateTexCommands for InvoiceDetails {
    open spec fn spec_tex_fields(&self) -> Seq<(Seq<char>, Option<Seq<char>>)> {
        seq![
            ("date"@, Some(self.date@)),
            ("number"@, Some(self.number@)),
            ("periodbegin"@, Some(self.periodbegin@)),
            ("periodend"@, Some(self.periodend@)),
            ("daysforpayment"@, Some(spec_u64_str(self.daysforpayment as int))),
        ]
    }

    fn tex_fields(&self) -> (r: Vec<(String, TexValue)>) {
        let mut v: Vec<(String, TexValue)> = Vec::new();
        v.push(("date".to_owned(), TexValue::Text(self.date.clone())));
        v.push(("number".to_owned(), TexValue::Text(self.number.clone())));
        v.push(("periodbegin".to_owned(), TexValue::Text(self.periodbegin.clone())));
        v.push(("periodend".to_owned(), TexValue::Text(self.periodend.clone())));
        v.push(("daysforpayment".to_owned(), TexValue::Number(self.daysforpayment)));
        proof {
            assert(spec_field_views(v@) =~= self.spec_tex_fields());
        }
        v
    }
}

/// A net amount in hundredths of a hundredth, rounded half up to
/// hundredths.
pub open spec fn spec_net_cents(n: int) -> int {
    (if n + 50 > u64::MAX {
        u64::MAX as int
    } else {
        n + 50
    }) / 100
}

fn net_cents(n: u64) -> (r: u64)
    ensures
        r as int == spec_net_cents(n as int),
{
    if n > u64::MAX - 50 {
        u64::MAX / 100
    } else {
        (n + 50) / 100
    }
}

/// The unit price of a position: net over amount, or zero for an empty
/// amount.
pub open spec fn spec_position_price(p: PositionView) -> int {
    if p.amount > 0 {
        p.net / p.amount
    } else {
        0
    }
}

/// One rendered `\position` line: the label, the amount with its unit,
/// the short unit price with the currency symbol, and the net amount in
/// the locale's money pattern.
pub open spec fn spec_position_line(p: PositionView, l: Locale) -> Seq<char> {
    "\\position{"@ + p.text + "}{"@ + spec_format_number(p.amount, l.decimal@, l.separator@)
        + p.unit + "}{"@ + crate::text::spec_trimmed2(spec_position_price(p)) + spec_symbol(
        l.currency.0@,
    ) + "/"@ + p.unit + "}{"@ + spec_apply_pattern(
        l.pattern@,
        spec_format_number(spec_net_cents(p.net), l.decimal@, l.separator@),
        l.currency.0@,
    ) + "}"@
}

impl InvoicePosition {
    pub fn generate_tex(&self, l: &Locale) -> (r: String)
        ensures
            r@ == spec_position_line(self@, *l),
    {
        let mut s = String::new();
        s.append("\\position{");
        s.append(self.text().as_str());
        s.append("}{");
        let amount = l.format_number(self.amount());
        s.append(amount.as_str());
        s.append(self.unit().as_str());
        s.append("}{");
        let price: u64 = if self.amount() > 0 {
            self.price_per_item()
        } else {
            0
        };
        let ps = crate::text::format_trimmed2(price);
        s.append(ps.as_str());
        let sym = l.currency().symbol();
        s.append(sym.as_str());
        s.append("/");
        s.append(self.unit().as_str());
        s.append("}{");
        let net = l.format_amount(net_cents(self.net()));
        s.append(net.as_str());
        s.append("}");
        proof {
            assert(s@ =~= spec_position_line(self@, *l));
        }
        s
    }
}

/// The rendered `\position` lines of a position list, in order.
pub open spec fn spec_position_lines(ps: Seq<PositionView>, l: Locale) -> Seq<Seq<char>>
    decreases ps.len(),
{
    if ps.len() == 0 {
        Seq::empty()
    } else {
        spec_position_lines(ps.drop_last(), l).push(spec_position_line(ps.last(), l))
    }
}

/// The one-line totals block: with value-added tax the sum, rate, tax
/// and taxed sum; without it only the sum.
pub open spec fn spec_sum_lines(v: InvoiceView) -> Seq<Seq<char>> {
    let sum = spec_sum_positions(v.positions);
    let money = |n: int|
        spec_apply_pattern(
            v.locale.pattern@,
            spec_format_number(spec_net_cents(n), v.locale.decimal@, v.locale.separator@),
            v.locale.currency.0@,
        );
    if (match v.config.calculate_value_added_tax {
        Some(b) => b,
        None => true,
    }) {
        let tax = spec_tax_of(sum, v.payment.tax_rate as int);
        let swt = spec_sat_add(sum, tax);
        seq![
            "\\invoicesum{"@ + money(sum) + "}{"@ + crate::text::spec_trimmed2(
                v.payment.tax_rate as int,
            ) + "}{"@ + money(tax) + "}{"@ + money(swt) + "}"@,
        ]
    } else {
        seq!["\\invoicesumnotax{"@ + money(sum) + "}"@]
    }
}

/// The note emitted when no value-added tax is itemised.
pub open spec fn spec_tax_note_lines(v: InvoiceView) -> Seq<Seq<char>> {
    if (match v.config.calculate_value_added_tax {
        Some(b) => b,
        None => true,
    }) {
        Seq::empty()
    } else {
        seq!["\\trinvoicevaluetaxnote"@]
    }
}

/// One timesheet table row: the start text, the hours, the message.
pub open spec fn spec_ts_line(rv: RecordView, l: Locale) -> Seq<char> {
    rv.start + " & "@ + spec_format_number(rv.hours, l.decimal@, l.separator@) + " & "@
        + rv.message + "\\\\"@
}

/// The timesheet rows of a record list, in order.
pub open spec fn spec_ts_lines(rs: Seq<RecordView>, l: Locale) -> Seq<Seq<char>>
    decreases rs.len(),
{
    if rs.len() == 0 {
        Seq::empty()
    } else {
        spec_ts_lines(rs.drop_last(), l).push(spec_ts_line(rs.last(), l))
    }
}

impl Timesheet {
    /// The table rows written for the `WORKLOG` token.
    pub fn worklog_lines(&self, l: &Locale) -> (r: Vec<String>)
        ensures
            crate::worklog::spec_tag_views(r@) == spec_ts_lines(self@.worklog.records, *l),
    {
        let recs = self.records();
        let n = recs.len();
        let mut out: Vec<String> = Vec::new();
        proof {
            lemma_record_views_index(recs@);
            assert(self@.worklog.records.take(0) =~= Seq::<RecordView>::empty());
            assert(crate::worklog::spec_tag_views(out@) =~= Seq::<Seq<char>>::empty());
        }
        let mut i: usize = 0;
        while i < n
            invariant
                n == recs@.len(),
                spec_record_views(recs@) == self@.worklog.records,
                i <= n,
                crate::worklog::spec_tag_views(out@) == spec_ts_lines(
                    self@.worklog.records.take(i as int),
                    *l,
                ),
            decreases n - i,
        {
            proof {
                lemma_record_views_index(recs@);
                assert(self@.worklog.records[i as int] == recs@[i as int]@);
                assert(self@.worklog.records.take(i + 1).drop_last() =~= self@.worklog.records.take(
                    i as int,
                ));
                assert(self@.worklog.records.take(i + 1).last() == self@.worklog.records[i as int]);
            }
            let rec = &recs[i];
            let mut line = rec.start().clone();
            line.append(" & ");
            let hours = l.format_number(rec.hours());
            line.append(hours.as_str());
            line.append(" & ");
            line.append(rec.message().as_str());
            line.append("\\\\");
            let ghost before = out@;
            out.push(line);
            proof {
                crate::worklog::lemma_tag_views_index(before);
                crate::worklog::lemma_tag_views_index(out@);
                assert(out@.last()@ =~= spec_ts_line(self@.worklog.records[i as int], *l));
                assert(crate::worklog::spec_tag_views(out@)
                    =~= crate::worklog::spec_tag_views(before).push(out@.last()@));
            }
            i += 1;
        }
        proof {
            assert(self@.worklog.records.take(n as int) =~= self@.worklog.records);
        }
        out
    }

    /// The timesheet rendered through its own template, with the
    /// `WORKLOG` token bound to the table rows.
    pub fn generate_tex(
        &self,
        l: &Locale,
        template_lines: &Vec<String>,
        includes: &Vec<(String, Vec<String>)>,
    ) -> (r: Vec<String>)
        ensures
            crate::worklog::spec_tag_views(r@) == spec_render(
                crate::worklog::spec_tag_views(template_lines@),
                spec_named_views(includes@),
                seq![("WORKLOG"@, spec_ts_lines(self@.worklog.records, *l))],
            ),
    {
        let mut template = TexTemplate::new(self.template_file().clone());
        let lines = self.worklog_lines(l);
        template.token("WORKLOG", lines);
        proof {
            assert(template@.tokens =~= seq![
                ("WORKLOG"@, spec_ts_lines(self@.worklog.records, *l)),
            ]);
        }
        template.generate(template_lines, includes)
    }

}

/// The lines of the `TIMESHEET` token: a page break and the rendered
/// timesheet, or nothing when no timesheet is produced.
pub open spec fn spec_timesheet_token_lines(
    v: InvoiceView,
    ts_lines: Seq<Seq<char>>,
    includes: Seq<(Seq<char>, Seq<Seq<char>>)>,
) -> Seq<Seq<char>> {
    if v.gen_timesheet() && v.timesheet is Some {
        seq!["\\newpage"@] + spec_render(
            ts_lines,
            includes,
            seq![("WORKLOG"@, spec_ts_lines(v.timesheet->Some_0.worklog.records, v.locale))],
        )
    } else {
        Seq::empty()
    }
}

/// The detail fields of an invoice, as shown in its header block.
pub open spec fn spec_details_fields(v: InvoiceView) -> Seq<(Seq<char>, Option<Seq<char>>)> {
    seq![
        (
            "date"@,
            Some(spec_date_to_str(v.date, spec_opt_str(v.config.date_format, "%Y/%m/%d"@))),
        ),
        ("number"@, Some(spec_number(v))),
        (
            "periodbegin"@,
            Some(spec_date_to_str(v.begin, spec_opt_str(v.config.date_format, "%Y/%m/%d"@))),
        ),
        (
            "periodend"@,
            Some(spec_date_to_str(v.end, spec_opt_str(v.config.date_format, "%Y/%m/%d"@))),
        ),
        (
            "daysforpayment"@,
            Some(spec_u64_str((match v.config.days_for_payment {
                Some(d) => d,
                None => 14u32,
            }) as int)),
        ),
    ]
}

/// The token bindings of a rendered invoice.
pub open spec fn spec_invoice_tokens(
    v: InvoiceView,
    ts_lines: Seq<Seq<char>>,
    includes: Seq<(Seq<char>, Seq<Seq<char>>)>,
) -> Seq<(Seq<char>, Seq<Seq<char>>)> {
    seq![
        ("LANGUAGE"@, spec_language_lines(v.locale.translations@)),
        ("RECIPIENT_ADDRESS"@, spec_tex_commands(v.recipient.spec_tex_fields(), "recipient"@)),
        ("BILLER_ADDRESS"@, spec_tex_commands(v.contact.spec_tex_fields(), "my"@)),
        ("PAYMENT_DETAILS"@, spec_tex_commands(v.payment.spec_tex_fields(), "my"@)),
        ("INVOICE_DETAILS"@, spec_tex_commands(spec_details_fields(v), "invoice"@)),
        ("INVOICE_POSITIONS"@, spec_position_lines(v.positions, v.locale)),
        ("INVOICE_SUM"@, spec_sum_lines(v)),
        ("INVOICE_VALUE_TAX_NOTE"@, spec_tax_note_lines(v)),
        ("TIMESHEET"@, spec_timesheet_token_lines(v, ts_lines, includes)),
    ]
}

impl Invoice {
    /// The invoice sum block lines.
    pub fn sum_lines(&self) -> (r: Vec<String>)
        ensures
            crate::worklog::spec_tag_views(r@) == spec_sum_lines(self@),
    {
        let mut out: Vec<String> = Vec::new();
        let sum = l_money(self.locale(), self.sum());
        if self.calculate_value_added_tax() {
            let mut line = String::new();
            line.append("\\invoicesum{");
            line.append(sum.as_str());
            line.append("}{");
            let rate = crate::text::format_trimmed2(self.tax_rate());
            line.append(rate.as_str());
            line.append("}{");
            let tax = l_money(self.locale(), self.tax());
            line.append(tax.as_str());
            line.append("}{");
            let swt = l_money(self.locale(), self.sum_with_tax());
            line.append(swt.as_str());
            line.append("}");
            out.push(line);
        } else {
            let mut line = String::new();
            line.append("\\invoicesumnotax{");
            line.append(sum.as_str());
            line.append("}");
            out.push(line);
        }
        proof {
            crate::worklog::lemma_tag_views_index(out@);
            assert(crate::worklog::spec_tag_views(out@) =~= spec_sum_lines(self@));
        }
        out
    }

    /// The position lines of the invoice, in stored order.
    pub fn position_lines(&self) -> (r: Vec<String>)
        ensures
            crate::worklog::spec_tag_views(r@) == spec_position_lines(
                self@.positions,
                self@.locale,
            ),
    {
        let n = self.positions.len();
        let mut out: Vec<String> = Vec::new();
        proof {
            crate::invoice::lemma_invoice_view_parts(self);
            lemma_position_views_index(self.positions@);
            assert(self@.positions.take(0) =~= Seq::<PositionView>::empty());
            assert(crate::worklog::spec_tag_views(out@) =~= Seq::<Seq<char>>::empty());
        }
        let mut i: usize = 0;
        while i < n
            invariant
                n == self.positions@.len(),
                i <= n,
                crate::worklog::spec_tag_views(out@) == spec_position_lines(
                    self@.positions.take(i as int),
                    self@.locale,
                ),
            decreases n - i,
        {
            proof {
                crate::invoice::lemma_invoice_view_parts(self);
                lemma_position_views_index(self.positions@);
                assert(self@.positions[i as int] == self.positions@[i as int]@);
                assert(self@.positions.take(i + 1).drop_last() =~= self@.positions.take(i as int));
                assert(self@.positions.take(i + 1).last() == self@.positions[i as int]);
            }
            let line = self.positions[i].generate_tex(self.locale());
            let ghost before = out@;
            out.push(line);
            proof {
                crate::worklog::lemma_tag_views_index(before);
                crate::worklog::lemma_tag_views_index(out@);
                assert(crate::worklog::spec_tag_views(out@)
                    =~= crate::worklog::spec_tag_views(before).push(out@.last()@));
            }
            i += 1;
        }
        proof {
            assert(self@.positions.take(n as int) =~= self@.positions);
        }
        out
    }

    /// The whole invoice rendered against its template: every token of
    /// the fixed vocabulary is bound and the template lines are
    /// processed in order.
    #[verifier::rlimit(60)]
    pub fn generate_tex(
        &self,
        template_lines: &Vec<String>,
        includes: &Vec<(String, Vec<String>)>,
        ts_template_lines: &Vec<String>,
    ) -> (r: Vec<String>)
        requires
            self@.wf(),
            self@.gen_timesheet() ==> self@.timesheet is Some,
        ensures
            crate::worklog::spec_tag_views(r@) == spec_render(
                crate::worklog::spec_tag_views(template_lines@),
                spec_named_views(includes@),
                spec_invoice_tokens(
                    self@,
                    crate::worklog::spec_tag_views(ts_template_lines@),
                    spec_named_views(includes@),
                ),
            ),
    {
        let mut template = TexTemplate::new(self.config().template());
        template.token("LANGUAGE", self.locale().generate_tex());
        template.token("RECIPIENT_ADDRESS", self.recipient().generate_tex_commands("recipient"));
        template.token("BILLER_ADDRESS", self.biller_contact().generate_tex_commands("my"));
        template.token("PAYMENT_DETAILS", self.payment().generate_tex_commands("my"));
        let details = InvoiceDetails::from_invoice(self);
        template.token("INVOICE_DETAILS", details.generate_tex_commands("invoice"));
        template.token("INVOICE_POSITIONS", self.position_lines());
        template.token("INVOICE_SUM", self.sum_lines());
        let mut tax_note: Vec<String> = Vec::new();
        if !self.calculate_value_added_tax() {
            tax_note.push("\\trinvoicevaluetaxnote".to_owned());
        }
        proof {
            crate::worklog::lemma_tag_views_index(tax_note@);
            assert(crate::worklog::spec_tag_views(tax_note@) =~= spec_tax_note_lines(self@));
        }
        template.token("INVOICE_VALUE_TAX_NOTE", tax_note);
        let mut ts_out: Vec<String> = Vec::new();
        if self.generate_timesheet() {
            proof {
                crate::invoice::lemma_invoice_view_parts(self);
            }
            ts_out.push("\\newpage".to_owned());
            match &self.timesheet {
                Some(ts) => {
                    let rendered = ts.generate_tex(&self.locale, ts_template_lines, includes);
                    append_lines(&mut ts_out, &rendered);
                },
                None => {
                    proof {
                        assert(false);
                    }
                },
            }
        }
        proof {
            crate::worklog::lemma_tag_views_index(ts_out@);
            assert(crate::worklog::spec_tag_views(ts_out@) =~= spec_timesheet_token_lines(
                self@,
                crate::worklog::spec_tag_views(ts_template_lines@),
                spec_named_views(includes@),
            ));
        }
        template.token("TIMESHEET", ts_out);
        proof {
            assert(details.spec_tex_fields() =~~= spec_details_fields(self@));
            assert(template@.tokens.len() == 9);
            let ghost want = spec_invoice_tokens(
                self@,
                crate::worklog::spec_tag_views(ts_template_lines@),
                spec_named_views(includes@),
            );
            assert(template@.tokens[0] =~= want[0]);
            assert(template@.tokens[1] =~= want[1]);
            assert(template@.tokens[2] =~= want[2]);
            assert(template@.tokens[3] =~= want[3]);
            assert(template@.tokens[4] =~= want[4]);
            assert(template@.tokens[5] =~= want[5]);
            assert(template@.tokens[6] =~= want[6]);
            assert(template@.tokens[7] =~= want[7]);
            assert(template@.tokens[8] =~= want[8]);
            assert(template@.tokens =~= want);
        }
        template.generate(template_lines, includes)
    }

}

/// An amount in hundredths of a hundredth shown as money.
fn l_money(l: &Locale, n: u64) -> (r: String)
    ensures
        r@ == spec_apply_pattern(
            l.pattern@,
            spec_format_number(spec_net_cents(n as int), l.decimal@, l.separator@),
            l.currency.0@,
        ),
{
    l.format_amount(net_cents(n))
}

} // verus!
