use invoicer::dates::parse_start;
use invoicer::invoice::{Invoice, InvoicePosition, InvoiceError};
use invoicer::invoicer::{content_fingerprint, Config, Directories, Invoicer, OverwriteBehaviour, InvoiceFingerprints};
use invoicer::locale::{Currency, Locale};
use invoicer::recipient::{Contact, InvoiceConfig, Payment, Recipient, RecipientTagInfo};
use invoicer::worklog::{Worklog, WorklogRecord};

fn contact() -> Contact {
    Contact {
        companyname: None,
        fullname: "Ada Biller".to_string(),
        street: "Main St 1".to_string(),
        zipcode: 12345,
        city: "Townsville".to_string(),
        country: None,
        phone: None,
        fax: None,
        email: "ada@example.org".to_string(),
        website: None,
    }
}

fn payment() -> Payment {
    Payment {
        accountholder: None,
        iban: "DE00123456".to_string(),
        bic: "GENO0000".to_string(),
        taxid: "12/345/6789".to_string(),
        currency: Some(Currency::from_str("EUR".to_string())),
        tax_rate: 1900,
        default_rate: None,
    }
}

fn config() -> Config {
    Config {
        pdf_generator: None,
        overwrite: OverwriteBehaviour::default(),
        directories: Directories::empty(),
        contact: contact(),
        payment: payment(),
        invoice: InvoiceConfig::empty(),
    }
}

fn locale() -> Locale {
    Locale::new(
        "en".to_string(),
        ".".to_string(),
        ",".to_string(),
        "#!".to_string(),
        Currency::from_str("EUR".to_string()),
        vec![("invoice".to_string(), "invoice".to_string())],
    )
}

fn recipient(tags: Vec<(&str, &str)>) -> Recipient {
    Recipient {
        name: "Acme".to_string(),
        contact: contact(),
        invoice: InvoiceConfig::empty(),
        default_rate: None,
        tags: tags
            .into_iter()
            .map(|(name, value)| (name.to_string(), RecipientTagInfo::from_value(value)))
            .collect(),
    }
}

fn invoicer_at(date_text: &str, counter: Option<u32>) -> Invoicer {
    let date = parse_start(date_text).expect("valid date");
    Invoicer::new(config(), date, counter)
}

fn record(start: &str, hours: u64, rate: Option<u64>, message: &str, tags: &[&str]) -> WorklogRecord {
    let tag_vec: Vec<String> = tags.iter().map(|t| t.to_string()).collect();
    WorklogRecord::new(tag_vec, start.to_string(), hours, rate, message.to_string())
        .expect("record is well formed")
}

#[test]
fn tag_value_round_trip() {
    let d = RecipientTagInfo::from_value("[default] Consulting");
    assert!(d.is_default);
    assert_eq!(d.position_text, "Consulting");

    let s = RecipientTagInfo::from_value("Support");
    assert!(!s.is_default);
    assert_eq!(s.position_text, "Support");
}

#[test]
fn merge_takes_weighted_average_price() {
    let r1 = record("01/10/2024 08:00", 200, Some(1000), "Coding", &[]);
    let r2 = record("01/11/2024 08:00", 300, Some(2000), "Coding", &[]);
    let p1 = InvoicePosition::from_worklog_record(&r1, 10000);
    let p2 = InvoicePosition::from_worklog_record(&r2, 10000);

    let m = p1.merge(&p2).expect("equal text and unit merge");
    assert_eq!(m.amount(), 500);
    assert_eq!(m.net(), 200 * 1000 + 300 * 2000);
    // price = (a1 p1 + a2 p2) / (a1 + a2) = 800000 / 500 = 16.00
    assert_eq!(m.price_per_item(), 1600);
}

#[test]
fn merge_rejects_differing_text_or_unit() {
    let r1 = record("01/10/2024 08:00", 200, Some(1000), "Coding", &[]);
    let r2 = record("01/11/2024 08:00", 300, Some(2000), "Review", &[]);
    let p1 = InvoicePosition::from_worklog_record(&r1, 10000);
    let p2 = InvoicePosition::from_worklog_record(&r2, 10000);
    assert_eq!(p1.merge(&p2).unwrap_err(), InvoiceError::MergeMismatch);
}

#[test]
fn two_tagged_records_become_one_position() {
    // the end-to-end aggregation scenario
    let inv_state = invoicer_at("03/15/2024 00:00", None);
    let rec = recipient(vec![("dev", "Development")]);
    let mut invoice = Invoice::new(&inv_state, rec, locale(), "templates".to_string());

    let mut wl = Worklog::new();
    wl.add_record(record("01/10/2024 09:00", 200, None, "Coding", &["dev"]));
    wl.add_record(record("01/11/2024 09:00", 300, None, "Coding", &["dev"]));
    wl.set_rate(invoice.default_rate());
    assert_eq!(invoice.default_rate(), 10000);

    invoice.add_worklog(&wl).expect("no merge conflict");
    assert_eq!(invoice.positions().len(), 1);
    let p = &invoice.positions()[0];
    assert_eq!(p.text(), "Development");
    assert_eq!(p.amount(), 500);
    assert_eq!(p.price_per_item(), 10000);
    assert_eq!(p.net(), 5_000_000);
    assert_eq!(invoice.sum(), 5_000_000);
}

#[test]
fn empty_worklog_yields_no_positions() {
    let inv_state = invoicer_at("03/15/2024 00:00", None);
    let mut rec = recipient(vec![]);
    rec.invoice.timesheet_template = Some("timesheet.tex".to_string());
    let mut invoice = Invoice::new(&inv_state, rec, locale(), "t".to_string());
    let wl = Worklog::new();
    invoice.add_worklog(&wl).expect("nothing to merge");
    // the call is a no-op: no positions, no date range, and no timesheet
    // even though a timesheet template is configured
    assert!(invoice.positions().is_empty());
    assert!(invoice.begin_date().secs > invoice.end_date().secs);
    assert!(invoice.timesheet().is_none());
}

#[test]
fn key_assignment_ignores_input_order() {
    let r_first = vec![
        record("01/10/2024 09:00", 100, None, "Coding", &["dev"]),
        record("01/11/2024 09:00", 200, None, "Other work", &[]),
    ];
    let r_second = vec![
        record("01/11/2024 09:00", 200, None, "Other work", &[]),
        record("01/10/2024 09:00", 100, None, "Coding", &["dev"]),
    ];

    let mut texts: Vec<Vec<(String, u64)>> = Vec::new();
    for records in [r_first, r_second] {
        let inv_state = invoicer_at("03/15/2024 00:00", None);
        let mut invoice =
            Invoice::new(&inv_state, recipient(vec![("dev", "Development")]), locale(), "t".to_string());
        let mut wl = Worklog::new();
        for r in records {
            wl.add_record(r);
        }
        invoice.add_worklog(&wl).expect("no conflict");
        texts.push(
            invoice
                .positions()
                .iter()
                .map(|p| (p.text().clone(), p.amount()))
                .collect(),
        );
    }
    // the grouped, key-sorted output is the same for both input orders
    assert_eq!(texts[0], texts[1]);
}

#[test]
fn default_tag_collects_untagged_records() {
    let inv_state = invoicer_at("03/15/2024 00:00", None);
    let rec = recipient(vec![("acme", "[default] General work"), ("dev", "Development")]);
    assert_eq!(rec.default_tag_name().unwrap(), "acme");
    let mut invoice = Invoice::new(&inv_state, rec, locale(), "t".to_string());

    let mut wl = Worklog::new();
    wl.add_record(record("01/10/2024 09:00", 100, None, "Misc", &[]));
    wl.add_record(record("01/11/2024 09:00", 100, None, "Other", &["unknown"]));
    invoice.add_worklog(&wl).expect("no conflict");

    assert_eq!(invoice.positions().len(), 1);
    assert_eq!(invoice.positions()[0].text(), "General work");
    assert_eq!(invoice.positions()[0].amount(), 200);
}

#[test]
fn positions_come_out_sorted_by_key() {
    let inv_state = invoicer_at("03/15/2024 00:00", None);
    let mut invoice = Invoice::new(&inv_state, recipient(vec![]), locale(), "t".to_string());
    let mut wl = Worklog::new();
    wl.add_record(record("01/10/2024 09:00", 100, None, "zeta", &[]));
    wl.add_record(record("01/11/2024 09:00", 100, None, "alpha", &[]));
    wl.add_record(record("01/12/2024 09:00", 100, None, "mid", &[]));
    invoice.add_worklog(&wl).expect("no conflict");
    let texts: Vec<String> = invoice.positions().iter().map(|p| p.text().clone()).collect();
    assert_eq!(texts, vec!["alpha".to_string(), "mid".to_string(), "zeta".to_string()]);
}

#[test]
fn number_and_filename_formatting() {
    let inv_state = invoicer_at("03/15/2024 00:00", Some(7));
    let mut invoice = Invoice::new(&inv_state, recipient(vec![]), locale(), "t".to_string());
    invoice.set_counter(7);
    assert_eq!(invoice.number(), "20240307");
    assert_eq!(invoice.filename(), "20240307_invoice_Acme.tex");
}

#[test]
fn sums_and_tax() {
    let inv_state = invoicer_at("03/15/2024 00:00", None);
    let mut invoice = Invoice::new(&inv_state, recipient(vec![]), locale(), "t".to_string());
    let mut wl = Worklog::new();
    wl.add_record(record("01/10/2024 09:00", 100, Some(10000), "Work", &[]));
    invoice.add_worklog(&wl).expect("no conflict");
    // 1.00 h at 100.00 = 100.00, at a 19.00 % tax rate
    assert_eq!(invoice.sum(), 1_000_000);
    assert_eq!(invoice.tax(), 190_000);
    assert_eq!(invoice.sum_with_tax(), 1_190_000);
    assert!(invoice.calculate_value_added_tax());
    assert_eq!(invoice.currency_symbol(), "€");
}

#[test]
fn invoice_range_covers_records() {
    let inv_state = invoicer_at("03/15/2024 00:00", None);
    let mut invoice = Invoice::new(&inv_state, recipient(vec![]), locale(), "t".to_string());
    assert!(invoice.begin_date().secs > invoice.end_date().secs);
    let mut wl = Worklog::new();
    wl.add_record(record("01/10/2024 09:00", 100, None, "Work", &[]));
    invoice.add_worklog(&wl).expect("no conflict");
    assert_eq!(invoice.begin_date().secs, wl.begin_date().secs);
    assert_eq!(invoice.end_date().secs, wl.end_date().secs);
}

#[test]
fn timesheet_grows_and_sorts_with_worklogs() {
    let inv_state = invoicer_at("03/15/2024 00:00", None);
    let mut rec = recipient(vec![]);
    rec.invoice.timesheet_template = Some("timesheet.tex".to_string());
    let mut invoice = Invoice::new(&inv_state, rec, locale(), "templates".to_string());
    assert!(invoice.generate_timesheet());

    let mut wl = Worklog::new();
    wl.add_record(record("01/20/2024 09:00", 100, None, "late", &[]));
    wl.add_record(record("01/10/2024 09:00", 100, None, "early", &[]));
    invoice.add_worklog(&wl).expect("no conflict");

    let ts = invoice.timesheet().as_ref().expect("timesheet was begun");
    let messages: Vec<String> = ts.records().iter().map(|r| r.message().clone()).collect();
    assert_eq!(messages, vec!["early".to_string(), "late".to_string()]);
    assert_eq!(ts.template_file(), "timesheet.tex");
    assert_eq!(ts.template_dir(), "templates");
}

#[test]
fn config_getters_fall_back_to_defaults() {
    let c = InvoiceConfig::empty();
    assert_eq!(c.locale_str(), "en");
    assert_eq!(c.template(), "invoice.tex");
    assert_eq!(c.date_format(), "%Y/%m/%d");
    assert_eq!(c.number_format(), "%Y%m${COUNTER}");
    assert_eq!(c.filename_format(), "${INVOICENUMBER}_${INVOICE}_${RECIPIENT}.tex");
    assert_eq!(c.days_for_payment(), 14);
    assert!(c.calculate_value_added_tax());
    assert_eq!(c.timesheet_template(), "");

    let mut first = InvoiceConfig::empty();
    first.locale_str = Some("de".to_string());
    let mut second = InvoiceConfig::empty();
    second.locale_str = Some("en".to_string());
    second.template = Some("alt.tex".to_string());
    let resolved = InvoiceConfig::resolve(&first, &second);
    assert_eq!(resolved.locale_str(), "de");
    assert_eq!(resolved.template(), "alt.tex");
}

#[test]
fn fingerprints_store_pairs_both_ways() {
    let mut fp = InvoiceFingerprints::default();
    fp.add("abc".to_string(), "202401".to_string());
    fp.add("def".to_string(), "202402".to_string());
    assert!(fp.contains_fingerprint("abc".to_string()));
    assert!(!fp.contains_fingerprint("xyz".to_string()));
    assert!(fp.contains_number("202402".to_string()));
    assert_eq!(fp.number_for_fingerprint("abc".to_string()).unwrap(), "202401");

    // a new pair with the same number displaces the old one
    fp.add("ghi".to_string(), "202401".to_string());
    assert!(!fp.contains_fingerprint("abc".to_string()));
    assert_eq!(fp.number_for_fingerprint("ghi".to_string()).unwrap(), "202401");
}

#[test]
fn content_fingerprint_matches_known_values() {
    // the 64-bit FNV-1a offset basis and the standard one-byte vector
    assert_eq!(content_fingerprint(b""), "cbf29ce484222325");
    assert_eq!(content_fingerprint(b"a"), "af63dc4c8601ec8c");
    assert_ne!(content_fingerprint(b"invoice one"), content_fingerprint(b"invoice two"));
}

#[test]
fn invoicer_collects_worklogs_and_recipients() {
    let mut inv = invoicer_at("03/15/2024 00:00", None);
    assert!(!inv.has_recipients());
    inv.add_recipient(recipient(vec![]));
    assert!(inv.has_recipients());

    let mut wl = Worklog::new();
    wl.add_record(record("01/10/2024 09:00", 100, None, "Work", &["Acme"]));
    inv.append_worklog(&wl);
    assert_eq!(inv.worklog().len(), 1);
    assert!(inv.worklog().tags().contains(&"Acme".to_string()));
    assert_eq!(inv.counter(), 1);
}

#[test]
fn directories_resolve_placeholders() {
    let d = Directories::empty();
    assert_eq!(d.config_dir("/home/ada", "/work"), "/home/ada/.invoicer");
    assert_eq!(d.tag_dir("/home/ada", "/work"), "/home/ada/.invoicer/tags");
    assert_eq!(d.template_dir("/home/ada", "/work"), "/home/ada/.invoicer/templates");

    let inv = invoicer_at("03/15/2024 00:00", None);
    assert_eq!(
        inv.invoice_dir("/home/ada", "/work"),
        "/home/ada/Documents/invoices/2024"
    );
}
