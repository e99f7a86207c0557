use invoicer::dates::parse_start;
use invoicer::invoice::Invoice;
use invoicer::invoicer::{Config, Directories, Invoicer, OverwriteBehaviour};
use invoicer::locale::{Currency, Locale};
use invoicer::recipient::{Contact, InvoiceConfig, Payment, Recipient};
use invoicer::worklog::{Worklog, WorklogRecord};

fn lines(v: &[&str]) -> Vec<String> {
    v.iter().map(|s| s.to_string()).collect()
}

fn small_invoice() -> Invoice {
    let contact = Contact {
        companyname: None,
        fullname: "Ada Biller".to_string(),
        street: "Main St 1".to_string(),
        zipcode: 12345,
        city: "Town".to_string(),
        country: None,
        phone: None,
        fax: None,
        email: "a@example.org".to_string(),
        website: None,
    };
    let payment = Payment {
        accountholder: None,
        iban: "DE00123456".to_string(),
        bic: "GENO0000".to_string(),
        taxid: "12/345/6789".to_string(),
        currency: Some(Currency::from_str("EUR".to_string())),
        tax_rate: 1900,
        default_rate: None,
    };
    let config = Config {
        pdf_generator: None,
        overwrite: OverwriteBehaviour::default(),
        directories: Directories::empty(),
        contact: contact.clone(),
        payment,
        invoice: InvoiceConfig::empty(),
    };
    let recipient = Recipient {
        name: "Acme".to_string(),
        contact,
        invoice: InvoiceConfig::empty(),
        default_rate: None,
        tags: Vec::new(),
    };
    let locale = Locale::new(
        "en".to_string(),
        ".".to_string(),
        ",".to_string(),
        "#!".to_string(),
        Currency::from_str("EUR".to_string()),
        vec![("invoice".to_string(), "invoice".to_string())],
    );
    let date = parse_start("03/15/2024 00:00").unwrap();
    let invoicer = Invoicer::new(config, date, Some(1));
    let mut invoice = Invoice::new(&invoicer, recipient, locale, "templates".to_string());
    invoice.set_counter(1);
    let mut wl = Worklog::new();
    wl.add_record(
        WorklogRecord::new(
            Vec::new(),
            "01/10/2024 09:00".to_string(),
            100,
            Some(10000),
            "Coding".to_string(),
        )
        .unwrap(),
    );
    invoice.add_worklog(&wl).unwrap();
    invoice
}

#[test]
fn whole_invoice_renders_against_a_template() {
    let invoice = small_invoice();
    let template = lines(&[
        "\\documentclass{article}",
        "%$LANGUAGE",
        "%$BILLER_ADDRESS",
        "%$INVOICE_DETAILS",
        "%$INVOICE_POSITIONS",
        "%$INVOICE_SUM",
        "%$INVOICE_VALUE_TAX_NOTE",
        "\\end{document}",
    ]);
    let out = invoice.generate_tex(&template, &Vec::new(), &Vec::new());

    assert!(out.contains(&"\\newcommand{\\trinvoice}{invoice}".to_string()));
    assert!(out.contains(&"\\newcommand{\\myfullname}{Ada Biller}".to_string()));
    assert!(out.contains(&"\\newcommand{\\invoicenumber}{20240301}".to_string()));
    assert!(out.contains(&"\\newcommand{\\invoicedate}{2024/03/15}".to_string()));
    assert!(out.contains(&"\\newcommand{\\invoiceperiodbegin}{2024/01/10}".to_string()));
    assert!(out.contains(&"\\position{Coding}{1.00h}{100€/h}{100.00€}".to_string()));
    assert!(out.contains(&"\\invoicesum{100.00€}{19}{19.00€}{119.00€}".to_string()));
    // value-added tax is itemised, so the exemption note is absent
    assert!(!out.contains(&"\\trinvoicevaluetaxnote".to_string()));
    assert_eq!(out[0], "\\documentclass{article}");
    assert_eq!(out[out.len() - 1], "\\end{document}");
}

#[test]
fn sum_block_without_value_added_tax() {
    // the tax toggle is off through the recipient settings
    let mut cfg = InvoiceConfig::empty();
    cfg.calculate_value_added_tax = Some(false);
    let template = lines(&["%$INVOICE_SUM", "%$INVOICE_VALUE_TAX_NOTE"]);
    let out = {
        let contact = Contact {
            companyname: None,
            fullname: "Ada Biller".to_string(),
            street: "Main St 1".to_string(),
            zipcode: 12345,
            city: "Town".to_string(),
            country: None,
            phone: None,
            fax: None,
            email: "a@example.org".to_string(),
            website: None,
        };
        let payment = Payment {
            accountholder: None,
            iban: "DE00123456".to_string(),
            bic: "GENO0000".to_string(),
            taxid: "12/345/6789".to_string(),
            currency: None,
            tax_rate: 1900,
            default_rate: Some(10000),
        };
        let config = Config {
            pdf_generator: None,
            overwrite: OverwriteBehaviour::default(),
            directories: Directories::empty(),
            contact: contact.clone(),
            payment,
            invoice: InvoiceConfig::empty(),
        };
        let recipient = Recipient {
            name: "Acme".to_string(),
            contact,
            invoice: cfg,
            default_rate: None,
            tags: Vec::new(),
        };
        let locale = Locale::new(
            "en".to_string(),
            ".".to_string(),
            ",".to_string(),
            "#!".to_string(),
            Currency::from_str("EUR".to_string()),
            vec![("invoice".to_string(), "invoice".to_string())],
        );
        let date = parse_start("03/15/2024 00:00").unwrap();
        let invoicer = Invoicer::new(config, date, Some(1));
        let mut inv = Invoice::new(&invoicer, recipient, locale, "t".to_string());
        let mut wl = Worklog::new();
        wl.add_record(
            WorklogRecord::new(
                Vec::new(),
                "01/10/2024 09:00".to_string(),
                100,
                None,
                "Coding".to_string(),
            )
            .unwrap(),
        );
        wl.set_rate(inv.default_rate());
        inv.add_worklog(&wl).unwrap();
        inv.generate_tex(&template, &Vec::new(), &Vec::new())
    };
    assert!(out.contains(&"\\invoicesumnotax{100.00€}".to_string()));
    assert!(out.contains(&"\\trinvoicevaluetaxnote".to_string()));
}

#[test]
fn timesheet_renders_on_its_own_page() {
    let contact = Contact {
        companyname: None,
        fullname: "Ada".to_string(),
        street: "s".to_string(),
        zipcode: 1,
        city: "c".to_string(),
        country: None,
        phone: None,
        fax: None,
        email: "e".to_string(),
        website: None,
    };
    let payment = Payment {
        accountholder: None,
        iban: "i".to_string(),
        bic: "b".to_string(),
        taxid: "t".to_string(),
        currency: None,
        tax_rate: 0,
        default_rate: None,
    };
    let config = Config {
        pdf_generator: None,
        overwrite: OverwriteBehaviour::default(),
        directories: Directories::empty(),
        contact: contact.clone(),
        payment,
        invoice: InvoiceConfig::empty(),
    };
    let mut rcfg = InvoiceConfig::empty();
    rcfg.timesheet_template = Some("timesheet.tex".to_string());
    let recipient = Recipient {
        name: "Acme".to_string(),
        contact,
        invoice: rcfg,
        default_rate: None,
        tags: Vec::new(),
    };
    let locale = Locale::new(
        "en".to_string(),
        ".".to_string(),
        ",".to_string(),
        "#!".to_string(),
        Currency::from_str("EUR".to_string()),
        vec![("invoice".to_string(), "invoice".to_string())],
    );
    let date = parse_start("03/15/2024 00:00").unwrap();
    let invoicer = Invoicer::new(config, date, Some(1));
    let mut invoice = Invoice::new(&invoicer, recipient, locale, "templates".to_string());
    let mut wl = Worklog::new();
    wl.add_record(
        WorklogRecord::new(
            Vec::new(),
            "01/10/2024 09:00".to_string(),
            150,
            Some(10000),
            "Coding".to_string(),
        )
        .unwrap(),
    );
    invoice.add_worklog(&wl).unwrap();

    let template = lines(&["%$TIMESHEET"]);
    let ts_template = lines(&["\\begin{tabular}", "%$WORKLOG", "\\end{tabular}"]);
    let out = invoice.generate_tex(&template, &Vec::new(), &ts_template);
    assert_eq!(out[0], "%$TIMESHEET");
    assert_eq!(out[1], "\\newpage");
    assert_eq!(out[2], "\\begin{tabular}");
    assert_eq!(out[3], "%$WORKLOG");
    assert_eq!(out[4], "01/10/2024 09:00 & 1.50 & Coding\\\\");
    assert_eq!(out[5], "\\end{tabular}");
}
