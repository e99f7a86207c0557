use invoicer::helpers::name_from_file;
use invoicer::locale::{Currency, Locale};

fn en_locale_text() -> &'static str {
    "decimal = \".\"\nseparator = \",\"\npattern = \"#!\"\ncurrency = \"EUR\"\n\n[translations]\ninvoice = \"Invoice\"\ninvoicenumber = \"Invoice number\"\n"
}

fn locale_from_toml(text: &str, path: &str) -> Locale {
    let table: toml::Table = toml::from_str(text).expect("locale TOML parses");
    let name = name_from_file(path);
    let decimal = table["decimal"].as_str().unwrap().to_string();
    let separator = table["separator"].as_str().unwrap().to_string();
    let pattern = table["pattern"].as_str().unwrap().to_string();
    let currency = table["currency"].as_str().unwrap().to_string();
    let mut translations: Vec<(String, String)> = Vec::new();
    for (key, value) in table["translations"].as_table().unwrap() {
        translations.push((key.clone(), value.as_str().unwrap().to_string()));
    }
    Locale::new(
        name,
        decimal,
        separator,
        pattern,
        Currency::from_str(currency),
        translations,
    )
}

#[test]
fn load_toml_and_generate_tex() {
    let locale = locale_from_toml(en_locale_text(), "locales/en.toml");
    assert_eq!(locale.name(), "en");

    assert!(locale.translation("invoice").is_some());
    assert!(!locale.generate_tex().is_empty());
}

#[test]
fn format() {
    let locale = locale_from_toml(en_locale_text(), "locales/en.toml");

    let a = (1234.943_f32 * 100.0).round() as u64;
    let b = (1234.00_f32 * 100.0).round() as u64;
    assert_eq!(locale.format_amount(a), "1,234.94€");
    assert_eq!(locale.format_amount(b), "1,234.00€");
    assert_eq!(locale.format_amount_int(1234), "1234€");
}

#[test]
fn currency_symbols() {
    assert_eq!(Currency::from_str("EUR".to_string()).symbol(), "€");
    assert_eq!(Currency::from_str("USD".to_string()).symbol(), "$");
    assert_eq!(Currency::from_str("XXX".to_string()).symbol(), "€");
    assert_eq!(Currency::default().str(), "EUR");
}

#[test]
fn number_grouping() {
    let locale = locale_from_toml(en_locale_text(), "locales/en.toml");
    assert_eq!(locale.format_number(123456789), "1,234,567.89");
    assert_eq!(locale.format_number(5), "0.05");
    assert_eq!(locale.format_number(250), "2.50");
}

#[test]
fn translations_lookup() {
    let locale = locale_from_toml(en_locale_text(), "locales/en.toml");
    assert_eq!(locale.tr("invoice"), "Invoice");
    assert!(locale.translation("missing").is_none());
}
