use invoicer::dates::{date_to_str, parse_start, DateTime};
use invoicer::generate_tex::{
    generate_tex_command, include_targets, token_name_from_line, GenerateTexCommands, TexTemplate,
    TexValue,
};
use invoicer::helpers::{file_name, name_from_file, parent, path_join};
use invoicer::recipient::Contact;

fn lines(v: &[&str]) -> Vec<String> {
    v.iter().map(|s| s.to_string()).collect()
}

#[test]
fn marker_line_injects_registered_content() {
    let mut t = TexTemplate::new("invoice.tex".to_string());
    t.token("FOO", lines(&["injected one", "injected two"]));

    let out = t.generate(&lines(&["before", "%$FOO", "after"]), &Vec::new());
    assert_eq!(
        out,
        lines(&["before", "%$FOO", "injected one", "injected two", "after"])
    );
}

#[test]
fn re_registration_overrides_earlier_content() {
    let mut t = TexTemplate::new("invoice.tex".to_string());
    t.token("FOO", lines(&["first"]));
    t.token("FOO", lines(&["second"]));
    let out = t.generate(&lines(&["%$FOO"]), &Vec::new());
    assert_eq!(out, lines(&["%$FOO", "second"]));
}

#[test]
fn unregistered_marker_writes_only_itself() {
    let t = TexTemplate::new("invoice.tex".to_string());
    let out = t.generate(&lines(&["%$BAR"]), &Vec::new());
    assert_eq!(out, lines(&["%$BAR"]));
}

#[test]
fn include_lines_are_spliced() {
    let t = TexTemplate::new("invoice.tex".to_string());
    let includes = vec![("header".to_string(), lines(&["H1", "H2"]))];
    let out = t.generate(&lines(&["\\input{header}", "body"]), &includes);
    assert_eq!(out, lines(&["H1", "H2", "body"]));

    // a missing include contributes nothing and is not fatal
    let out2 = t.generate(&lines(&["\\input{missing}", "body"]), &Vec::new());
    assert_eq!(out2, lines(&["body"]));
}

#[test]
fn include_targets_are_listed() {
    let targets = include_targets(&lines(&["a", "\\input{one}", "b", "\\input{two}"]));
    assert_eq!(targets, lines(&["one", "two"]));
}

#[test]
fn token_names_are_extracted() {
    assert_eq!(token_name_from_line("%$FOO").unwrap(), "FOO");
    assert_eq!(token_name_from_line("  %$ SPACED  ").unwrap(), "SPACED");
    assert!(token_name_from_line("% comment").is_none());
    assert!(token_name_from_line("plain").is_none());
}

#[test]
fn tex_commands_drop_underscores_and_absent_values() {
    let line = generate_tex_command("my_field", &TexValue::Text("value".to_string())).unwrap();
    assert_eq!(line, "\\newcommand{\\myfield}{value}");

    assert!(generate_tex_command("x", &TexValue::OptText(None)).is_none());
    let n = generate_tex_command("n", &TexValue::Number(42)).unwrap();
    assert_eq!(n, "\\newcommand{\\n}{42}");
}

#[test]
fn contact_fields_become_commands() {
    let c = Contact {
        companyname: None,
        fullname: "Ada".to_string(),
        street: "Main St 1".to_string(),
        zipcode: 12345,
        city: "Town".to_string(),
        country: None,
        phone: None,
        fax: None,
        email: "a@example.org".to_string(),
        website: None,
    };
    let cmds = c.generate_tex_commands("my");
    assert_eq!(cmds[0], "\\newcommand{\\myfullname}{Ada}");
    assert!(cmds.contains(&"\\newcommand{\\myzipcode}{12345}".to_string()));
    // absent optional fields emit nothing
    assert_eq!(cmds.len(), 5);
}

#[test]
fn dates_render_through_chrono() {
    let epoch = DateTime { secs: 0 };
    assert_eq!(date_to_str(&epoch, "%Y/%m/%d"), "1970/01/01");

    let d = parse_start("03/15/2024 12:30").unwrap();
    assert_eq!(date_to_str(&d, "%Y-%m-%d %H:%M"), "2024-03-15 12:30");
}

#[test]
fn path_helpers_split_names() {
    assert_eq!(file_name("templates/invoice.tex"), "invoice.tex");
    assert_eq!(parent("templates/invoice.tex"), "templates");
    assert_eq!(name_from_file("locales/en.toml"), "en");
    assert_eq!(name_from_file("Acme.toml"), "Acme");
    assert_eq!(path_join("templates", "t.tex"), "templates/t.tex");
}
