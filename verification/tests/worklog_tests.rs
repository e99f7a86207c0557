use invoicer::worklog::{Worklog, WorklogRecord, WorklogError};

fn record(start: &str, hours: u64, rate: Option<u64>, message: &str, tags: &[&str]) -> WorklogRecord {
    let tag_vec: Vec<String> = tags.iter().map(|t| t.to_string()).collect();
    WorklogRecord::new(tag_vec, start.to_string(), hours, rate, message.to_string())
        .expect("record is well formed")
}

#[test]
fn record_dates_from_start_text() {
    let r = record("01/01/1970 00:01", 100, None, "m", &[]);
    assert_eq!(r.begin_date().secs, 60);
    // one hour logged: the end lies 3600 seconds after the begin
    assert_eq!(r.end_date().secs, 60 + 3600);

    let r2 = record("01/02/1970 00:00", 0, None, "m", &[]);
    assert_eq!(r2.begin_date().secs, 86400);
}

#[test]
fn record_rejects_bad_start() {
    let r = WorklogRecord::new(Vec::new(), "13/01/2024 00:00".to_string(), 1, None, "m".to_string());
    assert_eq!(r.unwrap_err(), WorklogError::InvalidStart);
    let r = WorklogRecord::new(Vec::new(), "02/30/2024 00:00".to_string(), 1, None, "m".to_string());
    assert_eq!(r.unwrap_err(), WorklogError::InvalidStart);
    // the leap day exists in 2024
    assert!(WorklogRecord::new(Vec::new(), "02/29/2024 00:00".to_string(), 1, None, "m".to_string()).is_ok());
    let r = WorklogRecord::new(Vec::new(), "02/29/2023 00:00".to_string(), 1, None, "m".to_string());
    assert_eq!(r.unwrap_err(), WorklogError::InvalidStart);
}

#[test]
fn worklog_range_is_min_max_of_records() {
    let a = record("01/10/2024 08:00", 200, None, "a", &[]);
    let b = record("01/05/2024 08:00", 100, None, "b", &[]);
    let c = record("01/20/2024 08:00", 300, None, "c", &[]);

    let mut wl = Worklog::new();
    wl.add_record(a);
    wl.add_record(b);
    wl.add_record(c);

    let begin = record("01/05/2024 08:00", 100, None, "b", &[]).begin_date().secs;
    let end = record("01/20/2024 08:00", 300, None, "c", &[]).end_date().secs;
    assert_eq!(wl.begin_date().secs, begin);
    assert_eq!(wl.end_date().secs, end);
}

#[test]
fn worklog_range_is_order_independent() {
    let starts = ["01/10/2024 08:00", "01/05/2024 08:00", "01/20/2024 08:00"];
    let mut wl1 = Worklog::new();
    for s in starts.iter() {
        wl1.add_record(record(s, 150, None, "m", &[]));
    }
    let mut wl2 = Worklog::new();
    for s in starts.iter().rev() {
        wl2.add_record(record(s, 150, None, "m", &[]));
    }
    assert_eq!(wl1.begin_date().secs, wl2.begin_date().secs);
    assert_eq!(wl1.end_date().secs, wl2.end_date().secs);
}

#[test]
fn empty_worklog_has_sentinel_range() {
    let wl = Worklog::new();
    assert!(wl.begin_date().secs > wl.end_date().secs);
    assert_eq!(wl.len(), 0);
}

#[test]
fn tags_are_united_without_duplicates() {
    let mut wl = Worklog::new();
    wl.add_record(record("01/10/2024 08:00", 100, None, "a", &["dev", "ops"]));
    wl.add_record(record("01/11/2024 08:00", 100, None, "b", &["dev", "qa"]));
    let tags: Vec<String> = wl.tags().clone();
    assert_eq!(tags, vec!["dev".to_string(), "ops".to_string(), "qa".to_string()]);
}

#[test]
fn filter_by_tag_keeps_matching_records() {
    let mut wl = Worklog::new();
    wl.add_record(record("01/10/2024 08:00", 100, None, "a", &["acme"]));
    wl.add_record(record("01/11/2024 08:00", 100, None, "b", &["other"]));
    wl.add_record(record("01/12/2024 08:00", 100, None, "c", &["acme", "other"]));

    let filtered = wl.from_records_with_tag("acme");
    assert_eq!(filtered.len(), 2);
    assert_eq!(filtered.records()[0].message(), "a");
    assert_eq!(filtered.records()[1].message(), "c");
    // the filtered worklog's tag set is its own, recomputed
    assert!(filtered.tags().contains(&"other".to_string()));
}

#[test]
fn sort_orders_by_start_time() {
    let mut wl = Worklog::new();
    wl.add_record(record("01/20/2024 08:00", 100, None, "late", &[]));
    wl.add_record(record("01/05/2024 08:00", 100, None, "early", &[]));
    wl.add_record(record("01/10/2024 08:00", 100, None, "mid", &[]));
    wl.sort();
    let messages: Vec<String> = wl.records().iter().map(|r| r.message().clone()).collect();
    assert_eq!(messages, vec!["early".to_string(), "mid".to_string(), "late".to_string()]);
}

#[test]
fn sum_uses_rate_or_default() {
    let mut wl = Worklog::new();
    wl.set_rate(10000);
    wl.add_record(record("01/10/2024 08:00", 200, None, "a", &[]));
    wl.add_record(record("01/11/2024 08:00", 100, Some(5000), "b", &[]));
    // 2.00 h at 100.00 plus 1.00 h at 50.00, in hundredths of hundredths
    assert_eq!(wl.sum(), 200 * 10000 + 100 * 5000);
}

#[test]
fn append_concatenates_records() {
    let mut wl1 = Worklog::new();
    wl1.add_record(record("01/10/2024 08:00", 100, None, "a", &[]));
    let mut wl2 = Worklog::new();
    wl2.add_record(record("01/11/2024 08:00", 100, None, "b", &[]));
    wl1.append(&wl2);
    assert_eq!(wl1.len(), 2);
    assert_eq!(wl1.records()[1].message(), "b");
}

#[test]
fn csv_loads_records_through_the_csv_crate() {
    let data = b"Tags,Start,Hours,Rate,Message\ndev,01/10/2024 08:00,2.5,,Coding\n\"dev, qa\",01/11/2024 09:30,1,120.50,Review\n";
    let wl = Worklog::from_csv(data).expect("csv loads");
    assert_eq!(wl.len(), 2);
    let r0 = &wl.records()[0];
    assert_eq!(r0.hours(), 250);
    assert_eq!(r0.rate(), None);
    assert_eq!(r0.message(), "Coding");
    assert!(r0.has_tag("dev"));
    let r1 = &wl.records()[1];
    assert_eq!(r1.hours(), 100);
    assert_eq!(r1.rate(), Some(12050));
    assert!(r1.has_tag("qa"));
    assert!(r1.has_tag("dev"));
}

#[test]
fn csv_errors_are_reported() {
    let missing = b"Start,Hours\n01/10/2024 08:00,1\n";
    assert_eq!(Worklog::from_csv(missing).unwrap_err(), WorklogError::MissingColumn);

    let bad_hours = b"Start,Hours,Message\n01/10/2024 08:00,abc,m\n";
    assert_eq!(Worklog::from_csv(bad_hours).unwrap_err(), WorklogError::InvalidHours);

    let bad_rate = b"Start,Hours,Rate,Message\n01/10/2024 08:00,1,abc,m\n";
    assert_eq!(Worklog::from_csv(bad_rate).unwrap_err(), WorklogError::InvalidRate);

    let bad_start = b"Start,Hours,Message\nnot a date,1,m\n";
    assert_eq!(Worklog::from_csv(bad_start).unwrap_err(), WorklogError::InvalidStart);

    let malformed = b"Start,Hours,Message\n\"unclosed,1,m\n";
    assert_eq!(Worklog::from_csv(malformed).unwrap_err(), WorklogError::MalformedCsv);
}

#[test]
fn out_of_bound_numbers_are_rejected() {
    let r = WorklogRecord::new(Vec::new(), "01/10/2024 08:00".to_string(), 10_000_001, None, "m".to_string());
    assert_eq!(r.unwrap_err(), WorklogError::InvalidHours);
    let r = WorklogRecord::new(Vec::new(), "01/10/2024 08:00".to_string(), 1, Some(100_000_001), "m".to_string());
    assert_eq!(r.unwrap_err(), WorklogError::InvalidRate);

    // the fixed-point grammar takes at most two fraction digits
    let deep = b"Start,Hours,Message\n01/10/2024 08:00,2.505,m\n";
    assert_eq!(Worklog::from_csv(deep).unwrap_err(), WorklogError::InvalidHours);
}

#[test]
fn short_row_is_rejected() {
    let headers: Vec<String> = vec!["Start".to_string(), "Hours".to_string(), "Message".to_string()];
    let rows: Vec<Vec<String>> = vec![vec!["01/10/2024 08:00".to_string()]];
    assert_eq!(Worklog::from_rows(&headers, &rows).unwrap_err(), WorklogError::ShortRow);
}
