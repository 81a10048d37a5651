use market_feed::records::{batch_ticker, utc_millis, CsvProcessor, RecordError, TickRow};

fn row(date: &str, time: &str, ticker: &str) -> TickRow {
    TickRow { date: date.to_string(), time: time.to_string(), ticker: ticker.to_string() }
}

#[test]
fn processor_keeps_its_path() {
    let p = CsvProcessor::new("/data/ticks.csv");
    assert_eq!(p.file_path, "/data/ticks.csv");
}

#[test]
fn epoch_is_zero() {
    assert_eq!(utc_millis(719_163, 0, 0), 0);
}

#[test]
fn millis_formula_exact_values() {
    // 2001-09-09 01:46:40 UTC is one billion seconds after the epoch.
    assert_eq!(utc_millis(730_737, 6_400, 0), 1_000_000_000_000);
    assert_eq!(utc_millis(719_164, 1, 2_000_000), 86_401_002);
    assert_eq!(utc_millis(719_162, 86_399, 999_999_999), -1);
    assert_eq!(utc_millis(719_163, 0, 999_999), 0);
}

#[test]
fn millis_at_the_ends_of_the_ranges() {
    assert_eq!(
        utc_millis(i32::MAX, u32::MAX, u32::MAX),
        (i32::MAX as i64 - 719_163) * 86_400_000 + u32::MAX as i64 * 1000 + 4_294
    );
    assert_eq!(utc_millis(i32::MIN, 0, 0), (i32::MIN as i64 - 719_163) * 86_400_000);
}

#[test]
fn rows_are_stamped_in_order() {
    let p = CsvProcessor::new("unused.csv");
    let rows = vec![
        row("1970-01-01", "00:00:00", "NIFTY"),
        row("1970-01-02", "00:00:01", "NIFTY"),
        row("2001-09-09", "01:46:40", "BANKNIFTY"),
    ];
    let batch = p.to_records(&rows).unwrap();
    assert_eq!(batch.ticker, "NIFTY");
    assert_eq!(batch.timestamps, vec![0, 86_401_000, 1_000_000_000_000]);
}

#[test]
fn stamps_agree_with_the_calendar_library() {
    let p = CsvProcessor::new("unused.csv");
    let cases = [
        ("2024-02-29", "23:59:59"),
        ("1969-12-31", "23:59:59"),
        ("0001-01-01", "00:00:00"),
        ("2015-06-30", "23:59:60"),
        ("9999-12-31", "12:34:56"),
    ];
    for (date, time) in cases {
        let text = format!("{} {}", date, time);
        let expected = chrono::NaiveDateTime::parse_from_str(&text, "%Y-%m-%d %H:%M:%S")
            .unwrap()
            .and_utc()
            .timestamp_millis();
        let batch = p.to_records(&vec![row(date, time, "X")]).unwrap();
        assert_eq!(batch.timestamps, vec![expected]);
    }
}

#[test]
fn leap_second_counts_a_full_extra_second() {
    let p = CsvProcessor::new("unused.csv");
    let batch = p.to_records(&vec![row("1970-01-01", "00:00:60", "X")]).unwrap();
    assert_eq!(batch.timestamps, vec![60_000]);
}

#[test]
fn empty_input_gives_the_placeholder_ticker() {
    let p = CsvProcessor::new("unused.csv");
    let batch = p.to_records(&Vec::new()).unwrap();
    assert_eq!(batch.ticker, "unknown_ticker");
    assert!(batch.timestamps.is_empty());
    assert_eq!(batch_ticker(&Vec::new()), "unknown_ticker");
}

#[test]
fn first_bad_date_is_reported() {
    let p = CsvProcessor::new("unused.csv");
    let rows = vec![
        row("2020-01-01", "10:00:00", "A"),
        row("2020-13-01", "10:00:00", "A"),
        row("garbage", "also garbage", "A"),
    ];
    assert_eq!(p.to_records(&rows), Err(RecordError::InvalidDate { row: 1 }));
}

#[test]
fn bad_time_is_reported_when_the_date_is_fine() {
    let p = CsvProcessor::new("unused.csv");
    let rows = vec![row("2020-01-01", "10:00:00", "A"), row("2020-01-02", "24:00:00", "A")];
    assert_eq!(p.to_records(&rows), Err(RecordError::InvalidTime { row: 1 }));
}

#[test]
fn date_is_checked_before_time() {
    let p = CsvProcessor::new("unused.csv");
    let rows = vec![row("2020-02-30", "99:00:00", "A")];
    assert_eq!(p.to_records(&rows), Err(RecordError::InvalidDate { row: 0 }));
}
