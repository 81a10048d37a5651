//! Turning rows of a historical tick file into one timestamped batch.
//!
//! A row carries its date and time of day as text. Each is parsed by
//! `chrono`; the two are then combined into milliseconds since the Unix
//! epoch, read as UTC. The batch is labelled with the ticker of its first
//! row.

use vstd::prelude::*;
use vstd::string::StringExecFns;

verus! {

/// The error that `chrono` reports when a text does not match a format.
#[verifier::external_type_specification]
#[verifier::external_body]
pub struct ExParseError(chrono::ParseError);

/// The date that `chrono` reads from `text` under `format`, as the number
/// of days since 31 December of the year 1 BCE in the proleptic Gregorian
/// calendar (so that 1 January 1970 is day 719 163), or `None` where it
/// reports an error.
pub uninterp spec fn parsed_date(text: Seq<char>, format: Seq<char>) -> Option<int>;

/// The time of day that `chrono` reads from `text` under `format`, as the
/// whole seconds since midnight and the nanoseconds past that second, or
/// `None` where it reports an error. A leap second is the last second of
/// its minute with a nanosecond count of one billion or more.
pub uninterp spec fn parsed_time(text: Seq<char>, format: Seq<char>) -> Option<(int, int)>;

/// Calls `chrono::NaiveDate::parse_from_str` and hands the date back as
/// `chrono::Datelike::num_days_from_ce` counts it. The contract claims only
/// that the outcome depends on the two texts alone.
#[verifier::external_body]
fn parse_date(text: &str, format: &str) -> (r: Result<i32, chrono::ParseError>)
    ensures
        match r {
            Ok(days) => parsed_date(text@, format@) == Some(days as int),
            Err(_) => parsed_date(text@, format@) is None,
        },
{
    match chrono::NaiveDate::parse_from_str(text, format) {
        Ok(date) => Ok(chrono::Datelike::num_days_from_ce(&date)),
        Err(e) => Err(e),
    }
}

/// Calls `chrono::NaiveTime::parse_from_str` and hands the time back as
/// `chrono::Timelike::num_seconds_from_midnight` and
/// `chrono::Timelike::nanosecond` give it. The contract claims only that
/// the outcome depends on the two texts alone.
#[verifier::external_body]
fn parse_time(text: &str, format: &str) -> (r: Result<(u32, u32), chrono::ParseError>)
    ensures
        match r {
            Ok(t) => parsed_time(text@, format@) == Some((t.0 as int, t.1 as int)),
            Err(_) => parsed_time(text@, format@) is None,
        },
{
    match chrono::NaiveTime::parse_from_str(text, format) {
        Ok(time) => Ok(
            (
                chrono::Timelike::num_seconds_from_midnight(&time),
                chrono::Timelike::nanosecond(&time),
            ),
        ),
        Err(e) => Err(e),
    }
}

/// The day number of 1 January 1970.
pub const UNIX_EPOCH_DAY: i64 = 719_163;

pub const MILLIS_PER_DAY: i64 = 86_400_000;

/// Milliseconds since the Unix epoch of the instant that lies `seconds`
/// seconds and `nanos` nanoseconds after midnight UTC of day `days`.
/// Fractions of a millisecond are dropped. Leap seconds are not counted,
/// so a time within a leap second gives a count of a thousand or more
/// for its part of a second; `chrono` counts the same way.
pub open spec fn spec_utc_millis(days: int, seconds: int, nanos: int) -> int {
    (days - UNIX_EPOCH_DAY) * MILLIS_PER_DAY + seconds * 1000 + nanos / 1_000_000
}

/// Computes [`spec_utc_millis`]. No input overflows.
pub fn utc_millis(days: i32, seconds: u32, nanos: u32) -> (millis: i64)
    ensures
        millis == spec_utc_millis(days as int, seconds as int, nanos as int),
{
    let day_offset: i64 = days as i64 - UNIX_EPOCH_DAY;
    let day_millis: i64 = day_offset * MILLIS_PER_DAY;
    let second_millis: i64 = seconds as i64 * 1000;
    let sub_millis: i64 = (nanos / 1_000_000) as i64;
    day_millis + second_millis + sub_millis
}

/// One row of a tick file, as far as the batch depends on it.
#[derive(Clone, Debug, PartialEq, Eq)]
pub struct TickRow {
    /// Calendar date, `YYYY-MM-DD`.
    pub date: String,
    /// Time of day, `HH:MM:SS`.
    pub time: String,
    /// Instrument symbol.
    pub ticker: String,
}

/// The rows of one file, stamped.
#[derive(Clone, Debug, PartialEq, Eq)]
pub struct TickBatch {
    /// The symbol the batch is filed under.
    pub ticker: String,
    /// For each row, in order, its instant in milliseconds since the epoch.
    pub timestamps: Vec<i64>,
}

/// Why a row could not be stamped.
#[derive(Clone, Copy, Debug, PartialEq, Eq, Structural)]
pub enum RecordError {
    /// The date of the row at index `row` does not read as a date.
    InvalidDate { row: usize },
    /// The time of the row at index `row` does not read as a time of day.
    InvalidTime { row: usize },
}

/// The instant of a row, or `None` where its date or its time does not parse.
pub open spec fn row_millis(date: Seq<char>, time: Seq<char>) -> Option<int> {
    match (parsed_date(date, "%Y-%m-%d"@), parsed_time(time, "%H:%M:%S"@)) {
        (Some(days), Some(t)) => Some(spec_utc_millis(days, t.0, t.1)),
        _ => None,
    }
}

/// The instant of the row at index `i` of `rows`.
pub open spec fn row_instant(rows: Seq<TickRow>, i: int) -> Option<int> {
    row_millis(rows[i].date@, rows[i].time@)
}

/// The symbol a batch is filed under: that of its first row, and a fixed
/// placeholder for a batch without rows.
pub open spec fn spec_batch_ticker(rows: Seq<TickRow>) -> Seq<char> {
    if rows.len() > 0 {
        rows[0].ticker@
    } else {
        "unknown_ticker"@
    }
}

/// Computes [`spec_batch_ticker`].
pub fn batch_ticker(rows: &Vec<TickRow>) -> (ticker: String)
    ensures
        ticker@ == spec_batch_ticker(rows@),
{
    if rows.len() > 0 {
        rows[0].ticker.clone()
    } else {
        String::from_str("unknown_ticker")
    }
}

/// The processor of one tick file. It holds the path of the file, which
/// the caller reads, and stamps the rows read from it.
#[derive(Debug)]
pub struct CsvProcessor {
    pub file_path: String,
}

impl CsvProcessor {
    pub fn new(file_path: &str) -> (processor: Self)
        ensures
            processor.file_path@ == file_path@,
    {
        CsvProcessor { file_path: String::from_str(file_path) }
    }

    /// Stamps every row and files the batch under the ticker of the first.
    ///
    /// Rows are read in order and the first one that does not parse ends
    /// the run: with `InvalidDate` if its date is at fault, else with
    /// `InvalidTime`.
    pub fn to_records(&self, data: &Vec<TickRow>) -> (r: Result<TickBatch, RecordError>)
        ensures
            match r {
                Ok(batch) => {
                    &&& batch.ticker@ == spec_batch_ticker(data@)
                    &&& batch.timestamps@.len() == data@.len()
                    &&& forall|i: int|
                        #![trigger row_instant(data@, i)]
                        #![trigger batch.timestamps@[i]]
                        0 <= i < data@.len() ==> row_instant(data@, i) == Some(
                            batch.timestamps@[i] as int,
                        )
                },
                Err(RecordError::InvalidDate { row }) => {
                    &&& row < data@.len()
                    &&& forall|i: int| 0 <= i < row ==> (#[trigger] row_instant(data@, i)).is_some()
                    &&& parsed_date(data@[row as int].date@, "%Y-%m-%d"@) is None
                },
                Err(RecordError::InvalidTime { row }) => {
                    &&& row < data@.len()
                    &&& forall|i: int| 0 <= i < row ==> (#[trigger] row_instant(data@, i)).is_some()
                    &&& parsed_date(data@[row as int].date@, "%Y-%m-%d"@) is Some
                    &&& parsed_time(data@[row as int].time@, "%H:%M:%S"@) is None
                },
            },
    {
        let mut timestamps: Vec<i64> = Vec::new();
        let mut i: usize = 0;
        while i < data.len()
            invariant
                i <= data@.len(),
                timestamps@.len() == i,
                forall|k: int|
                    #![trigger row_instant(data@, k)]
                    #![trigger timestamps@[k]]
                    0 <= k < i ==> row_instant(data@, k) == Some(timestamps@[k] as int),
            decreases data@.len() - i,
        {
            let row = &data[i];
            let days = match parse_date(row.date.as_str(), "%Y-%m-%d") {
                Ok(days) => days,
                Err(_) => {
                    return Err(RecordError::InvalidDate { row: i });
                },
            };
            let time = match parse_time(row.time.as_str(), "%H:%M:%S") {
                Ok(time) => time,
                Err(_) => {
                    return Err(RecordError::InvalidTime { row: i });
                },
            };
            timestamps.push(utc_millis(days, time.0, time.1));
            i += 1;
        }
        Ok(TickBatch { ticker: batch_ticker(data), timestamps })
    }
}

} // verus!
