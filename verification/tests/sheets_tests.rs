use chrono::NaiveDate;
use vnlog::calendar::Stamp;
use vnlog::sheets::{sheets_row, SheetsLog};

fn stamp(y: i32, mo: u32, d: u32, h: u32, mi: u32, s: u32) -> Stamp {
    let dt = NaiveDate::from_ymd_opt(y, mo, d).unwrap().and_hms_opt(h, mi, s).unwrap().and_utc();
    Stamp { secs: dt.timestamp(), nanos: dt.timestamp_subsec_nanos() }
}

#[test]
fn row_for_a_log() {
    let row = sheets_row(SheetsLog {
        date: stamp(2023, 5, 6, 9, 10, 11),
        name: Some("v17".to_string()),
        chars: 4000,
        time: Some(65),
    });
    assert_eq!(row.range, "'May-2023'!A1:G1");
    assert_eq!(row.date, "2023-05-06");
    assert_eq!(row.name, Some("v17".to_string()));
    assert_eq!(row.category, "Visual Novel");
    assert_eq!(row.chars, 4000);
    assert_eq!(row.time, Some("1:5:00".to_string()));
}

#[test]
fn row_without_time_or_name() {
    let row = sheets_row(SheetsLog { date: stamp(2021, 11, 30, 0, 0, 0), name: None, chars: 0, time: None });
    assert_eq!(row.range, "'Nov-2021'!A1:G1");
    assert_eq!(row.date, "2021-11-30");
    assert_eq!(row.name, None);
    assert_eq!(row.time, None);
}

#[test]
fn row_with_long_and_negative_times() {
    let row = sheets_row(SheetsLog { date: stamp(2024, 2, 1, 0, 0, 0), name: None, chars: 1, time: Some(600) });
    assert_eq!(row.time, Some("10:0:00".to_string()));
    let row = sheets_row(SheetsLog { date: stamp(2024, 2, 1, 0, 0, 0), name: None, chars: 1, time: Some(-65) });
    assert_eq!(row.time, Some("-1:-5:00".to_string()));
}
