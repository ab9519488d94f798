use chrono::NaiveDate;
use vnlog::calendar::{
    get_xelieu_tab_name, is_later, tab_name_for, week_start, Stamp, MAX_STAMP_SECS,
    MIN_STAMP_SECS, WEEK_SECS,
};

fn stamp(y: i32, mo: u32, d: u32, h: u32, mi: u32, s: u32) -> Stamp {
    let dt = NaiveDate::from_ymd_opt(y, mo, d).unwrap().and_hms_opt(h, mi, s).unwrap().and_utc();
    Stamp { secs: dt.timestamp(), nanos: dt.timestamp_subsec_nanos() }
}

#[test]
fn xelieu_test() {
    assert_eq!(get_xelieu_tab_name(stamp(2023, 5, 6, 9, 10, 11)), "May-2023");
}

#[test]
fn tab_names_of_other_months() {
    assert_eq!(get_xelieu_tab_name(stamp(1999, 12, 31, 23, 59, 59)), "Dec-1999");
    assert_eq!(get_xelieu_tab_name(stamp(2024, 1, 1, 0, 0, 0)), "Jan-2024");
    assert_eq!(get_xelieu_tab_name(stamp(2024, 2, 29, 12, 0, 0)), "Feb-2024");
    assert_eq!(get_xelieu_tab_name(Stamp { secs: 0, nanos: 0 }), "Jan-1970");
    assert_eq!(get_xelieu_tab_name(stamp(-44, 3, 15, 0, 0, 0)), "Mar--44");
}

#[test]
fn tab_name_from_parts() {
    assert_eq!(tab_name_for(9, 2021), "Sep-2021");
    assert_eq!(tab_name_for(13, 2023), "-2023");
    assert_eq!(tab_name_for(0, 7), "-7");
}

#[test]
fn week_start_is_seven_days_earlier() {
    let now = stamp(2023, 5, 6, 9, 10, 11);
    let start = week_start(now);
    assert_eq!(start, stamp(2023, 4, 29, 9, 10, 11));
    let with_nanos = Stamp { secs: now.secs, nanos: 123 };
    assert_eq!(week_start(with_nanos), Stamp { secs: now.secs - WEEK_SECS, nanos: 123 });
    assert!(is_later(now, start));
}

#[test]
fn week_start_near_the_first_date() {
    let t = Stamp { secs: MIN_STAMP_SECS + WEEK_SECS, nanos: 0 };
    assert_eq!(week_start(t), Stamp { secs: MIN_STAMP_SECS, nanos: 0 });
    let last = Stamp { secs: MAX_STAMP_SECS, nanos: 999_999_999 };
    assert_eq!(week_start(last).secs, MAX_STAMP_SECS - WEEK_SECS);
}

#[test]
fn ordering_of_stamps() {
    let a = Stamp { secs: 10, nanos: 5 };
    assert!(is_later(Stamp { secs: 10, nanos: 6 }, a));
    assert!(is_later(Stamp { secs: 11, nanos: 0 }, a));
    assert!(!is_later(a, a));
    assert!(!is_later(Stamp { secs: 9, nanos: 999 }, a));
}

#[test]
fn tabs_are_shared_exactly_within_a_month() {
    let a = get_xelieu_tab_name(stamp(2023, 5, 1, 0, 0, 0));
    let b = get_xelieu_tab_name(stamp(2023, 5, 31, 23, 59, 59));
    let c = get_xelieu_tab_name(stamp(2023, 6, 1, 0, 0, 0));
    let d = get_xelieu_tab_name(stamp(2024, 5, 1, 0, 0, 0));
    assert_eq!(a, b);
    assert_ne!(a, c);
    assert_ne!(a, d);
    assert_eq!(a.len(), "May-".len() + 4);
}
