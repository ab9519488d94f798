use vnlog::calendar::Stamp;
use vnlog::messages::VnName;
use vnlog::stats::{info_message, log_stats, sums_fit_check, Log};

fn log(secs: i64, count: i64, name: Option<&str>, time: Option<i64>) -> Log {
    Log {
        uid: "7".to_string(),
        timestamp: Stamp { secs, nanos: 0 },
        count,
        name: name.map(|n| n.to_string()),
        time,
        comment: None,
    }
}

#[test]
fn totals_and_weekly_totals() {
    let week = Stamp { secs: 1000, nanos: 0 };
    let logs = vec![
        log(2000, 300, None, Some(30)),
        log(1000, 200, None, None),
        log(500, 100, None, Some(15)),
    ];
    let stats = log_stats(&logs, week);
    assert_eq!(stats.count, 600);
    assert_eq!(stats.minutes, 45);
    assert_eq!(stats.weekly_count, 300);
    assert_eq!(stats.weekly_minutes, 30);
}

#[test]
fn same_second_later_nanos_count_for_the_week() {
    let week = Stamp { secs: 1000, nanos: 10 };
    let logs = vec![Log { uid: String::new(), timestamp: Stamp { secs: 1000, nanos: 11 }, count: 5, name: None, time: Some(2), comment: None }];
    let stats = log_stats(&logs, week);
    assert_eq!(stats.weekly_count, 5);
    assert_eq!(stats.weekly_minutes, 2);
}

#[test]
fn weekly_within_total_for_nonnegative_logs() {
    let week = Stamp { secs: 50, nanos: 0 };
    let logs = vec![log(10, 7, None, Some(3)), log(60, 9, None, Some(4)), log(70, 0, None, None)];
    let stats = log_stats(&logs, week);
    assert!(0 <= stats.weekly_count && stats.weekly_count <= stats.count);
    assert!(0 <= stats.weekly_minutes && stats.weekly_minutes <= stats.minutes);
}

#[test]
fn all_recent_logs_make_the_week_the_total() {
    let week = Stamp { secs: 0, nanos: 0 };
    let logs = vec![log(10, 7, None, Some(3)), log(60, 9, None, Some(4))];
    let stats = log_stats(&logs, week);
    assert_eq!(stats.weekly_count, stats.count);
    assert_eq!(stats.weekly_minutes, stats.minutes);
}

#[test]
fn overflowing_sums_are_caught() {
    let week = Stamp { secs: 0, nanos: 0 };
    assert!(sums_fit_check(&vec![log(1, i64::MAX, None, None)], week));
    assert!(!sums_fit_check(&vec![log(1, i64::MAX, None, None), log(1, 1, None, None)], week));
    assert!(!sums_fit_check(&vec![log(1, 0, None, Some(i64::MIN)), log(1, 0, None, Some(-1))], week));
    // An intermediate sum that leaves the range fails even when the end result would fit.
    assert!(!sums_fit_check(
        &vec![log(1, i64::MAX, None, None), log(1, 1, None, None), log(1, -5, None, None)],
        week
    ));
    assert!(sums_fit_check(&vec![], week));
}

#[test]
fn info_reply_without_logs() {
    let week = Stamp { secs: 0, nanos: 0 };
    assert_eq!(
        info_message("7", None, &vec![], &vec![], week),
        "**Stats for <@7>**\nLogged **0** characters in **0:00** hours.\n**Weekly stats**:\nLogged **0** characters in **0:00** hours."
    );
}

#[test]
fn info_reply_with_logs() {
    let week = Stamp { secs: 1000, nanos: 0 };
    let logs = vec![
        log(2000, 300, Some("v17"), Some(90)),
        log(900, 200, None, None),
    ];
    let displays = vec![Some("[Ever17](https://vndb.org/v17)".to_string()), None];
    let vn = VnName { display: "[Ever17](https://vndb.org/v17)".to_string(), id: "v17".to_string() };
    assert_eq!(
        info_message("7", Some(vn), &logs, &displays, week),
        "**Stats for <@7>** for vn **[[Ever17](https://vndb.org/v17)](https://vndb.org/v17)**\nLogged **500** characters in **1:30** hours.\n**Weekly stats**:\nLogged **300** characters in **1:30** hours.\n**Last few logs:\n**<t:2000:R> **300 chars** for **1:30** hours of **[[Ever17](https://vndb.org/v17)](https://vndb.org/v17)**.\n<t:900:R> **200 chars**.\n"
    );
}

#[test]
fn info_reply_lists_five_logs_at_most() {
    let week = Stamp { secs: 0, nanos: 0 };
    let logs: Vec<Log> = (1..=7).map(|i| log(i, i, None, None)).collect();
    let displays = vec![None, None, None, None, None];
    let text = info_message("1", None, &logs, &displays, week);
    assert!(text.ends_with("<t:5:R> **5 chars**.\n"));
    assert!(!text.contains("<t:6:R>"));
    assert!(text.contains("Logged **28** characters"));
}
