use news_tui::utils::time_formatter::{
    custom_time_at_offset, custom_time_to_unix, rfc2822_to_custom, try_custom_time_to_unix, try_rfc2822_to_custom,
    unix_to_custom_time,
};

#[test]
fn custom_time_reads_its_offset() {
    // 2024-01-15 15:04 at +08:00 is 07:04 UTC
    assert_eq!(custom_time_to_unix("Mon, 15 Jan 2024 03:04 PM UTC+0800"), 1705302240);
}

#[test]
fn rfc2822_is_shown_in_the_custom_format() {
    assert_eq!(
        rfc2822_to_custom("Mon, 15 Jan 2024 15:04:00 +0800".to_string()),
        "Mon, 15 Jan 2024 03:04 PM UTC+0800"
    );
}

#[test]
fn unreadable_dates_are_reported() {
    assert_eq!(try_rfc2822_to_custom(&String::new()), None);
    assert_eq!(try_custom_time_to_unix("yesterday"), None);
    assert_eq!(
        try_custom_time_to_unix("Mon, 15 Jan 2024 03:04 PM UTC+0800"),
        Some(1705302240)
    );
}

#[test]
fn local_time_reads_back_to_the_same_second() {
    let shown = unix_to_custom_time(1705302240);
    assert_eq!(custom_time_to_unix(&shown), 1705302240);
}

#[test]
fn time_is_shown_at_a_fixed_offset() {
    assert_eq!(
        custom_time_at_offset(1705302240, 28800),
        Some("Mon, 15 Jan 2024 03:04 PM UTC+0800".to_string())
    );
    assert_eq!(
        custom_time_at_offset(1705302240, 0),
        Some("Mon, 15 Jan 2024 07:04 AM UTC+0000".to_string())
    );
    assert_eq!(custom_time_at_offset(1705302240, 100000), None);
}
