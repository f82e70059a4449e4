use coding_plan_manager::clock::{local_date_days_ago, now_str};
use coding_plan_manager::text::int_text;

#[test]
fn local_time_formats() {
    let now = now_str();
    assert_eq!(now.len(), 19);
    assert_eq!(&now[4..5], "-");
    assert_eq!(&now[10..11], " ");
    assert_eq!(&now[13..14], ":");
    let today = local_date_days_ago(0);
    assert_eq!(today.len(), 10);
    assert!(now.starts_with(&today) || now < today, "the date is the one of now");
    let yesterday = local_date_days_ago(1);
    assert!(yesterday < today);
}

#[test]
fn decimal_text_of_integers() {
    assert_eq!(int_text(0), "0");
    assert_eq!(int_text(8300), "8300");
    assert_eq!(int_text(-42), "-42");
    assert_eq!(int_text(i64::MIN), i64::MIN.to_string());
    assert_eq!(int_text(i64::MAX), i64::MAX.to_string());
}
