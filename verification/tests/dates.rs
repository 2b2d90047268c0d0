use daily_image::date::{days_in_month, is_leap_year, Date};

#[test]
fn leap_years_follow_the_gregorian_rule() {
    assert!(is_leap_year(2024));
    assert!(!is_leap_year(2023));
    assert!(!is_leap_year(1900));
    assert!(is_leap_year(2000));
}

#[test]
fn month_lengths() {
    assert_eq!(days_in_month(2024, 1), 31);
    assert_eq!(days_in_month(2024, 2), 29);
    assert_eq!(days_in_month(2023, 2), 28);
    assert_eq!(days_in_month(2024, 4), 30);
    assert_eq!(days_in_month(2024, 12), 31);
}

#[test]
fn stepping_back_crosses_boundaries() {
    assert_eq!(Date::new(2024, 5, 10).prev_day(), Date::new(2024, 5, 9));
    assert_eq!(Date::new(2024, 5, 1).prev_day(), Date::new(2024, 4, 30));
    assert_eq!(Date::new(2024, 3, 1).prev_day(), Date::new(2024, 2, 29));
    assert_eq!(Date::new(2023, 3, 1).prev_day(), Date::new(2023, 2, 28));
    assert_eq!(Date::new(2024, 1, 1).prev_day(), Date::new(2023, 12, 31));
}

#[test]
fn stepping_forward_crosses_boundaries() {
    assert_eq!(Date::new(2024, 5, 10).next_day(), Date::new(2024, 5, 11));
    assert_eq!(Date::new(2024, 2, 28).next_day(), Date::new(2024, 2, 29));
    assert_eq!(Date::new(2024, 2, 29).next_day(), Date::new(2024, 3, 1));
    assert_eq!(Date::new(2024, 12, 31).next_day(), Date::new(2025, 1, 1));
}

#[test]
fn a_step_forward_undoes_a_step_back() {
    let samples = [
        Date::new(2024, 5, 10),
        Date::new(2024, 3, 1),
        Date::new(2024, 1, 1),
        Date::new(2023, 12, 31),
    ];
    for d in samples {
        assert_eq!(d.prev_day().next_day(), d);
    }
}
