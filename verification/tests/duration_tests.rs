use hrm::duration::{mtime_since_now, SEC_PER_DAY, SEC_PER_HOUR, SEC_PER_MIN, SEC_PER_YEAR};

#[test]
fn decompose_zero() {
    assert_eq!(mtime_since_now(0), (0, 0, 0, 0, 0));
}

#[test]
fn decompose_one_year() {
    assert_eq!(mtime_since_now(31557600), (1, 0, 0, 0, 0));
}

#[test]
fn decompose_day_plus_hour() {
    assert_eq!(mtime_since_now(90000), (0, 1, 1, 0, 0));
}

#[test]
fn decompose_just_under_one_minute() {
    assert_eq!(mtime_since_now(59), (0, 0, 0, 0, 59));
}

#[test]
fn decompose_reconstructs_input() {
    for &s in &[0u64, 1, 59, 60, 3599, 3600, 86399, 86400, 90000, 31557599, 31557600, 123456789, u64::MAX] {
        let (y, d, h, m, sec) = mtime_since_now(s);
        let back = y as u128 * SEC_PER_YEAR as u128
            + d as u128 * SEC_PER_DAY as u128
            + h as u128 * SEC_PER_HOUR as u128
            + m as u128 * SEC_PER_MIN as u128
            + sec as u128;
        assert_eq!(back, s as u128);
        assert!(d <= 365);
        assert!(h < 24);
        assert!(m < 60);
        assert!(sec < 60);
    }
}
