use hrm::render::{pad_to, render_label_line, render_row, render_separator, render_units_line, u64_to_dec};

#[test]
fn decimal_of_zero() {
    assert_eq!(u64_to_dec(0).as_str(), "0");
}

#[test]
fn decimal_of_ten() {
    assert_eq!(u64_to_dec(10).as_str(), "10");
}

#[test]
fn decimal_of_large_number() {
    assert_eq!(u64_to_dec(1234567890).as_str(), "1234567890");
}

#[test]
fn pad_fills_short_text_with_spaces() {
    assert_eq!(pad_to("ab", 5).as_str(), "ab   ");
}

#[test]
fn pad_never_truncates_long_text() {
    assert_eq!(pad_to("abcdef", 3).as_str(), "abcdef");
}

#[test]
fn row_matches_fixed_width_format() {
    let expected = format!(
        "{: <50}{: <3}{: <4}{: <3}{: <3}{: <3}",
        "x", 0, 1, 1, 0, 0
    );
    assert_eq!(render_row("x", 90000).as_str(), expected.as_str());
}

#[test]
fn header_lines_match_fixed_width_format() {
    let expected_label = format!("{: <50}{}", "FILE: ", "AGE:");
    assert_eq!(render_label_line("FILE: ").as_str(), expected_label.as_str());
    let expected_units = format!(
        "{: <50}{: <3}{: <4}{: <3}{: <3}{: <3}",
        "./foo", "Y", "D", "H", "M", "S"
    );
    assert_eq!(render_units_line("./foo").as_str(), expected_units.as_str());
}

#[test]
fn separator_is_a_line_of_dashes() {
    let sep = render_separator();
    assert_eq!(sep.len(), 65);
    assert!(sep.chars().all(|c| c == '-'));
}
