use am4::format::{csv_escape, format_hms, format_thousands};

#[test]
fn thousands_groups_integer_part() {
    assert_eq!(format_thousands("1234567"), "1,234,567");
    assert_eq!(format_thousands("123"), "123");
    assert_eq!(format_thousands("1234"), "1,234");
    assert_eq!(format_thousands("0"), "0");
    assert_eq!(format_thousands(""), "");
}

#[test]
fn thousands_drops_decimals() {
    assert_eq!(format_thousands("1234.5678"), "1,234");
    assert_eq!(format_thousands(&12345.5f32.to_string()), "12,345");
    assert_eq!(format_thousands(".5"), "");
}

#[test]
fn thousands_of_negative_numbers() {
    assert_eq!(format_thousands("-1234"), "-1,234");
    assert_eq!(format_thousands("-123"), "-123");
    assert_eq!(format_thousands("-123456"), "-123,456");
    assert_eq!(format_thousands("-"), "-");
    assert_eq!(format_thousands("-1234567.25"), "-1,234,567");
}

#[test]
fn hms_pads_to_two_digits() {
    assert_eq!(format_hms(0), "00:00:00");
    assert_eq!(format_hms(3661), "01:01:01");
    assert_eq!(format_hms(45296), "12:34:56");
    assert_eq!(format_hms(100 * 3600 + 59), "100:00:59");
}

#[test]
fn csv_fields_are_quoted_when_needed() {
    assert_eq!(csv_escape("Paris"), "Paris");
    assert_eq!(csv_escape("Paris, France"), "\"Paris, France\"");
    assert_eq!(csv_escape("say \"hi\""), "\"say \"\"hi\"\"\"");
    assert_eq!(csv_escape("a\nb"), "\"a\nb\"");
    assert_eq!(csv_escape(""), "");
}
