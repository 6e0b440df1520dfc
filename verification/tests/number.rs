use shamebot::number::{parse_total, render_total};

#[test]
fn plain_digits_are_read() {
    assert_eq!(parse_total("200"), Some(200));
    assert_eq!(parse_total("0"), Some(0));
    assert_eq!(parse_total("7"), Some(7));
}

#[test]
fn signs_are_read() {
    assert_eq!(parse_total("-40"), Some(-40));
    assert_eq!(parse_total("+40"), Some(40));
    assert_eq!(parse_total("-0"), Some(0));
}

#[test]
fn leading_zeros_are_read() {
    assert_eq!(parse_total("007"), Some(7));
    assert_eq!(parse_total("-000000000000000000012"), Some(-12));
}

#[test]
fn the_ends_of_the_range_are_read() {
    assert_eq!(parse_total("2147483647"), Some(i32::MAX));
    assert_eq!(parse_total("-2147483648"), Some(i32::MIN));
}

#[test]
fn numbers_beyond_the_range_are_refused() {
    assert_eq!(parse_total("2147483648"), None);
    assert_eq!(parse_total("-2147483649"), None);
    assert_eq!(parse_total("99999999999999999999999999"), None);
    assert_eq!(parse_total("-99999999999999999999999999"), None);
}

#[test]
fn text_that_is_no_numeral_is_refused() {
    for text in ["", "+", "-", "abc", "12a", "a12", " 12", "12 ", "1 2", "--1", "+-1", "1-", "1.5", "1_000", "0x10", "١٢"] {
        assert_eq!(parse_total(text), None, "text {:?}", text);
    }
}

#[test]
fn reading_agrees_with_the_standard_parser() {
    for text in ["0", "-0", "+0", "42", "-42", "+42", "0042", "2147483647", "2147483648", "-2147483648", "-2147483649", "", "+", "-", "4 2", "４２"] {
        assert_eq!(parse_total(text), text.parse::<i32>().ok(), "text {:?}", text);
    }
}

#[test]
fn totals_are_written_in_decimal() {
    assert_eq!(render_total(0), "0");
    assert_eq!(render_total(7), "7");
    assert_eq!(render_total(10), "10");
    assert_eq!(render_total(290), "290");
    assert_eq!(render_total(-5), "-5");
    assert_eq!(render_total(-1200), "-1200");
    assert_eq!(render_total(i32::MAX), "2147483647");
    assert_eq!(render_total(i32::MIN), "-2147483648");
}

#[test]
fn writing_agrees_with_the_standard_formatter() {
    for v in [0, 1, -1, 9, 10, 11, 99, 100, 101, -999, 1000, 65535, -65536, i32::MAX, i32::MIN] {
        assert_eq!(render_total(v), format!("{}", v));
    }
}

#[test]
fn a_total_written_out_reads_back() {
    for v in [0, 1, -1, 300, -300, 123456789, -987654321, i32::MAX, i32::MIN] {
        assert_eq!(parse_total(&render_total(v)), Some(v));
    }
}
