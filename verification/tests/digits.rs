use raid_monitor::digits::{parse_count, push_decimal};

fn written(n: u8) -> String {
    let mut out = String::new();
    push_decimal(&mut out, n);
    out
}

#[test]
fn parse_count_reads_single_digits() {
    assert_eq!(parse_count("0"), Some(0));
    assert_eq!(parse_count("2"), Some(2));
    assert_eq!(parse_count("9"), Some(9));
}

#[test]
fn parse_count_reads_several_digits() {
    assert_eq!(parse_count("10"), Some(10));
    assert_eq!(parse_count("128"), Some(128));
    assert_eq!(parse_count("255"), Some(255));
}

#[test]
fn parse_count_accepts_leading_zeros() {
    assert_eq!(parse_count("007"), Some(7));
    assert_eq!(parse_count("0000255"), Some(255));
}

#[test]
fn parse_count_accepts_a_plus_sign() {
    assert_eq!(parse_count("+5"), Some(5));
    assert_eq!(parse_count("+255"), Some(255));
}

#[test]
fn parse_count_rejects_what_is_over_a_byte() {
    assert_eq!(parse_count("256"), None);
    assert_eq!(parse_count("300"), None);
    assert_eq!(parse_count("99999999999999999999999999"), None);
    assert_eq!(parse_count("+256"), None);
}

#[test]
fn parse_count_rejects_the_empty_text() {
    assert_eq!(parse_count(""), None);
    assert_eq!(parse_count("+"), None);
}

#[test]
fn parse_count_rejects_what_is_no_digit() {
    assert_eq!(parse_count("-1"), None);
    assert_eq!(parse_count("1a"), None);
    assert_eq!(parse_count("a1"), None);
    assert_eq!(parse_count(" 1"), None);
    assert_eq!(parse_count("1 "), None);
    assert_eq!(parse_count("++1"), None);
    assert_eq!(parse_count("1+"), None);
    assert_eq!(parse_count("2561x"), None);
}

#[test]
fn parse_count_rejects_digits_of_other_scripts() {
    assert_eq!(parse_count("\u{0663}"), None);
    assert_eq!(parse_count("\u{ff11}"), None);
}

#[test]
fn parse_count_agrees_with_the_standard_parser() {
    let samples = [
        "", "+", "-", "0", "+0", "-0", "00", "1", "9", "10", "99", "100", "199", "200", "249",
        "250", "255", "256", "260", "999", "1000", "+12", "12+", "1 2", "0x1", "\u{0663}", "٣٣",
        "2️", "१२", "25५",
    ];
    for s in samples {
        assert_eq!(parse_count(s), s.parse::<u8>().ok(), "on {:?}", s);
    }
}

#[test]
fn push_decimal_writes_each_length() {
    assert_eq!(written(0), "0");
    assert_eq!(written(7), "7");
    assert_eq!(written(10), "10");
    assert_eq!(written(42), "42");
    assert_eq!(written(99), "99");
    assert_eq!(written(100), "100");
    assert_eq!(written(101), "101");
    assert_eq!(written(255), "255");
}

#[test]
fn push_decimal_appends_to_what_is_there() {
    let mut out = String::from("md0 (");
    push_decimal(&mut out, 1);
    out.push('/');
    push_decimal(&mut out, 12);
    assert_eq!(out, "md0 (1/12");
}

#[test]
fn every_count_is_written_as_std_writes_it_and_reads_back() {
    for n in 0..=255u8 {
        let text = written(n);
        assert_eq!(text, format!("{}", n));
        assert_eq!(parse_count(&text), Some(n));
    }
}
