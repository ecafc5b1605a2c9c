use giant_file_exchange::number::{
    bounded_digits, chars_are_digits, decimal_text, hex_text, parse_i64, rounded_quotient,
    text_is_float,
};

#[test]
fn decimals_are_those_of_the_standard_library() {
    for n in [0, 1, 9, 10, 99, 100, 12345, u64::MAX] {
        assert_eq!(decimal_text(n), n.to_string());
    }
}

#[test]
fn hexadecimals_are_padded_with_zeros() {
    for n in [0, 1, 0xdead_beef, u64::MAX] {
        assert_eq!(hex_text(n, 16), format!("{n:016x}"));
    }
    assert_eq!(hex_text(0x1234, 2), "34");
    assert_eq!(hex_text(7, 0), "");
}

#[test]
fn integers_are_read_like_the_standard_library_does() {
    for value in [
        "",
        "0",
        "-0",
        "+5",
        "-7",
        "+",
        "-",
        "--1",
        "+-1",
        "007",
        "9223372036854775807",
        "9223372036854775808",
        "-9223372036854775808",
        "-9223372036854775809",
        "00000000000000000000000000001",
        "1 ",
        " 1",
        "1.0",
        "1e3",
        "0x10",
        "١",
        "12a",
        "99999999999999999999999999",
    ] {
        assert_eq!(parse_i64(value), value.parse::<i64>().ok(), "{value}");
    }
}

#[test]
fn floats_are_told_like_the_standard_library_does() {
    for value in [
        "", "0", ".", ".5", "5.", "-.5", "+5.", "1e5", "1E-5", "1e", "1e+", "e5", "1.5.5", "1e5.5",
        "inf", "-Infinity", "INF", "nan", "+NaN", "infin", "12a", " 1", "1 ", "0x10", "1_000", "+",
        "-", "1e400", "--1", "+-1", ".e1", "5.e1", "١", "1e٣", "infinityy",
    ] {
        assert_eq!(text_is_float(value), value.parse::<f64>().is_ok(), "{value}");
    }
}

#[test]
fn digits_are_counted_up_to_a_limit() {
    let chars: Vec<char> = "024".chars().collect();
    assert!(chars_are_digits(&chars));
    assert_eq!(bounded_digits(&chars, 24), Some(24));
    assert_eq!(bounded_digits(&chars, 23), None);
    let huge: Vec<char> = "99999999999999999999999".chars().collect();
    assert_eq!(bounded_digits(&huge, 24), None);
    assert!(!chars_are_digits(&['1', 'a']));
    assert!(chars_are_digits(&[]));
}

#[test]
fn halves_are_rounded_to_even() {
    assert_eq!(rounded_quotient(5, 2), 2);
    assert_eq!(rounded_quotient(7, 2), 4);
    assert_eq!(rounded_quotient(8, 3), 3);
    assert_eq!(rounded_quotient(7, 3), 2);
    assert_eq!(rounded_quotient(0, 9), 0);
}
