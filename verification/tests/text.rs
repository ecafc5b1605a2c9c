use giant_file_exchange::text::{
    char_is_ascii_white, char_is_white, chars_end_ignoring_case, chars_of,
    chars_start_ignoring_case, join_texts, lines_of, same_text, split_text, string_of, take_chars,
    text_has_line_break, text_is_blank, text_same_ignoring_case, to_single_line, trim_end_char_of,
    trimmed,
};

const SAMPLES: [&str; 12] = [
    "",
    " ",
    "a",
    " a ",
    "\u{3000}令牌\u{a0}",
    "a b\t",
    "\r\n",
    "x\r\ny\n",
    "\n\nlast",
    "one\rtwo\r",
    "a+b++c+",
    "\u{200b} not white",
];

#[test]
fn white_space_is_that_of_unicode() {
    for n in 0..=0x10ffff_u32 {
        if let Some(c) = char::from_u32(n) {
            assert_eq!(char_is_white(c), c.is_whitespace());
            assert_eq!(char_is_ascii_white(c), c.is_ascii_whitespace());
        }
    }
}

#[test]
fn texts_are_trimmed_and_cut_like_the_standard_library_does() {
    for sample in SAMPLES {
        assert_eq!(trimmed(sample), sample.trim());
        assert_eq!(text_is_blank(sample), sample.trim().is_empty());
        let lines: Vec<String> = sample.lines().map(|line| line.to_owned()).collect();
        assert_eq!(lines_of(sample), lines);
        let pieces: Vec<String> = sample.split('+').map(|piece| piece.to_owned()).collect();
        assert_eq!(split_text(sample, '+'), pieces);
        assert_eq!(to_single_line(sample), sample.replace(['\r', '\n'], " "));
        assert_eq!(
            text_has_line_break(sample),
            sample.contains(['\r', '\n'])
        );
        let start: String = sample.chars().take(3).collect();
        assert_eq!(take_chars(sample, 3), start);
        assert_eq!(string_of(&chars_of(sample)), sample);
        for other in SAMPLES {
            assert_eq!(same_text(sample, other), sample == other);
        }
    }
    assert_eq!(join_texts(&["a".to_owned(), "b".to_owned()], ", "), "a, b");
    assert_eq!(join_texts(&[], ", "), "");
}

#[test]
fn case_is_that_of_ascii_letters() {
    for (a, b) in [("Ctrl", "cTRL"), ("é", "É"), ("ß", "SS"), ("[", "{"), ("a", "ab"), ("", "")] {
        assert_eq!(text_same_ignoring_case(a, b), a.eq_ignore_ascii_case(b));
    }
    let chars = chars_of("Bearer x/V1");
    assert!(chars_start_ignoring_case(&chars, "bearer"));
    assert!(!chars_start_ignoring_case(&chars, "bearer y"));
    assert!(chars_end_ignoring_case(&chars, "/v1"));
    assert!(!chars_end_ignoring_case(&chars, "a long text that does not fit"));
    assert_eq!(trim_end_char_of(&chars_of("a/b//"), '/'), ['a', '/', 'b']);
    assert!(trim_end_char_of(&chars_of("//"), '/').is_empty());
}
