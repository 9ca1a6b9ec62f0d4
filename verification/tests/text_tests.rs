use qwen_coder_web::chars::is_whitespace;
use qwen_coder_web::decimal::{decimal_string, parse_u64_chars};
use qwen_coder_web::text::{chars_of, split_lines, string_of, trim_chars};

fn trimmed(s: &str) -> String {
    string_of(&trim_chars(&chars_of(s)))
}

fn lines_of(s: &str) -> Vec<String> {
    split_lines(&chars_of(s)).iter().map(|l| string_of(l)).collect()
}

fn parsed(s: &str) -> Option<u64> {
    parse_u64_chars(&chars_of(s))
}

#[test]
fn trim_matches_std_trim() {
    for s in ["", "   ", "abc", "  abc  ", "\t a b \n", "\u{3000}x\u{a0}", " \r\n- item\r\n"] {
        assert_eq!(trimmed(s), s.trim());
    }
}

#[test]
fn lines_match_std_lines() {
    for s in ["", "\n", "a", "a\n", "a\nb", "a\r\nb\r\n", "a\rb\n", "\n\nx", "x\r", "one\n\ntwo\n"] {
        let expected: Vec<String> = s.lines().map(|l| l.to_string()).collect();
        assert_eq!(lines_of(s), expected, "input {:?}", s);
    }
}

#[test]
fn decimal_text_of_numbers() {
    assert_eq!(decimal_string(0), "0");
    assert_eq!(decimal_string(7), "7");
    assert_eq!(decimal_string(60), "60");
    assert_eq!(decimal_string(1024), "1024");
    assert_eq!(decimal_string(u64::MAX), u64::MAX.to_string());
}

#[test]
fn parse_matches_std_from_str() {
    for s in [
        "", "+", "-", "0", "60", "+7", "-1", "007", " 1", "1 ", "1a", "++5",
        "18446744073709551615", "18446744073709551616", "99999999999999999999999", "٣",
    ] {
        assert_eq!(parsed(s), s.parse::<u64>().ok(), "input {:?}", s);
    }
}

#[test]
fn decimal_reads_back() {
    for n in [0u64, 1, 9, 10, 60, 12345, u64::MAX - 1, u64::MAX] {
        assert_eq!(parsed(&decimal_string(n)), Some(n));
    }
}


#[test]
fn whitespace_matches_std() {
    for c in (0u32..=0x10FFFF).filter_map(char::from_u32) {
        assert_eq!(is_whitespace(c), c.is_whitespace(), "{:?}", c);
    }
}
