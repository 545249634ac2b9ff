use x_desk::numbers::{parse_isize, push_decimal};

fn parse(s: &str) -> Option<isize> {
    let chars: Vec<char> = s.chars().collect();
    parse_isize(&chars)
}

#[test]
fn decimal_formatting() {
    let mut out = vec!['#'];
    push_decimal(&mut out, 0);
    push_decimal(&mut out, 1907);
    push_decimal(&mut out, u64::MAX);
    let text: String = out.into_iter().collect();
    assert_eq!(text, "#0190718446744073709551615");
}

#[test]
fn isize_parsing_matches_std() {
    for s in ["0", "-0", "+5", "-17", "007", "9223372036854775807", "-9223372036854775808", "", "+", "-", "1 ", " 1", "1_0", "--1", "9223372036854775808", "99999999999999999999999999"] {
        assert_eq!(parse(s), s.parse::<isize>().ok(), "input {s:?}");
    }
}
