use attendance::parse::{parse, parse_line, parse_u16, ParseError};

#[test]
fn normal_format_concrete() {
    let t = parse("John Doe 2025").unwrap();
    assert_eq!(t.first_name, "john");
    assert_eq!(t.last_name, "doe");
    assert_eq!(t.grad_year, 2025);
    assert!(!t.badge);
}

#[test]
fn badge_format_concrete() {
    let t = parse("john$doe$2025%").unwrap();
    assert_eq!(t.first_name, "john");
    assert_eq!(t.last_name, "doe");
    assert_eq!(t.grad_year, 2025);
    assert!(t.badge);
}

#[test]
fn badge_format_case_folds() {
    let t = parse("JOHN$DOE$2025%").unwrap();
    assert_eq!(t.first_name, "john");
    assert_eq!(t.last_name, "doe");
    assert!(t.badge);
}

#[test]
fn normal_format_case_folds() {
    let t = parse("Alice SMITH 1999").unwrap();
    assert_eq!(t.first_name, "alice");
    assert_eq!(t.last_name, "smith");
    assert_eq!(t.grad_year, 1999);
    assert!(!t.badge);
}

#[test]
fn two_tokens_rejected() {
    assert!(matches!(parse("John Doe"), Err(ParseError::DeserializeError)));
}

#[test]
fn four_tokens_rejected() {
    assert!(matches!(parse("a b c d"), Err(ParseError::DeserializeError)));
}

#[test]
fn non_numeric_year_rejected() {
    assert!(matches!(parse("John Doe abc"), Err(ParseError::DeserializeError)));
}

#[test]
fn zero_year_rejected() {
    assert!(matches!(parse("john doe 0"), Err(ParseError::DeserializeError)));
}

#[test]
fn negative_year_rejected() {
    assert!(matches!(parse("john doe -5"), Err(ParseError::DeserializeError)));
}

#[test]
fn empty_line_rejected() {
    assert!(matches!(parse(""), Err(ParseError::DeserializeError)));
}

#[test]
fn whitespace_only_rejected() {
    assert!(matches!(parse("   \t  "), Err(ParseError::DeserializeError)));
}

#[test]
fn badge_non_numeric_year_rejected() {
    assert!(matches!(parse("a$b$xx%"), Err(ParseError::DeserializeError)));
}

#[test]
fn badge_zero_year_rejected() {
    assert!(matches!(parse("a$b$0%"), Err(ParseError::DeserializeError)));
}

#[test]
fn badge_two_fields_rejected() {
    assert!(matches!(parse("a$2025%"), Err(ParseError::DeserializeError)));
}

#[test]
fn badge_four_fields_rejected() {
    assert!(matches!(parse("a$b$c$2025%"), Err(ParseError::DeserializeError)));
}

#[test]
fn badge_empty_first_name_rejected() {
    assert!(matches!(parse("$b$2025%"), Err(ParseError::DeserializeError)));
}

#[test]
fn badge_empty_last_name_rejected() {
    assert!(matches!(parse("a$$2025%"), Err(ParseError::DeserializeError)));
}

#[test]
fn badge_bare_sentinel_rejected() {
    assert!(matches!(parse("a$b$%"), Err(ParseError::DeserializeError)));
}

#[test]
fn year_overflow_rejected() {
    assert!(matches!(parse("a b 99999"), Err(ParseError::DeserializeError)));
}

#[test]
fn plus_year_accepted() {
    let t = parse("a b +2025").unwrap();
    assert_eq!(t.grad_year, 2025);
}

#[test]
fn leading_zero_year_accepted() {
    let t = parse("a b 007").unwrap();
    assert_eq!(t.grad_year, 7);
}

#[test]
fn extra_whitespace_between_tokens() {
    let t = parse("  John \t Doe   2025 ").unwrap();
    assert_eq!(t.first_name, "john");
    assert_eq!(t.last_name, "doe");
    assert_eq!(t.grad_year, 2025);
}

#[test]
fn parse_line_takes_folded_input() {
    let t = parse_line("john doe 2025").unwrap();
    assert_eq!(t.first_name, "john");
    assert!(!t.badge);
}

#[test]
fn parse_u16_matches_std() {
    for s in ["0", "1", "2025", "65535", "65536", "99999", "+12", "", "+", "1a", "a1", "007"] {
        let v: Vec<char> = s.chars().collect();
        assert_eq!(parse_u16(&v), s.parse::<u16>().ok(), "input {:?}", s);
    }
}
