use mlvd::filter::{split_clauses, Clause, Filter, FilterError};

#[test]
fn empty_text_matches_everything() {
    let f = Filter::parse("").unwrap();
    for s in ["", "de-fra-1", "M247", "!weird, text"] {
        assert!(f.is_match(s));
    }
}

#[test]
fn negative_clause_inverts_match() {
    let f = Filter::parse("!M247").unwrap();
    assert!(!f.is_match("M247"));
    assert!(f.is_match("OtherCo"));
    let g = Filter::parse("M247").unwrap();
    assert!(g.is_match("M247"));
    assert!(!g.is_match("OtherCo"));
}

#[test]
fn escaped_bang_matches_literal_bang() {
    let f = Filter::parse("\\!abc").unwrap();
    assert!(f.is_match("!abc"));
    assert!(f.is_match("x!abcy"));
    assert!(!f.is_match("abc"));
}

#[test]
fn clauses_are_anded() {
    let f = Filter::parse("de-,fra").unwrap();
    assert!(f.is_match("de-fra-1"));
    assert!(!f.is_match("de-ber-1"));
    assert!(!f.is_match("se-fra-1"));
}

#[test]
fn invalid_pattern_is_reported() {
    match Filter::parse("de-,(unclosed") {
        Err(FilterError::InvalidPattern(p)) => assert_eq!(p, "(unclosed"),
        Ok(_) => panic!("expected an error"),
    }
    match Filter::parse("!([a-") {
        Err(FilterError::InvalidPattern(p)) => assert_eq!(p, "([a-"),
        Ok(_) => panic!("expected an error"),
    }
}

#[test]
fn split_keeps_empty_pieces() {
    assert_eq!(split_clauses("a,,b"), vec!["a".to_string(), "".to_string(), "b".to_string()]);
    assert_eq!(split_clauses(""), vec!["".to_string()]);
    assert_eq!(split_clauses("de-"), vec!["de-".to_string()]);
    assert_eq!(split_clauses(",x,"), vec!["".to_string(), "x".to_string(), "".to_string()]);
}

#[test]
fn clause_tags() {
    assert_eq!(Clause::parse("!abc"), Clause::Negative("abc".to_string()));
    assert_eq!(Clause::parse("\\!abc"), Clause::Positive("!abc".to_string()));
    assert_eq!(Clause::parse("abc"), Clause::Positive("abc".to_string()));
    assert_eq!(Clause::parse("!"), Clause::Negative("".to_string()));
    assert_eq!(Clause::parse("\\"), Clause::Positive("\\".to_string()));
    assert_eq!(Clause::parse(""), Clause::Positive("".to_string()));
}
