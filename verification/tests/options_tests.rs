use abelscreensaver::options::{
    Options, ParseMillisError, expand_tilde, normalize_paths, parse_millis,
};

#[test]
fn parses_plain_number() {
    assert_eq!(parse_millis("4000"), Ok(4000));
    assert_eq!(parse_millis("0"), Ok(0));
}

#[test]
fn parses_leading_plus() {
    assert_eq!(parse_millis("+12"), Ok(12));
}

#[test]
fn parses_largest_value() {
    assert_eq!(parse_millis("18446744073709551615"), Ok(u64::MAX));
}

#[test]
fn empty_input_reports_empty() {
    assert_eq!(parse_millis(""), Err(ParseMillisError::Empty));
}

#[test]
fn sign_alone_is_invalid() {
    assert_eq!(parse_millis("+"), Err(ParseMillisError::InvalidDigit));
}

#[test]
fn stray_character_is_invalid() {
    assert_eq!(parse_millis("12x"), Err(ParseMillisError::InvalidDigit));
    assert_eq!(parse_millis("-5"), Err(ParseMillisError::InvalidDigit));
    assert_eq!(parse_millis("1 2"), Err(ParseMillisError::InvalidDigit));
}

#[test]
fn value_above_u64_overflows() {
    assert_eq!(parse_millis("18446744073709551616"), Err(ParseMillisError::Overflow));
    assert_eq!(parse_millis("99999999999999999999999"), Err(ParseMillisError::Overflow));
}

#[test]
fn stock_options_match_defaults() {
    let o = Options::with_paths(vec!["/pics".to_string()]);
    assert!(o.random);
    assert!(!o.hidden);
    assert!(o.video);
    assert!(!o.mute);
    assert_eq!(o.period_millis, 4000);
    assert_eq!(o.paths, vec!["/pics".to_string()]);
}

#[test]
fn tilde_prefix_resolves_against_home() {
    assert_eq!(expand_tilde(&"~/pics".to_string(), "/home/u"), "/home/u/pics");
    assert_eq!(expand_tilde(&"~/".to_string(), "/home/u"), "/home/u/");
}

#[test]
fn other_paths_stay_untouched() {
    assert_eq!(expand_tilde(&"/absolute".to_string(), "/home/u"), "/absolute");
    assert_eq!(expand_tilde(&"~".to_string(), "/home/u"), "~");
    assert_eq!(expand_tilde(&"rel/~dir".to_string(), "/home/u"), "rel/~dir");
}

#[test]
fn normalization_expands_every_root() {
    let o = Options::with_paths(vec!["~/a".to_string(), "/b".to_string()]);
    let n = normalize_paths(o, Some("/home/u".to_string()));
    assert_eq!(n.paths, vec!["/home/u/a".to_string(), "/b".to_string()]);
    assert!(n.random);
    assert_eq!(n.period_millis, 4000);
}

#[test]
fn normalization_without_home_keeps_roots() {
    let o = Options::with_paths(vec!["~/a".to_string()]);
    let n = normalize_paths(o, None);
    assert_eq!(n.paths, vec!["~/a".to_string()]);
}
