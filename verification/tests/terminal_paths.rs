//! Terminal path parsing, formatting and index behavior.

use bp_derive::{
    DerivationParseError, NormalIndex, Terminal, TerminalParseError, HARDENED_INDEX_BOUNDARY,
};

fn ni(v: u32) -> NormalIndex {
    NormalIndex::new(v).unwrap()
}

#[test]
fn parse_two_component_path() {
    let t = Terminal::parse("/0/5").unwrap();
    assert_eq!(t.keychain.value(), 0);
    assert_eq!(t.index.value(), 5);
}

#[test]
fn parse_max_unhardened_component() {
    let t = Terminal::parse("/2147483647/1").unwrap();
    assert_eq!(t.keychain.value(), HARDENED_INDEX_BOUNDARY - 1);
    assert_eq!(t.index.value(), 1);
}

#[test]
fn round_trip_canonical_strings() {
    for s in ["/0/0", "/0/5", "/1/2", "/2147483647/2147483646", "/15/0"] {
        let t = Terminal::parse(s).unwrap();
        assert_eq!(t.display(), s);
    }
}

#[test]
fn round_trip_from_terminal() {
    let t = Terminal::new(ni(7), ni(1023));
    let s = t.display();
    assert_eq!(s, "/7/1023");
    let back = Terminal::parse(&s).unwrap();
    assert_eq!(back, t);
}

#[test]
fn leading_zeros_parse_but_format_canonically() {
    let t = Terminal::parse("/01/002").unwrap();
    assert_eq!(t.keychain.value(), 1);
    assert_eq!(t.index.value(), 2);
    assert_eq!(t.display(), "/1/2");
}

#[test]
fn wrong_arity_zero_components() {
    match Terminal::parse("") {
        Err(TerminalParseError::InvalidComponents(s)) => assert_eq!(s, ""),
        other => panic!("expected wrong-arity error, got {:?}", other),
    }
}

#[test]
fn wrong_arity_one_component() {
    match Terminal::parse("/5") {
        Err(TerminalParseError::InvalidComponents(s)) => assert_eq!(s, "/5"),
        other => panic!("expected wrong-arity error, got {:?}", other),
    }
}

#[test]
fn wrong_arity_three_components() {
    match Terminal::parse("/1/2/3") {
        Err(TerminalParseError::InvalidComponents(s)) => assert_eq!(s, "/1/2/3"),
        other => panic!("expected wrong-arity error, got {:?}", other),
    }
}

#[test]
fn wrong_arity_four_components() {
    match Terminal::parse("/1/2/3/4") {
        Err(TerminalParseError::InvalidComponents(s)) => assert_eq!(s, "/1/2/3/4"),
        other => panic!("expected wrong-arity error, got {:?}", other),
    }
}

#[test]
fn syntax_error_non_numeric() {
    match Terminal::parse("/a/1") {
        Err(TerminalParseError::DerivationPath(DerivationParseError { invalid })) => {
            assert_eq!(invalid, "/a/1")
        }
        other => panic!("expected path-syntax error, got {:?}", other),
    }
}

#[test]
fn syntax_error_hardened_component() {
    assert!(matches!(
        Terminal::parse("/1'/2"),
        Err(TerminalParseError::DerivationPath(_))
    ));
    assert!(matches!(
        Terminal::parse("/1h/2"),
        Err(TerminalParseError::DerivationPath(_))
    ));
}

#[test]
fn syntax_error_value_in_hardened_range() {
    assert!(matches!(
        Terminal::parse("/2147483648/0"),
        Err(TerminalParseError::DerivationPath(_))
    ));
    assert!(matches!(
        Terminal::parse("/0/99999999999999999999"),
        Err(TerminalParseError::DerivationPath(_))
    ));
}

#[test]
fn syntax_error_empty_component() {
    assert!(matches!(
        Terminal::parse("//1"),
        Err(TerminalParseError::DerivationPath(_))
    ));
    assert!(matches!(
        Terminal::parse("/1/"),
        Err(TerminalParseError::DerivationPath(_))
    ));
}

#[test]
fn syntax_error_missing_leading_slash() {
    assert!(matches!(
        Terminal::parse("1/2"),
        Err(TerminalParseError::DerivationPath(_))
    ));
}

#[test]
fn from_str_matches_parse() {
    let t: Terminal = "/3/4".parse().unwrap();
    assert_eq!(t, Terminal::new(ni(3), ni(4)));
    assert!("/x/y".parse::<Terminal>().is_err());
}

#[test]
fn terminal_ordering_is_lexicographic() {
    let a = Terminal::new(ni(0), ni(9));
    let b = Terminal::new(ni(1), ni(0));
    let c = Terminal::new(ni(1), ni(5));
    assert!(a < b);
    assert!(b < c);
    assert!(a < c);
    assert!(!(c < a));
    assert!(a == Terminal::new(ni(0), ni(9)));
}

#[test]
fn normal_index_bounds() {
    assert!(NormalIndex::new(HARDENED_INDEX_BOUNDARY).is_none());
    assert!(NormalIndex::new(u32::MAX).is_none());
    let max = NormalIndex::new(HARDENED_INDEX_BOUNDARY - 1).unwrap();
    assert_eq!(max.value(), HARDENED_INDEX_BOUNDARY - 1);
    assert_eq!(max, NormalIndex::max());
    assert_eq!(NormalIndex::zero().value(), 0);
}

#[test]
fn normal_index_checked_inc() {
    let five = ni(5);
    assert_eq!(five.checked_inc().unwrap().value(), 6);
    assert!(NormalIndex::max().checked_inc().is_none());
    let almost = ni(HARDENED_INDEX_BOUNDARY - 2);
    assert_eq!(almost.checked_inc().unwrap(), NormalIndex::max());
}
