use lib::parse;
use lib::parser::expression::{Expression, SetOfRules};
use lib::parser::{and, dot, lit, or, symref};

fn rules_of(v: Vec<(&str, Expression)>) -> SetOfRules {
    SetOfRules::new(v.into_iter().map(|(n, e)| (n.to_string(), e)).collect())
}

#[test]
fn tests_parse_literal() {
    let rules = rules_of(vec![("main", lit("aaaa"))]);
    let parsed = parse("aaaa", &rules);
    assert!(parsed.is_ok());

    let rules = rules_of(vec![("main", lit("aaaa"))]);
    let parsed = parse("aaa", &rules);
    assert!(parsed.is_err());

    let rules = rules_of(vec![("main", lit("aaaa"))]);
    let parsed = parse("aaaaa", &rules);
    assert!(parsed.is_err());

    let rules = rules_of(vec![("main", lit("aaaa"))]);
    let parsed = parse("bbbb", &rules);
    assert!(parsed.is_err());
}


#[test]
fn tests_parse_dot() {
    let rules = rules_of(vec![("main", dot())]);
    let parsed = parse("a", &rules);
    assert!(parsed.is_ok());

    let rules = rules_of(vec![("main", dot())]);
    let parsed = parse("aa", &rules);
    assert!(parsed.is_err());

    let rules = rules_of(vec![("main", dot())]);
    let parsed = parse("", &rules);
    assert!(parsed.is_err());
}


#[test]
fn tests_parse_or() {
    let rules = rules_of(vec![("main", or(vec![lit("aaaa"), lit("bbbb")]))]);

    let parsed = parse("aaaa", &rules);
    assert!(parsed.is_ok());


    let parsed = parse("cccc", &rules);
    assert!(parsed.is_err());
}


#[test]
fn tests_parse_and() {
    let rules = rules_of(vec![("main", and(vec![lit("aaaa"), lit("bbbb")]))]);

    let parsed = parse("aaaabbbb", &rules);
    assert!(parsed.is_ok());


    let parsed = parse("aaaa", &rules);
    assert!(parsed.is_err());
    let parsed = parse("bbbb", &rules);
    assert!(parsed.is_err());
    let parsed = parse("cccc", &rules);
    assert!(parsed.is_err());
}


#[test]
fn tests_parse_or_and() {
    let rules = rules_of(vec![("main", or(vec![
                and(vec![lit("aaaa"), lit("cccc")]),
                and(vec![lit("aaaa"), lit("bbbb")])
            ]))]);

    let parsed = parse("aaaabbbb", &rules);
    assert!(parsed.is_ok());
    let parsed = parse("aaaacccc", &rules);
    assert!(parsed.is_ok());


    let parsed = parse("aaaa", &rules);
    assert!(parsed.is_err());
    let parsed = parse("bbbb", &rules);
    assert!(parsed.is_err());
    let parsed = parse("cccc", &rules);
    assert!(parsed.is_err());
}


#[test]
fn tests_parse_symbol() {
    let rules = rules_of(vec![("main", symref("sa")), ("sa", lit("aaaa"))]);
    let parsed = parse("aaaa", &rules);
    assert!(parsed.is_ok());

    let rules = rules_of(vec![("main", lit("aaaa"))]);
    let parsed = parse("aaa", &rules);
    assert!(parsed.is_err());

    let rules = rules_of(vec![("main", lit("aaaa"))]);
    let parsed = parse("aaaaa", &rules);
    assert!(parsed.is_err());

    let rules = rules_of(vec![("main", lit("aaaa"))]);
    let parsed = parse("bbbb", &rules);
    assert!(parsed.is_err());
}
