use lib::parse;
use lib::parser::expression::{Expression, SetOfRules};
use lib::parser::{and, dot, lit, match_ch, not, or, repeat, symref};

fn rules_of(v: Vec<(&str, Expression)>) -> SetOfRules {
    SetOfRules::new(v.into_iter().map(|(n, e)| (n.to_string(), e)).collect())
}

#[test]
fn parser_parse_literal() {
    let rules = rules_of(vec![("main", lit("aaaa"))]);
    let parsed = parse("aaaa", &rules);
    assert!(parsed.is_ok());

    let rules = rules_of(vec![("main", lit("aaaa"))]);
    let parsed = parse("aaa", &rules);
    assert!(parsed.is_err());

    let rules = rules_of(vec![("main", lit("aaaa"))]);
    let parsed = parse("aaaaa", &rules);
    assert!(parsed.is_err());

    let rules = rules_of(vec![("main", lit("aaaa"))]);
    let parsed = parse("bbbb", &rules);
    assert!(parsed.is_err());
}


#[test]
fn parser_parse_dot() {
    let rules = rules_of(vec![("main", dot())]);
    let parsed = parse("a", &rules);
    assert!(parsed.is_ok());

    let rules = rules_of(vec![("main", dot())]);
    let parsed = parse("aa", &rules);
    assert!(parsed.is_err());

    let rules = rules_of(vec![("main", dot())]);
    let parsed = parse("", &rules);
    assert!(parsed.is_err());
}


#[test]
fn parser_parse_or() {
    let rules = rules_of(vec![("main", or(vec![lit("aaaa"), lit("bbbb")]))]);

    let parsed = parse("aaaa", &rules);
    assert!(parsed.is_ok());

    let parsed = parse("bbbb", &rules);
    assert!(parsed.is_ok());


    let parsed = parse("cccc", &rules);
    assert!(parsed.is_err());
}


#[test]
fn parser_parse_and() {
    let rules = rules_of(vec![("main", and(vec![lit("aaaa"), lit("bbbb")]))]);

    let parsed = parse("aaaabbbb", &rules);
    assert!(parsed.is_ok());


    let parsed = parse("aaaabbb", &rules);
    assert!(parsed.is_err());

    let parsed = parse("aaaacbbb", &rules);
    assert!(parsed.is_err());

    let parsed = parse("aaaa", &rules);
    assert!(parsed.is_err());
    let parsed = parse("bbbb", &rules);
    assert!(parsed.is_err());
    let parsed = parse("cccc", &rules);
    assert!(parsed.is_err());
}

#[test]
fn parse_and_and() {
    let rules = rules_of(vec![("main", and(vec![
                        and(vec![lit("aaaa"), lit("bbbb")]),
                        lit("cccc")
                    ]))]);

    let parsed = parse("aaaabbbbcccc", &rules);
    assert!(parsed.is_ok());

    let parsed = parse("cccc", &rules);
    assert!(parsed.is_err());

    let parsed = parse("aaaacccc", &rules);
    assert!(parsed.is_err());


    let parsed = parse("aaaabbb", &rules);
    assert!(parsed.is_err());

    let parsed = parse("aaaacbbb", &rules);
    assert!(parsed.is_err());

    let parsed = parse("aaaa", &rules);
    assert!(parsed.is_err());
    let parsed = parse("dddd", &rules);
    assert!(parsed.is_err());
}

#[test]
fn parse_and_symbols() {
    let rules = rules_of(vec![("main", and(vec![symref("a"), lit("bbbb")])), ("a", lit("aaaa"))]);

    let parsed = parse("aaaabbbb", &rules);
    assert!(parsed.is_ok());


    let parsed = parse("aaaa", &rules);
    assert!(parsed.is_err());
    let parsed = parse("bbbb", &rules);
    assert!(parsed.is_err());
    let parsed = parse("cccc", &rules);
    assert!(parsed.is_err());
}


#[test]
fn parser_parse_or_and() {
    let rules = rules_of(vec![("main", or(vec![
                and(vec![lit("aaaa"), lit("cccc")]),
                and(vec![lit("aaaa"), lit("bbbb")])
            ]))]);

    let parsed = parse("aaaabbbb", &rules);
    assert!(parsed.is_ok());
    let parsed = parse("aaaacccc", &rules);
    assert!(parsed.is_ok());


    let parsed = parse("aaaa", &rules);
    assert!(parsed.is_err());
    let parsed = parse("bbbb", &rules);
    assert!(parsed.is_err());
    let parsed = parse("cccc", &rules);
    assert!(parsed.is_err());
}


#[test]
fn parser_parse_symbol() {
    let rules = rules_of(vec![("main", symref("sa")), ("sa", lit("aaaa"))]);
    let parsed = parse("aaaa", &rules);
    assert!(parsed.is_ok());

    let rules = rules_of(vec![("main", symref("inexistent")), ("sa", lit("aaaa"))]);
    let parsed = parse("aaaa", &rules);
    assert!(parsed.is_err());
}


#[test]
fn parser_parse_negation() {
    let rules = rules_of(vec![("main", and(vec![
            not(and(vec![lit("aaaa"), lit("bbbb")])),
            lit("aaaa"),
        ]))]);

    let parsed = parse("aaaabbbb", &rules);
    assert!(parsed.is_err());

    let parsed = parse("aaaa", &rules);
    assert!(parsed.is_ok());
}

#[test]
fn parse_negation_dot_simulate_klein_start() {
    let rules = rules_of(vec![("main", or(vec![
            and(vec![
                    not(lit("~")),
                    dot(),
                    symref("main")
            ]),
            lit("~"),
        ]))]);

    let parsed = parse("123456789~", &rules);
    assert!(parsed.is_ok());

    let parsed = parse("123456789~abcd", &rules);
    assert!(parsed.is_err());

    let parsed = parse("~123456789~abcd", &rules);
    assert!(parsed.is_err());

    let parsed = parse("123456789abcd", &rules);
    assert!(parsed.is_err());
}

#[test]
fn parse_repeating() {
    let rules = rules_of(vec![("main", repeat(lit("a"), 1, Some(5)))]);

    let parsed = parse("aaaaa", &rules);
    assert!(parsed.is_ok());

    let parsed = parse("a", &rules);
    assert!(parsed.is_ok());

    let parsed = parse("aaa", &rules);
    assert!(parsed.is_ok());

    let parsed = parse("", &rules);
    assert!(parsed.is_err());

    let parsed = parse("aaaaaa", &rules);
    assert!(parsed.is_err());

    let parsed = parse("aaaaaaa", &rules);
    assert!(parsed.is_err());
}

#[test]
fn parse_klein() {
    let rules = rules_of(vec![("main", repeat(lit("a"), 0, None))]);

    let parsed = parse("aaaaa", &rules);
    assert!(parsed.is_ok());

    let parsed = parse("a", &rules);
    assert!(parsed.is_ok());

    let parsed = parse("aaa", &rules);
    assert!(parsed.is_ok());

    let parsed = parse("", &rules);
    assert!(parsed.is_ok());

    let parsed = parse("aaaaaa", &rules);
    assert!(parsed.is_ok());
}


#[test]
fn parse_match_ch() {
    let rules = rules_of(vec![("main", repeat(
            match_ch("abc", vec![('r', 't'), ('5', '8')]),
            1, None
        ))]);

    let parsed = parse("aaaaa", &rules);
    assert!(parsed.is_ok());

    let parsed = parse("a", &rules);
    assert!(parsed.is_ok());

    let parsed = parse("bbbb", &rules);
    assert!(parsed.is_ok());

    let parsed = parse("ccccc", &rules);
    assert!(parsed.is_ok());

    let parsed = parse("r", &rules);
    assert!(parsed.is_ok());

    let parsed = parse("t", &rules);
    assert!(parsed.is_ok());

    let parsed = parse("5", &rules);
    assert!(parsed.is_ok());
    let parsed = parse("7", &rules);
    assert!(parsed.is_ok());
    let parsed = parse("5678", &rules);
    assert!(parsed.is_ok());


    let parsed = parse("dddd", &rules);
    assert!(parsed.is_err());

    let parsed = parse("e", &rules);
    assert!(parsed.is_err());
    let parsed = parse("ff", &rules);
    assert!(parsed.is_err());

    let parsed = parse("af", &rules);
    assert!(parsed.is_err());

    let parsed = parse("fa", &rules);
    assert!(parsed.is_err());

    let parsed = parse("4", &rules);
    assert!(parsed.is_err());

    let parsed = parse("559", &rules);
    assert!(parsed.is_err());
}


#[test]
fn parse_match_ch_empty_vec() {
    let rules = rules_of(vec![("main", repeat(
            match_ch("abc", vec![]),
            1, None
        ))]);

    let parsed = parse("aaaaa", &rules);
    assert!(parsed.is_ok());

    let parsed = parse("a", &rules);
    assert!(parsed.is_ok());

    let parsed = parse("bbbb", &rules);
    assert!(parsed.is_ok());

    let parsed = parse("ccccc", &rules);
    assert!(parsed.is_ok());

    let parsed = parse("r", &rules);
    assert!(parsed.is_err());

    let parsed = parse("t", &rules);
    assert!(parsed.is_err());

    let parsed = parse("5", &rules);
    assert!(parsed.is_err());
    let parsed = parse("7", &rules);
    assert!(parsed.is_err());
    let parsed = parse("5678", &rules);
    assert!(parsed.is_err());


    let parsed = parse("dddd", &rules);
    assert!(parsed.is_err());

    let parsed = parse("e", &rules);
    assert!(parsed.is_err());
    let parsed = parse("ff", &rules);
    assert!(parsed.is_err());

    let parsed = parse("af", &rules);
    assert!(parsed.is_err());

    let parsed = parse("fa", &rules);
    assert!(parsed.is_err());

    let parsed = parse("4", &rules);
    assert!(parsed.is_err());

    let parsed = parse("559", &rules);
    assert!(parsed.is_err());
}


#[test]
fn parse_match_ch_empty_chars() {
    let rules = rules_of(vec![("main", repeat(
            match_ch("", vec![('r', 't'), ('5', '8')]),
            1, None
        ))]);

    let parsed = parse("aaaaa", &rules);
    assert!(parsed.is_err());

    let parsed = parse("a", &rules);
    assert!(parsed.is_err());

    let parsed = parse("bbbb", &rules);
    assert!(parsed.is_err());

    let parsed = parse("ccccc", &rules);
    assert!(parsed.is_err());

    let parsed = parse("r", &rules);
    assert!(parsed.is_ok());

    let parsed = parse("t", &rules);
    assert!(parsed.is_ok());

    let parsed = parse("5", &rules);
    assert!(parsed.is_ok());
    let parsed = parse("7", &rules);
    assert!(parsed.is_ok());
    let parsed = parse("5678", &rules);
    assert!(parsed.is_ok());


    let parsed = parse("dddd", &rules);
    assert!(parsed.is_err());

    let parsed = parse("e", &rules);
    assert!(parsed.is_err());
    let parsed = parse("ff", &rules);
    assert!(parsed.is_err());

    let parsed = parse("af", &rules);
    assert!(parsed.is_err());

    let parsed = parse("fa", &rules);
    assert!(parsed.is_err());

    let parsed = parse("4", &rules);
    assert!(parsed.is_err());

    let parsed = parse("559", &rules);
    assert!(parsed.is_err());
}


#[test]
fn parse_repeat_till() {
    let rules = rules_of(vec![("main", and(vec![
            repeat(
                    and(vec![
                        not(lit("a")),
                        dot()
                    ]),
                    1, None
            ),
            lit("a")
        ]))]);

    let parsed = parse("bbbbbba", &rules);
    assert!(parsed.is_ok());

}


#[test]
fn parse_question_mark() {
    let rules = rules_of(vec![("main", repeat(
                lit("a"),
                0, Some(1)
        ))]);

    let parsed = parse("a", &rules);
    assert!(parsed.is_ok());

    let parsed = parse("", &rules);
    assert!(parsed.is_ok());

    let parsed = parse("aa", &rules);
    assert!(parsed.is_err());

    let parsed = parse("ab", &rules);
    assert!(parsed.is_err());

    let parsed = parse("b", &rules);
    assert!(parsed.is_err());
}

#[test]
fn parse_question_mark2() {
    let rules = rules_of(vec![("main", and(vec![
            lit("aaa"),
            repeat(
                    lit("b"),
                    0, Some(1)
            )
        ]))]);

    let parsed = parse("aaa", &rules);
    assert!(parsed.is_ok());

    let parsed = parse("aaab", &rules);
    assert!(parsed.is_ok());

    let parsed = parse("", &rules);
    assert!(parsed.is_err());

    let parsed = parse("aa", &rules);
    assert!(parsed.is_err());

    let parsed = parse("ab", &rules);
    assert!(parsed.is_err());

    let parsed = parse("b", &rules);
    assert!(parsed.is_err());
}
