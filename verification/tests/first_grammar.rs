use lib::grammar::grammar;
use lib::parser::expression::parse_rule_name;
use lib::parser::Status;

/// Parses `text` with the first grammar of PEG grammars, from its rule
/// `grammar`; the whole text must be read.
fn parse_grammar(text: &str) -> Result<(), String> {
    let rules = grammar();
    match parse_rule_name(Status::init(text, &rules), "grammar") {
        Ok((st, _)) => {
            if st.pos.n == text.len() {
                Ok(())
            } else {
                Err(format!("stopped at {}", st.pos.n))
            }
        }
        Err(e) => Err(e.descr),
    }
}

#[test]
fn grammar_parse_literal() {
    let parsed = parse_grammar(r#"main = "Hello world""#);
    assert!(parsed.is_ok());
}


#[test]
fn grammar_parse_symbol() {
    let parsed = parse_grammar(r#"
        main = "Hello " world
        world = "world"
    "#);

    assert!(parsed.is_ok());
}

#[test]
fn multiline() {
    let parsed = parse_grammar(r#"
        main    = "hello"
                / "hi"
                / "hola"

        "#);

    assert!(parsed.is_ok());
}

#[test]
fn disorganized() {
    let parsed = parse_grammar(r#"
        main = "hello"
            / "hi" / "hola"

        "#);

    assert!(parsed.is_ok());
}

#[test]
fn parenthesis0() {
    let parsed = parse_grammar(r#"main = ( hello )"#);

    assert!(parsed.is_ok());
}

#[test]
fn parenthesis1() {
    let parsed = parse_grammar(r#"
        main = ("hello" / "hi")  " world"

        "#);

    assert!(parsed.is_ok());
}


#[test]
fn multiline_org() {
    let parsed = parse_grammar(r#"
        main = ("hello" / "hi")  " world"
            / "bye"

        "#);

    assert!(parsed.is_ok());
}

#[test]
fn one_optional() {
    let parsed = parse_grammar(r#"
            main = ("hello" / "hi")  " world"?
        "#);

    assert!(parsed.is_ok());
}


#[test]
fn repetitions() {
    let parsed = parse_grammar(r#"
            main         = one_or_more_a / zero_or_many_b
            one_or_more  = "a"+
            zero_or_many = "b"*
        "#);

    assert!(parsed.is_ok());
}

#[test]
fn negation() {
    let parsed = parse_grammar(r#"
            main = (!"a" .)* "a"
        "#);

    assert!(parsed.is_ok());
}

#[test]
fn consume_till() {
    let parsed = parse_grammar(r#"
            comment = "//" (!"\n" .)*
                    / "/*" (!"*/" .)* "*/"
        "#);

    assert!(parsed.is_ok());
}

#[test]
fn match_chars() {
    let parsed = parse_grammar(r#"
            number  = digit+ ("." digit+)?
            digit   = [0-9]
            a_or_b  = [ab]
            id      = [_a-zA-Z] [_a-zA-Z0-9]*

            a_or_b_or_digit  = [ab0-9]
        "#);

    assert!(parsed.is_ok());
}

#[test]
fn simple_recursion() {
    let parsed = parse_grammar(r#"
            as  = "a" as
                / "a"

            //  simplified with `+`
            ak = "a"+
        "#);

    assert!(parsed.is_ok());
}

#[test]
fn recursion_parenth() {
    let parsed = parse_grammar(r#"
            match_par = "(" match_par ")"
                    / "(" ")"
        "#);

    assert!(parsed.is_ok());
}

#[test]
fn block_comment_before_first_rule() {
    let parsed = parse_grammar("/* ab */\nmain = \"a\"");
    assert!(parsed.is_ok());
    let parsed = parse_grammar("main = \"a\"\n/* a longer\n comment */\n");
    assert!(parsed.is_ok());
}
