use lib::parsing::{Parsing, ParsingPossition, ParsingText};
use lib::terminal::literal;

#[test]
fn test_parse_literal() {
    assert!(literal("aaaa").parse(Parsing::new("aaaa")).is_ok());
    assert!(literal("aaaa").parse(Parsing::new("aaa")).is_err());
    assert!(literal("aaaa").parse(Parsing::new("")).is_err());
    assert!(literal("aaaa").parse(Parsing::new("bbbb")).is_err());
    assert!(literal("aaaa").parse(Parsing::new("b")).is_err());

    assert!(
        literal("aaaa").parse(Parsing::new("aaaa"))
            == Ok(Parsing {
                position: ParsingPossition {
                    n: 4,
                    col: 4,
                    row: 0,
                },
                parsing_text: ParsingText::new("aaaa"),
            })
    );
}
