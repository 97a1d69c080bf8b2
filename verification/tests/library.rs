use lib::ast;
use lib::ast::flat;
use lib::grammar::grammar;
use lib::parse;
use lib::parse_debug;
use lib::parser::atom::{Atom, MatchRules};
use lib::parser::expression::{parse_expr, parse_rule_name, Expression, SetOfRules};
use lib::parser::{and, dot, eof, error, lit, match_ch, not, or, repeat, symref, Status};
use lib::parsing::{parsing_text, Parsing, ParsingText};
use lib::peg::gcode::rust_from_rules;
use lib::peg::peg2code::{rules2parse_peg_code, text_peg2code};
use lib::peg::{rules_from_flat_ast, rules_from_peg, Error};
use lib::terminal::{literal, Terminal};

fn rules_of(v: Vec<(&str, Expression)>) -> SetOfRules {
    SetOfRules::new(v.into_iter().map(|(n, e)| (n.to_string(), e)).collect())
}

// ---- scenarios from the documentation ----

#[test]
fn doc_hello_world_with_hex_dot() {
    let rules = rules_from_peg(
        r#"
main    =   'hello'   ' '   'world'  dot
dot     =   "\0x2E"
        "#,
    )
    .unwrap();
    assert!(parse("hello world.", &rules).is_ok());
    assert!(parse("hello world!", &rules).is_err());
}

#[test]
fn doc_just_from_peg() {
    let rules = rules_from_peg(
        r#"

    main    =   "a" ( "bc" "c"
                    / "bcdd"
                    / b_and_c  d_or_z
                    )

    b_and_c =   "b" "c"
    d_or_z  =   "d" / "z"

        "#,
    )
    .unwrap();
    assert!(parse("abcz", &rules).is_ok());
    assert!(parse("abcdd", &rules).is_ok());
    assert!(parse("abcc", &rules).is_ok());
    assert!(parse("bczd", &rules).is_err());
}

#[test]
fn doc_comments_are_ignored() {
    let rules = rules_from_peg(
        r#"
         //  classic hello world
         main    =   'hello'   ' '   'world'

         /*  with a multiline comment
         */
        "#,
    )
    .unwrap();
    assert!(parse("hello world", &rules).is_ok());
}

#[test]
fn doc_error_in_grammar() {
    let rules = rules_from_peg(
        r#"
         main    =   '('  main  ( ')'  /  error("unbalanced parenthesys") )
                 /   'hello'
        "#,
    )
    .unwrap();

    assert!(parse("hello", &rules).is_ok());
    assert!(parse("(hello)", &rules).is_ok());
    assert!(parse("((hello))", &rules).is_ok());
    assert!(parse("(((hello)))", &rules).is_ok());
    match parse("(hello", &rules) {
        Err(e) => assert!(e.descr == "unbalanced parenthesys"),
        Ok(_) => panic!("it should fail"),
    }
    match parse("((hello)", &rules) {
        Err(e) => assert!(e.descr == "unbalanced parenthesys"),
        Ok(_) => panic!("it should fail"),
    }
}

#[test]
fn doc_error_unbalanced_parenthesis() {
    let rules = rules_from_peg(
        r#"

     main    =   '('  main   ( ')'  /  error("unbalanced parenthesis") )
             /   'hello'

         "#,
    )
    .unwrap();

    match parse("((hello)", &rules) {
        Ok(_) => panic!("It should fail"),
        Err(e) => assert!(e.descr == "unbalanced parenthesis"),
    }
}

#[test]
fn doc_letters_and_numbers() {
    let rules = rules_from_peg(
        r#"

    main            =   letter letter_or_num+

    letter          =   [a-zA-Z]

    letter_or_num   =   letter
                    /   number

    number          =   [0-9]

            "#,
    )
    .unwrap();

    assert!(parse("a2AA456bzJ88", &rules).is_ok());
    assert!(parse("2a", &rules).is_err());
}

#[test]
fn doc_calculator() {
    let rules = rules_from_peg(
        r#"

    main            =   _  expr  _

    expr            =   add_t       (_  add_op  _   add_t)*
                    /   portion_expr

    add_t           =   fact_t      (_  fact_op _   fact_t)*

    fact_t          =   portion_expr

    portion_expr    =   '(' expr ')'
                    /   item

    item            =   num

    num             =   [0-9]+ ('.' [0-9]+)?
    add_op          =   '+'  /  '-'
    fact_op         =   '*'  /  '/'

    _               =   ' '*

        "#,
    )
    .unwrap();

    assert!(parse(" 1 +  2*  3 +(5/5 - (8-7))", &rules).is_ok());
    assert!(parse(" 1 +  2*  3 +(5/5 - (8-7)", &rules).is_err());
}

#[test]
fn doc_rules_by_hand() {
    let rules = rules_of(vec![
        ("main", and(vec![lit("aa"), symref("rule2")])),
        ("rule2", and(vec![lit("b"), lit("c")])),
    ]);
    assert!(parse("aabc", &rules).is_ok());

    let rules = rules_of(vec![("main", symref("3a")), ("3a", lit("aaa"))]);
    assert!(parse("aaa", &rules).is_ok());

    let rules = rules_of(vec![("main", error("aa"))]);
    assert!(parse("aa", &rules).is_err());

    let rules = rules_of(vec![("main", and(vec![dot(), dot()]))]);
    assert!(parse("aa", &rules).is_ok());

    let rules = rules_of(vec![(
        "main",
        repeat(match_ch("cd", vec![('a', 'b'), ('j', 'p')]), 0, None),
    )]);
    assert!(parse("aaaabbbbaaaaccccdddjjjkkkpppp", &rules).is_ok());

    let rules = rules_of(vec![("main", or(vec![lit("z"), lit("a")]))]);
    assert!(parse("a", &rules).is_ok());

    let rules = rules_of(vec![("main", and(vec![not(lit("b")), dot()]))]);
    assert!(parse("a", &rules).is_ok());

    let rules = rules_of(vec![("main", repeat(lit("a"), 0, None))]);
    assert!(parse("aaaaaaaa", &rules).is_ok());

    let rules = rules_of(vec![("main", repeat(lit("a"), 0, Some(3)))]);
    assert!(parse("aaa", &rules).is_ok());
    assert!(parse("aaaa", &rules).is_err());
}

#[test]
fn doc_prune() {
    let before = ast::Node::Rule((
        "root".to_string(),
        vec![ast::Node::Rule((
            "a".to_string(),
            vec![
                ast::Node::Rule(("_1".to_string(), vec![])),
                ast::Node::Rule(("_2".to_string(), vec![])),
            ],
        ))],
    ));
    let after = ast::Node::Rule((
        "root".to_string(),
        vec![ast::Node::Rule(("a".to_string(), vec![]))],
    ));
    assert!(before.prune(&vec!["_1", "_2"]) == after);
}

#[test]
fn doc_compact() {
    let before = ast::Node::Rule((
        "root".to_string(),
        vec![ast::Node::Rule((
            "node".to_string(),
            vec![
                ast::Node::Val("hello".to_string()),
                ast::Node::Val(" ".to_string()),
                ast::Node::Val("world".to_string()),
            ],
        ))],
    ));
    let after = ast::Node::Rule((
        "root".to_string(),
        vec![ast::Node::Rule((
            "node".to_string(),
            vec![ast::Node::Val("hello world".to_string())],
        ))],
    ));
    assert!(before.compact() == after);
}

#[test]
fn doc_flatten() {
    let before = ast::Node::Rule((
        "first".to_string(),
        vec![
            ast::Node::Rule((
                "node1".to_string(),
                vec![
                    ast::Node::Val("hello".to_string()),
                    ast::Node::Rule(("node1.1".to_string(), vec![ast::Node::Val(" ".to_string())])),
                ],
            )),
            ast::Node::Rule(("node2".to_string(), vec![ast::Node::Val("world".to_string())])),
        ],
    ));
    let after = vec![
        flat::Node::BeginRule("first".to_string()),
        flat::Node::BeginRule("node1".to_string()),
        flat::Node::Val("hello".to_string()),
        flat::Node::BeginRule("node1.1".to_string()),
        flat::Node::Val(" ".to_string()),
        flat::Node::EndRule("node1.1".to_string()),
        flat::Node::EndRule("node1".to_string()),
        flat::Node::BeginRule("node2".to_string()),
        flat::Node::Val("world".to_string()),
        flat::Node::EndRule("node2".to_string()),
        flat::Node::EndRule("first".to_string()),
    ];
    assert!(before.flatten() == after);
}

#[test]
fn doc_gcode() {
    let rules = rules_from_peg(
        r#"

            main            =   as / a  bs

            as              =   a+

            a               =   'a'

            bs              =   'b'+

"#,
    )
    .unwrap();
    let code = rust_from_rules(&rules);
    assert!(code.contains(r##"r#"as"# => rep!(ref_rule!(r#"a"#), 1)"##));
    assert!(code.contains(r##"r#"a"# => lit!("a")"##));
    assert!(code.contains(
        r##"r#"main"# => or!(ref_rule!(r#"as"#), and!(ref_rule!(r#"a"#), ref_rule!(r#"bs"#)))"##
    ));
    assert!(code.contains(r##"r#"bs"# => rep!(lit!("b"), 1)"##));
    assert!(code.starts_with("\n         "));
}

// ---- laws on concrete values ----

#[test]
fn law_not_keeps_position_example() {
    let rules = SetOfRules::new(vec![]);
    let status = Status::init("xyz", &rules);
    let (st, nodes) = parse_expr(status, &not(lit("a"))).ok().unwrap();
    assert_eq!(st.pos.n, 0);
    assert!(nodes.is_empty());
}

#[test]
fn law_or_takes_first_success_example() {
    let rules = SetOfRules::new(vec![]);
    let status = Status::init("abc", &rules);
    let (st, _) = parse_expr(status, &or(vec![lit("x"), lit("a"), lit("abc")])).ok().unwrap();
    assert_eq!(st.pos.n, 1);
}

#[test]
fn law_or_fails_when_every_alternative_fails() {
    let rules = SetOfRules::new(vec![]);
    let status = Status::init("abc", &rules);
    assert!(parse_expr(status, &or(vec![lit("x"), lit("y")])).is_err());
}

#[test]
fn law_repeat_past_min_example() {
    let rules = SetOfRules::new(vec![]);
    let status = Status::init("aab", &rules);
    let (st, nodes) = parse_expr(status, &repeat(lit("a"), 2, None)).ok().unwrap();
    assert_eq!(st.pos.n, 2);
    assert_eq!(nodes.len(), 2);
}

#[test]
fn law_literal_matches_its_chars_example() {
    let rules = SetOfRules::new(vec![]);
    let status = Status::init("hello world", &rules);
    let (st, nodes) = parse_expr(status, &lit("hello")).ok().unwrap();
    assert_eq!(st.pos.n, 5);
    assert!(nodes == vec![ast::Node::Val("hello".to_string())]);
}

#[test]
fn law_prune_idempotent_example() {
    let tree = ast::Node::Rule((
        "r".to_string(),
        vec![
            ast::Node::Rule(("_".to_string(), vec![ast::Node::Val(" ".to_string())])),
            ast::Node::Val("x".to_string()),
            ast::Node::Rule(("k".to_string(), vec![ast::Node::Rule(("_".to_string(), vec![]))])),
        ],
    ));
    let once = tree.prune(&["_"]);
    let twice = once.prune(&["_"]);
    assert!(once == twice);
    assert!(
        once == ast::Node::Rule((
            "r".to_string(),
            vec![
                ast::Node::Val("x".to_string()),
                ast::Node::Rule(("k".to_string(), vec![]))
            ]
        ))
    );
    assert!(tree.prune(&[]) == tree);
}

#[test]
fn law_compact_idempotent_example() {
    let tree = ast::Node::Rule((
        "r".to_string(),
        vec![
            ast::Node::Val("a".to_string()),
            ast::Node::Val("b".to_string()),
            ast::Node::Rule(("k".to_string(), vec![])),
            ast::Node::Val("c".to_string()),
        ],
    ));
    let once = tree.compact();
    assert!(once.compact() == once);
    assert!(
        once == ast::Node::Rule((
            "r".to_string(),
            vec![
                ast::Node::Val("ab".to_string()),
                ast::Node::Rule(("k".to_string(), vec![])),
                ast::Node::Val("c".to_string()),
            ]
        ))
    );
}

#[test]
fn law_flatten_balanced_example() {
    let tree = ast::Node::Rule((
        "a".to_string(),
        vec![ast::Node::Rule(("b".to_string(), vec![ast::Node::Val("x".to_string())]))],
    ));
    let flat_nodes = tree.flatten();
    let begins = flat_nodes.iter().filter(|n| matches!(n, flat::Node::BeginRule(_))).count();
    let ends = flat_nodes.iter().filter(|n| matches!(n, flat::Node::EndRule(_))).count();
    assert_eq!(begins, ends);
    assert_eq!(flat_nodes.len(), 5);
}

#[test]
fn law_add_then_get_example() {
    let rules = SetOfRules::new(vec![]).add("a", lit("x")).add("b", dot()).add("a", lit("y"));
    match rules.get("a") {
        Some(Expression::Simple(Atom::Literal(s))) => assert_eq!(s, "y"),
        _ => panic!("rule a expected"),
    }
    assert!(matches!(rules.get("b"), Some(Expression::Simple(Atom::Dot))));
    assert!(rules.get("c").is_none());
    assert_eq!(rules.0.len(), 2);
}

#[test]
fn law_merge_keeps_own_example() {
    let own = SetOfRules::new(vec![]).add("a", lit("own"));
    let other = SetOfRules::new(vec![]).add("a", lit("other")).add("b", lit("b"));
    let merged = own.merge(other);
    match merged.get("a") {
        Some(Expression::Simple(Atom::Literal(s))) => assert_eq!(s, "own"),
        _ => panic!("rule a expected"),
    }
    assert!(merged.get("b").is_some());
}

#[test]
fn later_rule_replaces_earlier_one() {
    let rules = rules_from_peg(
        r#"
main = "a"
main = "b"
"#,
    )
    .unwrap();
    assert!(parse("b", &rules).is_ok());
    assert!(parse("a", &rules).is_err());
}

#[test]
fn module_rules_do_not_replace_earlier_rules() {
    let rules = rules_from_peg(
        r#"
a {
    x = "first"
}
b {
    x = "second"
    y = "y"
}
main = x
"#,
    )
    .unwrap();
    assert!(parse("first", &rules).is_ok());
    assert!(parse("second", &rules).is_err());
    assert!(rules.get("y").is_some());
}

#[test]
fn dotted_rule_names() {
    let rules = rules_from_peg(
        r#"
main = a.b
a.b = "ab"
"#,
    )
    .unwrap();
    assert!(parse("ab", &rules).is_ok());
    assert!(rules.get("a.b").is_some());
}

// ---- literals of a PEG text ----

#[test]
fn escapes_in_double_quoted_literal() {
    let rules = rules_from_peg("main = \"a\\tb\\n\\\\\\\"\\0x41\"\n").unwrap();
    match rules.get("main") {
        Some(Expression::Simple(Atom::Literal(s))) => assert_eq!(s, "a\tb\n\\\"A"),
        other => panic!("unexpected {:?}", other),
    }
}

#[test]
fn law_one_literal_rule_example() {
    let rules = rules_from_peg("greeting = 'hello'\n").unwrap();
    match rules.get("greeting") {
        Some(Expression::Simple(Atom::Literal(s))) => assert_eq!(s, "hello"),
        other => panic!("unexpected {:?}", other),
    }
    assert!(rules.get("main").is_none());
    assert!(rules.get("hello").is_none());
}

#[test]
fn single_quoted_literal_kept_verbatim() {
    let rules = rules_from_peg("main = 'a\\b'\n").unwrap();
    match rules.get("main") {
        Some(Expression::Simple(Atom::Literal(s))) => assert_eq!(s, "a\\b"),
        other => panic!("unexpected {:?}", other),
    }
    assert!(parse(r"a\b", &rules).is_ok());
    assert!(parse(r"a\\b", &rules).is_err());
    let code = rust_from_rules(&rules);
    assert!(code.contains(r##"r#"main"# => lit!("a\\b")"##));
}

#[test]
fn match_chars_and_ranges() {
    let rules = rules_from_peg("main = [xy0-9a-c]\n").unwrap();
    match rules.get("main") {
        Some(Expression::Simple(Atom::Match(MatchRules(chars, pairs)))) => {
            assert_eq!(chars, "xy");
            assert_eq!(pairs, &vec![('0', '9'), ('a', 'c')]);
        }
        other => panic!("unexpected {:?}", other),
    }
}

#[test]
fn repetition_marks() {
    let rules = rules_from_peg("main = 'a'? 'b'+ 'c'*\n").unwrap();
    assert!(parse("bbc", &rules).is_ok());
    assert!(parse("abccc", &rules).is_ok());
    assert!(parse("aabc", &rules).is_err());
    assert!(parse("c", &rules).is_err());
}

// ---- errors ----

#[test]
fn peg_syntax_error_is_parser_error() {
    match rules_from_peg("main = = 'a'\n") {
        Err(Error::Parser(_)) => (),
        other => panic!("unexpected {:?}", other),
    }
}

#[test]
fn peg_error_text_of_parser_error() {
    let e = rules_from_peg("main = ('a'\n").unwrap_err();
    let text = e.to_string();
    assert!(text.starts_with("Parser(Error {"));
    assert!(text.ends_with(")"));
}

#[test]
fn flat_ast_empty_is_ast_error_under_consuming_main() {
    match rules_from_flat_ast(&[]) {
        Err(Error::Peg((d, Some(inner)))) => {
            assert_eq!(d, "consuming main");
            assert!(matches!(*inner, Error::Ast(_)));
        }
        other => panic!("unexpected {:?}", other),
    }
    let e = rules_from_flat_ast(&[]).unwrap_err();
    assert_eq!(
        e.to_string(),
        "consuming main > AST(Error(\"trying get first element from nodes on empty slice\", None))"
    );
}

fn join(parts: Vec<Vec<flat::Node>>) -> Vec<flat::Node> {
    parts.into_iter().flatten().collect()
}

fn rule_nodes(name: &str, inner: Vec<flat::Node>) -> Vec<flat::Node> {
    let mut v = vec![flat::Node::BeginRule(name.to_string())];
    v.extend(inner);
    v.push(flat::Node::EndRule(name.to_string()));
    v
}

#[test]
fn flat_ast_unknown_element_is_peg_error() {
    let nodes = rule_nodes(
        "main",
        rule_nodes("grammar", vec![flat::Node::BeginRule("other".to_string())]),
    );
    let e = rules_from_flat_ast(&nodes).unwrap_err();
    assert_eq!(
        e.to_string(),
        "consuming main > consuming grammar > expected rule or module, received: other"
    );
}

#[test]
fn flat_ast_extra_nodes_rejected() {
    let mut nodes = rule_nodes(
        "main",
        rule_nodes(
            "grammar",
            rule_nodes(
                "rule",
                join(vec![
                    rule_nodes("rule_name", rule_nodes("symbol", vec![flat::Node::Val("main".to_string())])),
                    vec![flat::Node::Val("=".to_string())],
                    rule_nodes(
                        "expr",
                        rule_nodes(
                            "or",
                            rule_nodes(
                                "and",
                                rule_nodes(
                                    "rep_or_neg",
                                    rule_nodes("atom_or_par", rule_nodes("atom", rule_nodes("dot", vec![flat::Node::Val(".".to_string())]))),
                                ),
                            ),
                        ),
                    ),
                ]),
            ),
        ),
    );
    let rules = rules_from_flat_ast(&nodes).unwrap();
    assert!(parse("x", &rules).is_ok());
    nodes.push(flat::Node::EOF);
    let e = rules_from_flat_ast(&nodes).unwrap_err();
    assert_eq!(e.to_string(), "expected empty nodes after processing main");
}

#[test]
fn flat_ast_element_debug_in_error() {
    // a double quoted literal whose nodes end without its closing quote
    let nodes = rule_nodes(
        "literal",
        rule_nodes("lit_esc", rule_nodes("_\"", vec![flat::Node::Val("\"".to_string())])),
    );
    let wrapped = rule_nodes(
        "main",
        rule_nodes(
            "grammar",
            rule_nodes(
                "rule",
                join(vec![
                    rule_nodes("rule_name", rule_nodes("symbol", vec![flat::Node::Val("main".to_string())])),
                    vec![flat::Node::Val("=".to_string())],
                    rule_nodes(
                        "expr",
                        rule_nodes(
                            "or",
                            rule_nodes(
                                "and",
                                rule_nodes("rep_or_neg", rule_nodes("atom_or_par", rule_nodes("atom", nodes))),
                            ),
                        ),
                    ),
                ]),
            ),
        ),
    );
    let e = rules_from_flat_ast(&wrapped).unwrap_err();
    let text = e.to_string();
    assert!(text.contains("looking for element EndRule(\n    \"lit_esc\",\n)"));
}

#[test]
fn match_error_describes_ranges() {
    let rules = rules_of(vec![("main", match_ch("xy", vec![('a', 'c')]))]);
    match parse("z", &rules) {
        Err(e) => assert_eq!(e.descr, "match. expected xy [('a', 'c')]"),
        Ok(_) => panic!("it should fail"),
    }
}

#[test]
fn parse_debug_same_as_parse() {
    let rules = rules_of(vec![("main", lit("abc"))]);
    assert!(parse_debug("abc", &rules).is_ok());
    assert!(parse_debug("abd", &rules).is_err());
    let e = parse("abcd", &rules).unwrap_err();
    assert_eq!(e.descr, "not consumed full input");
}

#[test]
fn eof_atom() {
    let rules = rules_of(vec![("main", and(vec![lit("a"), eof()]))]);
    assert!(parse("a", &rules).is_ok());
}

#[test]
fn undefined_rule_is_error() {
    let rules = rules_of(vec![("main", symref("nothere"))]);
    assert!(parse("a", &rules).is_err());
}

#[test]
fn parse_from_named_rule() {
    let rules = rules_of(vec![("main", lit("x")), ("other", lit("ab"))]);
    let status = Status::init("abz", &rules);
    let (st, node) = parse_rule_name(status, "other").ok().unwrap();
    assert_eq!(st.pos.n, 2);
    assert!(node == ast::Node::Rule(("other".to_string(), vec![ast::Node::Val("ab".to_string())])));
}

// ---- the grammars of grammars ----

#[test]
fn peg_of_peg_reads_into_rules() {
    let text = text_peg2code();
    assert!(text.contains("main            =   grammar"));
    let rules = rules_from_peg(text).unwrap();
    assert!(rules.get("main").is_some());
    assert!(rules.get("lit_esc").is_some());
    let code = rules2parse_peg_code().unwrap();
    assert!(code.contains(r##"r#"main"# => ref_rule!(r#"grammar"#)"##));
}

#[test]
fn first_grammar_reads_rules() {
    let rules = grammar();
    assert!(rules.get("grammar").is_some());
    let status = Status::init("main = \"Hello world\"\n", &rules);
    let (st, _) = parse_rule_name(status, "grammar").ok().unwrap();
    assert_eq!(st.pos.n, 21);
}

// ---- terminals ----

#[test]
fn terminal_dot_and_pending() {
    let p = Terminal::Dot.parse(Parsing::new("ab")).unwrap();
    assert_eq!(p.position.n, 1);
    assert_eq!(p.position.col, 1);
    let p = Terminal::Dot.parse(p).unwrap();
    assert!(Terminal::Dot.parse(p).is_err());
    assert_eq!(
        Terminal::Match.parse(Parsing::new("a")).unwrap_err(),
        "pending implementation"
    );
    assert_eq!(literal("ab").parse(Parsing::new("xy")).unwrap_err(), "error parsing");
}

#[test]
fn parsing_text_holds_the_text() {
    assert_eq!(parsing_text("abc").string(), "abc");
    assert!(ParsingText::new("abc") == parsing_text("abc"));
}

#[test]
fn whole_non_ascii_input_is_accepted() {
    let rules = rules_of(vec![("main", repeat(dot(), 0, None))]);
    assert!(parse("ñandú €", &rules).is_ok());
    let rules = rules_of(vec![("main", lit("añ"))]);
    assert!(parse("añ", &rules).is_ok());
    let e = parse("añb", &rules).unwrap_err();
    assert_eq!(e.descr, "not consumed full input");
    let rules = rules_from_peg("main = 'ñ'+\n").unwrap();
    assert!(parse("ñññ", &rules).is_ok());
}

#[test]
fn law_or_deepest_error_example() {
    let rules = SetOfRules::new(vec![]);
    let status = Status::init("abcd", &rules);
    let e = parse_expr(status, &or(vec![lit("abx"), lit("x"), lit("aby")])).err().unwrap();
    assert_eq!(e.descr, "literal aby");
    assert_eq!(e.pos.n, 3);
    let status = Status::init("abcd", &rules);
    let e = parse_expr(status, &or(vec![lit("abcx"), lit("x")])).err().unwrap();
    assert_eq!(e.descr, "literal abcx");
}

#[test]
fn law_repeat_greedy_and_max_example() {
    let rules = SetOfRules::new(vec![]);
    let status = Status::init("aaab", &rules);
    let (st, nodes) = parse_expr(status, &repeat(lit("a"), 0, None)).ok().unwrap();
    assert_eq!(st.pos.n, 3);
    assert!(
        nodes
            == vec![
                ast::Node::Val("a".to_string()),
                ast::Node::Val("a".to_string()),
                ast::Node::Val("a".to_string())
            ]
    );
    let status = Status::init("aaab", &rules);
    let (st, nodes) = parse_expr(status, &repeat(lit("a"), 0, Some(2))).ok().unwrap();
    assert_eq!(st.pos.n, 2);
    assert_eq!(nodes.len(), 2);
    let status = Status::init("aaab", &rules);
    assert!(parse_expr(status, &repeat(lit("a"), 4, None)).is_err());
}

#[test]
fn law_flatten_length_example() {
    let tree = ast::Node::Rule((
        "a".to_string(),
        vec![
            ast::Node::Rule(("b".to_string(), vec![ast::Node::Val("x".to_string())])),
            ast::Node::Val("y".to_string()),
            ast::Node::EOF,
        ],
    ));
    assert_eq!(tree.flatten().len(), 2 * 2 + 2);
}

#[test]
fn repetition_maximum_is_a_bound() {
    let rules = SetOfRules::new(vec![]);
    let status = Status::init("aaa", &rules);
    let (st, nodes) = parse_expr(status, &repeat(lit("a"), 0, Some(0))).ok().unwrap();
    assert_eq!(st.pos.n, 0);
    assert!(nodes.is_empty());
    let status = Status::init("aaa", &rules);
    let (st, _) = parse_expr(status, &repeat(lit("a"), 1, Some(2))).ok().unwrap();
    assert_eq!(st.pos.n, 2);
    let status = Status::init("aa", &rules);
    let e = parse_expr(status, &repeat(lit("a"), 2, Some(1))).err().unwrap();
    assert_eq!(e.descr, "repetition reached its maximum before its minimum");
    let rules = rules_of(vec![("main", repeat(lit("a"), 0, Some(0)))]);
    assert!(parse("", &rules).is_ok());
    assert!(parse("a", &rules).is_err());
}

#[test]
fn empty_choice_is_an_error() {
    let rules = rules_of(vec![("main", or(vec![]))]);
    match parse("a", &rules) {
        Err(e) => assert_eq!(e.descr, "checked all options of or with no errors"),
        Ok(_) => panic!("it should fail"),
    }
}
