//! The first grammar of PEG grammars, written by hand: its rules start at
//! `grammar`, a list of rules separated by blank space.

use vstd::prelude::*;

use crate::parser::atom::AtomV;
use crate::parser::atom::char_matches;
use crate::parser::expression::{eval, law_repeat_reads_run, ExprV, SetOfRules};
use crate::parser::{Ctx, Cursor};
use crate::peg::rules::{
    alnum_ranges, lemma_name_start_class, list2, list3, list4, list5, list7, name_start_char,
};
use crate::parser::{and, dot, lit, match_ch, not, or, repeat, symref};

verus! {

/// The rule `grammar`.
pub open spec fn first_rule_grammar() -> ExprV {
    ExprV::Repeat(Box::new(ExprV::RuleName("rule"@)), 1, None)
}

/// The rule `rule`.
pub open spec fn first_rule_rule() -> ExprV {
    ExprV::And(seq![
        ExprV::RuleName("_"@),
        ExprV::RuleName("symbol"@),
        ExprV::RuleName("_"@),
        ExprV::Simple(AtomV::Literal("="@)),
        ExprV::RuleName("_"@),
        ExprV::RuleName("expr"@),
        ExprV::Or(seq![ExprV::RuleName("_eol"@), ExprV::RuleName("eof"@)]),
    ])
}

/// The rule `expr`.
pub open spec fn first_rule_expr() -> ExprV {
    ExprV::RuleName("or_expr"@)
}

/// The rule `or_expr`.
pub open spec fn first_rule_or_expr() -> ExprV {
    ExprV::And(seq![
        ExprV::RuleName("and_expr"@),
        ExprV::Repeat(
            Box::new(
                ExprV::And(seq![
                    ExprV::RuleName("_"@),
                    ExprV::Simple(AtomV::Literal("/"@)),
                    ExprV::RuleName("_"@),
                    ExprV::RuleName("or_expr"@),
                ]),
            ),
            0,
            None,
        ),
    ])
}

/// The rule `and_expr`.
pub open spec fn first_rule_and_expr() -> ExprV {
    ExprV::And(seq![
        ExprV::RuleName("compl_expr"@),
        ExprV::Repeat(
            Box::new(
                ExprV::And(seq![
                    ExprV::Simple(AtomV::Literal(" "@)),
                    ExprV::RuleName("_"@),
                    ExprV::RuleName("and_expr"@),
                ]),
            ),
            0,
            None,
        ),
    ])
}

/// The rule `compl_expr`.
pub open spec fn first_rule_compl_expr() -> ExprV {
    ExprV::Or(seq![
        ExprV::And(seq![
            ExprV::RuleName("simpl_par"@),
            ExprV::Repeat(
                Box::new(
                    ExprV::Or(seq![
                        ExprV::Simple(AtomV::Literal("*"@)),
                        ExprV::Simple(AtomV::Literal("+"@)),
                        ExprV::Simple(AtomV::Literal("?"@)),
                    ]),
                ),
                0,
                Some(1),
            ),
        ]),
        ExprV::And(seq![ExprV::Simple(AtomV::Literal("!"@)), ExprV::RuleName("simpl_par"@)]),
    ])
}

/// The rule `simpl_par`.
pub open spec fn first_rule_simpl_par() -> ExprV {
    ExprV::Or(seq![ExprV::RuleName("simple"@), ExprV::RuleName("parenth_expr"@)])
}

/// The rule `parenth_expr`.
pub open spec fn first_rule_parenth_expr() -> ExprV {
    ExprV::And(seq![
        ExprV::Simple(AtomV::Literal("("@)),
        ExprV::RuleName("_"@),
        ExprV::RuleName("expr"@),
        ExprV::RuleName("_"@),
        ExprV::Simple(AtomV::Literal(")"@)),
    ])
}

/// The rule `simple`.
pub open spec fn first_rule_simple() -> ExprV {
    ExprV::RuleName("atom"@)
}

/// The rule `atom`.
pub open spec fn first_rule_atom() -> ExprV {
    ExprV::Or(seq![
        ExprV::RuleName("literal"@),
        ExprV::RuleName("match"@),
        ExprV::RuleName("dot"@),
        ExprV::RuleName("symbol"@),
    ])
}

/// The rule `literal`.
pub open spec fn first_rule_literal() -> ExprV {
    ExprV::And(seq![
        ExprV::Simple(AtomV::Literal("\""@)),
        ExprV::Repeat(
            Box::new(
                ExprV::And(seq![
                    ExprV::Not(Box::new(ExprV::Simple(AtomV::Literal("\""@)))),
                    ExprV::Simple(AtomV::Dot),
                ]),
            ),
            1,
            None,
        ),
        ExprV::Simple(AtomV::Literal("\""@)),
    ])
}

/// The rule `match`.
pub open spec fn first_rule_match() -> ExprV {
    ExprV::And(seq![
        ExprV::Simple(AtomV::Literal("["@)),
        ExprV::Repeat(
            Box::new(
                ExprV::Or(seq![
                    ExprV::And(seq![
                        ExprV::Simple(AtomV::Dot),
                        ExprV::Simple(AtomV::Literal("-"@)),
                        ExprV::Simple(AtomV::Dot),
                    ]),
                    ExprV::And(seq![
                        ExprV::Not(Box::new(ExprV::Simple(AtomV::Literal("]"@)))),
                        ExprV::Simple(AtomV::Dot),
                    ]),
                ]),
            ),
            1,
            None,
        ),
        ExprV::Simple(AtomV::Literal("]"@)),
    ])
}

/// The rule `dot`.
pub open spec fn first_rule_dot() -> ExprV {
    ExprV::Simple(AtomV::Literal("."@))
}

/// The rule `symbol`.
pub open spec fn first_rule_symbol() -> ExprV {
    ExprV::Repeat(
        Box::new(
            ExprV::Simple(AtomV::Match("_"@, seq![('a', 'z'), ('A', 'Z'), ('0', '9')])),
        ),
        1,
        None,
    )
}

/// The rule `_`.
pub open spec fn first_rule_spacing() -> ExprV {
    ExprV::Repeat(
        Box::new(
            ExprV::Or(seq![
                ExprV::Simple(AtomV::Literal(" "@)),
                ExprV::Simple(AtomV::Literal("\n"@)),
                ExprV::RuleName("comment"@),
            ]),
        ),
        0,
        None,
    )
}

/// The rule `_eol`.
pub open spec fn first_rule_spacing_eol() -> ExprV {
    ExprV::And(seq![
        ExprV::Or(seq![
            ExprV::Repeat(Box::new(ExprV::Simple(AtomV::Literal(" "@))), 0, None),
            ExprV::RuleName("comment"@),
        ]),
        ExprV::RuleName("_"@),
    ])
}

/// The rule `comment`.
pub open spec fn first_rule_comment() -> ExprV {
    ExprV::Or(seq![
        ExprV::And(seq![
            ExprV::Simple(AtomV::Literal("//"@)),
            ExprV::Repeat(
                Box::new(
                    ExprV::And(seq![
                        ExprV::Not(Box::new(ExprV::Simple(AtomV::Literal("\n"@)))),
                        ExprV::Simple(AtomV::Dot),
                    ]),
                ),
                0,
                None,
            ),
            ExprV::Simple(AtomV::Literal("\n"@)),
        ]),
        ExprV::And(seq![
            ExprV::Simple(AtomV::Literal("/*"@)),
            ExprV::Repeat(
                Box::new(
                    ExprV::And(seq![
                        ExprV::Not(Box::new(ExprV::Simple(AtomV::Literal("*/"@)))),
                        ExprV::Simple(AtomV::Dot),
                    ]),
                ),
                0,
                None,
            ),
            ExprV::Simple(AtomV::Literal("*/"@)),
        ]),
    ])
}

/// The rules of the first grammar of PEG grammars, by name.
#[verifier::opaque]
pub open spec fn first_grammar() -> Map<Seq<char>, ExprV> {
    Map::empty()
        .insert("grammar"@, first_rule_grammar())
        .insert("rule"@, first_rule_rule())
        .insert("expr"@, first_rule_expr())
        .insert("or_expr"@, first_rule_or_expr())
        .insert("and_expr"@, first_rule_and_expr())
        .insert("compl_expr"@, first_rule_compl_expr())
        .insert("simpl_par"@, first_rule_simpl_par())
        .insert("parenth_expr"@, first_rule_parenth_expr())
        .insert("simple"@, first_rule_simple())
        .insert("atom"@, first_rule_atom())
        .insert("literal"@, first_rule_literal())
        .insert("match"@, first_rule_match())
        .insert("dot"@, first_rule_dot())
        .insert("symbol"@, first_rule_symbol())
        .insert("_"@, first_rule_spacing())
        .insert("_eol"@, first_rule_spacing_eol())
        .insert("comment"@, first_rule_comment())
}

/// The rules of the first grammar of PEG grammars.
pub fn grammar() -> (r: SetOfRules)
    ensures
        r@ == first_grammar(),
        r.wf(),
{
    let rules = SetOfRules::empty();
    proof {
        reveal(first_grammar);
    }
    let e = repeat(symref("rule"), 1, None);
    proof {
        assert(e@ == first_rule_grammar());
    }
    let rules = rules.add("grammar", e);
    let e = and(list7(
        symref("_"),
        symref("symbol"),
        symref("_"),
        lit("="),
        symref("_"),
        symref("expr"),
        or(list2(symref("_eol"), symref("eof"))),
    ));
    proof {
        assert(e@ == first_rule_rule());
    }
    let rules = rules.add("rule", e);
    let e = symref("or_expr");
    proof {
        assert(e@ == first_rule_expr());
    }
    let rules = rules.add("expr", e);
    let e = and(list2(
        symref("and_expr"),
        repeat(and(list4(symref("_"), lit("/"), symref("_"), symref("or_expr"))), 0, None),
    ));
    proof {
        assert(e@ == first_rule_or_expr());
    }
    let rules = rules.add("or_expr", e);
    let e = and(list2(
        symref("compl_expr"),
        repeat(and(list3(lit(" "), symref("_"), symref("and_expr"))), 0, None),
    ));
    proof {
        assert(e@ == first_rule_and_expr());
    }
    let rules = rules.add("and_expr", e);
    let e = or(list2(
        and(list2(
            symref("simpl_par"),
            repeat(or(list3(lit("*"), lit("+"), lit("?"))), 0, Some(1)),
        )),
        and(list2(lit("!"), symref("simpl_par"))),
    ));
    proof {
        assert(e@ == first_rule_compl_expr());
    }
    let rules = rules.add("compl_expr", e);
    let e = or(list2(symref("simple"), symref("parenth_expr")));
    proof {
        assert(e@ == first_rule_simpl_par());
    }
    let rules = rules.add("simpl_par", e);
    let e = and(list5(lit("("), symref("_"), symref("expr"), symref("_"), lit(")")));
    proof {
        assert(e@ == first_rule_parenth_expr());
    }
    let rules = rules.add("parenth_expr", e);
    let e = symref("atom");
    proof {
        assert(e@ == first_rule_simple());
    }
    let rules = rules.add("simple", e);
    let e = or(list4(symref("literal"), symref("match"), symref("dot"), symref("symbol")));
    proof {
        assert(e@ == first_rule_atom());
    }
    let rules = rules.add("atom", e);
    let e = and(list3(lit("\""), repeat(and(list2(not(lit("\"")), dot())), 1, None), lit("\"")));
    proof {
        assert(e@ == first_rule_literal());
    }
    let rules = rules.add("literal", e);
    let e = and(list3(
        lit("["),
        repeat(
            or(list2(and(list3(dot(), lit("-"), dot())), and(list2(not(lit("]")), dot())))),
            1,
            None,
        ),
        lit("]"),
    ));
    proof {
        assert(e@ == first_rule_match());
    }
    let rules = rules.add("match", e);
    let e = lit(".");
    proof {
        assert(e@ == first_rule_dot());
    }
    let rules = rules.add("dot", e);
    let e = repeat(match_ch("_", vec![('a', 'z'), ('A', 'Z'), ('0', '9')]), 1, None);
    proof {
        assert(e@ == first_rule_symbol());
    }
    let rules = rules.add("symbol", e);
    let e = repeat(or(list3(lit(" "), lit("\n"), symref("comment"))), 0, None);
    proof {
        assert(e@ == first_rule_spacing());
    }
    let rules = rules.add("_", e);
    let e = and(list2(or(list2(repeat(lit(" "), 0, None), symref("comment"))), symref("_")));
    proof {
        assert(e@ == first_rule_spacing_eol());
    }
    let rules = rules.add("_eol", e);
    let e = or(list2(
        and(list3(lit("//"), repeat(and(list2(not(lit("\n")), dot())), 0, None), lit("\n"))),
        and(list3(lit("/*"), repeat(and(list2(not(lit("*/")), dot())), 0, None), lit("*/"))),
    ));
    proof {
        assert(e@ == first_rule_comment());
    }
    let rules = rules.add("comment", e);
    rules
}

/// The rule `symbol` of the first grammar reads a whole word: from a
/// cursor where the text holds `k` (at least one) chars among `_`, the
/// ASCII letters of either case and the digits, followed by the end of the
/// text or by another char, it reads those `k` chars and stops (given more
/// than `k` steps).
pub proof fn law_first_symbol_reads_word(ctx: Ctx, cur: Cursor, k: nat, fuel: nat)
    requires
        ctx.text.len() <= usize::MAX,
        k >= 1,
        cur.pos.n + k <= ctx.text.len(),
        forall|i: int| cur.pos.n <= i < cur.pos.n + k ==> name_start_char(#[trigger] ctx.text[i]),
        cur.pos.n + k == ctx.text.len() || !name_start_char(ctx.text[cur.pos.n + k]),
        fuel > k,
    ensures
        eval(ctx, cur, first_grammar()["symbol"@], fuel) matches Ok((c, _)) && c.pos.n == cur.pos.n + k,
{
    reveal(first_grammar);
    reveal_strlit("symbol");
    reveal_strlit("_");
    reveal_strlit("_eol");
    reveal_strlit("comment");
    assert("symbol"@ != "_"@ && "symbol"@ != "_eol"@ && "symbol"@ != "comment"@) by {
        assert("symbol"@.len() == 6 && "_"@.len() == 1 && "_eol"@.len() == 4 && "comment"@.len() == 7);
    }
    assert(first_grammar()["symbol"@] == first_rule_symbol());
    let p = cur.pos.n as int;
    assert forall|i: int| p <= i < p + k implies char_matches("_"@, alnum_ranges(), #[trigger] ctx.text[i]) by {
        lemma_name_start_class(ctx.text[i]);
    }
    if p + k < ctx.text.len() {
        lemma_name_start_class(ctx.text[p + k]);
    }
    law_repeat_reads_run(ctx, cur, "_"@, alnum_ranges(), 1, 0, Seq::empty(), k, fuel);
}

} // verus!
