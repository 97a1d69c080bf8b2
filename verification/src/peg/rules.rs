//! The grammar of PEG grammars: the rules with which a PEG text is parsed.

use vstd::prelude::*;

use crate::parser::atom::{char_matches, AtomV};
use crate::parser::expression::{
    eval, expr_wf, exprs_v, law_repeat_reads_run, lemma_exprs_v_index, ExprV, Expression,
    SetOfRules,
};
use crate::parser::{and, dot, lit, match_ch, not, or, repeat, symref, Ctx, Cursor};

verus! {

/// The rule `mod_name`.
pub open spec fn peg_rule_mod_name() -> ExprV {
    ExprV::RuleName("symbol"@)
}

/// The rule `eol`.
pub open spec fn peg_rule_eol() -> ExprV {
    ExprV::Or(seq![
        ExprV::Simple(AtomV::Literal("\r\n"@)),
        ExprV::Simple(AtomV::Literal("\n"@)),
        ExprV::Simple(AtomV::Literal("\r"@)),
    ])
}

/// The rule `mline_comment`.
pub open spec fn peg_rule_mline_comment() -> ExprV {
    ExprV::And(seq![
        ExprV::Simple(AtomV::Literal("/*"@)),
        ExprV::Repeat(
            Box::new(
                ExprV::And(seq![
                    ExprV::Not(Box::new(ExprV::Simple(AtomV::Literal("*/"@)))),
                    ExprV::Simple(AtomV::Dot),
                ]),
            ),
            0,
            None,
        ),
        ExprV::Simple(AtomV::Literal("*/"@)),
    ])
}

/// The rule `error`.
pub open spec fn peg_rule_error() -> ExprV {
    ExprV::And(seq![
        ExprV::Simple(AtomV::Literal("error"@)),
        ExprV::RuleName("_"@),
        ExprV::Simple(AtomV::Literal("("@)),
        ExprV::RuleName("_"@),
        ExprV::RuleName("literal"@),
        ExprV::RuleName("_"@),
        ExprV::Simple(AtomV::Literal(")"@)),
    ])
}

/// The rule `atom_or_par`.
pub open spec fn peg_rule_atom_or_par() -> ExprV {
    ExprV::Or(seq![ExprV::RuleName("atom"@), ExprV::RuleName("parenth"@)])
}

/// The rule `main`.
pub open spec fn peg_rule_main() -> ExprV {
    ExprV::RuleName("grammar"@)
}

/// The rule `mchars`.
pub open spec fn peg_rule_mchars() -> ExprV {
    ExprV::Repeat(
        Box::new(
            ExprV::And(seq![
                ExprV::Not(Box::new(ExprV::Simple(AtomV::Literal("]"@)))),
                ExprV::Not(Box::new(
                    ExprV::And(seq![
                        ExprV::Simple(AtomV::Dot),
                        ExprV::Simple(AtomV::Literal("-"@)),
                    ]),
                )),
                ExprV::Simple(AtomV::Dot),
            ]),
        ),
        1,
        None,
    )
}

/// The rule `dot`.
pub open spec fn peg_rule_dot() -> ExprV {
    ExprV::Simple(AtomV::Literal("."@))
}

/// The rule `and`.
pub open spec fn peg_rule_and() -> ExprV {
    ExprV::And(seq![
        ExprV::RuleName("rep_or_neg"@),
        ExprV::Repeat(
            Box::new(
                ExprV::And(seq![
                    ExprV::RuleName("_1"@),
                    ExprV::RuleName("_"@),
                    ExprV::Not(Box::new(
                        ExprV::And(seq![
                            ExprV::RuleName("rule_name"@),
                            ExprV::RuleName("_"@),
                            ExprV::Simple(AtomV::Literal("="@)),
                        ]),
                    )),
                    ExprV::RuleName("and"@),
                ]),
            ),
            0,
            None,
        ),
    ])
}

/// The rule `parenth`.
pub open spec fn peg_rule_parenth() -> ExprV {
    ExprV::And(seq![
        ExprV::Simple(AtomV::Literal("("@)),
        ExprV::RuleName("_"@),
        ExprV::RuleName("expr"@),
        ExprV::RuleName("_"@),
        ExprV::Simple(AtomV::Literal(")"@)),
    ])
}

/// The rule `atom`.
pub open spec fn peg_rule_atom() -> ExprV {
    ExprV::Or(seq![
        ExprV::RuleName("literal"@),
        ExprV::RuleName("match"@),
        ExprV::RuleName("dot"@),
        ExprV::RuleName("rule_name"@),
    ])
}

/// The rule `module`.
pub open spec fn peg_rule_module() -> ExprV {
    ExprV::And(seq![
        ExprV::RuleName("_"@),
        ExprV::RuleName("mod_name"@),
        ExprV::RuleName("_"@),
        ExprV::Simple(AtomV::Literal("{"@)),
        ExprV::RuleName("_"@),
        ExprV::RuleName("grammar"@),
        ExprV::RuleName("_"@),
        ExprV::Simple(AtomV::Literal("}"@)),
    ])
}

/// The rule `rule_name`.
pub open spec fn peg_rule_rule_name() -> ExprV {
    ExprV::And(seq![
        ExprV::Repeat(Box::new(ExprV::Simple(AtomV::Literal("."@))), 0, Some(1)),
        ExprV::RuleName("symbol"@),
        ExprV::Repeat(
            Box::new(
                ExprV::And(seq![
                    ExprV::Simple(AtomV::Literal("."@)),
                    ExprV::RuleName("symbol"@),
                ]),
            ),
            0,
            None,
        ),
    ])
}

/// The rule `_`.
pub open spec fn peg_rule_spacing() -> ExprV {
    ExprV::Repeat(
        Box::new(
            ExprV::Or(seq![
                ExprV::Simple(AtomV::Literal(" "@)),
                ExprV::RuleName("eol"@),
                ExprV::RuleName("comment"@),
            ]),
        ),
        0,
        None,
    )
}

/// The rule `grammar`.
pub open spec fn peg_rule_grammar() -> ExprV {
    ExprV::Repeat(
        Box::new(ExprV::Or(seq![ExprV::RuleName("rule"@), ExprV::RuleName("module"@)])),
        1,
        None,
    )
}

/// The rule `esc_char`.
pub open spec fn peg_rule_esc_char() -> ExprV {
    ExprV::Or(seq![
        ExprV::Simple(AtomV::Literal("\\r"@)),
        ExprV::Simple(AtomV::Literal("\\n"@)),
        ExprV::Simple(AtomV::Literal("\\t"@)),
        ExprV::Simple(AtomV::Literal("\\\\"@)),
        ExprV::Simple(AtomV::Literal("\\\""@)),
    ])
}

/// The rule `hex_char`.
pub open spec fn peg_rule_hex_char() -> ExprV {
    ExprV::And(seq![
        ExprV::Simple(AtomV::Literal("\\0x"@)),
        ExprV::Simple(AtomV::Match(""@, seq![('0', '9'), ('A', 'F')])),
        ExprV::Simple(AtomV::Match(""@, seq![('0', '9'), ('A', 'F')])),
    ])
}

/// The rule `lit_noesc`.
pub open spec fn peg_rule_lit_noesc() -> ExprV {
    ExprV::And(seq![
        ExprV::RuleName("_'"@),
        ExprV::Repeat(
            Box::new(
                ExprV::And(seq![
                    ExprV::Not(Box::new(ExprV::RuleName("_'"@))),
                    ExprV::Simple(AtomV::Dot),
                ]),
            ),
            0,
            None,
        ),
        ExprV::RuleName("_'"@),
    ])
}

/// The rule `_'`.
pub open spec fn peg_rule_single_quote() -> ExprV {
    ExprV::Simple(AtomV::Literal("'"@))
}

/// The rule `rep_or_neg`.
pub open spec fn peg_rule_rep_or_neg() -> ExprV {
    ExprV::Or(seq![
        ExprV::And(seq![
            ExprV::RuleName("atom_or_par"@),
            ExprV::Repeat(
                Box::new(
                    ExprV::Or(seq![
                        ExprV::Simple(AtomV::Literal("*"@)),
                        ExprV::Simple(AtomV::Literal("+"@)),
                        ExprV::Simple(AtomV::Literal("?"@)),
                    ]),
                ),
                0,
                Some(1),
            ),
        ]),
        ExprV::And(seq![
            ExprV::Simple(AtomV::Literal("!"@)),
            ExprV::RuleName("atom_or_par"@),
        ]),
    ])
}

/// The rule `lit_esc`.
pub open spec fn peg_rule_lit_esc() -> ExprV {
    ExprV::And(seq![
        ExprV::RuleName("_\""@),
        ExprV::Repeat(
            Box::new(
                ExprV::Or(seq![
                    ExprV::RuleName("esc_char"@),
                    ExprV::RuleName("hex_char"@),
                    ExprV::And(seq![
                        ExprV::Not(Box::new(ExprV::RuleName("_\""@))),
                        ExprV::Simple(AtomV::Dot),
                    ]),
                ]),
            ),
            0,
            None,
        ),
        ExprV::RuleName("_\""@),
    ])
}

/// The rule `_eol`.
pub open spec fn peg_rule_spacing_eol() -> ExprV {
    ExprV::And(seq![
        ExprV::Repeat(
            Box::new(
                ExprV::Or(seq![
                    ExprV::Simple(AtomV::Literal(" "@)),
                    ExprV::RuleName("comment"@),
                ]),
            ),
            0,
            None,
        ),
        ExprV::RuleName("eol"@),
    ])
}

/// The rule `match`.
pub open spec fn peg_rule_match() -> ExprV {
    ExprV::And(seq![
        ExprV::Simple(AtomV::Literal("["@)),
        ExprV::Or(seq![
            ExprV::And(seq![
                ExprV::RuleName("mchars"@),
                ExprV::Repeat(Box::new(ExprV::RuleName("mbetween"@)), 0, None),
            ]),
            ExprV::Repeat(Box::new(ExprV::RuleName("mbetween"@)), 1, None),
        ]),
        ExprV::Simple(AtomV::Literal("]"@)),
    ])
}

/// The rule `or`.
pub open spec fn peg_rule_or() -> ExprV {
    ExprV::And(seq![
        ExprV::RuleName("and"@),
        ExprV::Repeat(
            Box::new(
                ExprV::And(seq![
                    ExprV::RuleName("_"@),
                    ExprV::Simple(AtomV::Literal("/"@)),
                    ExprV::RuleName("_"@),
                    ExprV::Or(seq![ExprV::RuleName("error"@), ExprV::RuleName("or"@)]),
                ]),
            ),
            0,
            Some(1),
        ),
    ])
}

/// The rule `_\"`.
pub open spec fn peg_rule_quote() -> ExprV {
    ExprV::Simple(AtomV::Literal("\""@))
}

/// The rule `mbetween`.
pub open spec fn peg_rule_mbetween() -> ExprV {
    ExprV::And(seq![
        ExprV::Simple(AtomV::Dot),
        ExprV::Simple(AtomV::Literal("-"@)),
        ExprV::Simple(AtomV::Dot),
    ])
}

/// The rule `_1`.
pub open spec fn peg_rule_spacing1() -> ExprV {
    ExprV::Or(seq![ExprV::Simple(AtomV::Literal(" "@)), ExprV::RuleName("eol"@)])
}

/// The rule `rule`.
pub open spec fn peg_rule_rule() -> ExprV {
    ExprV::And(seq![
        ExprV::RuleName("_"@),
        ExprV::RuleName("rule_name"@),
        ExprV::RuleName("_"@),
        ExprV::Simple(AtomV::Literal("="@)),
        ExprV::RuleName("_"@),
        ExprV::RuleName("expr"@),
        ExprV::RuleName("_eol"@),
        ExprV::RuleName("_"@),
    ])
}

/// The rule `symbol`.
pub open spec fn peg_rule_symbol() -> ExprV {
    ExprV::And(seq![
        ExprV::Simple(AtomV::Match("_"@, seq![('a', 'z'), ('A', 'Z'), ('0', '9')])),
        ExprV::Repeat(
            Box::new(
                ExprV::Simple(AtomV::Match("_'\""@, seq![('a', 'z'), ('A', 'Z'), ('0', '9')])),
            ),
            0,
            None,
        ),
    ])
}

/// The rule `literal`.
pub open spec fn peg_rule_literal() -> ExprV {
    ExprV::Or(seq![ExprV::RuleName("lit_noesc"@), ExprV::RuleName("lit_esc"@)])
}

/// The rule `expr`.
pub open spec fn peg_rule_expr() -> ExprV {
    ExprV::RuleName("or"@)
}

/// The rule `comment`.
pub open spec fn peg_rule_comment() -> ExprV {
    ExprV::Or(seq![ExprV::RuleName("line_comment"@), ExprV::RuleName("mline_comment"@)])
}

/// The rule `line_comment`.
pub open spec fn peg_rule_line_comment() -> ExprV {
    ExprV::And(seq![
        ExprV::Simple(AtomV::Literal("//"@)),
        ExprV::Repeat(
            Box::new(
                ExprV::And(seq![
                    ExprV::Not(Box::new(ExprV::RuleName("eol"@))),
                    ExprV::Simple(AtomV::Dot),
                ]),
            ),
            0,
            None,
        ),
        ExprV::RuleName("eol"@),
    ])
}

/// The list of these 2 expressions.
pub(crate) fn list2(
    a: Expression,
    b: Expression,
) -> (r: Vec<Expression>)
    ensures
        r@.len() == 2,
        exprs_v(r@) == seq![a@, b@],
        expr_wf(a@) && expr_wf(b@) ==> forall|i: int|
            0 <= i < r@.len() ==> #[trigger] expr_wf(r@[i]@),
{
    let ghost va = a@;
    let ghost vb = b@;
    let r = vec![a, b];
    proof {
        lemma_exprs_v_index(r@);
        assert(r@[0]@ == va);
        assert(r@[1]@ == vb);
        assert(exprs_v(r@) =~= seq![va, vb]);
    }
    r
}

/// The list of these 3 expressions.
pub(crate) fn list3(
    a: Expression,
    b: Expression,
    c: Expression,
) -> (r: Vec<Expression>)
    ensures
        r@.len() == 3,
        exprs_v(r@) == seq![a@, b@, c@],
        expr_wf(a@) && expr_wf(b@) && expr_wf(c@) ==> forall|i: int|
            0 <= i < r@.len() ==> #[trigger] expr_wf(r@[i]@),
{
    let ghost va = a@;
    let ghost vb = b@;
    let ghost vc = c@;
    let r = vec![a, b, c];
    proof {
        lemma_exprs_v_index(r@);
        assert(r@[0]@ == va);
        assert(r@[1]@ == vb);
        assert(r@[2]@ == vc);
        assert(exprs_v(r@) =~= seq![va, vb, vc]);
    }
    r
}

/// The list of these 4 expressions.
pub(crate) fn list4(
    a: Expression,
    b: Expression,
    c: Expression,
    d: Expression,
) -> (r: Vec<Expression>)
    ensures
        r@.len() == 4,
        exprs_v(r@) == seq![a@, b@, c@, d@],
        expr_wf(a@) && expr_wf(b@) && expr_wf(c@) && expr_wf(d@) ==> forall|i: int|
            0 <= i < r@.len() ==> #[trigger] expr_wf(r@[i]@),
{
    let ghost va = a@;
    let ghost vb = b@;
    let ghost vc = c@;
    let ghost vd = d@;
    let r = vec![a, b, c, d];
    proof {
        lemma_exprs_v_index(r@);
        assert(r@[0]@ == va);
        assert(r@[1]@ == vb);
        assert(r@[2]@ == vc);
        assert(r@[3]@ == vd);
        assert(exprs_v(r@) =~= seq![va, vb, vc, vd]);
    }
    r
}

/// The list of these 5 expressions.
pub(crate) fn list5(
    a: Expression,
    b: Expression,
    c: Expression,
    d: Expression,
    e: Expression,
) -> (r: Vec<Expression>)
    ensures
        r@.len() == 5,
        exprs_v(r@) == seq![a@, b@, c@, d@, e@],
        expr_wf(a@) && expr_wf(b@) && expr_wf(c@) && expr_wf(d@)
            && expr_wf(e@) ==> forall|i: int|
            0 <= i < r@.len() ==> #[trigger] expr_wf(r@[i]@),
{
    let ghost va = a@;
    let ghost vb = b@;
    let ghost vc = c@;
    let ghost vd = d@;
    let ghost ve = e@;
    let r = vec![a, b, c, d, e];
    proof {
        lemma_exprs_v_index(r@);
        assert(r@[0]@ == va);
        assert(r@[1]@ == vb);
        assert(r@[2]@ == vc);
        assert(r@[3]@ == vd);
        assert(r@[4]@ == ve);
        assert(exprs_v(r@) =~= seq![va, vb, vc, vd, ve]);
    }
    r
}

/// The list of these 6 expressions.
pub(crate) fn list6(
    a: Expression,
    b: Expression,
    c: Expression,
    d: Expression,
    e: Expression,
    f: Expression,
) -> (r: Vec<Expression>)
    ensures
        r@.len() == 6,
        exprs_v(r@) == seq![a@, b@, c@, d@, e@, f@],
        expr_wf(a@) && expr_wf(b@) && expr_wf(c@) && expr_wf(d@)
            && expr_wf(e@) && expr_wf(f@) ==> forall|i: int|
            0 <= i < r@.len() ==> #[trigger] expr_wf(r@[i]@),
{
    let ghost va = a@;
    let ghost vb = b@;
    let ghost vc = c@;
    let ghost vd = d@;
    let ghost ve = e@;
    let ghost vf = f@;
    let r = vec![a, b, c, d, e, f];
    proof {
        lemma_exprs_v_index(r@);
        assert(r@[0]@ == va);
        assert(r@[1]@ == vb);
        assert(r@[2]@ == vc);
        assert(r@[3]@ == vd);
        assert(r@[4]@ == ve);
        assert(r@[5]@ == vf);
        assert(exprs_v(r@) =~= seq![va, vb, vc, vd, ve, vf]);
    }
    r
}

/// The list of these 7 expressions.
pub(crate) fn list7(
    a: Expression,
    b: Expression,
    c: Expression,
    d: Expression,
    e: Expression,
    f: Expression,
    g: Expression,
) -> (r: Vec<Expression>)
    ensures
        r@.len() == 7,
        exprs_v(r@) == seq![a@, b@, c@, d@, e@, f@, g@],
        expr_wf(a@) && expr_wf(b@) && expr_wf(c@) && expr_wf(d@)
            && expr_wf(e@) && expr_wf(f@) && expr_wf(g@) ==> forall|i: int|
            0 <= i < r@.len() ==> #[trigger] expr_wf(r@[i]@),
{
    let ghost va = a@;
    let ghost vb = b@;
    let ghost vc = c@;
    let ghost vd = d@;
    let ghost ve = e@;
    let ghost vf = f@;
    let ghost vg = g@;
    let r = vec![a, b, c, d, e, f, g];
    proof {
        lemma_exprs_v_index(r@);
        assert(r@[0]@ == va);
        assert(r@[1]@ == vb);
        assert(r@[2]@ == vc);
        assert(r@[3]@ == vd);
        assert(r@[4]@ == ve);
        assert(r@[5]@ == vf);
        assert(r@[6]@ == vg);
        assert(exprs_v(r@) =~= seq![va, vb, vc, vd, ve, vf, vg]);
    }
    r
}

/// The list of these 8 expressions.
pub(crate) fn list8(
    a: Expression,
    b: Expression,
    c: Expression,
    d: Expression,
    e: Expression,
    f: Expression,
    g: Expression,
    h: Expression,
) -> (r: Vec<Expression>)
    ensures
        r@.len() == 8,
        exprs_v(r@) == seq![a@, b@, c@, d@, e@, f@, g@, h@],
        expr_wf(a@) && expr_wf(b@) && expr_wf(c@) && expr_wf(d@)
            && expr_wf(e@) && expr_wf(f@) && expr_wf(g@) && expr_wf(h@) ==> forall|i: int|
            0 <= i < r@.len() ==> #[trigger] expr_wf(r@[i]@),
{
    let ghost va = a@;
    let ghost vb = b@;
    let ghost vc = c@;
    let ghost vd = d@;
    let ghost ve = e@;
    let ghost vf = f@;
    let ghost vg = g@;
    let ghost vh = h@;
    let r = vec![a, b, c, d, e, f, g, h];
    proof {
        lemma_exprs_v_index(r@);
        assert(r@[0]@ == va);
        assert(r@[1]@ == vb);
        assert(r@[2]@ == vc);
        assert(r@[3]@ == vd);
        assert(r@[4]@ == ve);
        assert(r@[5]@ == vf);
        assert(r@[6]@ == vg);
        assert(r@[7]@ == vh);
        assert(exprs_v(r@) =~= seq![va, vb, vc, vd, ve, vf, vg, vh]);
    }
    r
}

/// The rules of the grammar of PEG grammars, by name.
#[verifier::opaque]
pub open spec fn peg_grammar() -> Map<Seq<char>, ExprV> {
    Map::empty()
        .insert("mod_name"@, peg_rule_mod_name())
        .insert("eol"@, peg_rule_eol())
        .insert("mline_comment"@, peg_rule_mline_comment())
        .insert("error"@, peg_rule_error())
        .insert("atom_or_par"@, peg_rule_atom_or_par())
        .insert("main"@, peg_rule_main())
        .insert("mchars"@, peg_rule_mchars())
        .insert("dot"@, peg_rule_dot())
        .insert("and"@, peg_rule_and())
        .insert("parenth"@, peg_rule_parenth())
        .insert("atom"@, peg_rule_atom())
        .insert("module"@, peg_rule_module())
        .insert("rule_name"@, peg_rule_rule_name())
        .insert("_"@, peg_rule_spacing())
        .insert("grammar"@, peg_rule_grammar())
        .insert("esc_char"@, peg_rule_esc_char())
        .insert("hex_char"@, peg_rule_hex_char())
        .insert("lit_noesc"@, peg_rule_lit_noesc())
        .insert("_'"@, peg_rule_single_quote())
        .insert("rep_or_neg"@, peg_rule_rep_or_neg())
        .insert("lit_esc"@, peg_rule_lit_esc())
        .insert("_eol"@, peg_rule_spacing_eol())
        .insert("match"@, peg_rule_match())
        .insert("or"@, peg_rule_or())
        .insert("_\""@, peg_rule_quote())
        .insert("mbetween"@, peg_rule_mbetween())
        .insert("_1"@, peg_rule_spacing1())
        .insert("rule"@, peg_rule_rule())
        .insert("symbol"@, peg_rule_symbol())
        .insert("literal"@, peg_rule_literal())
        .insert("expr"@, peg_rule_expr())
        .insert("comment"@, peg_rule_comment())
        .insert("line_comment"@, peg_rule_line_comment())
}

/// The rules with which a PEG text is parsed.
pub fn parse_peg() -> (r: SetOfRules)
    ensures
        r@ == peg_grammar(),
        r.wf(),
{
    let rules = SetOfRules::empty();
    proof {
        reveal(peg_grammar);
    }
    let e = symref("symbol");
    proof {
        assert(e@ == peg_rule_mod_name());
    }
    let rules = rules.add("mod_name", e);
    let e = or(list3(lit("\r\n"), lit("\n"), lit("\r")));
    proof {
        assert(e@ == peg_rule_eol());
    }
    let rules = rules.add("eol", e);
    let e = and(list3(lit("/*"), repeat(and(list2(not(lit("*/")), dot())), 0, None), lit("*/")));
    proof {
        assert(e@ == peg_rule_mline_comment());
    }
    let rules = rules.add("mline_comment", e);
    let e = and(list7(
        lit("error"),
        symref("_"),
        lit("("),
        symref("_"),
        symref("literal"),
        symref("_"),
        lit(")"),
    ));
    proof {
        assert(e@ == peg_rule_error());
    }
    let rules = rules.add("error", e);
    let e = or(list2(symref("atom"), symref("parenth")));
    proof {
        assert(e@ == peg_rule_atom_or_par());
    }
    let rules = rules.add("atom_or_par", e);
    let e = symref("grammar");
    proof {
        assert(e@ == peg_rule_main());
    }
    let rules = rules.add("main", e);
    let e = repeat(and(list3(not(lit("]")), not(and(list2(dot(), lit("-")))), dot())), 1, None);
    proof {
        assert(e@ == peg_rule_mchars());
    }
    let rules = rules.add("mchars", e);
    let e = lit(".");
    proof {
        assert(e@ == peg_rule_dot());
    }
    let rules = rules.add("dot", e);
    let e = and(list2(
        symref("rep_or_neg"),
        repeat(
            and(list4(
                symref("_1"),
                symref("_"),
                not(and(list3(symref("rule_name"), symref("_"), lit("=")))),
                symref("and"),
            )),
            0,
            None,
        ),
    ));
    proof {
        assert(e@ == peg_rule_and());
    }
    let rules = rules.add("and", e);
    let e = and(list5(lit("("), symref("_"), symref("expr"), symref("_"), lit(")")));
    proof {
        assert(e@ == peg_rule_parenth());
    }
    let rules = rules.add("parenth", e);
    let e = or(list4(symref("literal"), symref("match"), symref("dot"), symref("rule_name")));
    proof {
        assert(e@ == peg_rule_atom());
    }
    let rules = rules.add("atom", e);
    let e = and(list8(
        symref("_"),
        symref("mod_name"),
        symref("_"),
        lit("{"),
        symref("_"),
        symref("grammar"),
        symref("_"),
        lit("}"),
    ));
    proof {
        assert(e@ == peg_rule_module());
    }
    let rules = rules.add("module", e);
    let e = and(list3(
        repeat(lit("."), 0, Some(1)),
        symref("symbol"),
        repeat(and(list2(lit("."), symref("symbol"))), 0, None),
    ));
    proof {
        assert(e@ == peg_rule_rule_name());
    }
    let rules = rules.add("rule_name", e);
    let e = repeat(or(list3(lit(" "), symref("eol"), symref("comment"))), 0, None);
    proof {
        assert(e@ == peg_rule_spacing());
    }
    let rules = rules.add("_", e);
    let e = repeat(or(list2(symref("rule"), symref("module"))), 1, None);
    proof {
        assert(e@ == peg_rule_grammar());
    }
    let rules = rules.add("grammar", e);
    let e = or(list5(lit("\\r"), lit("\\n"), lit("\\t"), lit("\\\\"), lit("\\\"")));
    proof {
        assert(e@ == peg_rule_esc_char());
    }
    let rules = rules.add("esc_char", e);
    let e = and(list3(
        lit("\\0x"),
        match_ch("", vec![('0', '9'), ('A', 'F')]),
        match_ch("", vec![('0', '9'), ('A', 'F')]),
    ));
    proof {
        assert(e@ == peg_rule_hex_char());
    }
    let rules = rules.add("hex_char", e);
    let e = and(list3(
        symref("_'"),
        repeat(and(list2(not(symref("_'")), dot())), 0, None),
        symref("_'"),
    ));
    proof {
        assert(e@ == peg_rule_lit_noesc());
    }
    let rules = rules.add("lit_noesc", e);
    let e = lit("'");
    proof {
        assert(e@ == peg_rule_single_quote());
    }
    let rules = rules.add("_'", e);
    let e = or(list2(
        and(list2(
            symref("atom_or_par"),
            repeat(or(list3(lit("*"), lit("+"), lit("?"))), 0, Some(1)),
        )),
        and(list2(lit("!"), symref("atom_or_par"))),
    ));
    proof {
        assert(e@ == peg_rule_rep_or_neg());
    }
    let rules = rules.add("rep_or_neg", e);
    let e = and(list3(
        symref("_\""),
        repeat(
            or(list3(
                symref("esc_char"),
                symref("hex_char"),
                and(list2(not(symref("_\"")), dot())),
            )),
            0,
            None,
        ),
        symref("_\""),
    ));
    proof {
        assert(e@ == peg_rule_lit_esc());
    }
    let rules = rules.add("lit_esc", e);
    let e = and(list2(repeat(or(list2(lit(" "), symref("comment"))), 0, None), symref("eol")));
    proof {
        assert(e@ == peg_rule_spacing_eol());
    }
    let rules = rules.add("_eol", e);
    let e = and(list3(
        lit("["),
        or(list2(
            and(list2(symref("mchars"), repeat(symref("mbetween"), 0, None))),
            repeat(symref("mbetween"), 1, None),
        )),
        lit("]"),
    ));
    proof {
        assert(e@ == peg_rule_match());
    }
    let rules = rules.add("match", e);
    let e = and(list2(
        symref("and"),
        repeat(
            and(list4(
                symref("_"),
                lit("/"),
                symref("_"),
                or(list2(symref("error"), symref("or"))),
            )),
            0,
            Some(1),
        ),
    ));
    proof {
        assert(e@ == peg_rule_or());
    }
    let rules = rules.add("or", e);
    let e = lit("\"");
    proof {
        assert(e@ == peg_rule_quote());
    }
    let rules = rules.add("_\"", e);
    let e = and(list3(dot(), lit("-"), dot()));
    proof {
        assert(e@ == peg_rule_mbetween());
    }
    let rules = rules.add("mbetween", e);
    let e = or(list2(lit(" "), symref("eol")));
    proof {
        assert(e@ == peg_rule_spacing1());
    }
    let rules = rules.add("_1", e);
    let e = and(list8(
        symref("_"),
        symref("rule_name"),
        symref("_"),
        lit("="),
        symref("_"),
        symref("expr"),
        symref("_eol"),
        symref("_"),
    ));
    proof {
        assert(e@ == peg_rule_rule());
    }
    let rules = rules.add("rule", e);
    let e = and(list2(
        match_ch("_", vec![('a', 'z'), ('A', 'Z'), ('0', '9')]),
        repeat(match_ch("_'\"", vec![('a', 'z'), ('A', 'Z'), ('0', '9')]), 0, None),
    ));
    proof {
        assert(e@ == peg_rule_symbol());
    }
    let rules = rules.add("symbol", e);
    let e = or(list2(symref("lit_noesc"), symref("lit_esc")));
    proof {
        assert(e@ == peg_rule_literal());
    }
    let rules = rules.add("literal", e);
    let e = symref("or");
    proof {
        assert(e@ == peg_rule_expr());
    }
    let rules = rules.add("expr", e);
    let e = or(list2(symref("line_comment"), symref("mline_comment")));
    proof {
        assert(e@ == peg_rule_comment());
    }
    let rules = rules.add("comment", e);
    let e = and(list3(
        lit("//"),
        repeat(and(list2(not(symref("eol")), dot())), 0, None),
        symref("eol"),
    ));
    proof {
        assert(e@ == peg_rule_line_comment());
    }
    let rules = rules.add("line_comment", e);
    rules
}

/// A char that can begin a rule name: `_`, an ASCII letter or a digit.
pub open spec fn name_start_char(c: char) -> bool {
    c == '_' || ('a' <= c && c <= 'z') || ('A' <= c && c <= 'Z') || ('0' <= c && c <= '9')
}

/// A char that can follow in a rule name: one that can begin it, `'` or
/// `"`.
pub open spec fn name_char(c: char) -> bool {
    name_start_char(c) || c == '\'' || c == '"'
}

/// The letters, either case, and the digits, as ranges.
pub open spec fn alnum_ranges() -> Seq<(char, char)> {
    seq![('a', 'z'), ('A', 'Z'), ('0', '9')]
}

proof fn lemma_alnum(c: char)
    ensures
        (exists|i: int| 0 <= i < alnum_ranges().len() && alnum_ranges()[i].0 <= c && c <= alnum_ranges()[i].1)
            <==> (('a' <= c && c <= 'z') || ('A' <= c && c <= 'Z') || ('0' <= c && c <= '9')),
{
    let r = alnum_ranges();
    assert(r[0] == ('a', 'z') && r[1] == ('A', 'Z') && r[2] == ('0', '9'));
}

/// A char matches `[_a-zA-Z0-9]` exactly when it can begin a rule name.
pub proof fn lemma_name_start_class(c: char)
    ensures
        char_matches("_"@, alnum_ranges(), c) <==> name_start_char(c),
{
    reveal_strlit("_");
    lemma_alnum(c);
    assert("_"@[0] == '_');
    assert("_"@.contains(c) <==> c == '_');
}

proof fn lemma_name_class(c: char)
    ensures
        char_matches("_'\""@, alnum_ranges(), c) <==> name_char(c),
{
    reveal_strlit("_'\"");
    lemma_alnum(c);
    let q = "_'\""@;
    assert(q[0] == '_' && q[1] == '\'' && q[2] == '"');
    assert(q.contains(c) <==> (c == '_' || c == '\'' || c == '"'));
}

/// The rule `symbol` of the grammar of PEG grammars reads a whole rule
/// name: from a cursor where the text holds a char that can begin a name,
/// followed by `k` chars that can follow in one and then by the end of the
/// text or by a char that cannot, it reads those `k + 1` chars and stops
/// (given more than `k` steps).
pub proof fn law_peg_symbol_reads_name(ctx: Ctx, cur: Cursor, k: nat, fuel: nat)
    requires
        ctx.text.len() <= usize::MAX,
        cur.pos.n + 1 + k <= ctx.text.len(),
        name_start_char(ctx.text[cur.pos.n as int]),
        forall|i: int| cur.pos.n + 1 <= i < cur.pos.n + 1 + k ==> name_char(#[trigger] ctx.text[i]),
        cur.pos.n + 1 + k == ctx.text.len() || !name_char(ctx.text[cur.pos.n + 1 + k]),
        fuel > k,
    ensures
        eval(ctx, cur, peg_grammar()["symbol"@], fuel) matches Ok((c, _)) && c.pos.n == cur.pos.n + 1 + k,
{
    reveal(peg_grammar);
    reveal_strlit("symbol");
    reveal_strlit("literal");
    reveal_strlit("expr");
    reveal_strlit("comment");
    reveal_strlit("line_comment");
    assert("symbol"@ != "literal"@ && "symbol"@ != "expr"@ && "symbol"@ != "comment"@ && "symbol"@
        != "line_comment"@) by {
        assert("symbol"@.len() == 6 && "literal"@.len() == 7 && "expr"@.len() == 4);
        assert("comment"@.len() == 7 && "line_comment"@.len() == 12);
    }
    assert(peg_grammar()["symbol"@] == peg_rule_symbol());
    let first = ExprV::Simple(AtomV::Match("_"@, alnum_ranges()));
    let rest = ExprV::Repeat(
        Box::new(ExprV::Simple(AtomV::Match("_'\""@, alnum_ranges()))),
        0,
        None,
    );
    assert(peg_rule_symbol() == ExprV::And(seq![first, rest]));
    lemma_name_start_class(ctx.text[cur.pos.n as int]);
    let r1 = eval(ctx, cur, first, fuel);
    assert(r1 is Ok);
    let (c1, n1) = r1->Ok_0;
    assert(c1.pos.n == cur.pos.n + 1);
    let p = c1.pos.n as int;
    assert forall|i: int| p <= i < p + k implies char_matches("_'\""@, alnum_ranges(), #[trigger] ctx.text[i]) by {
        lemma_name_class(ctx.text[i]);
    }
    if p + k < ctx.text.len() {
        lemma_name_class(ctx.text[p + k]);
    }
    law_repeat_reads_run(ctx, c1, "_'\""@, alnum_ranges(), 0, 0, Seq::empty(), k, fuel);
    let es = seq![first, rest];
    assert(es.drop_first() =~= seq![rest]);
    assert(seq![rest].drop_first() =~= Seq::<ExprV>::empty());
    let r2 = eval(ctx, c1, rest, fuel);
    assert(r2 == crate::parser::expression::eval_rep(ctx, c1, rest, 0, Seq::empty(), fuel));
    assert(r2 is Ok);
    let (c2, n2) = r2->Ok_0;
    assert(c2.pos.n == cur.pos.n + 1 + k);
    assert(crate::parser::expression::eval_and(ctx, c2, Seq::<ExprV>::empty(), fuel) is Ok);
    assert(crate::parser::expression::eval_and(ctx, c1, seq![rest], fuel) matches Ok((c, _)) && c == c2);
    assert(crate::parser::expression::eval_and(ctx, cur, es, fuel) matches Ok((c, _)) && c == c2);
}

} // verus!
