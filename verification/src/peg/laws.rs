//! What reading a PEG tree into rules gives on a whole grammar.

use vstd::prelude::*;

use crate::ast::flat::{flatten_v, FlatV};
use crate::ast::{compact_v, prune_v};
use crate::parse_result;
use crate::parser::atom::AtomV;
use crate::parser::expression::ExprV;
use crate::peg::model::{
    spec_consume_and, spec_consume_atom, spec_consume_atom_or_par, spec_consume_grammar,
    spec_consume_literal_expr, spec_consume_literal_no_esc, spec_consume_literal_string,
    spec_consume_main, spec_consume_or, spec_consume_peg_expr, spec_consume_rep_or_neg,
    spec_consume_rule, spec_consume_rule_name, spec_consume_single_quote, spec_consume_symbol,
    spec_dot_or_empty, spec_rec_consume_and, spec_rec_consume_dot_symbol, spec_rec_consume_or,
    spec_rec_consume_rules_or_modules, spec_rules_from_flat, PegErrV, Step,
};
use crate::peg::gcode::escape_char;
use crate::peg::model::unescaped;
use crate::peg::rules::peg_grammar;
use crate::peg::{peg_rules_result, spacing_rules};

verus! {

/// The node `n` followed by the nodes `t`.
pub open spec fn cons(n: FlatV, t: Seq<FlatV>) -> Seq<FlatV> {
    seq![n] + t
}

/// A node that begins rule `nm`, then `t`.
pub open spec fn begin(nm: Seq<char>, t: Seq<FlatV>) -> Seq<FlatV> {
    cons(FlatV::BeginRule(nm), t)
}

/// A node that ends rule `nm`, then `t`.
pub open spec fn end(nm: Seq<char>, t: Seq<FlatV>) -> Seq<FlatV> {
    cons(FlatV::EndRule(nm), t)
}

/// A value node holding `v`, then `t`.
pub open spec fn val(v: Seq<char>, t: Seq<FlatV>) -> Seq<FlatV> {
    cons(FlatV::Val(v), t)
}

/// The nodes of `_'`, then `t`.
pub open spec fn quote_nodes(t: Seq<FlatV>) -> Seq<FlatV> {
    begin("_'"@, val("'"@, end("_'"@, t)))
}

/// The nodes of the single quoted literal `'text'`, then `t`.
pub open spec fn literal_nodes(text: Seq<char>, t: Seq<FlatV>) -> Seq<FlatV> {
    begin(
        "literal"@,
        begin(
            "lit_noesc"@,
            quote_nodes(val(text, quote_nodes(end("lit_noesc"@, end("literal"@, t))))),
        ),
    )
}

/// The nodes of the expression `'text'`, down from `expr`, then `t`.
pub open spec fn expr_nodes(text: Seq<char>, t: Seq<FlatV>) -> Seq<FlatV> {
    begin(
        "expr"@,
        begin(
            "or"@,
            begin(
                "and"@,
                begin(
                    "rep_or_neg"@,
                    begin(
                        "atom_or_par"@,
                        begin(
                            "atom"@,
                            literal_nodes(
                                text,
                                end(
                                    "atom"@,
                                    end(
                                        "atom_or_par"@,
                                        end("rep_or_neg"@, end("and"@, end("or"@, end("expr"@, t)))),
                                    ),
                                ),
                            ),
                        ),
                    ),
                ),
            ),
        ),
    )
}

/// The nodes of the rule `name = 'text'`, then `t`.
pub open spec fn rule_nodes(name: Seq<char>, text: Seq<char>, t: Seq<FlatV>) -> Seq<FlatV> {
    begin(
        "rule"@,
        begin(
            "rule_name"@,
            begin(
                "symbol"@,
                val(
                    name,
                    end("symbol"@, end("rule_name"@, val("="@, expr_nodes(text, end("rule"@, t))))),
                ),
            ),
        ),
    )
}

/// The flat nodes of the PEG tree of the one-rule grammar `name = 'text'`,
/// once compacted and with its spacing pruned.
pub open spec fn one_literal_rule(name: Seq<char>, text: Seq<char>) -> Seq<FlatV> {
    begin("main"@, begin("grammar"@, rule_nodes(name, text, end("grammar"@, end("main"@, seq![])))))
}

proof fn lemma_cons(n: FlatV, t: Seq<FlatV>)
    ensures
        cons(n, t).len() == t.len() + 1,
        cons(n, t)[0] == n,
        cons(n, t).drop_first() == t,
{
    assert(cons(n, t).drop_first() =~= t);
}

proof fn lemma_quote(t: Seq<FlatV>)
    ensures
        spec_consume_single_quote(quote_nodes(t)) == Ok::<Seq<FlatV>, PegErrV>(t),
{
    lemma_cons(FlatV::EndRule("_'"@), t);
    lemma_cons(FlatV::Val("'"@), end("_'"@, t));
    lemma_cons(FlatV::BeginRule("_'"@), val("'"@, end("_'"@, t)));
}

proof fn lemma_literal(text: Seq<char>, t: Seq<FlatV>)
    ensures
        spec_consume_literal_expr(literal_nodes(text, t)) == Ok::<(ExprV, Seq<FlatV>), PegErrV>(
            (ExprV::Simple(AtomV::Literal(text)), t),
        ),
{
    let t1 = end("literal"@, t);
    let t2 = end("lit_noesc"@, t1);
    let t3 = quote_nodes(t2);
    let t4 = val(text, t3);
    let t5 = quote_nodes(t4);
    let t6 = begin("lit_noesc"@, t5);
    lemma_cons(FlatV::EndRule("literal"@), t);
    lemma_cons(FlatV::EndRule("lit_noesc"@), t1);
    lemma_cons(FlatV::Val(text), t3);
    lemma_cons(FlatV::BeginRule("lit_noesc"@), t5);
    lemma_cons(FlatV::BeginRule("literal"@), t6);
    lemma_quote(t2);
    lemma_quote(t4);
    lemma_cons(FlatV::BeginRule("_'"@), val("'"@, end("_'"@, t4)));
    assert(spec_consume_literal_no_esc(t6) == Ok::<(Seq<char>, Seq<FlatV>), PegErrV>((text, t1)));
    assert(spec_consume_literal_string(literal_nodes(text, t)) == Ok::<
        (Seq<char>, Seq<FlatV>),
        PegErrV,
    >((text, t)));
}

proof fn lemma_expr(text: Seq<char>, t: Seq<FlatV>)
    ensures
        spec_consume_peg_expr(expr_nodes(text, t)) == Ok::<(ExprV, Seq<FlatV>), PegErrV>(
            (ExprV::Simple(AtomV::Literal(text)), t),
        ),
{
    let lit = ExprV::Simple(AtomV::Literal(text));
    let e1 = end("expr"@, t);
    let e2 = end("or"@, e1);
    let e3 = end("and"@, e2);
    let e4 = end("rep_or_neg"@, e3);
    let e5 = end("atom_or_par"@, e4);
    let e6 = end("atom"@, e5);
    let b6 = literal_nodes(text, e6);
    let b5 = begin("atom"@, b6);
    let b4 = begin("atom_or_par"@, b5);
    let b3 = begin("rep_or_neg"@, b4);
    let b2 = begin("and"@, b3);
    let b1 = begin("or"@, b2);
    lemma_cons(FlatV::EndRule("expr"@), t);
    lemma_cons(FlatV::EndRule("or"@), e1);
    lemma_cons(FlatV::EndRule("and"@), e2);
    lemma_cons(FlatV::EndRule("rep_or_neg"@), e3);
    lemma_cons(FlatV::EndRule("atom_or_par"@), e4);
    lemma_cons(FlatV::EndRule("atom"@), e5);
    lemma_cons(FlatV::BeginRule("literal"@), begin("lit_noesc"@, quote_nodes(val(text, quote_nodes(end("lit_noesc"@, end("literal"@, e6)))))));
    lemma_cons(FlatV::BeginRule("atom"@), b6);
    lemma_cons(FlatV::BeginRule("atom_or_par"@), b5);
    lemma_cons(FlatV::BeginRule("rep_or_neg"@), b4);
    lemma_cons(FlatV::BeginRule("and"@), b3);
    lemma_cons(FlatV::BeginRule("or"@), b2);
    lemma_cons(FlatV::BeginRule("expr"@), b1);
    lemma_literal(text, e6);
    assert(spec_consume_atom(b5) == Ok::<(ExprV, Seq<FlatV>), PegErrV>((lit, e5)));
    assert(spec_consume_atom_or_par(b4) == Ok::<(ExprV, Seq<FlatV>), PegErrV>((lit, e4)));
    assert(spec_consume_rep_or_neg(b3) == Ok::<(ExprV, Seq<FlatV>), PegErrV>((lit, e3)));
    reveal_strlit("rep_or_neg");
    reveal_strlit("error");
    assert(Seq::<ExprV>::empty().push(lit) =~= seq![lit]);
    assert(spec_rec_consume_and(Seq::empty(), b2) == Ok::<(Seq<ExprV>, Seq<FlatV>), PegErrV>((seq![lit], e2)));
    assert(spec_consume_and(b2) == Ok::<(ExprV, Seq<FlatV>), PegErrV>((lit, e2)));
    assert(spec_rec_consume_or(Seq::empty(), b1) == Ok::<(Seq<ExprV>, Seq<FlatV>), PegErrV>((seq![lit], e1)));
    assert(spec_consume_or(b1) == Ok::<(ExprV, Seq<FlatV>), PegErrV>((lit, e1)));
}

proof fn lemma_rule(name: Seq<char>, text: Seq<char>, t: Seq<FlatV>)
    ensures
        spec_consume_rule(rule_nodes(name, text, t)) == Ok::<
            ((Seq<char>, ExprV), Seq<FlatV>),
            PegErrV,
        >(((name, ExprV::Simple(AtomV::Literal(text))), t)),
{
    let lit = ExprV::Simple(AtomV::Literal(text));
    let r1 = end("rule"@, t);
    let r2 = expr_nodes(text, r1);
    let r3 = val("="@, r2);
    let r4 = end("rule_name"@, r3);
    let r5 = end("symbol"@, r4);
    let r6 = val(name, r5);
    let r7 = begin("symbol"@, r6);
    let r8 = begin("rule_name"@, r7);
    lemma_cons(FlatV::EndRule("rule"@), t);
    lemma_cons(FlatV::BeginRule("expr"@), begin("or"@, begin("and"@, begin("rep_or_neg"@, begin("atom_or_par"@, begin("atom"@, literal_nodes(text, end("atom"@, end("atom_or_par"@, end("rep_or_neg"@, end("and"@, end("or"@, end("expr"@, r1)))))))))))));
    lemma_cons(FlatV::Val("="@), r2);
    lemma_cons(FlatV::EndRule("rule_name"@), r3);
    lemma_cons(FlatV::EndRule("symbol"@), r4);
    lemma_cons(FlatV::Val(name), r5);
    lemma_cons(FlatV::BeginRule("symbol"@), r6);
    lemma_cons(FlatV::BeginRule("rule_name"@), r7);
    lemma_cons(FlatV::BeginRule("rule"@), r8);
    lemma_expr(text, r1);
    assert(spec_consume_symbol(r7) == Ok::<(Seq<char>, Seq<FlatV>), PegErrV>((name, r4)));
    assert(spec_dot_or_empty(r7) == Ok::<(Seq<char>, Seq<FlatV>), PegErrV>((Seq::empty(), r7)));
    assert(spec_rec_consume_dot_symbol(Seq::empty(), r4) == Ok::<(Seq<char>, Seq<FlatV>), PegErrV>(
        (Seq::empty(), r4),
    ));
    assert(Seq::<char>::empty() + name + Seq::<char>::empty() =~= name);
    assert(spec_consume_rule_name(r8) == Ok::<(Seq<char>, Seq<FlatV>), PegErrV>((name, r3)));
}

/// Reading the tree of the grammar `name = 'text'` gives the single rule
/// `name`, whose expression is the literal `text`, taken as it is.
pub proof fn law_one_literal_rule(name: Seq<char>, text: Seq<char>)
    ensures
        spec_rules_from_flat(one_literal_rule(name, text)) == Ok::<
            Map<Seq<char>, ExprV>,
            PegErrV,
        >(Map::empty().insert(name, ExprV::Simple(AtomV::Literal(text)))),
{
    let lit = ExprV::Simple(AtomV::Literal(text));
    let m = Map::<Seq<char>, ExprV>::empty().insert(name, lit);
    let m1: Seq<FlatV> = seq![];
    let m2 = end("main"@, m1);
    let m3 = end("grammar"@, m2);
    let m4 = rule_nodes(name, text, m3);
    let m5 = begin("grammar"@, m4);
    lemma_cons(FlatV::EndRule("main"@), m1);
    lemma_cons(FlatV::EndRule("grammar"@), m2);
    lemma_cons(FlatV::BeginRule("rule"@), begin("rule_name"@, begin("symbol"@, val(name, end("symbol"@, end("rule_name"@, val("="@, expr_nodes(text, end("rule"@, m3)))))))));
    lemma_cons(FlatV::BeginRule("grammar"@), m4);
    lemma_cons(FlatV::BeginRule("main"@), m5);
    lemma_rule(name, text, m3);
    assert(spec_rec_consume_rules_or_modules(m, m3) == Step::<Map<Seq<char>, ExprV>>::Ok((m, m3)));
    assert(spec_rec_consume_rules_or_modules(Map::empty(), m4) == Step::<Map<Seq<char>, ExprV>>::Ok(
        (m, m3),
    ));
    assert(spec_consume_grammar(m5) == Step::<Map<Seq<char>, ExprV>>::Ok((m, m2)));
    assert(spec_consume_main(one_literal_rule(name, text)) == Step::<Map<Seq<char>, ExprV>>::Ok(
        (m, m1),
    ));
}

/// A PEG text whose tree, once compacted and pruned of spacing, is that of
/// the grammar `name = 'text'` gives the single rule `name`, the literal
/// `text`.
pub proof fn law_one_literal_rule_text(peg: Seq<char>, name: Seq<char>, text: Seq<char>)
    requires
        parse_result(peg, peg_grammar()) matches Ok(tree) && flatten_v(
            prune_v(compact_v(tree), spacing_rules()),
        ) == one_literal_rule(name, text),
    ensures
        peg_rules_result(peg) == Ok::<Map<Seq<char>, ExprV>, PegErrV>(
            Map::empty().insert(name, ExprV::Simple(AtomV::Literal(text))),
        ),
{
    law_one_literal_rule(name, text);
}

/// Escape sequences of double quoted literals read back as the chars that
/// the generated code writes with them: a char written as an escape
/// sequence is read back from it, and every escape sequence that reads as
/// some text reads as a single char, written with that very sequence.
pub proof fn law_unescape_inverts_escape(c: char, v: Seq<char>)
    ensures
        escape_char(c) != seq![c] ==> unescaped(escape_char(c)) == Some(seq![c]),
        unescaped(v) matches Some(s) ==> s.len() == 1 && escape_char(s[0]) == v,
{
    reveal_strlit("\\r");
    reveal_strlit("\\n");
    reveal_strlit("\\t");
    reveal_strlit("\\\\");
    reveal_strlit("\\\"");
    reveal_strlit("\r");
    reveal_strlit("\n");
    reveal_strlit("\t");
    reveal_strlit("\\");
    reveal_strlit("\"");
    assert("\\r"@ =~= seq!['\\', 'r']);
    assert("\\n"@ =~= seq!['\\', 'n']);
    assert("\\t"@ =~= seq!['\\', 't']);
    assert("\\\\"@ =~= seq!['\\', '\\']);
    assert("\\\""@ =~= seq!['\\', '"']);
    assert("\r"@ =~= seq!['\r']);
    assert("\n"@ =~= seq!['\n']);
    assert("\t"@ =~= seq!['\t']);
    assert("\\"@ =~= seq!['\\']);
    assert("\""@ =~= seq!['"']);
}

} // verus!
