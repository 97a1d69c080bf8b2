//! Rust source code that builds a set of rules with the crate's
//! constructor functions (`lit`, `and`, `or`, `repeat`...), written in the
//! style of a rules table: `r#"name"# => expression`.

use vstd::prelude::*;

use crate::parser::atom::{Atom, AtomV, MatchRules};
use crate::parser::expression::{
    exprs_v, lemma_exprs_v_index, ExprV, Expression, MultiExpr, RepInfo, SetOfRules,
};
use crate::text::{char_to_string, concat, decimal, digit_char, usize_to_string};

verus! {

/// How one char of a literal is written in the generated code.
pub open spec fn escape_char(c: char) -> Seq<char> {
    if c == '\\' {
        "\\\\"@
    } else if c == '\n' {
        "\\n"@
    } else if c == '\r' {
        "\\r"@
    } else if c == '\t' {
        "\\t"@
    } else if c == '"' {
        "\\\""@
    } else {
        seq![c]
    }
}

/// A literal with its backslashes, newlines, carriage returns, tabs and
/// double quotes escaped, as a Rust string literal writes them.
pub open spec fn replace_esc(s: Seq<char>) -> Seq<char>
    decreases s.len(),
{
    if s.len() == 0 {
        Seq::empty()
    } else {
        replace_esc(s.drop_last()) + escape_char(s.last())
    }
}

/// The code of a list of ranges.
pub open spec fn bounds_code(pairs: Seq<(char, char)>) -> Seq<char>
    decreases pairs.len(),
{
    if pairs.len() == 0 {
        Seq::empty()
    } else {
        ", from '"@ + seq![pairs[0].0] + "', to '"@ + seq![pairs[0].1] + "' "@ + bounds_code(pairs.drop_first())
    }
}

/// The code of an atom.
pub open spec fn atom_code(a: AtomV) -> Seq<char> {
    match a {
        AtomV::Literal(s) => "lit!(\""@ + replace_esc(s) + "\")"@,
        AtomV::Error(s) => "error!(\""@ + replace_esc(s) + "\")"@,
        AtomV::Match(chars, pairs) => "ematch!(chlist r#\""@ + chars + "\"#  "@ + bounds_code(pairs) + ")"@,
        AtomV::Dot => "dot!()"@,
        AtomV::EOF => "eof!()"@,
    }
}

/// The code of an expression.
pub open spec fn expr_code(e: ExprV) -> Seq<char>
    decreases e, 1nat,
{
    match e {
        ExprV::Simple(a) => atom_code(a),
        ExprV::And(es) => "and!("@ + mexpr_code(es) + ")"@,
        ExprV::Or(es) => "or!("@ + mexpr_code(es) + ")"@,
        ExprV::Not(b) => "not!("@ + expr_code(*b) + ")"@,
        ExprV::Repeat(b, min, max) => "rep!("@ + expr_code(*b) + ", "@ + decimal(min as nat) + match max {
            Some(m) => ", "@ + decimal(m as nat),
            None => Seq::empty(),
        } + ")"@,
        ExprV::RuleName(n) => "ref_rule!(r#\""@ + n + "\"#)"@,
    }
}

/// The codes of a list of expressions, separated by `, `.
pub open spec fn mexpr_code(es: Seq<ExprV>) -> Seq<char>
    decreases es, 0nat,
{
    if es.len() == 0 {
        Seq::empty()
    } else {
        let acc = mexpr_code(es.drop_last());
        if acc.len() == 0 {
            expr_code(es.last())
        } else {
            acc + ", "@ + expr_code(es.last())
        }
    }
}

/// The code of one rule.
pub open spec fn rule_code(name: Seq<char>, e: ExprV) -> Seq<char> {
    "r#\""@ + name + "\"# => "@ + expr_code(e)
}

/// The code of the rules of a list, one per line.
pub open spec fn rules_code(rules: Seq<(String, Expression)>) -> Seq<char>
    decreases rules.len(),
{
    if rules.len() == 0 {
        Seq::empty()
    } else {
        let acc = rules_code(rules.drop_last());
        let begin = if acc.len() == 0 { "  "@ } else { ", "@ };
        acc + "\n       "@ + begin + rule_code(rules.last().0@, rules.last().1@)
    }
}

fn replace_esc_exec(s: &str) -> (r: String)
    ensures
        r@ == replace_esc(s@),
{
    let cs = crate::text::chars_of(s);
    let mut r = String::new();
    let mut i: usize = 0;
    while i < cs.len()
        invariant
            cs@ == s@,
            i <= cs@.len(),
            r@ == replace_esc(cs@.take(i as int)),
        decreases cs@.len() - i,
    {
        let c = cs[i];
        if c == '\\' {
            r.append("\\\\");
        } else if c == '\n' {
            r.append("\\n");
        } else if c == '\r' {
            r.append("\\r");
        } else if c == '\t' {
            r.append("\\t");
        } else if c == '"' {
            r.append("\\\"");
        } else {
            let one = char_to_string(c);
            r.append(one.as_str());
        }
        proof {
            assert(cs@.take(i + 1).drop_last() =~= cs@.take(i as int));
            assert(cs@.take(i + 1).last() == c);
        }
        i = i + 1;
    }
    proof {
        assert(cs@.take(cs@.len() as int) =~= cs@);
    }
    r
}

fn bounds2code(bounds: &[(char, char)]) -> (r: String)
    ensures
        r@ == bounds_code(bounds@),
    decreases bounds@.len(),
{
    if bounds.len() == 0 {
        String::new()
    } else {
        let (f, t) = bounds[0];
        let (_, rest) = bounds.split_at(1);
        assert(rest@ =~= bounds@.drop_first());
        let tail = bounds2code(rest);
        let mut s = concat(", from '", char_to_string(f).as_str());
        s.append("', to '");
        s.append(char_to_string(t).as_str());
        s.append("' ");
        s.append(tail.as_str());
        s
    }
}

fn match_rules2code(mrules: &MatchRules) -> (r: String)
    ensures
        r@ == atom_code(AtomV::Match(mrules.0@, mrules.1@)),
{
    let mut s = concat("ematch!(chlist r#\"", mrules.0.as_str());
    s.append("\"#  ");
    s.append(bounds2code(mrules.1.as_slice()).as_str());
    s.append(")");
    s
}

fn atom2code(atom: &Atom) -> (r: String)
    ensures
        r@ == atom_code(atom@),
{
    match atom {
        Atom::Literal(s) => {
            let mut r = concat("lit!(\"", replace_esc_exec(s.as_str()).as_str());
            r.append("\")");
            r
        },
        Atom::Error(s) => {
            let mut r = concat("error!(\"", replace_esc_exec(s.as_str()).as_str());
            r.append("\")");
            r
        },
        Atom::Match(mrules) => match_rules2code(mrules),
        Atom::Dot => "dot!()".to_owned(),
        Atom::EOF => "eof!()".to_owned(),
    }
}

fn repeat2code(rep: &RepInfo) -> (r: String)
    ensures
        r@ == expr_code(Expression::Repeat(*rep)@),
    decreases rep, 0nat,
{
    proof {
        assert(decreases_to!(rep => rep.expression));
    }
    let mut s = concat("rep!(", expr2code(&rep.expression).as_str());
    s.append(", ");
    s.append(usize_to_string(rep.min.0).as_str());
    match &rep.max {
        Some(m) => {
            s.append(", ");
            s.append(usize_to_string(m.0).as_str());
        },
        None => {},
    }
    s.append(")");
    s
}

fn mexpr2code(mexpr: &MultiExpr) -> (r: String)
    ensures
        r@ == mexpr_code(exprs_v(mexpr.0@)),
    decreases mexpr, 0nat,
{
    let ghost es = exprs_v(mexpr.0@);
    let mut acc = String::new();
    let mut i: usize = 0;
    proof {
        lemma_exprs_v_index(mexpr.0@);
        assert(es.take(0) =~= Seq::<ExprV>::empty());
    }
    while i < mexpr.0.len()
        invariant
            i <= mexpr.0@.len(),
            es == exprs_v(mexpr.0@),
            es.len() == mexpr.0@.len(),
            forall|j: int| 0 <= j < mexpr.0@.len() ==> #[trigger] es[j] == mexpr.0@[j]@,
            acc@ == mexpr_code(es.take(i as int)),
        decreases mexpr.0@.len() - i,
    {
        proof {
            assert(decreases_to!(mexpr => mexpr.0));
            assert(decreases_to!(mexpr.0 => mexpr.0@));
            assert(decreases_to!(mexpr.0@ => mexpr.0@[i as int]));
            assert(es.take(i + 1).drop_last() =~= es.take(i as int));
            assert(es.take(i + 1).last() == es[i as int]);
        }
        let code = expr2code(&mexpr.0[i]);
        if acc.as_str().is_empty() {
            acc = code;
        } else {
            acc.append(", ");
            acc.append(code.as_str());
        }
        i = i + 1;
    }
    proof {
        assert(es.take(es.len() as int) =~= es);
    }
    acc
}

fn expr2code(expr: &Expression) -> (r: String)
    ensures
        r@ == expr_code(expr@),
    decreases expr, 1nat,
{
    match expr {
        Expression::Simple(atom) => atom2code(atom),
        Expression::And(mexpr) => {
            let mut s = concat("and!(", mexpr2code(mexpr).as_str());
            s.append(")");
            s
        },
        Expression::Or(mexpr) => {
            let mut s = concat("or!(", mexpr2code(mexpr).as_str());
            s.append(")");
            s
        },
        Expression::Not(e) => {
            let mut s = concat("not!(", expr2code(e).as_str());
            s.append(")");
            s
        },
        Expression::Repeat(rep) => repeat2code(rep),
        Expression::RuleName(rname) => {
            let mut s = concat("ref_rule!(r#\"", rname.as_str());
            s.append("\"#)");
            s
        },
    }
}

fn rule2code(name: &str, expr: &Expression) -> (r: String)
    ensures
        r@ == rule_code(name@, expr@),
{
    let mut s = concat("r#\"", name);
    s.append("\"# => ");
    s.append(expr2code(expr).as_str());
    s
}

/// Rust code building the rules of `rules`, one rule per line, in the
/// order in which the set holds them.
pub fn rust_from_rules(rules: &SetOfRules) -> (r: String)
    ensures
        r@ == rules_code(rules.0@),
{
    let mut acc = String::new();
    let mut i: usize = 0;
    proof {
        assert(rules.0@.take(0) =~= Seq::<(String, Expression)>::empty());
    }
    while i < rules.0.len()
        invariant
            i <= rules.0@.len(),
            acc@ == rules_code(rules.0@.take(i as int)),
        decreases rules.0@.len() - i,
    {
        proof {
            assert(rules.0@.take(i + 1).drop_last() =~= rules.0@.take(i as int));
            assert(rules.0@.take(i + 1).last() == rules.0@[i as int]);
        }
        let rule = rule2code(rules.0[i].0.as_str(), &rules.0[i].1);
        let begin = if acc.as_str().is_empty() { "  " } else { ", " };
        acc.append("\n       ");
        acc.append(begin);
        acc.append(rule.as_str());
        i = i + 1;
    }
    proof {
        assert(rules.0@.take(rules.0@.len() as int) =~= rules.0@);
    }
    acc
}

/// A decimal digit.
pub open spec fn is_digit(c: char) -> bool {
    '0' <= c && c <= '9'
}

proof fn lemma_digit_char(d: nat)
    requires
        d < 10,
    ensures
        is_digit(digit_char(d)),
        forall|e: nat| e < 10 && #[trigger] digit_char(e) == digit_char(d) ==> e == d,
{
}

/// The decimal writing of a number is made of digits only, and at least one.
pub proof fn lemma_decimal_digits(n: nat)
    ensures
        decimal(n).len() >= 1,
        forall|i: int| 0 <= i < decimal(n).len() ==> is_digit(#[trigger] decimal(n)[i]),
    decreases n,
{
    if n < 10 {
        lemma_digit_char(n);
    } else {
        lemma_decimal_digits(n / 10);
        lemma_digit_char(n % 10);
        assert forall|i: int| 0 <= i < decimal(n).len() implies is_digit(#[trigger] decimal(n)[i]) by {
            if i < decimal(n / 10).len() {
                assert(decimal(n)[i] == decimal(n / 10)[i]);
            }
        }
    }
}

/// Different numbers are written differently.
pub proof fn lemma_decimal_injective(a: nat, b: nat)
    requires
        decimal(a) == decimal(b),
    ensures
        a == b,
    decreases a,
{
    if a < 10 && b < 10 {
        lemma_digit_char(a);
        lemma_digit_char(b);
        assert(decimal(a)[0] == digit_char(a));
        assert(decimal(b)[0] == digit_char(b));
    } else if a < 10 {
        lemma_decimal_digits(b / 10);
        assert(decimal(b).len() >= 2);
    } else if b < 10 {
        lemma_decimal_digits(a / 10);
        assert(decimal(a).len() >= 2);
    } else {
        assert(decimal(a).last() == digit_char(a % 10));
        assert(decimal(b).last() == digit_char(b % 10));
        lemma_digit_char(a % 10);
        lemma_digit_char(b % 10);
        assert(decimal(a).drop_last() =~= decimal(a / 10));
        assert(decimal(b).drop_last() =~= decimal(b / 10));
        lemma_decimal_injective(a / 10, b / 10);
        assert(a % 10 == b % 10);
        assert(a == 10 * (a / 10) + a % 10);
        assert(b == 10 * (b / 10) + b % 10);
    }
}

/// The part of the code of a repetition after its minimum.
pub open spec fn max_code(max: Option<usize>) -> Seq<char> {
    match max {
        Some(m) => ", "@ + decimal(m as nat),
        None => Seq::empty(),
    }
}

proof fn lemma_bounds_code(min1: nat, max1: Option<usize>, min2: nat, max2: Option<usize>)
    requires
        decimal(min1) + max_code(max1) + ")"@ == decimal(min2) + max_code(max2) + ")"@,
    ensures
        min1 == min2,
        max1 == max2,
{
    reveal_strlit(")");
    reveal_strlit(", ");
    let x1 = decimal(min1) + max_code(max1) + ")"@;
    let x2 = decimal(min2) + max_code(max2) + ")"@;
    let d1 = decimal(min1).len();
    let d2 = decimal(min2).len();
    lemma_decimal_digits(min1);
    lemma_decimal_digits(min2);
    if d1 < d2 {
        assert(x2[d1 as int] == decimal(min2)[d1 as int]);
        assert(is_digit(x2[d1 as int]));
        assert(!is_digit(x1[d1 as int]));
    } else if d2 < d1 {
        assert(x1[d2 as int] == decimal(min1)[d2 as int]);
        assert(is_digit(x1[d2 as int]));
        assert(!is_digit(x2[d2 as int]));
    }
    assert(d1 == d2);
    assert(decimal(min1) =~= x1.take(d1 as int));
    assert(decimal(min2) =~= x2.take(d1 as int));
    lemma_decimal_injective(min1, min2);
    let t1 = max_code(max1);
    let t2 = max_code(max2);
    assert(t1 =~= x1.subrange(d1 as int, x1.len() - 1));
    assert(t2 =~= x2.subrange(d1 as int, x2.len() - 1));
    match (max1, max2) {
        (Some(m1), Some(m2)) => {
            assert(decimal(m1 as nat) =~= t1.skip(2));
            assert(decimal(m2 as nat) =~= t2.skip(2));
            lemma_decimal_injective(m1 as nat, m2 as nat);
        },
        (Some(m1), None) => {
            assert(t1.len() >= 2);
        },
        (None, Some(m2)) => {
            assert(t2.len() >= 2);
        },
        (None, None) => {},
    }
}

/// The code of a repetition tells its bounds: two repetitions of the same
/// expression have the same code only when they have the same minimum and
/// the same maximum (or both have none).
pub proof fn law_repeat_code_keeps_bounds(
    b: ExprV,
    min1: usize,
    max1: Option<usize>,
    min2: usize,
    max2: Option<usize>,
)
    requires
        expr_code(ExprV::Repeat(Box::new(b), min1, max1)) == expr_code(
            ExprV::Repeat(Box::new(b), min2, max2),
        ),
    ensures
        min1 == min2,
        max1 == max2,
{
    let p = "rep!("@ + expr_code(b) + ", "@;
    let x1 = decimal(min1 as nat) + max_code(max1) + ")"@;
    let x2 = decimal(min2 as nat) + max_code(max2) + ")"@;
    assert(expr_code(ExprV::Repeat(Box::new(b), min1, max1)) =~= p + x1);
    assert(expr_code(ExprV::Repeat(Box::new(b), min2, max2)) =~= p + x2);
    assert(x1 =~= (p + x1).skip(p.len() as int));
    assert(x2 =~= (p + x2).skip(p.len() as int));
    lemma_bounds_code(min1 as nat, max1, min2 as nat, max2);
}

} // verus!
