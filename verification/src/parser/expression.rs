//! Expressions made of atoms, and the rules that name them.

use vstd::prelude::*;

use crate::ast::{Node, NodeV};
use crate::ast::nodes_v;
use crate::parser::atom::{
    atom_mut, char_matches, eval_atom, eval_literal, get_char, read_literal, same_ctx, Atom, AtomV,
};
use crate::parser::{err_at, opt_error_v, Ctx, Cursor, Error, ErrorV, Possition, Status};
use crate::text::str_eq;

verus! {

/// An expression of the grammar.
#[derive(Debug)]
pub enum Expression {
    Simple(Atom),
    And(MultiExpr),
    Or(MultiExpr),
    Not(Box<Expression>),
    Repeat(RepInfo),
    RuleName(String),
}

/// A list of sub-expressions (for `And` and `Or`).
#[derive(Debug)]
pub struct MultiExpr(pub Vec<Expression>);

impl MultiExpr {
    /// A multi-expression from a vector.
    pub fn new(v: Vec<Expression>) -> (r: Self)
        ensures
            r.0 == v,
    {
        MultiExpr(v)
    }
}

/// A repeated sub-expression with its bounds.
#[derive(Debug)]
pub struct RepInfo {
    pub expression: Box<Expression>,
    pub min: NRep,
    pub max: Option<NRep>,
}

impl RepInfo {
    /// Repetition of `expression`, at least `min` times and, when
    /// `max` is given, stopping once `max` repetitions matched.
    pub fn new(expression: Box<Expression>, min: usize, max: Option<usize>) -> (r: Self)
        ensures
            r.expression == expression,
            r.min.0 == min,
            r.max == (match max {
                Some(m) => Some(NRep(m)),
                None => None::<NRep>,
            }),
    {
        RepInfo {
            expression,
            min: NRep(min),
            max: match max {
                Some(m) => Some(NRep(m)),
                None => None,
            },
        }
    }
}

/// A number of repetitions.
#[derive(Debug)]
pub struct NRep(pub usize);

/// The mathematical value of an [`Expression`].
#[verifier::ext_equal]
pub enum ExprV {
    Simple(AtomV),
    And(Seq<ExprV>),
    Or(Seq<ExprV>),
    Not(Box<ExprV>),
    /// sub-expression, minimum, optional maximum
    Repeat(Box<ExprV>, usize, Option<usize>),
    RuleName(Seq<char>),
}

/// The value of one expression.
pub open spec fn expr_v(e: Expression) -> ExprV
    decreases e,
{
    match e {
        Expression::Simple(a) => ExprV::Simple(a@),
        Expression::And(me) => ExprV::And(exprs_v(me.0@)),
        Expression::Or(me) => ExprV::Or(exprs_v(me.0@)),
        Expression::Not(b) => ExprV::Not(Box::new(expr_v(*b))),
        Expression::Repeat(ri) => ExprV::Repeat(
            Box::new(expr_v(*ri.expression)),
            ri.min.0,
            match ri.max {
                Some(m) => Some(m.0),
                None => None,
            },
        ),
        Expression::RuleName(n) => ExprV::RuleName(n@),
    }
}

/// The values of a sequence of expressions.
pub open spec fn exprs_v(es: Seq<Expression>) -> Seq<ExprV>
    decreases es,
{
    if es.len() == 0 {
        Seq::empty()
    } else {
        exprs_v(es.drop_last()).push(expr_v(es.last()))
    }
}

impl View for Expression {
    type V = ExprV;

    open spec fn view(&self) -> ExprV {
        expr_v(*self)
    }
}

/// The values of a sequence of expressions, element by element.
pub proof fn lemma_exprs_v_index(es: Seq<Expression>)
    ensures
        exprs_v(es).len() == es.len(),
        forall|i: int| 0 <= i < es.len() ==> #[trigger] exprs_v(es)[i] == expr_v(es[i]),
    decreases es.len(),
{
    if es.len() > 0 {
        lemma_exprs_v_index(es.drop_last());
    }
}

/// An expression where no `Or` is empty.
pub open spec fn expr_wf(e: ExprV) -> bool
    decreases e,
{
    match e {
        ExprV::Simple(_) => true,
        ExprV::And(es) => exprs_wf(es),
        ExprV::Or(es) => es.len() > 0 && exprs_wf(es),
        ExprV::Not(b) => expr_wf(*b),
        ExprV::Repeat(b, _, _) => expr_wf(*b),
        ExprV::RuleName(_) => true,
    }
}

/// Every expression of the sequence is well formed.
pub open spec fn exprs_wf(es: Seq<ExprV>) -> bool
    decreases es,
{
    if es.len() == 0 {
        true
    } else {
        exprs_wf(es.drop_last()) && expr_wf(es.last())
    }
}

/// `exprs_wf` element by element.
pub proof fn lemma_exprs_wf(es: Seq<ExprV>)
    ensures
        exprs_wf(es) <==> forall|i: int| 0 <= i < es.len() ==> #[trigger] expr_wf(es[i]),
    decreases es.len(),
{
    if es.len() > 0 {
        lemma_exprs_wf(es.drop_last());
        if exprs_wf(es) {
            assert forall|i: int| 0 <= i < es.len() implies #[trigger] expr_wf(es[i]) by {
                if i < es.len() - 1 {
                    assert(es.drop_last()[i] == es[i]);
                }
            }
        }
        if forall|i: int| 0 <= i < es.len() ==> #[trigger] expr_wf(es[i]) {
            assert forall|i: int| 0 <= i < es.drop_last().len() implies #[trigger] expr_wf(
                es.drop_last()[i],
            ) by {
                assert(es.drop_last()[i] == es[i]);
            }
            assert(expr_wf(es[es.len() - 1]));
        }
    }
}

/// The map that a list of named rules stands for: a later entry
/// replaces an earlier one with the same name.
pub open spec fn rules_map(s: Seq<(String, Expression)>) -> Map<Seq<char>, ExprV>
    decreases s.len(),
{
    if s.len() == 0 {
        Map::empty()
    } else {
        rules_map(s.drop_last()).insert(s.last().0@, s.last().1@)
    }
}

/// No name occurs twice in the list.
pub open spec fn names_unique(s: Seq<(String, Expression)>) -> bool {
    forall|i: int, j: int| 0 <= i < j < s.len() ==> s[i].0@ != s[j].0@
}

/// The set of rules of a grammar. Each rule has a name; the parse starts
/// at the rule named `main`.
#[derive(Debug)]
pub struct SetOfRules(pub Vec<(String, Expression)>);

impl View for SetOfRules {
    type V = Map<Seq<char>, ExprV>;

    open spec fn view(&self) -> Map<Seq<char>, ExprV> {
        rules_map(self.0@)
    }
}

/// Membership in the map of a list, and the value found.
pub proof fn lemma_rules_map_lookup(s: Seq<(String, Expression)>, k: Seq<char>)
    ensures
        rules_map(s).contains_key(k) <==> exists|i: int| 0 <= i < s.len() && #[trigger] s[i].0@ == k,
        rules_map(s).dom().finite(),
    decreases s.len(),
{
    if s.len() > 0 {
        lemma_rules_map_lookup(s.drop_last(), k);
        if rules_map(s).contains_key(k) && s.last().0@ != k {
            let i = choose|i: int| 0 <= i < s.drop_last().len() && #[trigger] s.drop_last()[i].0@ == k;
            assert(s[i].0@ == k);
        }
        if exists|i: int| 0 <= i < s.len() && #[trigger] s[i].0@ == k {
            let i = choose|i: int| 0 <= i < s.len() && #[trigger] s[i].0@ == k;
            if i < s.len() - 1 {
                assert(s.drop_last()[i].0@ == k);
            }
        }
    }
}

/// When no entry from `i` on has the name `k`, the prefix up to `i`
/// already gives the map's answer for `k`.
pub proof fn lemma_rules_map_take(s: Seq<(String, Expression)>, i: int, k: Seq<char>)
    requires
        0 <= i <= s.len(),
        forall|j: int| i <= j < s.len() ==> #[trigger] s[j].0@ != k,
    ensures
        rules_map(s).contains_key(k) == rules_map(s.take(i)).contains_key(k),
        rules_map(s).contains_key(k) ==> rules_map(s)[k] == rules_map(s.take(i))[k],
    decreases s.len() - i,
{
    if i < s.len() {
        assert(s.drop_last().take(i) =~= s.take(i));
        assert forall|j: int| i <= j < s.drop_last().len() implies #[trigger] s.drop_last()[j].0@ != k by {
            assert(s.drop_last()[j] == s[j]);
        }
        lemma_rules_map_take(s.drop_last(), i, k);
        assert(s[s.len() - 1].0@ != k);
    } else {
        assert(s.take(i) =~= s);
    }
}

/// Removing every entry named `k` removes `k` from the map.
pub proof fn lemma_rules_map_filter(s: Seq<(String, Expression)>, k: Seq<char>)
    ensures
        rules_map(s.filter(|p: (String, Expression)| p.0@ != k)) =~= rules_map(s).remove(k),
    decreases s.len(),
{
    reveal_with_fuel(Seq::filter, 1);
    if s.len() > 0 {
        lemma_rules_map_filter(s.drop_last(), k);
        let f = |p: (String, Expression)| p.0@ != k;
        if f(s.last()) {
            assert(s.filter(f).drop_last() =~= s.drop_last().filter(f));
        }
    } else {
        assert(s.filter(|p: (String, Expression)| p.0@ != k) =~= s);
    }
}

impl SetOfRules {
    /// The rules are well formed: no `Or` of any rule is empty.
    pub open spec fn wf(&self) -> bool {
        forall|k: Seq<char>| #[trigger] self@.contains_key(k) ==> expr_wf(self@[k])
    }

    /// An empty set of rules.
    pub fn empty() -> (r: Self)
        ensures
            r@ == Map::<Seq<char>, ExprV>::empty(),
            names_unique(r.0@),
    {
        SetOfRules(Vec::new())
    }

    /// A set of rules from a list of named expressions; when a name occurs
    /// more than once, the later expression is kept.
    pub fn new(mrules: Vec<(String, Expression)>) -> (r: Self)
        ensures
            r@ == rules_map(mrules@),
            names_unique(r.0@),
    {
        let mut rules = SetOfRules::empty();
        let mut mrules = mrules;
        let ghost all = mrules@;
        let mut rest: Vec<(String, Expression)> = Vec::new();
        // reverse so that popping yields the entries in order
        while mrules.len() > 0
            invariant
                rest@ + mrules@.reverse() =~= all.reverse(),
            decreases mrules@.len(),
        {
            let ghost before = mrules@;
            let p = mrules.pop().unwrap();
            rest.push(p);
            proof {
                assert(before =~= mrules@.push(p));
                assert(before.reverse() =~= seq![p] + mrules@.reverse());
            }
        }
        proof {
            assert(rest@ =~= all.reverse());
        }
        let ghost mut done: Seq<(String, Expression)> = Seq::empty();
        while rest.len() > 0
            invariant
                done + rest@.reverse() =~= all,
                rules@ == rules_map(done),
                names_unique(rules.0@),
            decreases rest@.len(),
        {
            let ghost before = rest@;
            let (name, expr) = rest.pop().unwrap();
            proof {
                assert(before =~= rest@.push((name, expr)));
                assert(before.reverse() =~= seq![(name, expr)] + rest@.reverse());
                assert(done.push((name, expr)).drop_last() =~= done);
                done = done.push((name, expr));
            }
            rules = rules.add(name.as_str(), expr);
        }
        proof {
            assert(done =~= all);
        }
        rules
    }

    /// The set of rules with `name` defined as `expr` (replacing an
    /// earlier definition of `name`).
    pub fn add(self, name: &str, expr: Expression) -> (r: Self)
        ensures
            r@ == self@.insert(name@, expr@),
            names_unique(self.0@) ==> names_unique(r.0@),
    {
        let ghost k = name@;
        let ghost f = |p: (String, Expression)| p.0@ != k;
        let mut old_rules = self.0;
        let ghost all = old_rules@;
        let mut kept: Vec<(String, Expression)> = Vec::new();
        let mut rev: Vec<(String, Expression)> = Vec::new();
        while old_rules.len() > 0
            invariant
                rev@ + old_rules@.reverse() =~= all.reverse(),
            decreases old_rules@.len(),
        {
            let ghost before = old_rules@;
            let p = old_rules.pop().unwrap();
            rev.push(p);
            proof {
                assert(before =~= old_rules@.push(p));
                assert(before.reverse() =~= seq![p] + old_rules@.reverse());
            }
        }
        proof {
            assert(rev@ =~= all.reverse());
        }
        let ghost mut done: Seq<(String, Expression)> = Seq::empty();
        while rev.len() > 0
            invariant
                done + rev@.reverse() =~= all,
                k == name@,
                f == (|p: (String, Expression)| p.0@ != k),
                kept@ =~= done.filter(f),
                names_unique(all) ==> names_unique(kept@),
                forall|i: int| 0 <= i < kept@.len() ==> #[trigger] kept@[i].0@ != k,
                forall|i: int| 0 <= i < kept@.len() ==> exists|j: int| 0 <= j < done.len() && #[trigger] kept@[i].0@ == done[j].0@,
            decreases rev@.len(),
        {
            let ghost before = rev@;
            let p = rev.pop().unwrap();
            proof {
                assert(before =~= rev@.push(p));
                assert(before.reverse() =~= seq![p] + rev@.reverse());
                reveal_with_fuel(Seq::filter, 1);
                assert(done.push(p).drop_last() =~= done);
            }
            let same = str_eq(p.0.as_str(), name);
            let ghost old_kept = kept@;
            if !same {
                kept.push(p);
                proof {
                    assert(all[done.len() as int] == p);
                    assert forall|i: int, j: int|
                        names_unique(all) && 0 <= i < j < kept@.len() implies kept@[i].0@ != kept@[j].0@ by {
                        if j == kept@.len() - 1 {
                            let a = choose|a: int| 0 <= a < done.len() && #[trigger] old_kept[i].0@ == done[a].0@;
                            assert(done[a] == all[a]);
                        } else {
                            assert(old_kept[i] == kept@[i] && old_kept[j] == kept@[j]);
                        }
                    }
                }
            }
            proof {
                let d2 = done.push(p);
                reveal_with_fuel(Seq::filter, 1);
                assert(d2.drop_last() =~= done);
                assert forall|i: int| 0 <= i < kept@.len() implies exists|j: int| 0 <= j < d2.len() && #[trigger] kept@[i].0@ == d2[j].0@ by {
                    if i < old_kept.len() {
                        let j = choose|j: int| 0 <= j < done.len() && #[trigger] old_kept[i].0@ == done[j].0@;
                        assert(d2[j] == done[j]);
                    } else {
                        assert(d2[done.len() as int] == p);
                    }
                }
                done = d2;
            }
        }
        proof {
            assert(done =~= all);
            lemma_rules_map_filter(all, k);
        }
        let ghost before_push = kept@;
        kept.push((name.to_owned(), expr));
        proof {
            assert(kept@.drop_last() =~= before_push);
            assert forall|i: int, j: int|
                names_unique(all) && 0 <= i < j < kept@.len() implies kept@[i].0@ != kept@[j].0@ by {
                if j < kept@.len() - 1 {
                    assert(before_push[i] == kept@[i] && before_push[j] == kept@[j]);
                }
            }
            assert(rules_map(kept@) =~= rules_map(all).remove(k).insert(k, expr@));
        }
        SetOfRules(kept)
    }
}


/// A rule added to a set of rules is found under its name with the added
/// expression, and every other name keeps what it had.
pub proof fn law_add_then_get(rules: Map<Seq<char>, ExprV>, name: Seq<char>, expr: ExprV)
    ensures
        rules.insert(name, expr).contains_key(name),
        rules.insert(name, expr)[name] == expr,
        forall|k: Seq<char>|
            k != name ==> (#[trigger] rules.insert(name, expr).contains_key(k) == rules.contains_key(k)),
        forall|k: Seq<char>|
            k != name && rules.contains_key(k) ==> #[trigger] rules.insert(name, expr)[k] == rules[k],
{
}

/// Merging rules into a set keeps every rule of the set as it was, and
/// adds the merged rules whose names the set does not define.
pub proof fn law_merge_keeps_own(own: Map<Seq<char>, ExprV>, merged: Map<Seq<char>, ExprV>)
    ensures
        forall|k: Seq<char>|
            own.contains_key(k) ==> #[trigger] merged.union_prefer_right(own).contains_key(k)
                && merged.union_prefer_right(own)[k] == own[k],
        forall|k: Seq<char>|
            !own.contains_key(k) && merged.contains_key(k) ==> #[trigger] merged.union_prefer_right(
                own,
            )[k] == merged[k],
        forall|k: Seq<char>|
            #[trigger] merged.union_prefer_right(own).contains_key(k) <==> own.contains_key(k)
                || merged.contains_key(k),
{
}

/// The elements of a vector in reverse order.
pub fn reversed<T>(v: Vec<T>) -> (r: Vec<T>)
    ensures
        r@ == v@.reverse(),
{
    let mut v = v;
    let ghost all = v@;
    let mut rev: Vec<T> = Vec::new();
    while v.len() > 0
        invariant
            rev@ + v@.reverse() =~= all.reverse(),
        decreases v@.len(),
    {
        let ghost before = v@;
        let p = v.pop().unwrap();
        rev.push(p);
        proof {
            assert(before =~= v@.push(p));
            assert(before.reverse() =~= seq![p] + v@.reverse());
        }
    }
    proof {
        assert(rev@ =~= all.reverse());
    }
    rev
}

impl SetOfRules {
    /// The expression of the rule named `name`, if there is one.
    pub fn get(&self, name: &str) -> (r: Option<&Expression>)
        ensures
            r is Some <==> self@.contains_key(name@),
            r matches Some(e) ==> e@ == self@[name@],
    {
        let mut i: usize = self.0.len();
        while i > 0
            invariant
                i <= self.0@.len(),
                forall|j: int| i <= j < self.0@.len() ==> #[trigger] self.0@[j].0@ != name@,
            decreases i,
        {
            if str_eq(self.0[i - 1].0.as_str(), name) {
                proof {
                    let s = self.0@;
                    lemma_rules_map_take(s, i as int, name@);
                    assert(s.take(i as int).drop_last() =~= s.take(i - 1));
                    assert(s.take(i as int).last() == s[i - 1]);
                }
                return Some(&self.0[i - 1].1);
            }
            i = i - 1;
        }
        proof {
            lemma_rules_map_take(self.0@, 0, name@);
            assert(self.0@.take(0) =~= Seq::<(String, Expression)>::empty());
        }
        None
    }

    /// The rules of `rules2merge` together with those of `self`; where both
    /// define a name, the definition of `self` is kept.
    pub fn merge(self, rules2merge: Self) -> (r: Self)
        ensures
            r@ == rules2merge@.union_prefer_right(self@),
            names_unique(rules2merge.0@) ==> names_unique(r.0@),
    {
        let ghost all = self.0@;
        let ghost base = rules2merge@;
        let mut rev = reversed(self.0);
        let mut rules = rules2merge;
        let ghost mut done: Seq<(String, Expression)> = Seq::empty();
        proof {
            assert(base.union_prefer_right(rules_map(done)) =~= base);
        }
        while rev.len() > 0
            invariant
                done + rev@.reverse() =~= all,
                rules@ == base.union_prefer_right(rules_map(done)),
                names_unique(rules2merge.0@) ==> names_unique(rules.0@),
            decreases rev@.len(),
        {
            let ghost before = rev@;
            let (name, expr) = rev.pop().unwrap();
            proof {
                assert(before =~= rev@.push((name, expr)));
                assert(before.reverse() =~= seq![(name, expr)] + rev@.reverse());
                assert(done.push((name, expr)).drop_last() =~= done);
                assert(base.union_prefer_right(rules_map(done)).insert(name@, expr@) =~= base.union_prefer_right(
                    rules_map(done.push((name, expr))),
                ));
                done = done.push((name, expr));
            }
            rules = rules.add(name.as_str(), expr);
        }
        proof {
            assert(done =~= all);
        }
        rules
    }
}

} // verus!

verus! {

/// The result of parsing an expression: the cursor after it and the nodes
/// it produced, or the error.
pub type PRes = Result<(Cursor, Seq<NodeV>), ErrorV>;

/// The description of the error produced when a parse runs out of steps.
pub open spec fn exhausted_descr() -> Seq<char> {
    "parse exhausted its steps"@
}

/// The deeper of two errors; on a tie, the later one.
pub open spec fn deep_err(best: Option<ErrorV>, e: ErrorV) -> ErrorV {
    match best {
        Some(b) => if b.pos.n > e.pos.n {
            b
        } else {
            e
        },
        None => e,
    }
}

/// The cursor with `e` recorded as potential error, unless it already
/// holds a deeper one.
pub open spec fn update_deep(cur: Cursor, e: ErrorV) -> Cursor {
    Cursor {
        potential_error: Some(
            match cur.potential_error {
                Some(d) => if e.pos.n > d.pos.n {
                    e
                } else {
                    d
                },
                None => e,
            },
        ),
        ..cur
    }
}

/// A repetition that matched `count` times has reached its maximum.
pub open spec fn reached_max(max: Option<usize>, count: nat) -> bool {
    match max {
        Some(m) => count >= m,
        None => false,
    }
}

/// The description of the error of a repetition whose maximum is below its
/// minimum.
pub open spec fn max_below_min_descr() -> Seq<char> {
    "repetition reached its maximum before its minimum"@
}

/// Nodes `acc` put in front of the nodes of a result.
pub open spec fn prepend(acc: Seq<NodeV>, r: PRes) -> PRes {
    match r {
        Ok((c, ns)) => Ok((c, acc + ns)),
        Err(e) => Err(e),
    }
}

/// The result of parsing expression `e` from cursor `cur`. `fuel` bounds
/// the number of rule references followed and repetitions made along one
/// path of the parse.
pub open spec fn eval(ctx: Ctx, cur: Cursor, e: ExprV, fuel: nat) -> PRes
    decreases fuel, e, 1nat,
{
    match e {
        ExprV::Simple(a) => match eval_atom(ctx, cur, a) {
            Ok((c, n)) => Ok((c, seq![n])),
            Err(x) => Err(x),
        },
        ExprV::And(es) => eval_and(ctx, cur, es, fuel),
        ExprV::Or(es) => eval_or(ctx, cur, es, None, fuel),
        ExprV::Not(b) => match eval(ctx, cur, *b, fuel) {
            Ok(_) => Err(err_at(ctx, cur.pos, "not"@)),
            Err(_) => Ok((cur, Seq::empty())),
        },
        ExprV::Repeat(_, _, _) => eval_rep(ctx, cur, e, 0, Seq::empty(), fuel),
        ExprV::RuleName(name) => if !ctx.rules.contains_key(name) {
            Err(err_at(ctx, cur.pos, "Missing rule: "@ + name))
        } else if fuel == 0 {
            Err(err_at(ctx, cur.pos, exhausted_descr()))
        } else {
            match eval(ctx, cur, ctx.rules[name], (fuel - 1) as nat) {
                Ok((c, ns)) => Ok((c, seq![NodeV::Rule(name, ns)])),
                Err(x) => Err(x),
            }
        },
    }
}

/// The result of parsing the expressions of `es` one after the other.
pub open spec fn eval_and(ctx: Ctx, cur: Cursor, es: Seq<ExprV>, fuel: nat) -> PRes
    decreases fuel, es, 0nat,
{
    if es.len() == 0 {
        Ok((cur, Seq::empty()))
    } else {
        match eval(ctx, cur, es[0], fuel) {
            Err(x) => Err(x),
            Ok((c1, n1)) => prepend(n1, eval_and(ctx, c1, es.drop_first(), fuel)),
        }
    }
}

/// The result of trying the expressions of `es` in order from the same
/// cursor: the first success, or the deepest error (`best` is the deepest
/// among the alternatives already tried).
pub open spec fn eval_or(ctx: Ctx, cur: Cursor, es: Seq<ExprV>, best: Option<ErrorV>, fuel: nat) -> PRes
    decreases fuel, es, 0nat,
{
    if es.len() == 0 {
        match best {
            Some(x) => Err(x),
            None => Err(err_at(ctx, cur.pos, "checked all options of or with no errors"@)),
        }
    } else {
        match eval(ctx, cur, es[0], fuel) {
            Ok(r) => Ok(r),
            Err(x) => eval_or(ctx, cur, es.drop_first(), Some(deep_err(best, x)), fuel),
        }
    }
}

/// The result of the repetition `rep` that matched `count` times so far,
/// with nodes `acc`.
pub open spec fn eval_rep(ctx: Ctx, cur: Cursor, rep: ExprV, count: nat, acc: Seq<NodeV>, fuel: nat) -> PRes
    decreases fuel, rep, 0nat,
{
    match rep {
        ExprV::Repeat(b, min, max) => if reached_max(max, count) {
            if count >= min {
                Ok((cur, acc))
            } else {
                Err(err_at(ctx, cur.pos, max_below_min_descr()))
            }
        } else if fuel == 0 {
            Err(err_at(ctx, cur.pos, exhausted_descr()))
        } else {
            match eval(ctx, cur, *b, fuel) {
                Err(x) => if count >= min {
                    Ok((update_deep(cur, x), acc))
                } else {
                    Err(x)
                },
                Ok((c2, ns)) => eval_rep(ctx, c2, rep, count + 1, acc + ns, (fuel - 1) as nat),
            }
        },
        _ => Ok((cur, acc)),
    }
}

/// The result of parsing the rule named `name`: one `Rule` node.
pub open spec fn eval_rule(ctx: Ctx, cur: Cursor, name: Seq<char>, fuel: nat) -> Result<(Cursor, NodeV), ErrorV> {
    if !ctx.rules.contains_key(name) {
        Err(err_at(ctx, cur.pos, "Missing rule: "@ + name))
    } else if fuel == 0 {
        Err(err_at(ctx, cur.pos, exhausted_descr()))
    } else {
        match eval(ctx, cur, ctx.rules[name], (fuel - 1) as nat) {
            Ok((c, ns)) => Ok((c, NodeV::Rule(name, ns))),
            Err(x) => Err(x),
        }
    }
}

} // verus!

verus! {

/// The outcome of a parse done in place, as a value.
pub open spec fn outcome(r: Result<Vec<Node>, Error>, c: Cursor) -> PRes {
    match r {
        Ok(v) => Ok((c, nodes_v(v@))),
        Err(e) => Err(e@),
    }
}

/// A copy of an optional error.
pub fn clone_opt_error(o: &Option<Error>) -> (r: Option<Error>)
    ensures
        opt_error_v(r) == opt_error_v(*o),
{
    match o {
        Some(e) => Some(e.clone()),
        None => None,
    }
}

/// The deeper of two errors; on a tie, the later one.
pub fn deeper(best: Option<Error>, e: Error) -> (r: Error)
    ensures
        r@ == deep_err(opt_error_v(best), e@),
{
    match best {
        Some(b) => if b.pos.n > e.pos.n {
            b
        } else {
            e
        },
        None => e,
    }
}

/// Records `e` as potential error of `st`, unless it already holds a
/// deeper one.
pub fn record_potential(st: &mut Status, e: Error)
    ensures
        final(st).text2parse == old(st).text2parse,
        final(st).rules == old(st).rules,
        final(st).walking_rules == old(st).walking_rules,
        final(st).pos == old(st).pos,
        final(st).cursor() == update_deep(old(st).cursor(), e@),
{
    let prev = st.potential_error.take();
    st.potential_error = Some(
        match prev {
            Some(d) => if e.pos.n > d.pos.n {
                e
            } else {
                d
            },
            None => e,
        },
    );
}

/// One node as a vector.
fn single(n: Node) -> (r: Vec<Node>)
    ensures
        nodes_v(r@) == seq![n@],
{
    let r = vec![n];
    proof {
        assert(r@ =~= Seq::<Node>::empty().push(n));
        crate::ast::lemma_nodes_v_push(Seq::empty(), n);
        assert(nodes_v(Seq::<Node>::empty()) =~= Seq::<NodeV>::empty());
    }
    r
}

/// Parses an expression in place.
pub fn expr_mut(st: &mut Status, e: &Expression, fuel: u64) -> (r: Result<Vec<Node>, Error>)
    requires
        old(st).wf(),
    ensures
        final(st).wf(),
        same_ctx(final(st), old(st)),
        outcome(r, final(st).cursor()) == eval(old(st).ctx(), old(st).cursor(), e@, fuel as nat),
    decreases fuel, e,
{
    match e {
        Expression::Simple(a) => match atom_mut(st, a) {
            Ok(n) => Ok(single(n)),
            Err(x) => Err(x),
        },
        Expression::And(me) => and_mut(st, me, fuel),
        Expression::Or(me) => or_mut(st, me, fuel),
        Expression::Not(b) => {
            let saved_pos = st.pos;
            let saved_pe = clone_opt_error(&st.potential_error);
            let ghost c0 = st.cursor();
            let r = expr_mut(st, b, fuel);
            st.pos = saved_pos;
            st.potential_error = saved_pe;
            assert(st.cursor() == c0);
            match r {
                Ok(_) => Err(Error::from_status(st, "not")),
                Err(_) => Ok(Vec::new()),
            }
        },
        Expression::Repeat(ri) => rep_mut(st, ri, fuel),
        Expression::RuleName(name) => {
            match st.rules.get(name.as_str()) {
                None => {
                    let descr = crate::text::concat("Missing rule: ", name.as_str());
                    Err(Error::from_status(st, descr.as_str()))
                },
                Some(expr) => {
                    if fuel == 0 {
                        return Err(Error::from_status(st, "parse exhausted its steps"));
                    }
                    proof {
                        assert(st.rules@.contains_key(name@));
                    }
                    match expr_mut(st, expr, fuel - 1) {
                        Ok(vnodes) => Ok(single(Node::Rule((name.clone(), vnodes)))),
                        Err(x) => Err(x),
                    }
                },
            }
        },
    }
}

/// Parses the expressions of a multi-expression one after the other, in place.
fn and_mut(st: &mut Status, me: &MultiExpr, fuel: u64) -> (r: Result<Vec<Node>, Error>)
    requires
        old(st).wf(),
    ensures
        final(st).wf(),
        same_ctx(final(st), old(st)),
        outcome(r, final(st).cursor()) == eval_and(old(st).ctx(), old(st).cursor(), exprs_v(me.0@), fuel as nat),
    decreases fuel, me,
{
    let ghost ctx = st.ctx();
    let ghost es = exprs_v(me.0@);
    let ghost total = eval_and(ctx, st.cursor(), es, fuel as nat);
    let mut acc: Vec<Node> = Vec::new();
    let mut i: usize = 0;
    proof {
        lemma_exprs_v_index(me.0@);
        assert(es.skip(0) =~= es);
        assert(nodes_v(acc@) =~= Seq::<NodeV>::empty());
    }
    while i < me.0.len()
        invariant
            i <= me.0@.len(),
            es == exprs_v(me.0@),
            es.len() == me.0@.len(),
            forall|j: int| 0 <= j < me.0@.len() ==> #[trigger] es[j] == expr_v(me.0@[j]),
            st.wf(),
            same_ctx(st, old(st)),
            ctx == old(st).ctx(),
            total == eval_and(old(st).ctx(), old(st).cursor(), exprs_v(me.0@), fuel as nat),
            total == prepend(nodes_v(acc@), eval_and(ctx, st.cursor(), es.skip(i as int), fuel as nat)),
        decreases me.0@.len() - i,
    {
        proof {
            assert(es.skip(i as int)[0] == es[i as int]);
            assert(es.skip(i as int).drop_first() =~= es.skip(i + 1));
            assert(decreases_to!(me => me.0));
            assert(decreases_to!(me.0 => me.0@));
            assert(decreases_to!(me.0@ => me.0@[i as int]));
        }
        match expr_mut(st, &me.0[i], fuel) {
            Ok(ns) => {
                let ghost acc_before = acc@;
                let mut ns = ns;
                let ghost ns_v = ns@;
                acc.append(&mut ns);
                proof {
                    crate::ast::lemma_nodes_v_add(acc_before, ns_v);
                    assert(acc@ =~= acc_before + ns_v);
                    let rest = eval_and(ctx, st.cursor(), es.skip(i + 1), fuel as nat);
                    assert(prepend(nodes_v(acc_before), prepend(nodes_v(ns_v), rest)) == prepend(nodes_v(acc@), rest)) by {
                        match rest {
                            Ok((c, xs)) => {
                                assert(nodes_v(acc_before) + (nodes_v(ns_v) + xs) =~= nodes_v(acc@) + xs);
                            },
                            Err(_) => {},
                        }
                    }
                }
            },
            Err(x) => {
                return Err(x);
            },
        }
        i = i + 1;
    }
    proof {
        assert(es.skip(i as int) =~= Seq::<ExprV>::empty());
        assert(nodes_v(acc@) + Seq::<NodeV>::empty() =~= nodes_v(acc@));
    }
    Ok(acc)
}

/// Tries the alternatives of a multi-expression in order, in place.
fn or_mut(st: &mut Status, me: &MultiExpr, fuel: u64) -> (r: Result<Vec<Node>, Error>)
    requires
        old(st).wf(),
    ensures
        final(st).wf(),
        same_ctx(final(st), old(st)),
        outcome(r, final(st).cursor()) == eval_or(old(st).ctx(), old(st).cursor(), exprs_v(me.0@), None, fuel as nat),
    decreases fuel, me,
{
    if me.0.len() == 0 {
        return Err(Error::from_status(st, "checked all options of or with no errors"));
    }
    let ghost ctx = st.ctx();
    let ghost c0 = st.cursor();
    let ghost es = exprs_v(me.0@);
    let saved_pos = st.pos;
    let saved_pe = clone_opt_error(&st.potential_error);
    let mut best: Option<Error> = None;
    let mut i: usize = 0;
    proof {
        lemma_exprs_v_index(me.0@);
        assert(es.skip(0) =~= es);
    }
    while i < me.0.len()
        invariant
            i <= me.0@.len(),
            me.0@.len() > 0,
            es == exprs_v(me.0@),
            es.len() == me.0@.len(),
            forall|j: int| 0 <= j < me.0@.len() ==> #[trigger] es[j] == expr_v(me.0@[j]),
            st.wf(),
            same_ctx(st, old(st)),
            ctx == old(st).ctx(),
            c0 == old(st).cursor(),
            saved_pos == c0.pos,
            opt_error_v(saved_pe) == c0.potential_error,
            st.cursor() == c0,
            i > 0 ==> best is Some,
            eval_or(ctx, c0, es, None, fuel as nat) == eval_or(ctx, c0, es.skip(i as int), opt_error_v(best), fuel as nat),
        decreases me.0@.len() - i,
    {
        proof {
            assert(es.skip(i as int)[0] == es[i as int]);
            assert(es.skip(i as int).drop_first() =~= es.skip(i + 1));
            assert(decreases_to!(me => me.0));
            assert(decreases_to!(me.0 => me.0@));
            assert(decreases_to!(me.0@ => me.0@[i as int]));
        }
        match expr_mut(st, &me.0[i], fuel) {
            Ok(ns) => {
                return Ok(ns);
            },
            Err(x) => {
                let b = best.take();
                best = Some(deeper(b, x));
                st.pos = saved_pos;
                st.potential_error = clone_opt_error(&saved_pe);
            },
        }
        i = i + 1;
    }
    proof {
        assert(es.skip(i as int) =~= Seq::<ExprV>::empty());
    }
    match best {
        Some(b) => Err(b),
        None => Err(Error::from_status(st, "checked all options of or with no errors")),
    }
}

/// Parses a repetition in place.
fn rep_mut(st: &mut Status, ri: &RepInfo, fuel: u64) -> (r: Result<Vec<Node>, Error>)
    requires
        old(st).wf(),
    ensures
        final(st).wf(),
        same_ctx(final(st), old(st)),
        outcome(r, final(st).cursor()) == eval_rep(old(st).ctx(), old(st).cursor(), Expression::Repeat(*ri)@, 0, Seq::empty(), fuel as nat),
    decreases fuel, ri,
{
    let ghost ctx = st.ctx();
    let ghost rep = Expression::Repeat(*ri)@;
    let ghost total = eval_rep(ctx, st.cursor(), rep, 0, Seq::empty(), fuel as nat);
    let mut acc: Vec<Node> = Vec::new();
    let mut count: u64 = 0;
    let mut f: u64 = fuel;
    proof {
        assert(nodes_v(acc@) =~= Seq::<NodeV>::empty());
    }
    loop
        invariant
            st.wf(),
            same_ctx(st, old(st)),
            ctx == old(st).ctx(),
            rep == Expression::Repeat(*ri)@,
            count + f <= fuel,
            f <= fuel,
            total == eval_rep(old(st).ctx(), old(st).cursor(), Expression::Repeat(*ri)@, 0, Seq::empty(), fuel as nat),
            total == eval_rep(ctx, st.cursor(), rep, count as nat, nodes_v(acc@), f as nat),
        decreases f,
    {
        let at_max = match &ri.max {
            Some(m) => (count as u128) >= (m.0 as u128),
            None => false,
        };
        if at_max {
            if (count as u128) >= (ri.min.0 as u128) {
                return Ok(acc);
            } else {
                return Err(
                    Error::from_status(st, "repetition reached its maximum before its minimum"),
                );
            }
        }
        if f == 0 {
            return Err(Error::from_status(st, "parse exhausted its steps"));
        }
        let saved_pos = st.pos;
        let saved_pe = clone_opt_error(&st.potential_error);
        let ghost c_before = st.cursor();
        proof {
            assert(decreases_to!(ri => ri.expression));
        }
        match expr_mut(st, &ri.expression, f) {
            Err(x) => {
                st.pos = saved_pos;
                st.potential_error = saved_pe;
                assert(st.cursor() == c_before);
                if (count as u128) >= (ri.min.0 as u128) {
                    record_potential(st, x);
                    return Ok(acc);
                } else {
                    return Err(x);
                }
            },
            Ok(ns) => {
                let ghost acc_before = acc@;
                let mut ns = ns;
                let ghost ns_v = ns@;
                acc.append(&mut ns);
                proof {
                    crate::ast::lemma_nodes_v_add(acc_before, ns_v);
                    assert(acc@ =~= acc_before + ns_v);
                }
                count = count + 1;
                f = f - 1;
            },
        }
    }
}

} // verus!

verus! {

/// How many rule references and repetitions one path of a parse may go
/// through.
pub const MAX_STEPS: u64 = 18446744073709551615;

/// The outcome of a parse that hands its status back, as a value.
pub open spec fn status_outcome(r: Result<(Status, Vec<Node>), Error>) -> PRes {
    match r {
        Ok((st, v)) => Ok((st.cursor(), nodes_v(v@))),
        Err(e) => Err(e@),
    }
}

/// The status handed back is well formed and keeps the text, rules and
/// rules path of `status`.
pub open spec fn keeps_ctx<T>(r: Result<(Status, T), Error>, status: &Status) -> bool {
    r matches Ok((st, _)) ==> st.wf() && same_ctx(&st, status)
}

/// Parses the rule `main`.
pub fn parse<'a>(status: Status<'a>) -> (r: Result<(Status<'a>, Node), Error>)
    requires
        status.wf(),
    ensures
        keeps_ctx(r, &status),
        crate::parser::atom::status_atom_outcome(r) == eval_rule(status.ctx(), status.cursor(), "main"@, MAX_STEPS as nat),
{
    parse_rule_name(status, "main")
}

/// Parses the rule named `rule_name`.
pub fn parse_rule_name<'a>(status: Status<'a>, rule_name: &str) -> (r: Result<(Status<'a>, Node), Error>)
    requires
        status.wf(),
    ensures
        keeps_ctx(r, &status),
        crate::parser::atom::status_atom_outcome(r) == eval_rule(status.ctx(), status.cursor(), rule_name@, MAX_STEPS as nat),
{
    let mut st = status;
    match rule_mut(&mut st, rule_name, MAX_STEPS) {
        Ok(n) => Ok((st, n)),
        Err(e) => Err(e),
    }
}

/// Parses the rule named `rule_name` in place.
pub fn rule_mut(st: &mut Status, rule_name: &str, fuel: u64) -> (r: Result<Node, Error>)
    requires
        old(st).wf(),
    ensures
        final(st).wf(),
        same_ctx(final(st), old(st)),
        crate::parser::atom::atom_outcome(r, final(st).cursor()) == eval_rule(old(st).ctx(), old(st).cursor(), rule_name@, fuel as nat),
{
    match st.rules.get(rule_name) {
        None => {
            let descr = crate::text::concat("Missing rule: ", rule_name);
            Err(Error::from_status(st, descr.as_str()))
        },
        Some(expr) => {
            if fuel == 0 {
                return Err(Error::from_status(st, "parse exhausted its steps"));
            }
            match expr_mut(st, expr, fuel - 1) {
                Ok(vnodes) => Ok(Node::Rule((rule_name.to_owned(), vnodes))),
                Err(x) => Err(x),
            }
        },
    }
}

/// Parses an atom, giving its node in a vector.
pub fn parse_atom_as_expr<'a>(status: Status<'a>, a: &Atom) -> (r: Result<(Status<'a>, Vec<Node>), Error>)
    requires
        status.wf(),
    ensures
        keeps_ctx(r, &status),
        status_outcome(r) == eval(status.ctx(), status.cursor(), ExprV::Simple(a@), MAX_STEPS as nat),
{
    let mut st = status;
    match atom_mut(&mut st, a) {
        Ok(n) => Ok((st, single(n))),
        Err(x) => Err(x),
    }
}

/// Parses the rule named `rule_name`, giving its node in a vector.
pub fn parse_rule_name_as_expr<'a>(status: Status<'a>, rule_name: &str) -> (r: Result<(Status<'a>, Vec<Node>), Error>)
    requires
        status.wf(),
    ensures
        keeps_ctx(r, &status),
        status_outcome(r) == match eval_rule(status.ctx(), status.cursor(), rule_name@, MAX_STEPS as nat) {
            Ok((c, n)) => Ok((c, seq![n])),
            Err(x) => Err::<(Cursor, Seq<NodeV>), ErrorV>(x),
        },
{
    let mut st = status;
    match rule_mut(&mut st, rule_name, MAX_STEPS) {
        Ok(n) => Ok((st, single(n))),
        Err(x) => Err(x),
    }
}

/// Parses an expression.
pub fn parse_expr<'a>(status: Status<'a>, expression: &Expression) -> (r: Result<(Status<'a>, Vec<Node>), Error>)
    requires
        status.wf(),
    ensures
        keeps_ctx(r, &status),
        status_outcome(r) == eval(status.ctx(), status.cursor(), expression@, MAX_STEPS as nat),
{
    let mut st = status;
    match expr_mut(&mut st, expression, MAX_STEPS) {
        Ok(v) => Ok((st, v)),
        Err(x) => Err(x),
    }
}

/// Parses the expressions of `multi_expr` one after the other.
pub fn parse_and<'a>(status: Status<'a>, multi_expr: &MultiExpr) -> (r: Result<(Status<'a>, Vec<Node>), Error>)
    requires
        status.wf(),
    ensures
        keeps_ctx(r, &status),
        status_outcome(r) == eval_and(status.ctx(), status.cursor(), exprs_v(multi_expr.0@), MAX_STEPS as nat),
{
    let mut st = status;
    match and_mut(&mut st, multi_expr, MAX_STEPS) {
        Ok(v) => Ok((st, v)),
        Err(x) => Err(x),
    }
}

/// Tries the alternatives of `multi_expr` in order.
pub fn parse_or<'a>(status: Status<'a>, multi_expr: &MultiExpr) -> (r: Result<(Status<'a>, Vec<Node>), Error>)
    requires
        status.wf(),
    ensures
        keeps_ctx(r, &status),
        status_outcome(r) == eval_or(status.ctx(), status.cursor(), exprs_v(multi_expr.0@), None, MAX_STEPS as nat),
{
    let mut st = status;
    match or_mut(&mut st, multi_expr, MAX_STEPS) {
        Ok(v) => Ok((st, v)),
        Err(x) => Err(x),
    }
}

/// Succeeds, without moving, where `expression` fails; fails where it
/// succeeds.
pub fn parse_not<'a>(status: Status<'a>, expression: &Expression) -> (r: Result<(Status<'a>, Vec<Node>), Error>)
    requires
        status.wf(),
    ensures
        keeps_ctx(r, &status),
        status_outcome(r) == eval(status.ctx(), status.cursor(), ExprV::Not(Box::new(expression@)), MAX_STEPS as nat),
{
    let st = status;
    let saved_pos = st.pos;
    let saved_pe = clone_opt_error(&st.potential_error);
    let mut probe = st;
    let r = expr_mut(&mut probe, expression, MAX_STEPS);
    probe.pos = saved_pos;
    probe.potential_error = saved_pe;
    match r {
        Ok(_) => Err(Error::from_status(&probe, "not")),
        Err(_) => Ok((probe, Vec::new())),
    }
}

/// Parses a repetition.
pub fn parse_repeat<'a>(status: Status<'a>, rep_info: &RepInfo) -> (r: Result<(Status<'a>, Vec<Node>), Error>)
    requires
        status.wf(),
        expr_wf(rep_info.expression@),
    ensures
        keeps_ctx(r, &status),
        status_outcome(r) == eval_rep(status.ctx(), status.cursor(), Expression::Repeat(*rep_info)@, 0, Seq::empty(), MAX_STEPS as nat),
{
    let mut st = status;
    match rep_mut(&mut st, rep_info, MAX_STEPS) {
        Ok(v) => Ok((st, v)),
        Err(x) => Err(x),
    }
}

} // verus!

verus! {

/// A negation never moves the cursor: when it succeeds, it gives back the
/// cursor it started from and no nodes.
pub proof fn law_not_keeps_position(ctx: Ctx, cur: Cursor, e: ExprV, fuel: nat)
    ensures
        eval(ctx, cur, ExprV::Not(Box::new(e)), fuel) is Ok ==> eval(ctx, cur, ExprV::Not(Box::new(e)), fuel) == Ok::<(Cursor, Seq<NodeV>), ErrorV>((cur, Seq::empty())),
{
}

/// Ordered choice: trying alternatives succeeds exactly when one of them
/// succeeds from the starting cursor.
pub proof fn law_or_succeeds_iff_some_alternative(ctx: Ctx, cur: Cursor, es: Seq<ExprV>, best: Option<ErrorV>, fuel: nat)
    ensures
        eval_or(ctx, cur, es, best, fuel) is Ok <==> exists|i: int| 0 <= i < es.len() && (#[trigger] eval(ctx, cur, es[i], fuel)) is Ok,
    decreases es.len(),
{
    if es.len() > 0 {
        let rest = es.drop_first();
        if let Err(e) = eval(ctx, cur, es[0], fuel) {
            law_or_succeeds_iff_some_alternative(ctx, cur, rest, Some(deep_err(best, e)), fuel);
            if exists|i: int| 0 <= i < es.len() && (#[trigger] eval(ctx, cur, es[i], fuel)) is Ok {
                let i = choose|i: int| 0 <= i < es.len() && (#[trigger] eval(ctx, cur, es[i], fuel)) is Ok;
                assert(rest[i - 1] == es[i]);
            }
            if exists|i: int| 0 <= i < rest.len() && (#[trigger] eval(ctx, cur, rest[i], fuel)) is Ok {
                let i = choose|i: int| 0 <= i < rest.len() && (#[trigger] eval(ctx, cur, rest[i], fuel)) is Ok;
                assert(es[i + 1] == rest[i]);
            }
        } else {
            assert(eval(ctx, cur, es[0], fuel) is Ok);
        }
    }
}

/// Ordered choice: when alternative `i` is the first that succeeds,
/// trying the alternatives gives its result.
pub proof fn law_or_takes_first_success(ctx: Ctx, cur: Cursor, es: Seq<ExprV>, best: Option<ErrorV>, fuel: nat, i: int)
    requires
        0 <= i < es.len(),
        eval(ctx, cur, es[i], fuel) is Ok,
        forall|j: int| 0 <= j < i ==> (#[trigger] eval(ctx, cur, es[j], fuel)) is Err,
    ensures
        eval_or(ctx, cur, es, best, fuel) == eval(ctx, cur, es[i], fuel),
    decreases i,
{
    if i > 0 {
        let rest = es.drop_first();
        let e = eval(ctx, cur, es[0], fuel)->Err_0;
        assert(eval(ctx, cur, es[0], fuel) is Err);
        assert forall|j: int| 0 <= j < i - 1 implies (#[trigger] eval(ctx, cur, rest[j], fuel)) is Err by {
            assert(rest[j] == es[j + 1]);
            assert(eval(ctx, cur, es[j + 1], fuel) is Err);
        }
        assert(rest[i - 1] == es[i]);
        law_or_takes_first_success(ctx, cur, rest, Some(deep_err(best, e)), fuel, i - 1);
    }
}

/// The error with which alternative `j` of `es` fails from `cur`.
pub open spec fn alt_err(ctx: Ctx, cur: Cursor, es: Seq<ExprV>, j: int, fuel: nat) -> ErrorV {
    eval(ctx, cur, es[j], fuel)->Err_0
}

proof fn lemma_or_deepest(ctx: Ctx, cur: Cursor, es: Seq<ExprV>, best: Option<ErrorV>, fuel: nat)
    requires
        es.len() > 0 || best is Some,
        forall|j: int| 0 <= j < es.len() ==> (#[trigger] eval(ctx, cur, es[j], fuel)) is Err,
    ensures
        eval_or(ctx, cur, es, best, fuel) matches Err(e) && ({
            ||| (best matches Some(b) && e == b && forall|j: int|
                0 <= j < es.len() ==> (#[trigger] alt_err(ctx, cur, es, j, fuel)).pos.n < b.pos.n)
            ||| exists|i: int|
                0 <= i < es.len() && e == alt_err(ctx, cur, es, i, fuel) && (best matches Some(b)
                    ==> b.pos.n <= e.pos.n) && forall|j: int|
                    0 <= j < es.len() ==> (#[trigger] alt_err(ctx, cur, es, j, fuel)).pos.n
                        <= e.pos.n && (j > i ==> alt_err(ctx, cur, es, j, fuel).pos.n < e.pos.n)
        }),
    decreases es.len(),
{
    if es.len() > 0 {
        let rest = es.drop_first();
        let x = alt_err(ctx, cur, es, 0, fuel);
        assert(eval(ctx, cur, es[0], fuel) is Err);
        let d = deep_err(best, x);
        assert forall|j: int| 0 <= j < rest.len() implies (#[trigger] eval(ctx, cur, rest[j], fuel)) is Err by {
            assert(rest[j] == es[j + 1]);
            assert(eval(ctx, cur, es[j + 1], fuel) is Err);
        }
        lemma_or_deepest(ctx, cur, rest, Some(d), fuel);
        assert forall|j: int| 0 <= j < rest.len() implies #[trigger] alt_err(ctx, cur, rest, j, fuel)
            == alt_err(ctx, cur, es, j + 1, fuel) by {
            assert(rest[j] == es[j + 1]);
        }
        let e = eval_or(ctx, cur, es, best, fuel)->Err_0;
        assert(eval_or(ctx, cur, es, best, fuel) == eval_or(ctx, cur, rest, Some(d), fuel));
        if e == d && forall|j: int| 0 <= j < rest.len() ==> (#[trigger] alt_err(ctx, cur, rest, j, fuel)).pos.n < d.pos.n {
            if d == x && !(best matches Some(b) && b.pos.n > x.pos.n) {
                assert forall|j: int| 0 <= j < es.len() implies (#[trigger] alt_err(ctx, cur, es, j, fuel)).pos.n
                    <= e.pos.n && (j > 0 ==> alt_err(ctx, cur, es, j, fuel).pos.n < e.pos.n) by {
                    if j > 0 {
                        assert(alt_err(ctx, cur, rest, j - 1, fuel) == alt_err(ctx, cur, es, j, fuel));
                    }
                }
            } else {
                assert forall|j: int| 0 <= j < es.len() implies (#[trigger] alt_err(ctx, cur, es, j, fuel)).pos.n
                    < best->0.pos.n by {
                    if j > 0 {
                        assert(alt_err(ctx, cur, rest, j - 1, fuel) == alt_err(ctx, cur, es, j, fuel));
                    }
                }
            }
        } else {
            let i2 = choose|i: int|
                0 <= i < rest.len() && e == alt_err(ctx, cur, rest, i, fuel) && d.pos.n <= e.pos.n
                    && forall|j: int|
                    0 <= j < rest.len() ==> (#[trigger] alt_err(ctx, cur, rest, j, fuel)).pos.n
                        <= e.pos.n && (j > i ==> alt_err(ctx, cur, rest, j, fuel).pos.n < e.pos.n);
            assert(e == alt_err(ctx, cur, es, i2 + 1, fuel));
            assert forall|j: int| 0 <= j < es.len() implies (#[trigger] alt_err(ctx, cur, es, j, fuel)).pos.n
                <= e.pos.n && (j > i2 + 1 ==> alt_err(ctx, cur, es, j, fuel).pos.n < e.pos.n) by {
                if j > 0 {
                    assert(alt_err(ctx, cur, rest, j - 1, fuel) == alt_err(ctx, cur, es, j, fuel));
                }
            }
        }
    }
}

/// Ordered choice that fails: when every alternative fails, the error is
/// that of an alternative that reached deepest, the last one among those
/// that reached equally deep.
pub proof fn law_or_deepest_error(ctx: Ctx, cur: Cursor, es: Seq<ExprV>, fuel: nat)
    requires
        es.len() > 0,
        forall|j: int| 0 <= j < es.len() ==> (#[trigger] eval(ctx, cur, es[j], fuel)) is Err,
    ensures
        eval(ctx, cur, ExprV::Or(es), fuel) matches Err(e) && exists|i: int|
            0 <= i < es.len() && e == alt_err(ctx, cur, es, i, fuel) && forall|j: int|
                0 <= j < es.len() ==> (#[trigger] alt_err(ctx, cur, es, j, fuel)).pos.n <= e.pos.n
                    && (j > i ==> alt_err(ctx, cur, es, j, fuel).pos.n < e.pos.n),
{
    lemma_or_deepest(ctx, cur, es, None, fuel);
}

/// Parsing never moves backwards: a successful parse ends at or after the
/// position it started from.
pub proof fn law_parse_moves_forward(ctx: Ctx, cur: Cursor, e: ExprV, fuel: nat)
    requires
        ctx.text.len() <= usize::MAX,
    ensures
        eval(ctx, cur, e, fuel) matches Ok((c, _)) ==> c.pos.n >= cur.pos.n,
    decreases fuel, e,
{
    lemma_forward(ctx, cur, e, fuel);
}

proof fn lemma_read_literal_forward(text: Seq<char>, p: Possition, lit: Seq<char>)
    requires
        text.len() <= usize::MAX,
    ensures
        read_literal(text, p, lit) matches Ok(q) ==> q.n == p.n + lit.len(),
    decreases lit.len(),
{
    if lit.len() > 0 {
        if let Some((p2, ch)) = get_char(text, p) {
            lemma_read_literal_forward(text, p2, lit.drop_first());
        }
    }
}

proof fn lemma_forward(ctx: Ctx, cur: Cursor, e: ExprV, fuel: nat)
    requires
        ctx.text.len() <= usize::MAX,
    ensures
        eval(ctx, cur, e, fuel) matches Ok((c, _)) ==> c.pos.n >= cur.pos.n,
    decreases fuel, e, 1nat,
{
    match e {
        ExprV::Simple(a) => {
            if let AtomV::Literal(s) = a {
                lemma_read_literal_forward(ctx.text, cur.pos, s);
            }
        },
        ExprV::And(es) => {
            lemma_forward_and(ctx, cur, es, fuel);
        },
        ExprV::Or(es) => {
            lemma_forward_or(ctx, cur, es, None, fuel);
        },
        ExprV::Not(b) => {},
        ExprV::Repeat(_, _, _) => {
            lemma_forward_rep(ctx, cur, e, 0, Seq::empty(), fuel);
        },
        ExprV::RuleName(name) => {
            if ctx.rules.contains_key(name) && fuel > 0 {
                lemma_forward(ctx, cur, ctx.rules[name], (fuel - 1) as nat);
            }
        },
    }
}

proof fn lemma_forward_and(ctx: Ctx, cur: Cursor, es: Seq<ExprV>, fuel: nat)
    requires
        ctx.text.len() <= usize::MAX,
    ensures
        eval_and(ctx, cur, es, fuel) matches Ok((c, _)) ==> c.pos.n >= cur.pos.n,
    decreases fuel, es, 0nat,
{
    if es.len() > 0 {
        lemma_forward(ctx, cur, es[0], fuel);
        if let Ok((c1, n1)) = eval(ctx, cur, es[0], fuel) {
            lemma_forward_and(ctx, c1, es.drop_first(), fuel);
        }
    }
}

proof fn lemma_forward_or(ctx: Ctx, cur: Cursor, es: Seq<ExprV>, best: Option<ErrorV>, fuel: nat)
    requires
        ctx.text.len() <= usize::MAX,
    ensures
        eval_or(ctx, cur, es, best, fuel) matches Ok((c, _)) ==> c.pos.n >= cur.pos.n,
    decreases fuel, es, 0nat,
{
    if es.len() > 0 {
        lemma_forward(ctx, cur, es[0], fuel);
        if let Err(x) = eval(ctx, cur, es[0], fuel) {
            lemma_forward_or(ctx, cur, es.drop_first(), Some(deep_err(best, x)), fuel);
        }
    }
}

proof fn lemma_forward_rep(ctx: Ctx, cur: Cursor, rep: ExprV, count: nat, acc: Seq<NodeV>, fuel: nat)
    requires
        ctx.text.len() <= usize::MAX,
    ensures
        eval_rep(ctx, cur, rep, count, acc, fuel) matches Ok((c, _)) ==> c.pos.n >= cur.pos.n,
    decreases fuel, rep, 0nat,
{
    if let ExprV::Repeat(b, min, max) = rep {
        if fuel > 0 {
            lemma_forward(ctx, cur, *b, fuel);
            if let Ok((c2, ns)) = eval(ctx, cur, *b, fuel) {
                lemma_forward_rep(ctx, c2, rep, count + 1, acc + ns, (fuel - 1) as nat);
            }
        }
    }
}

/// A literal matches exactly its own chars: on success the position moved
/// by the literal's length over text equal to the literal.
pub proof fn law_literal_matches_its_chars(ctx: Ctx, cur: Cursor, lit: Seq<char>)
    requires
        cur.pos.wf(ctx.text.len()),
        ctx.text.len() <= usize::MAX,
    ensures
        eval_literal(ctx, cur, lit) matches Ok((c, n)) ==> {
            &&& c.pos.n == cur.pos.n + lit.len()
            &&& ctx.text.subrange(cur.pos.n as int, c.pos.n as int) == lit
            &&& n == NodeV::Val(lit)
        },
    decreases lit.len(),
{
    lemma_literal_chars(ctx.text, cur.pos, lit);
}

proof fn lemma_literal_chars(text: Seq<char>, p: Possition, lit: Seq<char>)
    requires
        p.wf(text.len()),
        text.len() <= usize::MAX,
    ensures
        read_literal(text, p, lit) matches Ok(q) ==> q.n == p.n + lit.len() && text.subrange(p.n as int, q.n as int) == lit,
    decreases lit.len(),
{
    if lit.len() > 0 {
        if let Some((p2, ch)) = get_char(text, p) {
            crate::parser::atom::lemma_advance_wf(text, p);
            lemma_literal_chars(text, p2, lit.drop_first());
            crate::parser::atom::lemma_read_literal_wf(text, p2, lit.drop_first());
            if let Ok(q) = read_literal(text, p, lit) {
                assert(ch == lit[0]);
                assert(q.n <= text.len());
                assert(text.subrange(p.n as int, q.n as int) =~= seq![ch] + text.subrange(p2.n as int, q.n as int));
                assert(lit =~= seq![lit[0]] + lit.drop_first());
            }
        }
    } else {
        if let Ok(q) = read_literal(text, p, lit) {
            assert(text.subrange(p.n as int, q.n as int) =~= lit);
        }
    }
}

/// A repetition that already matched its minimum never fails, except by
/// running out of steps.
pub proof fn law_repeat_past_min_succeeds(
    ctx: Ctx,
    cur: Cursor,
    sub: ExprV,
    min: usize,
    max: Option<usize>,
    count: nat,
    acc: Seq<NodeV>,
    fuel: nat,
)
    requires
        count >= min,
    ensures
        eval_rep(ctx, cur, ExprV::Repeat(Box::new(sub), min, max), count, acc, fuel) matches Err(e) ==> e.descr == exhausted_descr(),
    decreases fuel,
{
    if fuel > 0 {
        if let Ok((c2, ns)) = eval(ctx, cur, sub, fuel) {
            law_repeat_past_min_succeeds(ctx, c2, sub, min, max, count + 1, acc + ns, (fuel - 1) as nat);
        }
    }
}

/// `k` consecutive matches of `sub` from `cur`, as a repetition makes
/// them (its match number `i`, from 0, has `fuel - i` steps): the cursor
/// after them and the nodes of all of them, in order; `None` when one of
/// them fails or the steps run out first.
pub open spec fn rep_run(ctx: Ctx, cur: Cursor, sub: ExprV, k: nat, fuel: nat) -> Option<
    (Cursor, Seq<NodeV>),
>
    decreases k,
{
    if k == 0 {
        Some((cur, Seq::empty()))
    } else {
        match rep_run(ctx, cur, sub, (k - 1) as nat, fuel) {
            None => None,
            Some((c, ns)) => if fuel < k {
                None
            } else {
                match eval(ctx, c, sub, (fuel - (k - 1)) as nat) {
                    Ok((c2, ns2)) => Some((c2, ns + ns2)),
                    Err(_) => None,
                }
            },
        }
    }
}

proof fn lemma_rep_run_prefix(ctx: Ctx, cur: Cursor, sub: ExprV, j: nat, k: nat, fuel: nat)
    requires
        j <= k,
        rep_run(ctx, cur, sub, k, fuel) is Some,
    ensures
        rep_run(ctx, cur, sub, j, fuel) is Some,
    decreases k,
{
    if j < k {
        lemma_rep_run_prefix(ctx, cur, sub, j, (k - 1) as nat, fuel);
    }
}

proof fn lemma_rep_stops_on_failure(
    ctx: Ctx,
    cur: Cursor,
    sub: ExprV,
    min: usize,
    max: Option<usize>,
    k: nat,
    j: nat,
    fuel: nat,
)
    requires
        j <= k < fuel,
        rep_run(ctx, cur, sub, k, fuel) is Some,
        !reached_max(max, k),
        eval(ctx, (rep_run(ctx, cur, sub, k, fuel)->0).0, sub, (fuel - k) as nat) is Err,
    ensures
        ({
            let (cj, nj) = rep_run(ctx, cur, sub, j, fuel)->0;
            let (ck, nk) = rep_run(ctx, cur, sub, k, fuel)->0;
            let x = eval(ctx, ck, sub, (fuel - k) as nat)->Err_0;
            eval_rep(ctx, cj, ExprV::Repeat(Box::new(sub), min, max), j, nj, (fuel - j) as nat) == if k
                >= min {
                Ok::<(Cursor, Seq<NodeV>), ErrorV>((update_deep(ck, x), nk))
            } else {
                Err::<(Cursor, Seq<NodeV>), ErrorV>(x)
            }
        }),
    decreases k - j,
{
    lemma_rep_run_prefix(ctx, cur, sub, j, k, fuel);
    if j < k {
        lemma_rep_run_prefix(ctx, cur, sub, j + 1, k, fuel);
        assert(!reached_max(max, j));
        lemma_rep_stops_on_failure(ctx, cur, sub, min, max, k, j + 1, fuel);
        assert((fuel - j - 1) as nat == (fuel - (j + 1)) as nat);
    }
}

proof fn lemma_rep_stops_at_max(
    ctx: Ctx,
    cur: Cursor,
    sub: ExprV,
    min: usize,
    m: usize,
    j: nat,
    fuel: nat,
)
    requires
        m <= fuel,
        j <= m,
        rep_run(ctx, cur, sub, m as nat, fuel) is Some,
    ensures
        ({
            let (cj, nj) = rep_run(ctx, cur, sub, j, fuel)->0;
            let (cm, nm) = rep_run(ctx, cur, sub, m as nat, fuel)->0;
            eval_rep(ctx, cj, ExprV::Repeat(Box::new(sub), min, Some(m)), j, nj, (fuel - j) as nat)
                == if m >= min {
                Ok::<(Cursor, Seq<NodeV>), ErrorV>((cm, nm))
            } else {
                Err::<(Cursor, Seq<NodeV>), ErrorV>(err_at(ctx, cm.pos, max_below_min_descr()))
            }
        }),
    decreases m - j,
{
    lemma_rep_run_prefix(ctx, cur, sub, j, m as nat, fuel);
    if j < m {
        lemma_rep_run_prefix(ctx, cur, sub, j + 1, m as nat, fuel);
        lemma_rep_stops_at_max(ctx, cur, sub, min, m, j + 1, fuel);
        assert((fuel - j - 1) as nat == (fuel - (j + 1)) as nat);
    }
}

proof fn lemma_rep_nodes(
    ctx: Ctx,
    cur: Cursor,
    sub: ExprV,
    min: usize,
    max: Option<usize>,
    j: nat,
    fuel: nat,
)
    requires
        j <= fuel,
        rep_run(ctx, cur, sub, j, fuel) is Some,
        max matches Some(m) ==> j <= m,
    ensures
        ({
            let (cj, nj) = rep_run(ctx, cur, sub, j, fuel)->0;
            eval_rep(ctx, cj, ExprV::Repeat(Box::new(sub), min, max), j, nj, (fuel - j) as nat) matches Ok(
                (c, ns),
            ) ==> exists|k: nat|
                #![trigger rep_run(ctx, cur, sub, k, fuel)]
                k >= min && (max matches Some(m) ==> k <= m) && (rep_run(ctx, cur, sub, k, fuel) matches Some(
                    (ck, nk),
                ) && nk == ns && ck.pos == c.pos)
        }),
    decreases fuel - j,
{
    let (cj, nj) = rep_run(ctx, cur, sub, j, fuel)->0;
    if !reached_max(max, j) && j < fuel {
        if let Ok((c2, ns2)) = eval(ctx, cj, sub, (fuel - j) as nat) {
            assert(rep_run(ctx, cur, sub, j + 1, fuel) == Some((c2, nj + ns2)));
            lemma_rep_nodes(ctx, cur, sub, min, max, j + 1, fuel);
            assert((fuel - j - 1) as nat == (fuel - (j + 1)) as nat);
        }
    }
}

/// A repetition is greedy and keeps the nodes of every match: when the
/// first `k` matches succeed, the maximum is above `k`, and the next match
/// fails, it succeeds exactly when `k` reaches the minimum, at the cursor
/// after the `k` matches and with the nodes of all of them, in order;
/// otherwise it fails with the error of the failing match.
pub proof fn law_repeat_greedy(
    ctx: Ctx,
    cur: Cursor,
    sub: ExprV,
    min: usize,
    max: Option<usize>,
    k: nat,
    fuel: nat,
)
    requires
        k < fuel,
        rep_run(ctx, cur, sub, k, fuel) is Some,
        !reached_max(max, k),
        eval(ctx, (rep_run(ctx, cur, sub, k, fuel)->0).0, sub, (fuel - k) as nat) is Err,
    ensures
        ({
            let (ck, nk) = rep_run(ctx, cur, sub, k, fuel)->0;
            let x = eval(ctx, ck, sub, (fuel - k) as nat)->Err_0;
            eval(ctx, cur, ExprV::Repeat(Box::new(sub), min, max), fuel) == if k >= min {
                Ok::<(Cursor, Seq<NodeV>), ErrorV>((update_deep(ck, x), nk))
            } else {
                Err::<(Cursor, Seq<NodeV>), ErrorV>(x)
            }
        }),
{
    lemma_rep_stops_on_failure(ctx, cur, sub, min, max, k, 0, fuel);
}

/// A repetition with a maximum `m` makes no attempt past `m` matches: after
/// `m` matches it stops, with the cursor after them and the nodes of all of
/// them, in order, when `m` reaches the minimum; otherwise it fails.
pub proof fn law_repeat_stops_at_max(
    ctx: Ctx,
    cur: Cursor,
    sub: ExprV,
    min: usize,
    m: usize,
    fuel: nat,
)
    requires
        m <= fuel,
        rep_run(ctx, cur, sub, m as nat, fuel) is Some,
    ensures
        ({
            let (cm, nm) = rep_run(ctx, cur, sub, m as nat, fuel)->0;
            eval(ctx, cur, ExprV::Repeat(Box::new(sub), min, Some(m)), fuel) == if m >= min {
                Ok::<(Cursor, Seq<NodeV>), ErrorV>((cm, nm))
            } else {
                Err::<(Cursor, Seq<NodeV>), ErrorV>(err_at(ctx, cm.pos, max_below_min_descr()))
            }
        }),
{
    lemma_rep_stops_at_max(ctx, cur, sub, min, m, 0, fuel);
}

/// Whenever a repetition succeeds, it made some number `k` of consecutive
/// matches, between its minimum and its maximum: it ends at the position
/// after them, and its nodes are those of all `k` matches, in order.
pub proof fn law_repeat_nodes_of_matches(
    ctx: Ctx,
    cur: Cursor,
    sub: ExprV,
    min: usize,
    max: Option<usize>,
    fuel: nat,
)
    ensures
        eval(ctx, cur, ExprV::Repeat(Box::new(sub), min, max), fuel) matches Ok((c, ns)) ==> exists|
            k: nat,
        |
            #![trigger rep_run(ctx, cur, sub, k, fuel)]
            k >= min && (max matches Some(m) ==> k <= m) && (rep_run(ctx, cur, sub, k, fuel) matches Some(
                (ck, nk),
            ) && nk == ns && ck.pos == c.pos),
{
    lemma_rep_nodes(ctx, cur, sub, min, max, 0, fuel);
}

/// Negation: `!e` succeeds exactly when `e` fails, at any position (the
/// end of the text included), and then it consumes nothing and gives no
/// nodes.
pub proof fn law_not_succeeds_iff_sub_fails(ctx: Ctx, cur: Cursor, e: ExprV, fuel: nat)
    ensures
        eval(ctx, cur, ExprV::Not(Box::new(e)), fuel) is Ok <==> eval(ctx, cur, e, fuel) is Err,
        eval(ctx, cur, e, fuel) is Err ==> eval(ctx, cur, ExprV::Not(Box::new(e)), fuel) == Ok::<
            (Cursor, Seq<NodeV>),
            ErrorV,
        >((cur, Seq::empty())),
{
}

/// The text from `p` on starts with the `k` chars of a run, each matching
/// `chars`/`pairs`, and the char after them, if any, does not match.
pub open spec fn matching_run(
    text: Seq<char>,
    p: int,
    k: nat,
    chars: Seq<char>,
    pairs: Seq<(char, char)>,
) -> bool {
    &&& 0 <= p
    &&& p + k <= text.len()
    &&& forall|i: int| p <= i < p + k ==> char_matches(chars, pairs, #[trigger] text[i])
    &&& (p + k == text.len() || !char_matches(chars, pairs, text[p + k]))
}

/// A repetition of a one-char match with no maximum, from a cursor where
/// a run of `k` matching chars starts, reads the whole run and stops right
/// after it (given at least `k + 1` steps and a run as long as its minimum
/// requires).
pub proof fn law_repeat_reads_run(
    ctx: Ctx,
    cur: Cursor,
    chars: Seq<char>,
    pairs: Seq<(char, char)>,
    min: usize,
    count: nat,
    acc: Seq<NodeV>,
    k: nat,
    fuel: nat,
)
    requires
        ctx.text.len() <= usize::MAX,
        matching_run(ctx.text, cur.pos.n as int, k, chars, pairs),
        count + k >= min,
        fuel > k,
    ensures
        eval_rep(
            ctx,
            cur,
            ExprV::Repeat(Box::new(ExprV::Simple(AtomV::Match(chars, pairs))), min, None),
            count,
            acc,
            fuel,
        ) matches Ok((c, _)) && c.pos.n == cur.pos.n + k,
    decreases k,
{
    let sub = ExprV::Simple(AtomV::Match(chars, pairs));
    let rep = ExprV::Repeat(Box::new(sub), min, None);
    if k == 0 {
        assert(eval(ctx, cur, sub, fuel) is Err);
    } else {
        let p = cur.pos.n as int;
        assert(char_matches(chars, pairs, ctx.text[p]));
        let r = eval(ctx, cur, sub, fuel);
        assert(r is Ok);
        let (c2, ns) = r->Ok_0;
        assert(c2.pos.n == p + 1);
        assert forall|i: int| p + 1 <= i < p + 1 + (k - 1) implies char_matches(
            chars,
            pairs,
            #[trigger] ctx.text[i],
        ) by {
            assert(p <= i < p + k);
        }
        law_repeat_reads_run(ctx, c2, chars, pairs, min, count + 1, acc + ns, (k - 1) as nat, (fuel - 1) as nat);
    }
}

} // verus!
