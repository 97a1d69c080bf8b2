//! Tools to run a parser over an expression.

use vstd::prelude::*;

use crate::parser::atom::{Atom, AtomV, MatchRules};
use crate::parser::expression::{
    expr_wf, exprs_v, lemma_exprs_v_index, lemma_exprs_wf, ExprV, Expression, MultiExpr, SetOfRules,
};
use crate::text::string_from_chars;

pub mod atom;
pub mod expression;

verus! {

/// Information about the position reached while parsing.
#[derive(PartialEq, Eq, Clone, Copy, Debug)]
pub struct Possition {
    /// chars consumed so far
    pub n: usize,
    /// current row (starting at 0)
    pub row: usize,
    /// current column (starting at 0)
    pub col: usize,
    /// position where the current line started
    pub start_line: usize,
}

impl Possition {
    /// The position at the start of the text.
    pub fn init() -> (r: Self)
        ensures
            r == (Possition { n: 0, row: 0, col: 0, start_line: 0 }),
    {
        Possition { n: 0, row: 0, col: 0, start_line: 0 }
    }

    /// A position inside a text of `len` chars.
    pub open spec fn wf(self, len: nat) -> bool {
        &&& self.n <= len
        &&& self.row <= self.n
        &&& self.col <= self.n
        &&& self.start_line <= self.n
    }
}

/// The position after reading `ch` at position `p`.
pub open spec fn advance(p: Possition, ch: char) -> Possition {
    if ch == '\n' {
        Possition { n: (p.n + 1) as usize, row: (p.row + 1) as usize, col: 0, start_line: (p.n + 1) as usize }
    } else if ch == '\r' {
        Possition { n: (p.n + 1) as usize, col: 0, ..p }
    } else {
        Possition { n: (p.n + 1) as usize, col: (p.col + 1) as usize, ..p }
    }
}

/// Context information about a parsing error.
#[derive(Debug)]
pub struct Error {
    /// Position reached when the error was produced
    pub pos: Possition,
    /// Error description
    pub descr: String,
    /// Content of the line up to the error position
    pub line: String,
    /// Sub-errors
    pub errors: Vec<Error>,
    /// Rules path followed till the error
    pub parsing_rules: Vec<String>,
}

/// The mathematical value of a parsing [`Error`].
pub struct ErrorV {
    pub pos: Possition,
    pub descr: Seq<char>,
    pub line: Seq<char>,
    pub errors: Seq<ErrorV>,
    pub parsing_rules: Seq<Seq<char>>,
}

/// The characters of each string in a sequence.
pub open spec fn strings_v(ss: Seq<String>) -> Seq<Seq<char>> {
    ss.map_values(|s: String| s@)
}

/// The value of one error.
pub open spec fn error_v(e: Error) -> ErrorV
    decreases e,
{
    ErrorV {
        pos: e.pos,
        descr: e.descr@,
        line: e.line@,
        errors: errors_v(e.errors@),
        parsing_rules: strings_v(e.parsing_rules@),
    }
}

/// The values of a sequence of errors.
pub open spec fn errors_v(es: Seq<Error>) -> Seq<ErrorV>
    decreases es,
{
    if es.len() == 0 {
        Seq::empty()
    } else {
        errors_v(es.drop_last()).push(error_v(es.last()))
    }
}

impl View for Error {
    type V = ErrorV;

    open spec fn view(&self) -> ErrorV {
        error_v(*self)
    }
}

/// The value of an optional error.
pub open spec fn opt_error_v(e: Option<Error>) -> Option<ErrorV> {
    match e {
        Some(e) => Some(e@),
        None => None,
    }
}

/// The values of a sequence of errors, element by element.
pub proof fn lemma_errors_v_index(es: Seq<Error>)
    ensures
        errors_v(es).len() == es.len(),
        forall|i: int| 0 <= i < es.len() ==> #[trigger] errors_v(es)[i] == error_v(es[i]),
    decreases es.len(),
{
    if es.len() > 0 {
        lemma_errors_v_index(es.drop_last());
    }
}

impl Clone for Error {
    fn clone(&self) -> (r: Self)
        ensures
            r@ == self@,
        decreases self,
    {
        let mut errors: Vec<Error> = Vec::new();
        let mut i: usize = 0;
        proof {
            lemma_errors_v_index(self.errors@);
        }
        while i < self.errors.len()
            invariant
                i <= self.errors@.len(),
                errors@.len() == i,
                forall|j: int| 0 <= j < i ==> #[trigger] error_v(errors@[j]) == error_v(self.errors@[j]),
            decreases self.errors@.len() - i,
        {
            proof {
                assert(decreases_to!(self => self.errors));
                assert(decreases_to!(self.errors => self.errors@));
                assert(decreases_to!(self.errors@ => self.errors@[i as int]));
            }
            let e = self.errors[i].clone();
            errors.push(e);
            i = i + 1;
        }
        proof {
            lemma_errors_v_index(errors@);
            lemma_errors_v_index(self.errors@);
            assert(errors_v(errors@) =~= errors_v(self.errors@));
        }
        let rules = self.parsing_rules.clone();
        proof {
            assert(strings_v(rules@) =~= strings_v(self.parsing_rules@));
        }
        Error {
            pos: self.pos,
            descr: self.descr.clone(),
            line: self.line.clone(),
            errors,
            parsing_rules: rules,
        }
    }
}

/// What the parser needs to know besides its position: the text
/// being parsed, the rules, and the rules path.
pub struct Ctx {
    pub text: Seq<char>,
    pub rules: Map<Seq<char>, ExprV>,
    pub walking_rules: Seq<Seq<char>>,
}

/// The moving part of a parsing status: the position and the deepest
/// error met by a repetition that stopped early.
pub struct Cursor {
    pub pos: Possition,
    pub potential_error: Option<ErrorV>,
}

/// The error produced at position `p` with description `descr`.
pub open spec fn err_at(ctx: Ctx, p: Possition, descr: Seq<char>) -> ErrorV {
    ErrorV {
        pos: p,
        descr,
        line: ctx.text.subrange(p.start_line as int, p.n as int),
        errors: Seq::empty(),
        parsing_rules: ctx.walking_rules,
    }
}

/// The status of a running parse.
pub struct Status<'a> {
    /// Text being parsed, as chars
    pub text2parse: Vec<char>,
    /// Current position
    pub pos: Possition,
    /// Rules path followed so far
    pub walking_rules: Vec<String>,
    /// Rules in use
    pub rules: &'a SetOfRules,
    /// Deepest error met by a repetition that stopped early
    pub potential_error: Option<Error>,
}

impl<'a> Status<'a> {
    /// The position is inside the text.
    pub open spec fn wf(&self) -> bool {
        self.pos.wf(self.text2parse@.len())
    }

    /// Text, rules and rules path of this status.
    pub open spec fn ctx(&self) -> Ctx {
        Ctx { text: self.text2parse@, rules: self.rules@, walking_rules: strings_v(self.walking_rules@) }
    }

    /// Position and potential error of this status.
    pub open spec fn cursor(&self) -> Cursor {
        Cursor { pos: self.pos, potential_error: opt_error_v(self.potential_error) }
    }

    /// A status at the start of `t2p`, with the given rules.
    pub fn init(t2p: &str, rules: &'a SetOfRules) -> (r: Self)
        ensures
            r.wf(),
            r.text2parse@ == t2p@,
            r.pos == (Possition { n: 0, row: 0, col: 0, start_line: 0 }),
            r.walking_rules@.len() == 0,
            r.rules == rules,
            r.potential_error is None,
    {
        Status {
            text2parse: crate::text::chars_of(t2p),
            pos: Possition::init(),
            walking_rules: Vec::new(),
            rules,
            potential_error: None,
        }
    }

    /// Adds a rule name to the rules path.
    pub fn push_rule(self, on_node: &str) -> (r: Self)
        ensures
            r.walking_rules@.len() == self.walking_rules@.len() + 1,
            strings_v(r.walking_rules@) == strings_v(self.walking_rules@).push(on_node@),
            r.text2parse == self.text2parse,
            r.pos == self.pos,
            r.rules == self.rules,
            r.potential_error == self.potential_error,
    {
        let mut s = self;
        let ghost old_rules = s.walking_rules@;
        s.walking_rules.push(on_node.to_owned());
        proof {
            assert(strings_v(s.walking_rules@) =~= strings_v(old_rules).push(on_node@));
        }
        s
    }
}

impl Error {
    /// The error for `status` with this description.
    pub fn from_status(status: &Status, descr: &str) -> (r: Error)
        requires
            status.wf(),
        ensures
            r@ == err_at(status.ctx(), status.pos, descr@),
    {
        Self::from_st_errs(status, descr, Vec::new())
    }

    /// The error for `status` with this description and these sub-errors.
    pub fn from_st_errs(status: &Status, descr: &str, errors: Vec<Error>) -> (r: Error)
        requires
            status.wf(),
        ensures
            r@ == (ErrorV { errors: errors_v(errors@), ..err_at(status.ctx(), status.pos, descr@) }),
    {
        let line = string_from_chars(
            &status.text2parse.as_slice()[status.pos.start_line..status.pos.n],
        );
        Error {
            pos: status.pos,
            descr: descr.to_owned(),
            line,
            errors,
            parsing_rules: status.walking_rules.clone(),
        }
    }
}

} // verus!

verus! {

impl<'a> Status<'a> {
    /// The status with `error` recorded as potential error, unless it
    /// already holds a deeper one.
    pub fn update_deep_error(self, error: &Error) -> (r: Self)
        ensures
            r.text2parse == self.text2parse,
            r.pos == self.pos,
            r.walking_rules == self.walking_rules,
            r.rules == self.rules,
            r.cursor() == crate::parser::expression::update_deep(self.cursor(), error@),
    {
        let mut st = self;
        crate::parser::expression::record_potential(&mut st, error.clone());
        st
    }
}

/// A literal expression.
pub fn lit(s: &str) -> (r: Expression)
    ensures
        r matches Expression::Simple(Atom::Literal(l)) && l@ == s@,
        r@ == ExprV::Simple(AtomV::Literal(s@)),
        expr_wf(r@),
{
    Expression::Simple(Atom::Literal(s.to_owned()))
}

/// An expression that always fails with description `descr`.
pub fn error(descr: &str) -> (r: Expression)
    ensures
        r matches Expression::Simple(Atom::Error(d)) && d@ == descr@,
        r@ == ExprV::Simple(AtomV::Error(descr@)),
        expr_wf(r@),
{
    Expression::Simple(Atom::Error(descr.to_owned()))
}

/// An expression matching any char.
pub fn dot() -> (r: Expression)
    ensures
        r matches Expression::Simple(Atom::Dot),
        r@ == ExprV::Simple(AtomV::Dot),
        expr_wf(r@),
{
    Expression::Simple(Atom::Dot)
}

/// An expression matching only the end of the text.
pub fn eof() -> (r: Expression)
    ensures
        r matches Expression::Simple(Atom::EOF),
        r@ == ExprV::Simple(AtomV::EOF),
        expr_wf(r@),
{
    Expression::Simple(Atom::EOF)
}

/// The first of the alternatives that matches.
pub fn or(exp_list: Vec<Expression>) -> (r: Expression)
    ensures
        r matches Expression::Or(me) && me.0 == exp_list,
        r@ == ExprV::Or(exprs_v(exp_list@)),
        exprs_v(exp_list@).len() == exp_list@.len(),
        forall|i: int| 0 <= i < exp_list@.len() ==> #[trigger] exprs_v(exp_list@)[i] == exp_list@[i]@,
        exp_list@.len() > 0 && (forall|i: int| 0 <= i < exp_list@.len() ==> #[trigger] expr_wf(exp_list@[i]@))
            ==> expr_wf(r@),
{
    proof {
        let l = exp_list@;
        lemma_exprs_v_index(l);
        lemma_exprs_wf(exprs_v(l));
        if forall|i: int| 0 <= i < l.len() ==> #[trigger] expr_wf(l[i]@) {
            assert forall|i: int| 0 <= i < exprs_v(l).len() implies #[trigger] expr_wf(
                exprs_v(l)[i],
            ) by {
                assert(expr_wf(l[i]@));
            }
        }
    }
    Expression::Or(MultiExpr(exp_list))
}

/// The expressions one after the other.
pub fn and(exp_list: Vec<Expression>) -> (r: Expression)
    ensures
        r matches Expression::And(me) && me.0 == exp_list,
        r@ == ExprV::And(exprs_v(exp_list@)),
        exprs_v(exp_list@).len() == exp_list@.len(),
        forall|i: int| 0 <= i < exp_list@.len() ==> #[trigger] exprs_v(exp_list@)[i] == exp_list@[i]@,
        (forall|i: int| 0 <= i < exp_list@.len() ==> #[trigger] expr_wf(exp_list@[i]@)) ==> expr_wf(r@),
{
    proof {
        let l = exp_list@;
        lemma_exprs_v_index(l);
        lemma_exprs_wf(exprs_v(l));
        if forall|i: int| 0 <= i < l.len() ==> #[trigger] expr_wf(l[i]@) {
            assert forall|i: int| 0 <= i < exprs_v(l).len() implies #[trigger] expr_wf(
                exprs_v(l)[i],
            ) by {
                assert(expr_wf(l[i]@));
            }
        }
    }
    Expression::And(MultiExpr(exp_list))
}

/// A reference to the rule named `s`.
pub fn symref(s: &str) -> (r: Expression)
    ensures
        r matches Expression::RuleName(n) && n@ == s@,
        r@ == ExprV::RuleName(s@),
        expr_wf(r@),
{
    Expression::RuleName(s.to_owned())
}

/// Succeeds, without moving, where `expr` fails.
pub fn not(expr: Expression) -> (r: Expression)
    ensures
        r matches Expression::Not(b) && *b == expr,
        r@ == ExprV::Not(Box::new(expr@)),
        expr_wf(r@) == expr_wf(expr@),
{
    Expression::Not(Box::new(expr))
}

/// `expr` repeated, at least `min` times; with `max`, stopping once `max`
/// repetitions matched.
pub fn repeat(expr: Expression, min: usize, max: Option<usize>) -> (r: Expression)
    ensures
        r matches Expression::Repeat(ri) && *ri.expression == expr && ri.min.0 == min && ri.max == (match max {
            Some(m) => Some(crate::parser::expression::NRep(m)),
            None => None::<crate::parser::expression::NRep>,
        }),
        r@ == ExprV::Repeat(Box::new(expr@), min, max),
        expr_wf(r@) == expr_wf(expr@),
{
    Expression::Repeat(crate::parser::expression::RepInfo::new(Box::new(expr), min, max))
}

/// A char that is one of `chars` or inside one of `ranges`.
pub fn match_ch(chars: &str, ranges: Vec<(char, char)>) -> (r: Expression)
    ensures
        r matches Expression::Simple(Atom::Match(mr)) && mr.0@ == chars@ && mr.1 == ranges,
        r@ == ExprV::Simple(AtomV::Match(chars@, ranges@)),
        expr_wf(r@),
{
    Expression::Simple(Atom::Match(MatchRules(chars.to_owned(), ranges)))
}

} // verus!
