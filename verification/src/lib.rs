//! A dynamic PEG parser: grammars are values built (or read from a PEG
//! text) at run time, and the parser walks them over a text.
//!
//! The entry point of a grammar is the rule named `main`.

use vstd::prelude::*;


use crate::ast::{Node, NodeV};
use crate::parser::expression::{eval_rule, SetOfRules, MAX_STEPS};
use crate::parser::{err_at, Ctx, Cursor, Error, ErrorV, Possition, Status};

pub mod ast;
pub mod grammar;
pub mod parser;
pub mod peg;
pub mod parsing;
pub mod terminal;
pub mod text;

verus! {

/// The context of a parse of `text` with `rules`.
pub open spec fn top_ctx(text: Seq<char>, rules: Map<Seq<char>, crate::parser::expression::ExprV>) -> Ctx {
    Ctx { text, rules, walking_rules: Seq::empty() }
}

/// The cursor at the start of a text.
pub open spec fn start_cursor() -> Cursor {
    Cursor { pos: Possition { n: 0, row: 0, col: 0, start_line: 0 }, potential_error: None }
}

/// The result of parsing `text` with `rules`: the tree of rule `main` when
/// every char of the text was consumed; otherwise the error met by `main`, or the deepest error of a
/// repetition that stopped early, or "not consumed full input".
pub open spec fn parse_result(
    text: Seq<char>,
    rules: Map<Seq<char>, crate::parser::expression::ExprV>,
) -> Result<NodeV, ErrorV> {
    let ctx = top_ctx(text, rules);
    match eval_rule(ctx, start_cursor(), "main"@, MAX_STEPS as nat) {
        Err(e) => Err(e),
        Ok((c, n)) => if c.pos.n == text.len() {
            Ok(n)
        } else {
            match c.potential_error {
                Some(e) => Err(e),
                None => Err(err_at(ctx, c.pos, "not consumed full input"@)),
            }
        },
    }
}

/// The value of a parse result.
pub open spec fn result_v(r: Result<Node, Error>) -> Result<NodeV, ErrorV> {
    match r {
        Ok(n) => Ok(n@),
        Err(e) => Err(e@),
    }
}

/// Parses `s` with `rules`, starting at the rule `main`.
pub fn parse(s: &str, rules: &SetOfRules) -> (r: Result<Node, Error>)
    ensures
        result_v(r) == parse_result(s@, rules@),
{
    parse_with_debug(s, rules, false)
}

/// Same as [`parse`]; meant for use while developing a grammar.
pub fn parse_debug(s: &str, rules: &SetOfRules) -> (r: Result<Node, Error>)
    ensures
        result_v(r) == parse_result(s@, rules@),
{
    parse_with_debug(s, rules, true)
}

fn parse_with_debug(s: &str, rules: &SetOfRules, debug: bool) -> (r: Result<Node, Error>)
    ensures
        result_v(r) == parse_result(s@, rules@),
{
    let _ = debug;
    let status = Status::init(s, rules);
    proof {
        assert(status.ctx() == top_ctx(s@, rules@)) by {
            assert(crate::parser::strings_v(status.walking_rules@) =~= Seq::<Seq<char>>::empty());
        }
    }
    let (st, ast) = crate::parser::expression::parse(status)?;
    if st.pos.n == st.text2parse.len() {
        Ok(ast)
    } else {
        match crate::parser::expression::clone_opt_error(&st.potential_error) {
            Some(e) => Err(e),
            None => Err(Error::from_status(&st, "not consumed full input")),
        }
    }
}

} // verus!
