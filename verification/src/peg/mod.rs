//! Rules from a PEG grammar written as text.
//!
//! The text is parsed with the grammar of PEG grammars (see
//! [`rules::parse_peg`]); the tree is compacted, the spacing rules are
//! pruned, and the flattened nodes are read into a [`SetOfRules`].

use vstd::prelude::*;

use crate::ast::flat::{
    consume_node_end_rule_name, consume_node_start_rule_name, consume_this_value, consume_val,
    flats_v, flatten_v, get_nodename, peek_first_node, spec_consume_val, spec_end_rule,
    spec_nodename, spec_peek, spec_this_value, FlatV, Node,
};
use crate::ast::{compact_v, prune_v, strs_v};
use crate::parse_result;
use crate::parser::expression::{
    expr_wf, exprs_v, exprs_wf, lemma_exprs_v_index, lemma_exprs_wf, ExprV, Expression, SetOfRules,
};
use crate::parser::strings_v;
use crate::peg::model::{
    begins, chars_from, close, consuming_descr, debug_flat_node, enter,
    hex_byte, hex_digit, hex_number, lift, match_expr, multi_expr, peg_s, pushed, repetition,
    spec_consume_and, spec_consume_atom, spec_consume_atom_or_par, spec_consume_dot,
    spec_consume_element, spec_consume_error, spec_consume_esc_char, spec_consume_grammar,
    spec_consume_hex_char, spec_consume_literal_esc, spec_consume_literal_expr,
    spec_consume_literal_no_esc, spec_consume_literal_string, spec_consume_main,
    spec_consume_match, spec_consume_mbetween, spec_consume_mchars, spec_consume_mod_name,
    spec_consume_module, spec_consume_or, spec_consume_parenth, spec_consume_peg_expr,
    spec_consume_quote, spec_consume_rep_or_neg, spec_consume_rule, spec_consume_rule_name,
    spec_consume_rule_ref, spec_consume_single_quote, spec_consume_symbol, spec_dot_or_empty,
    spec_opt_mchars, spec_rec_consume_and, spec_rec_consume_dot_symbol,
    spec_rec_consume_lit_esc_ch, spec_rec_consume_mbetween, spec_rec_consume_or,
    spec_rec_consume_rules_or_modules, spec_rule_this, spec_rule_val, spec_rules_from_flat,
    unescaped, PegErrV, Step,
};
use crate::peg::rules::{parse_peg, peg_grammar};
use crate::text::{char_to_string, concat, str_eq};

pub mod gcode;
pub mod laws;
pub mod model;
pub mod peg2code;
pub mod rules;

verus! {

/// Most functions of this module return a result with this error.
#[derive(Debug)]
pub enum Error {
    /// An error of the PEG reader: a description and, optionally, the
    /// error it wraps, so that errors stack to any depth
    Peg((String, Option<Box<Error>>)),
    /// An error of the parser
    Parser(crate::parser::Error),
    /// An error met walking the tree
    Ast(crate::ast::Error),
}

/// The value of a PEG error.
pub open spec fn peg_err_v(e: Error) -> PegErrV
    decreases e,
{
    match e {
        Error::Peg((s, b)) => PegErrV::Peg(
            s@,
            match b {
                Some(bx) => Some(Box::new(peg_err_v(*bx))),
                None => None,
            },
        ),
        Error::Parser(p) => PegErrV::Parser(p@),
        Error::Ast(a) => PegErrV::Ast(a@),
    }
}

impl View for Error {
    type V = PegErrV;

    open spec fn view(&self) -> PegErrV {
        peg_err_v(*self)
    }
}

/// What std's `Debug` formatting (`{:?}`) writes for a parser error.
pub uninterp spec fn debug_parser_error(e: crate::parser::ErrorV) -> Seq<char>;

/// What std's `Debug` formatting (`{:?}`) writes for an error of the tree
/// walk.
pub uninterp spec fn debug_ast_error(e: crate::ast::ErrorV) -> Seq<char>;

/// std's `Debug` formatting (`format!("{:?}", e)`) of a parser error.
/// Trusted: the text is claimed to be `debug_parser_error` of the error's
/// value, that is, to depend on nothing else; what it is, is not stated.
#[verifier::external_body]
fn fmt_parser_error(e: &crate::parser::Error) -> (s: String)
    ensures
        s@ == debug_parser_error(e@),
{
    format!("{:?}", e)
}

/// std's `Debug` formatting (`format!("{:?}", e)`) of an error of the tree
/// walk. Trusted: the text is claimed to be `debug_ast_error` of the
/// error's value, that is, to depend on nothing else; what it is, is not
/// stated.
#[verifier::external_body]
fn fmt_ast_error(e: &crate::ast::Error) -> (s: String)
    ensures
        s@ == debug_ast_error(e@),
{
    format!("{:?}", e)
}

/// The text of a PEG error: the descriptions of the stacked errors,
/// outermost first, joined by ` > `.
pub open spec fn peg_err_text(e: PegErrV) -> Seq<char>
    decreases e,
{
    match e {
        PegErrV::Peg(s, b) => match b {
            None => s,
            Some(inner) => s + " > "@ + peg_err_text(*inner),
        },
        PegErrV::Parser(p) => "Parser("@ + debug_parser_error(p) + ")"@,
        PegErrV::Ast(a) => "AST("@ + debug_ast_error(a) + ")"@,
    }
}

impl Error {
    /// The text of the error: the descriptions of the stacked errors,
    /// outermost first, joined by ` > `.
    pub fn to_string(&self) -> (r: String)
        ensures
            r@ == peg_err_text(self@),
        decreases self,
    {
        match self {
            Error::Peg((s, b)) => match b {
                None => s.clone(),
                Some(inner) => {
                    let mut r = concat(s.as_str(), " > ");
                    let rest = inner.to_string();
                    r.append(rest.as_str());
                    r
                },
            },
            Error::Parser(p) => {
                let mut r = concat("Parser(", fmt_parser_error(p).as_str());
                r.append(")");
                r
            },
            Error::Ast(a) => {
                let mut r = concat("AST(", fmt_ast_error(a).as_str());
                r.append(")");
                r
            },
        }
    }
}

/// A PEG error with only a description.
fn error_peg_s(s: &str) -> (r: Error)
    ensures
        r@ == peg_s(s@),
{
    Error::Peg((s.to_owned(), None))
}

impl Error {
    /// This error wrapped under the description `desc`.
    fn ipush(self, desc: &str) -> (r: Self)
        ensures
            r@ == pushed(self@, desc@),
    {
        Error::Peg((desc.to_owned(), Some(Box::new(self))))
    }
}

impl From<crate::parser::Error> for Error {
    fn from(e: crate::parser::Error) -> (r: Self) {
        Error::Parser(e)
    }
}

impl vstd::std_specs::convert::FromSpecImpl<crate::parser::Error> for Error {
    open spec fn obeys_from_spec() -> bool {
        true
    }

    open spec fn from_spec(v: crate::parser::Error) -> Self {
        Error::Parser(v)
    }
}

impl From<crate::ast::Error> for Error {
    fn from(e: crate::ast::Error) -> (r: Self) {
        Error::Ast(e)
    }
}

impl vstd::std_specs::convert::FromSpecImpl<crate::ast::Error> for Error {
    open spec fn obeys_from_spec() -> bool {
        true
    }

    open spec fn from_spec(v: crate::ast::Error) -> Self {
        Error::Ast(v)
    }
}

/// The value of a rest of nodes, or of the error.
pub open spec fn rest_pv(r: Result<&[Node], Error>) -> Result<Seq<FlatV>, PegErrV> {
    match r {
        Ok(rest) => Ok(flats_v(rest@)),
        Err(e) => Err(e@),
    }
}

/// The value of a reading step.
pub open spec fn step_pv<T: View>(r: Result<(T, &[Node]), Error>) -> Step<T::V> {
    match r {
        Ok((x, rest)) => Ok((x@, flats_v(rest@))),
        Err(e) => Err(e@),
    }
}

/// An error of `r`, if any, wrapped under `desc`.
fn push_err<T>(r: Result<T, Error>, desc: &str) -> (res: Result<T, Error>)
    ensures
        match r {
            Ok(x) => res == Ok::<T, Error>(x),
            Err(e) => res matches Err(e2) && e2@ == pushed(e@, desc@),
        },
{
    match r {
        Ok(x) => Ok(x),
        Err(e) => Err(e.ipush(desc)),
    }
}

/// An error of `r`, if any, wrapped under `consuming <name>`.
fn consuming<T>(r: Result<T, Error>, name: &str) -> (res: Result<T, Error>)
    ensures
        match r {
            Ok(x) => res == Ok::<T, Error>(x),
            Err(e) => res matches Err(e2) && e2@ == pushed(e@, consuming_descr(name@)),
        },
{
    let d = concat("consuming ", name);
    push_err(r, d.as_str())
}

/// Enters rule `name`: the nodes after its begin node.
fn enter_rule<'a>(name: &str, nodes: &'a [Node]) -> (r: Result<&'a [Node], Error>)
    ensures
        rest_pv(r) == enter(name@, flats_v(nodes@)),
        r matches Ok(rest) ==> rest@.len() < nodes@.len(),
{
    match consume_node_start_rule_name(name, nodes) {
        Ok(rest) => Ok(rest),
        Err(e) => Err(Error::Ast(e)),
    }
}

/// Leaves rule `name`: the nodes after its end node.
fn leave_rule<'a>(name: &str, nodes: &'a [Node]) -> (r: Result<&'a [Node], Error>)
    ensures
        rest_pv(r) == lift(spec_end_rule(name@, flats_v(nodes@))),
        r matches Ok(rest) ==> rest@.len() < nodes@.len(),
{
    match consume_node_end_rule_name(name, nodes) {
        Ok(rest) => Ok(rest),
        Err(e) => Err(Error::Ast(e)),
    }
}

/// Consumes the value node `v`.
fn this_value<'a>(v: &str, nodes: &'a [Node]) -> (r: Result<&'a [Node], Error>)
    ensures
        rest_pv(r) == lift(spec_this_value(v@, flats_v(nodes@))),
        r matches Ok(rest) ==> rest@.len() < nodes@.len(),
{
    match consume_this_value(v, nodes) {
        Ok(rest) => Ok(rest),
        Err(e) => Err(Error::Ast(e)),
    }
}

/// Consumes a value node: its value and the rest.
fn value<'a>(nodes: &'a [Node]) -> (r: Result<(&'a str, &'a [Node]), Error>)
    ensures
        step_pv(r) == lift(spec_consume_val(flats_v(nodes@))),
        r matches Ok((_, rest)) ==> rest@.len() < nodes@.len(),
{
    match consume_val(nodes) {
        Ok(p) => Ok(p),
        Err(e) => Err(Error::Ast(e)),
    }
}

/// The first node.
fn peek<'a>(nodes: &'a [Node]) -> (r: Result<&'a Node, Error>)
    ensures
        match r {
            Ok(n) => lift(spec_peek(flats_v(nodes@))) == Ok::<FlatV, PegErrV>(n@),
            Err(e) => lift(spec_peek(flats_v(nodes@))) == Err::<FlatV, PegErrV>(e@),
        },
{
    match peek_first_node(nodes) {
        Ok(n) => Ok(n),
        Err(e) => Err(Error::Ast(e)),
    }
}

/// The name of a rule node.
fn nodename(n: &Node) -> (r: Result<&str, Error>)
    ensures
        match r {
            Ok(s) => lift(spec_nodename(n@)) == Ok::<Seq<char>, PegErrV>(s@),
            Err(e) => lift(spec_nodename(n@)) == Err::<Seq<char>, PegErrV>(e@),
        },
{
    match get_nodename(n) {
        Ok(s) => Ok(s),
        Err(e) => Err(Error::Ast(e)),
    }
}

/// Rule `name` holding a single value node: that value.
fn consume_rule_val<'a>(name: &str, nodes: &'a [Node]) -> (r: Result<(&'a str, &'a [Node]), Error>)
    ensures
        step_pv(r) == spec_rule_val(name@, flats_v(nodes@)),
        r matches Ok((_, rest)) ==> rest@.len() < nodes@.len(),
{
    let inner = match enter_rule(name, nodes) {
        Err(e) => Err(e),
        Ok(r) => match value(r) {
            Err(e) => Err(e),
            Ok((v, r2)) => match leave_rule(name, r2) {
                Err(e) => Err(e),
                Ok(r3) => Ok((v, r3)),
            },
        },
    };
    consuming(inner, name)
}

/// Rule `name` holding the value node `v`.
fn consume_rule_this<'a>(name: &str, v: &str, nodes: &'a [Node]) -> (r: Result<&'a [Node], Error>)
    ensures
        rest_pv(r) == spec_rule_this(name@, v@, flats_v(nodes@)),
        r matches Ok(rest) ==> rest@.len() < nodes@.len(),
{
    let inner = match enter_rule(name, nodes) {
        Err(e) => Err(e),
        Ok(r) => match this_value(v, r) {
            Err(e) => Err(e),
            Ok(r2) => leave_rule(name, r2),
        },
    };
    consuming(inner, name)
}

/// `symbol = [_'a-zA-Z0-9] [_'"a-zA-Z0-9]*`
fn consume_symbol<'a>(nodes: &'a [Node]) -> (r: Result<(&'a str, &'a [Node]), Error>)
    ensures
        step_pv(r) == spec_consume_symbol(flats_v(nodes@)),
        r matches Ok((_, rest)) ==> rest@.len() < nodes@.len(),
{
    consume_rule_val("symbol", nodes)
}

/// `mchars = (!"]" !(. "-") .)+`
fn consume_mchars<'a>(nodes: &'a [Node]) -> (r: Result<(&'a str, &'a [Node]), Error>)
    ensures
        step_pv(r) == spec_consume_mchars(flats_v(nodes@)),
        r matches Ok((_, rest)) ==> rest@.len() < nodes@.len(),
{
    consume_rule_val("mchars", nodes)
}

/// `_" = "\""`
fn consume_quote<'a>(nodes: &'a [Node]) -> (r: Result<&'a [Node], Error>)
    ensures
        rest_pv(r) == spec_consume_quote(flats_v(nodes@)),
        r matches Ok(rest) ==> rest@.len() < nodes@.len(),
{
    consume_rule_this("_\"", "\"", nodes)
}

/// `_' = "'"`
fn consume_single_quote<'a>(nodes: &'a [Node]) -> (r: Result<&'a [Node], Error>)
    ensures
        rest_pv(r) == spec_consume_single_quote(flats_v(nodes@)),
        r matches Ok(rest) ==> rest@.len() < nodes@.len(),
{
    consume_rule_this("_'", "'", nodes)
}

/// `dot = "."`: the expression matching any char.
fn consume_dot<'a>(nodes: &'a [Node]) -> (r: Result<(Expression, &'a [Node]), Error>)
    ensures
        step_pv(r) == spec_consume_dot(flats_v(nodes@)),
        r matches Ok((e, rest)) ==> rest@.len() < nodes@.len() && expr_wf(e@),
{
    match consume_rule_val("dot", nodes) {
        Err(e) => Err(e),
        Ok((_, r)) => Ok((crate::parser::dot(), r)),
    }
}

/// std's pretty `Debug` formatting (`format!("{:#?}", n)`) of a flat node.
/// Trusted: the text is claimed to be `debug_flat_node` of the node's
/// value, that is, to depend on nothing else; what it is, is not stated.
#[verifier::external_body]
fn fmt_flat_node(n: &Node) -> (s: String)
    ensures
        s@ == debug_flat_node(n@),
{
    format!("{:#?}", n)
}

/// The result of the content of rule `name`, followed by the end node of
/// the rule.
fn close_step<'a, T: View>(name: &str, inner: Result<(T, &'a [Node]), Error>) -> (r: Result<
    (T, &'a [Node]),
    Error,
>)
    ensures
        step_pv(r) == close(name@, step_pv(inner)),
        r matches Ok((y, rest)) ==> inner matches Ok((x, rest0)) && y == x && rest@.len()
            < rest0@.len(),
{
    match inner {
        Err(e) => Err(e),
        Ok((x, rest)) => match leave_rule(name, rest) {
            Err(e) => Err(e),
            Ok(r) => Ok((x, r)),
        },
    }
}

/// The char an escape sequence stands for.
fn unescape(v: &str) -> (r: Option<String>)
    ensures
        match r {
            Some(c) => unescaped(v@) == Some(c@),
            None => unescaped(v@) is None,
        },
{
    if str_eq(v, "\\r") {
        Some("\r".to_owned())
    } else if str_eq(v, "\\n") {
        Some("\n".to_owned())
    } else if str_eq(v, "\\t") {
        Some("\t".to_owned())
    } else if str_eq(v, "\\\\") {
        Some("\\".to_owned())
    } else if str_eq(v, "\\\"") {
        Some("\"".to_owned())
    } else {
        None
    }
}

/// `esc_char = '\r' / '\n' / '\t' / '\\' / '\"'`: the char it stands for.
fn consume_esc_char<'a>(nodes: &'a [Node]) -> (r: Result<(String, &'a [Node]), Error>)
    ensures
        step_pv(r) == spec_consume_esc_char(flats_v(nodes@)),
        r matches Ok((_, rest)) ==> rest@.len() < nodes@.len(),
{
    let inner = match enter_rule("esc_char", nodes) {
        Err(e) => Err(e),
        Ok(r) => close_step(
            "esc_char",
            match value(r) {
                Err(e) => Err(e),
                Ok((v, r2)) => match unescape(v) {
                    Some(c) => Ok((c, r2)),
                    None => Err(error_peg_s(concat("unknow esc char: ", v).as_str())),
                },
            },
        ),
    };
    consuming(inner, "esc_char")
}

/// The value of a hexadecimal digit.
fn hex_digit_of(c: char) -> (r: Option<u32>)
    ensures
        r matches Some(d) ==> d < 16 && hex_digit(c) == Some(d as nat),
        r is None ==> hex_digit(c) is None,
{
    if '0' <= c && c <= '9' {
        Some((c as u32) - ('0' as u32))
    } else if 'a' <= c && c <= 'f' {
        Some((c as u32) - ('a' as u32) + 10)
    } else if 'A' <= c && c <= 'F' {
        Some((c as u32) - ('A' as u32) + 10)
    } else {
        None
    }
}

/// A number with an invalid digit among its first `k` digits is invalid.
proof fn lemma_hex_number_prefix_invalid(s: Seq<char>, k: int)
    requires
        0 <= k <= s.len(),
        hex_number(s.take(k)) is None,
    ensures
        hex_number(s) is None,
    decreases s.len() - k,
{
    if k < s.len() {
        assert(s.take(k + 1).drop_last() =~= s.take(k));
        lemma_hex_number_prefix_invalid(s, k + 1);
    } else {
        assert(s.take(k) =~= s);
    }
}

/// A byte written in hexadecimal, as std's `u8::from_str_radix(s, 16)`
/// reads it.
fn hex_byte_of(s: &str) -> (r: Option<u8>)
    ensures
        r == hex_byte(s@),
{
    let n = s.unicode_len();
    let start: usize = if n > 0 && s.get_char(0) == '+' {
        1
    } else {
        0
    };
    let ghost digits = if s@.len() > 0 && s@[0] == '+' {
        s@.drop_first()
    } else {
        s@
    };
    proof {
        assert(digits =~= s@.subrange(start as int, n as int));
    }
    if start >= n {
        return None;
    }
    let mut i: usize = start;
    let mut v: u32 = 0;
    let ghost mut num: nat = 0;
    proof {
        assert(digits.take(0) =~= Seq::<char>::empty());
    }
    while i < n
        invariant
            start <= i <= n,
            n == s@.len(),
            digits =~= s@.subrange(start as int, n as int),
            digits == (if s@.len() > 0 && s@[0] == '+' {
                s@.drop_first()
            } else {
                s@
            }),
            digits.len() > 0,
            hex_number(digits.take(i - start)) == Some(num),
            v == (if num > 255 {
                256
            } else {
                num
            }),
        decreases n - i,
    {
        let c = s.get_char(i);
        let ghost k = (i - start) as int;
        proof {
            assert(digits.take(k + 1).drop_last() =~= digits.take(k));
            assert(digits.take(k + 1).last() == c);
        }
        match hex_digit_of(c) {
            None => {
                proof {
                    lemma_hex_number_prefix_invalid(digits, k + 1);
                }
                return None;
            },
            Some(d) => {
                proof {
                    num = num * 16 + d as nat;
                }
                if v > 255 {
                    v = 256;
                } else {
                    v = v * 16 + d;
                    if v > 256 {
                        v = 256;
                    }
                }
            },
        }
        i = i + 1;
    }
    proof {
        assert(digits.take(n - start) =~= digits);
    }
    if v <= 255 {
        Some(v as u8)
    } else {
        None
    }
}

/// The chars of `s` from index `i` on (none when `s` is shorter).
fn str_from(s: &str, i: usize) -> (r: &str)
    ensures
        r@ == chars_from(s@, i as int),
{
    let n = s.unicode_len();
    if n <= i {
        s.substring_char(n, n)
    } else {
        s.substring_char(i, n)
    }
}

/// `hex_char = '\0x' [0-9A-F] [0-9A-F]`: the char with that code.
fn consume_hex_char<'a>(nodes: &'a [Node]) -> (r: Result<(String, &'a [Node]), Error>)
    ensures
        step_pv(r) == spec_consume_hex_char(flats_v(nodes@)),
        r matches Ok((_, rest)) ==> rest@.len() < nodes@.len(),
{
    let inner = match enter_rule("hex_char", nodes) {
        Err(e) => Err(e),
        Ok(r) => close_step(
            "hex_char",
            match value(r) {
                Err(e) => Err(e),
                Ok((v, r2)) => {
                    let digits = str_from(v, 3);
                    match hex_byte_of(digits) {
                        Some(b) => Ok((char_to_string(b as char), r2)),
                        None => Err(
                            error_peg_s(concat("error parsing hex ", str_from(digits, 2)).as_str()),
                        ),
                    }
                },
            },
        ),
    };
    consuming(inner, "hex_char")
}

/// `mbetween = . "-" .`: the first and the third char of its value.
fn consume_mbetween<'a>(nodes: &'a [Node]) -> (r: Result<((char, char), &'a [Node]), Error>)
    ensures
        step_pv(r) == spec_consume_mbetween(flats_v(nodes@)),
        r matches Ok((_, rest)) ==> rest@.len() < nodes@.len(),
{
    let inner = match enter_rule("mbetween", nodes) {
        Err(e) => Err(e),
        Ok(r) => close_step(
            "mbetween",
            match value(r) {
                Err(e) => Err(e),
                Ok((v, r2)) => {
                    let n = v.unicode_len();
                    if n < 1 {
                        Err(error_peg_s("expected from char"))
                    } else if n < 2 {
                        Err(error_peg_s("expected '-' char"))
                    } else if n < 3 {
                        Err(error_peg_s("expected to char"))
                    } else {
                        Ok(((v.get_char(0), v.get_char(2)), r2))
                    }
                },
            },
        ),
    };
    consuming(inner, "mbetween")
}

/// The `mbetween` rules that follow, appended to `acc`.
fn rec_consume_mbetween<'a>(acc: Vec<(char, char)>, nodes: &'a [Node]) -> (r: Result<
    (Vec<(char, char)>, &'a [Node]),
    Error,
>)
    ensures
        step_pv(r) == spec_rec_consume_mbetween(acc@, flats_v(nodes@)),
        r matches Ok((_, rest)) ==> rest@.len() <= nodes@.len(),
    decreases nodes@.len(),
{
    let n = match peek(nodes) {
        Err(e) => {
            return Err(e);
        },
        Ok(n) => n,
    };
    let is_mb = match nodename(n) {
        Ok(s) => str_eq(s, "mbetween"),
        Err(_) => false,
    };
    if is_mb {
        match consume_mbetween(nodes) {
            Err(e) => Err(e),
            Ok((p, r)) => {
                let mut acc = acc;
                acc.push(p);
                rec_consume_mbetween(acc, r)
            },
        }
    } else {
        Ok((acc, nodes))
    }
}

/// The value of an optional string.
pub open spec fn opt_str_v(o: Option<&str>) -> Option<Seq<char>> {
    match o {
        Some(s) => Some(s@),
        None => None,
    }
}

/// The optional `mchars` that opens a match.
fn opt_mchars<'a>(nodes: &'a [Node]) -> (r: Result<(Option<&'a str>, &'a [Node]), Error>)
    ensures
        match r {
            Ok((om, rest)) => spec_opt_mchars(flats_v(nodes@)) == Ok::<
                (Option<Seq<char>>, Seq<FlatV>),
                PegErrV,
            >((opt_str_v(om), flats_v(rest@))),
            Err(e) => spec_opt_mchars(flats_v(nodes@)) == Err::<
                (Option<Seq<char>>, Seq<FlatV>),
                PegErrV,
            >(e@),
        },
        r matches Ok((_, rest)) ==> rest@.len() <= nodes@.len(),
{
    match peek(nodes) {
        Err(e) => Err(e),
        Ok(n) => match nodename(n) {
            Err(e) => Err(e),
            Ok(name) => if str_eq(name, "mchars") {
                match consume_mchars(nodes) {
                    Err(e) => Err(e),
                    Ok((c, r)) => Ok((Some(c), r)),
                }
            } else {
                Ok((None, nodes))
            },
        },
    }
}

/// The match expression for optional chars and a list of ranges.
fn build_match(om: Option<&str>, pairs: Vec<(char, char)>) -> (r: Result<Expression, Error>)
    ensures
        match r {
            Ok(e) => match_expr(opt_str_v(om), pairs@) == Ok::<ExprV, PegErrV>(e@) && expr_wf(e@),
            Err(e) => match_expr(opt_str_v(om), pairs@) == Err::<ExprV, PegErrV>(e@),
        },
{
    match om {
        Some(chars) => Ok(crate::parser::match_ch(chars, pairs)),
        None => if pairs.len() == 0 {
            Err(error_peg_s("Invalid match combination"))
        } else {
            let none = String::new();
            Ok(crate::parser::match_ch(none.as_str(), pairs))
        },
    }
}

/// `match = "[" ((mchars mbetween*) / mbetween+) "]"`
fn consume_match<'a>(nodes: &'a [Node]) -> (r: Result<(Expression, &'a [Node]), Error>)
    ensures
        step_pv(r) == spec_consume_match(flats_v(nodes@)),
        r matches Ok((e, rest)) ==> rest@.len() < nodes@.len() && expr_wf(e@),
{
    let inner = match enter_rule("match", nodes) {
        Err(e) => Err(e),
        Ok(r) => close_step(
            "match",
            match this_value("[", r) {
                Err(e) => Err(e),
                Ok(r2) => match opt_mchars(r2) {
                    Err(e) => Err(e),
                    Ok((om, r3)) => match rec_consume_mbetween(Vec::new(), r3) {
                        Err(e) => Err(e),
                        Ok((pairs, r4)) => match build_match(om, pairs) {
                            Err(e) => Err(e),
                            Ok(ex) => match this_value("]", r4) {
                                Err(e) => Err(e),
                                Ok(r5) => Ok((ex, r5)),
                            },
                        },
                    },
                },
            },
        ),
    };
    consuming(inner, "match")
}

/// Whether a node is the value `.`.
fn is_dot_val(n: &Node) -> (r: bool)
    ensures
        r == (n@ == FlatV::Val("."@)),
{
    match n {
        Node::Val(ch) => str_eq(ch.as_str(), "."),
        _ => false,
    }
}

/// The `.symbol` parts that follow, appended to `acc`.
fn rec_consume_dot_symbol<'a>(acc: String, nodes: &'a [Node]) -> (r: Result<
    (String, &'a [Node]),
    Error,
>)
    ensures
        step_pv(r) == spec_rec_consume_dot_symbol(acc@, flats_v(nodes@)),
        r matches Ok((_, rest)) ==> rest@.len() <= nodes@.len(),
    decreases nodes@.len(),
{
    let n = match peek(nodes) {
        Err(e) => {
            return Err(e);
        },
        Ok(n) => n,
    };
    if is_dot_val(n) {
        match value(nodes) {
            Err(e) => Err(e),
            Ok((_, r)) => match consume_symbol(r) {
                Err(e) => Err(e),
                Ok((sym, r2)) => {
                    let mut a = acc;
                    a.append(".");
                    a.append(sym);
                    rec_consume_dot_symbol(a, r2)
                },
            },
        }
    } else {
        Ok((acc, nodes))
    }
}

/// An optional leading dot of a rule name.
fn dot_or_empty<'a>(nodes: &'a [Node]) -> (r: Result<(String, &'a [Node]), Error>)
    ensures
        step_pv(r) == spec_dot_or_empty(flats_v(nodes@)),
        r matches Ok((_, rest)) ==> rest@.len() <= nodes@.len(),
{
    match peek(nodes) {
        Err(e) => Err(e),
        Ok(n) => if is_dot_val(n) {
            match this_value(".", nodes) {
                Err(e) => Err(e),
                Ok(r) => Ok((".".to_owned(), r)),
            }
        } else {
            Ok((String::new(), nodes))
        },
    }
}

/// `rule_name = '.'? symbol ('.' symbol)*`: the name, dots included.
fn consume_rule_name<'a>(nodes: &'a [Node]) -> (r: Result<(String, &'a [Node]), Error>)
    ensures
        step_pv(r) == spec_consume_rule_name(flats_v(nodes@)),
        r matches Ok((_, rest)) ==> rest@.len() < nodes@.len(),
{
    let inner = match enter_rule("rule_name", nodes) {
        Err(e) => Err(e),
        Ok(r) => close_step(
            "rule_name",
            match dot_or_empty(r) {
                Err(e) => Err(e),
                Ok((d, r2)) => match consume_symbol(r2) {
                    Err(e) => Err(e),
                    Ok((sym, r3)) => match rec_consume_dot_symbol(String::new(), r3) {
                        Err(e) => Err(e),
                        Ok((rest_name, r4)) => {
                            let mut name = d;
                            name.append(sym);
                            name.append(rest_name.as_str());
                            Ok((name, r4))
                        },
                    },
                },
            },
        ),
    };
    consuming(inner, "rule_name")
}

/// A reference to the rule named by a `rule_name`.
fn consume_rule_ref<'a>(nodes: &'a [Node]) -> (r: Result<(Expression, &'a [Node]), Error>)
    ensures
        step_pv(r) == spec_consume_rule_ref(flats_v(nodes@)),
        r matches Ok((e, rest)) ==> rest@.len() < nodes@.len() && expr_wf(e@),
{
    let inner = match consume_rule_name(nodes) {
        Err(e) => Err(e),
        Ok((name, r)) => Ok((crate::parser::symref(name.as_str()), r)),
    };
    push_err(inner, "consuming symbol rule_ref")
}

/// One element of a double quoted literal: an escape sequence, a
/// hexadecimal char or plain text.
fn consume_element<'a>(nodes: &'a [Node]) -> (r: Result<(String, &'a [Node]), Error>)
    ensures
        step_pv(r) == spec_consume_element(flats_v(nodes@)),
        r matches Ok((_, rest)) ==> rest@.len() < nodes@.len(),
{
    match peek(nodes) {
        Err(e) => Err(e),
        Ok(n) => match n {
            Node::BeginRule(rn) => if str_eq(rn.as_str(), "esc_char") {
                consume_esc_char(nodes)
            } else if str_eq(rn.as_str(), "hex_char") {
                consume_hex_char(nodes)
            } else {
                Err(error_peg_s(concat("unknown rule_name: ", rn.as_str()).as_str()))
            },
            Node::Val(_) => match value(nodes) {
                Err(e) => Err(e),
                Ok((v, r)) => Ok((v.to_owned(), r)),
            },
            _ => {
                let shown = fmt_flat_node(n);
                Err(error_peg_s(concat("looking for element ", shown.as_str()).as_str()))
            },
        },
    }
}

/// The elements of a double quoted literal up to its closing quote,
/// appended to `s`.
fn rec_consume_lit_esc_ch<'a>(s: String, nodes: &'a [Node]) -> (r: Result<
    (String, &'a [Node]),
    Error,
>)
    ensures
        step_pv(r) == spec_rec_consume_lit_esc_ch(s@, flats_v(nodes@)),
        r matches Ok((_, rest)) ==> rest@.len() <= nodes@.len(),
    decreases nodes@.len(),
{
    let n = match peek(nodes) {
        Err(e) => {
            return Err(e);
        },
        Ok(n) => n,
    };
    let is_quote = match nodename(n) {
        Ok(nm) => str_eq(nm, "_\""),
        Err(_) => false,
    };
    if is_quote {
        Ok((s, nodes))
    } else {
        match consume_element(nodes) {
            Err(e) => Err(e),
            Ok((v, r)) => {
                let mut s2 = s;
                s2.append(v.as_str());
                rec_consume_lit_esc_ch(s2, r)
            },
        }
    }
}

/// `lit_esc = _" (esc_char / hex_char / !_" .)* _"`: the text it stands for.
fn consume_literal_esc<'a>(nodes: &'a [Node]) -> (r: Result<(String, &'a [Node]), Error>)
    ensures
        step_pv(r) == spec_consume_literal_esc(flats_v(nodes@)),
        r matches Ok((_, rest)) ==> rest@.len() < nodes@.len(),
{
    let inner = match enter_rule("lit_esc", nodes) {
        Err(e) => Err(e),
        Ok(r) => close_step(
            "lit_esc",
            match consume_quote(r) {
                Err(e) => Err(e),
                Ok(r2) => match rec_consume_lit_esc_ch(String::new(), r2) {
                    Err(e) => Err(e),
                    Ok((val, r3)) => {
                        let mut d = concat("lesc:(", val.as_str());
                        d.append(")");
                        match push_err(consume_quote(r3), d.as_str()) {
                            Err(e) => Err(e),
                            Ok(r4) => Ok((val, r4)),
                        }
                    },
                },
            },
        ),
    };
    consuming(inner, "lit_esc")
}

/// `lit_noesc = _' (!_' .)* _'`: the text between the quotes, as it is.
fn consume_literal_no_esc<'a>(nodes: &'a [Node]) -> (r: Result<(String, &'a [Node]), Error>)
    ensures
        step_pv(r) == spec_consume_literal_no_esc(flats_v(nodes@)),
        r matches Ok((_, rest)) ==> rest@.len() < nodes@.len(),
{
    let inner = match enter_rule("lit_noesc", nodes) {
        Err(e) => Err(e),
        Ok(r) => close_step(
            "lit_noesc",
            match consume_single_quote(r) {
                Err(e) => Err(e),
                Ok(r2) => match value(r2) {
                    Err(e) => Err(e),
                    Ok((v, r3)) => {
                        let val = v.to_owned();
                        let mut d = concat("l:(", val.as_str());
                        d.append(")");
                        match push_err(consume_single_quote(r3), d.as_str()) {
                            Err(e) => Err(e),
                            Ok(r4) => Ok((val, r4)),
                        }
                    },
                },
            },
        ),
    };
    consuming(inner, "lit_noesc")
}

/// `literal = lit_noesc / lit_esc`: its text.
fn consume_literal_string<'a>(nodes: &'a [Node]) -> (r: Result<(String, &'a [Node]), Error>)
    ensures
        step_pv(r) == spec_consume_literal_string(flats_v(nodes@)),
        r matches Ok((_, rest)) ==> rest@.len() < nodes@.len(),
{
    let inner = match enter_rule("literal", nodes) {
        Err(e) => Err(e),
        Ok(r) => close_step(
            "literal",
            match peek(r) {
                Err(e) => Err(e),
                Ok(n) => match nodename(n) {
                    Err(e) => Err(e),
                    Ok(nm) => if str_eq(nm, "lit_noesc") {
                        consume_literal_no_esc(r)
                    } else if str_eq(nm, "lit_esc") {
                        consume_literal_esc(r)
                    } else {
                        Err(error_peg_s(concat("unexpected node ", nm).as_str()))
                    },
                },
            },
        ),
    };
    consuming(inner, "literal")
}

/// A literal expression.
fn consume_literal_expr<'a>(nodes: &'a [Node]) -> (r: Result<(Expression, &'a [Node]), Error>)
    ensures
        step_pv(r) == spec_consume_literal_expr(flats_v(nodes@)),
        r matches Ok((e, rest)) ==> rest@.len() < nodes@.len() && expr_wf(e@),
{
    match consume_literal_string(nodes) {
        Err(e) => Err(e),
        Ok((v, r)) => Ok((crate::parser::lit(v.as_str()), r)),
    }
}

/// `error = 'error' _ '(' _ literal _ ')'`: the expression that fails
/// with that text.
fn consume_error<'a>(nodes: &'a [Node]) -> (r: Result<(Expression, &'a [Node]), Error>)
    ensures
        step_pv(r) == spec_consume_error(flats_v(nodes@)),
        r matches Ok((e, rest)) ==> rest@.len() < nodes@.len() && expr_wf(e@),
{
    let inner = match enter_rule("error", nodes) {
        Err(e) => Err(e),
        Ok(r) => close_step(
            "error",
            match this_value("error", r) {
                Err(e) => Err(e),
                Ok(r2) => match this_value("(", r2) {
                    Err(e) => Err(e),
                    Ok(r3) => match consume_literal_string(r3) {
                        Err(e) => Err(e),
                        Ok((text, r4)) => match this_value(")", r4) {
                            Err(e) => Err(e),
                            Ok(r5) => Ok((text, r5)),
                        },
                    },
                },
            },
        ),
    };
    match consuming(inner, "error") {
        Err(e) => Err(e),
        Ok((v, r)) => Ok((crate::parser::error(v.as_str()), r)),
    }
}

/// `atom = literal / match / dot / rule_name`
fn consume_atom<'a>(nodes: &'a [Node]) -> (r: Result<(Expression, &'a [Node]), Error>)
    ensures
        step_pv(r) == spec_consume_atom(flats_v(nodes@)),
        r matches Ok((e, rest)) ==> rest@.len() < nodes@.len() && expr_wf(e@),
{
    let inner = match enter_rule("atom", nodes) {
        Err(e) => Err(e),
        Ok(r) => close_step(
            "atom",
            match peek(r) {
                Err(e) => Err(e),
                Ok(n) => match nodename(n) {
                    Err(e) => Err(e),
                    Ok(nm) => {
                        let d = concat("n:", nm);
                        let found = if str_eq(nm, "literal") {
                            consume_literal_expr(r)
                        } else if str_eq(nm, "rule_name") {
                            consume_rule_ref(r)
                        } else if str_eq(nm, "dot") {
                            consume_dot(r)
                        } else if str_eq(nm, "match") {
                            consume_match(r)
                        } else {
                            Err(error_peg_s(concat("unknown ", nm).as_str()))
                        };
                        push_err(found, d.as_str())
                    },
                },
            },
        ),
    };
    consuming(inner, "atom")
}

/// The alternatives of an `or`, or the elements of an `and`, read so far:
/// none, one, or a list of at least two.
enum ExprOrVecExpr {
    Expr(Expression),
    VExpr(Vec<Expression>),
    Nothing,
}

impl View for ExprOrVecExpr {
    type V = Seq<ExprV>;

    closed spec fn view(&self) -> Seq<ExprV> {
        match self {
            ExprOrVecExpr::Expr(e) => seq![e@],
            ExprOrVecExpr::VExpr(v) => exprs_v(v@),
            ExprOrVecExpr::Nothing => Seq::empty(),
        }
    }
}

impl ExprOrVecExpr {
    /// A list holds at least two expressions, and every expression is
    /// well formed.
    spec fn wf(&self) -> bool {
        &&& (self matches ExprOrVecExpr::VExpr(v) ==> v@.len() >= 2)
        &&& exprs_wf(self@)
    }

    /// The expressions with `expr` added at the end.
    fn ipush(self, expr: Expression) -> (r: Self)
        requires
            self.wf(),
            expr_wf(expr@),
        ensures
            r@ == self@.push(expr@),
            r.wf(),
    {
        let ghost before = self@;
        let ghost e = expr@;
        proof {
            lemma_exprs_wf(before);
            lemma_exprs_wf(before.push(e));
        }
        match self {
            ExprOrVecExpr::Expr(e0) => {
                let ghost g0 = e0@;
                let v = vec![e0, expr];
                proof {
                    lemma_exprs_v_index(v@);
                    assert(before =~= seq![g0]);
                    assert(exprs_v(v@) =~= before.push(e));
                }
                ExprOrVecExpr::VExpr(v)
            },
            ExprOrVecExpr::VExpr(v) => {
                let mut v = v;
                let ghost old_v = v@;
                v.push(expr);
                proof {
                    assert(v@.drop_last() =~= old_v);
                }
                ExprOrVecExpr::VExpr(v)
            },
            ExprOrVecExpr::Nothing => {
                proof {
                    assert(seq![e] =~= before.push(e));
                }
                ExprOrVecExpr::Expr(expr)
            },
        }
    }
}

/// The expression of the alternatives (`is_or`) or of the sequence read.
fn multi_expression(eov: ExprOrVecExpr, is_or: bool) -> (r: Result<Expression, Error>)
    requires
        eov.wf(),
    ensures
        match r {
            Ok(e) => multi_expr(eov@, is_or) == Ok::<ExprV, PegErrV>(e@) && expr_wf(e@),
            Err(e) => multi_expr(eov@, is_or) == Err::<ExprV, PegErrV>(e@),
        },
{
    proof {
        lemma_exprs_wf(eov@);
    }
    match eov {
        ExprOrVecExpr::Nothing => Err(error_peg_s("logic error, empty or parsing???")),
        ExprOrVecExpr::Expr(e) => Ok(e),
        ExprOrVecExpr::VExpr(v) => {
            proof {
                lemma_exprs_v_index(v@);
            }
            if is_or {
                Ok(crate::parser::or(v))
            } else {
                Ok(crate::parser::and(v))
            }
        },
    }
}

/// An expression under a repetition mark `*`, `+` or `?`.
fn process_repetition_indicator(expr: Expression, rsymbol: &str) -> (r: Result<Expression, Error>)
    requires
        expr_wf(expr@),
    ensures
        match r {
            Ok(e) => repetition(expr@, rsymbol@) == Ok::<ExprV, PegErrV>(e@) && expr_wf(e@),
            Err(e) => repetition(expr@, rsymbol@) == Err::<ExprV, PegErrV>(e@),
        },
{
    if str_eq(rsymbol, "+") {
        Ok(crate::parser::repeat(expr, 1, None))
    } else if str_eq(rsymbol, "*") {
        Ok(crate::parser::repeat(expr, 0, None))
    } else if str_eq(rsymbol, "?") {
        Ok(crate::parser::repeat(expr, 0, Some(1)))
    } else {
        Err(error_peg_s(concat("repetition symbol unknown ", rsymbol).as_str()))
    }
}

/// Whether the first node begins rule `name`.
fn begins_rule(nodes: &[Node], name: &str) -> (r: bool)
    ensures
        r == begins(flats_v(nodes@), name@),
{
    if nodes.len() == 0 {
        false
    } else {
        match &nodes[0] {
            Node::BeginRule(n) => str_eq(n.as_str(), name),
            _ => false,
        }
    }
}

/// `expr = or`
fn consume_peg_expr<'a>(nodes: &'a [Node]) -> (r: Result<(Expression, &'a [Node]), Error>)
    ensures
        step_pv(r) == spec_consume_peg_expr(flats_v(nodes@)),
        r matches Ok((e, rest)) ==> rest@.len() < nodes@.len() && expr_wf(e@),
    decreases nodes@.len(), 0nat,
{
    let inner = match enter_rule("expr", nodes) {
        Err(e) => Err(e),
        Ok(r) => close_step("expr", consume_or(r)),
    };
    consuming(inner, "expr")
}

/// `or = and (_ '/' _ (error / or))?`: the alternatives.
fn consume_or<'a>(nodes: &'a [Node]) -> (r: Result<(Expression, &'a [Node]), Error>)
    ensures
        step_pv(r) == spec_consume_or(flats_v(nodes@)),
        r matches Ok((e, rest)) ==> rest@.len() < nodes@.len() && expr_wf(e@),
    decreases nodes@.len(), 2nat,
{
    let inner = match rec_consume_or(ExprOrVecExpr::Nothing, nodes) {
        Err(e) => Err(e),
        Ok((eov, r)) => match multi_expression(eov, true) {
            Err(e) => Err(e),
            Ok(ex) => Ok((ex, r)),
        },
    };
    push_err(inner, "or:")
}

/// The alternatives of nested `or` rules, added to `eov`.
fn rec_consume_or<'a>(eov: ExprOrVecExpr, nodes: &'a [Node]) -> (r: Result<
    (ExprOrVecExpr, &'a [Node]),
    Error,
>)
    requires
        eov.wf(),
    ensures
        step_pv(r) == spec_rec_consume_or(eov@, flats_v(nodes@)),
        r matches Ok((v, rest)) ==> rest@.len() < nodes@.len() && v.wf(),
    decreases nodes@.len(), 1nat,
{
    let inner = match enter_rule("or", nodes) {
        Err(e) => Err(e),
        Ok(r) => close_step(
            "or",
            match consume_and(r) {
                Err(e) => Err(e),
                Ok((ex, r2)) => {
                    let eov2 = eov.ipush(ex);
                    match peek(r2) {
                        Err(e) => Err(e),
                        Ok(n) => match n {
                            Node::Val(_) => match this_value("/", r2) {
                                Err(e) => Err(e),
                                Ok(r3) => if begins_rule(r3, "error") {
                                    match consume_error(r3) {
                                        Err(e) => Err(e),
                                        Ok((ee, r4)) => Ok((eov2.ipush(ee), r4)),
                                    }
                                } else {
                                    rec_consume_or(eov2, r3)
                                },
                            },
                            _ => Ok((eov2, r2)),
                        },
                    }
                },
            },
        ),
    };
    consuming(inner, "or")
}

/// `and = rep_or_neg (_1 _ !(rule_name _ '=') and)*`: the sequence.
fn consume_and<'a>(nodes: &'a [Node]) -> (r: Result<(Expression, &'a [Node]), Error>)
    ensures
        step_pv(r) == spec_consume_and(flats_v(nodes@)),
        r matches Ok((e, rest)) ==> rest@.len() < nodes@.len() && expr_wf(e@),
    decreases nodes@.len(), 2nat,
{
    match rec_consume_and(ExprOrVecExpr::Nothing, nodes) {
        Err(e) => Err(e),
        Ok((eov, r)) => match multi_expression(eov, false) {
            Err(e) => Err(e),
            Ok(ex) => Ok((ex, r)),
        },
    }
}

/// Whether a node begins an `and` rule.
fn is_begin_and(n: &Node) -> (r: bool)
    ensures
        r == (n@ == FlatV::BeginRule("and"@)),
{
    match n {
        Node::BeginRule(nm) => str_eq(nm.as_str(), "and"),
        _ => false,
    }
}

/// The elements of nested `and` rules, added to `eov`.
fn rec_consume_and<'a>(eov: ExprOrVecExpr, nodes: &'a [Node]) -> (r: Result<
    (ExprOrVecExpr, &'a [Node]),
    Error,
>)
    requires
        eov.wf(),
    ensures
        step_pv(r) == spec_rec_consume_and(eov@, flats_v(nodes@)),
        r matches Ok((v, rest)) ==> rest@.len() < nodes@.len() && v.wf(),
    decreases nodes@.len(), 1nat,
{
    let inner = match enter_rule("and", nodes) {
        Err(e) => Err(e),
        Ok(r) => close_step(
            "and",
            match peek(r) {
                Err(e) => Err(e),
                Ok(n) => match nodename(n) {
                    Err(e) => Err(e),
                    Ok(nm) => if str_eq(nm, "error") {
                        match consume_error(r) {
                            Err(e) => Err(e),
                            Ok((ee, r2)) => Ok((eov.ipush(ee), r2)),
                        }
                    } else {
                        match consume_rep_or_neg(r) {
                            Err(e) => Err(e),
                            Ok((ex, r2)) => {
                                let eov2 = eov.ipush(ex);
                                match peek(r2) {
                                    Err(e) => Err(e),
                                    Ok(n2) => if is_begin_and(n2) {
                                        rec_consume_and(eov2, r2)
                                    } else {
                                        Ok((eov2, r2))
                                    },
                                }
                            },
                        }
                    },
                },
            },
        ),
    };
    consuming(inner, "and")
}

/// `rep_or_neg = atom_or_par ("*" / "+" / "?")? / "!" atom_or_par`
fn consume_rep_or_neg<'a>(nodes: &'a [Node]) -> (r: Result<(Expression, &'a [Node]), Error>)
    ensures
        step_pv(r) == spec_consume_rep_or_neg(flats_v(nodes@)),
        r matches Ok((e, rest)) ==> rest@.len() < nodes@.len() && expr_wf(e@),
    decreases nodes@.len(), 0nat,
{
    let inner = match enter_rule("rep_or_neg", nodes) {
        Err(e) => Err(e),
        Ok(r) => close_step(
            "rep_or_neg",
            match peek(r) {
                Err(e) => Err(e),
                Ok(n) => match n {
                    Node::Val(v) => if str_eq(v.as_str(), "!") {
                        match this_value("!", r) {
                            Err(e) => Err(e),
                            Ok(r2) => match consume_atom_or_par(r2) {
                                Err(e) => Err(e),
                                Ok((ex, r3)) => Ok((crate::parser::not(ex), r3)),
                            },
                        }
                    } else {
                        Err(error_peg_s(concat("expected '!', received ", v.as_str()).as_str()))
                    },
                    _ => match consume_atom_or_par(r) {
                        Err(e) => Err(e),
                        Ok((ex, r2)) => match peek(r2) {
                            Err(e) => Err(e),
                            Ok(n2) => match n2 {
                                Node::Val(_) => match value(r2) {
                                    Err(e) => Err(e),
                                    Ok((sym, r3)) => match process_repetition_indicator(ex, sym) {
                                        Err(e) => Err(e),
                                        Ok(e2) => Ok((e2, r3)),
                                    },
                                },
                                _ => Ok((ex, r2)),
                            },
                        },
                    },
                },
            },
        ),
    };
    consuming(inner, "rep_or_neg")
}

/// `atom_or_par = atom / parenth`
fn consume_atom_or_par<'a>(nodes: &'a [Node]) -> (r: Result<(Expression, &'a [Node]), Error>)
    ensures
        step_pv(r) == spec_consume_atom_or_par(flats_v(nodes@)),
        r matches Ok((e, rest)) ==> rest@.len() < nodes@.len() && expr_wf(e@),
    decreases nodes@.len(), 0nat,
{
    let inner = match enter_rule("atom_or_par", nodes) {
        Err(e) => Err(e),
        Ok(r) => close_step(
            "atom_or_par",
            match peek(r) {
                Err(e) => Err(e),
                Ok(n) => match nodename(n) {
                    Err(e) => Err(e),
                    Ok(nm) => {
                        let d = concat("n:", nm);
                        let found = if str_eq(nm, "atom") {
                            consume_atom(r)
                        } else if str_eq(nm, "parenth") {
                            consume_parenth(r)
                        } else {
                            Err(error_peg_s(concat("unknown ", nm).as_str()))
                        };
                        push_err(found, d.as_str())
                    },
                },
            },
        ),
    };
    consuming(inner, "atom_or_par")
}

/// `parenth = "(" _ expr _ ")"`
fn consume_parenth<'a>(nodes: &'a [Node]) -> (r: Result<(Expression, &'a [Node]), Error>)
    ensures
        step_pv(r) == spec_consume_parenth(flats_v(nodes@)),
        r matches Ok((e, rest)) ==> rest@.len() < nodes@.len() && expr_wf(e@),
    decreases nodes@.len(), 0nat,
{
    let inner = match enter_rule("parenth", nodes) {
        Err(e) => Err(e),
        Ok(r) => close_step(
            "parenth",
            match this_value("(", r) {
                Err(e) => Err(e),
                Ok(r2) => match consume_peg_expr(r2) {
                    Err(e) => Err(e),
                    Ok((ex, r3)) => match this_value(")", r3) {
                        Err(e) => Err(e),
                        Ok(r4) => Ok((ex, r4)),
                    },
                },
            },
        ),
    };
    consuming(inner, "parenth")
}

/// The stack of module paths being read, innermost last: reading
/// `mod_a`, then `mod_b` inside it, gives `mod_a`, `mod_amod_b`.
struct Context {
    inside_mods: Vec<String>,
}

impl View for Context {
    type V = Seq<Seq<char>>;

    closed spec fn view(&self) -> Seq<Seq<char>> {
        strings_v(self.inside_mods@)
    }
}

impl Context {
    /// Outside of any module.
    fn new() -> (r: Self)
        ensures
            r@ == Seq::<Seq<char>>::empty(),
    {
        let r = Context { inside_mods: Vec::new() };
        proof {
            assert(strings_v(r.inside_mods@) =~= Seq::<Seq<char>>::empty());
        }
        r
    }

    /// Inside module `mod_name` too.
    fn add_module(self, mod_name: &str) -> (r: Self)
        ensures
            r@ == self@.push(
                if self@.len() > 0 {
                    self@.last() + mod_name@
                } else {
                    mod_name@
                },
            ),
    {
        let mut mods = self.inside_mods;
        let ghost before = mods@;
        let n = mods.len();
        let path = if n > 0 {
            concat(mods[n - 1].as_str(), mod_name)
        } else {
            mod_name.to_owned()
        };
        mods.push(path);
        let r = Context { inside_mods: mods };
        proof {
            assert(strings_v(r.inside_mods@) =~= strings_v(before).push(path@));
        }
        r
    }

    /// Out of the innermost module.
    fn remove_module(self, mod_name: &str) -> (r: Result<Self, Error>)
        ensures
            match r {
                Ok(c) => self@.len() > 0 && c@ == self@.drop_last(),
                Err(e) => self@.len() == 0 && e@ == peg_s(
                    "remove module on empty path statck: <"@ + mod_name@ + ">"@,
                ),
            },
    {
        let mut mods = self.inside_mods;
        let ghost before = mods@;
        if mods.len() > 0 {
            mods.pop();
            let r = Context { inside_mods: mods };
            proof {
                assert(strings_v(r.inside_mods@) =~= strings_v(before).drop_last());
            }
            Ok(r)
        } else {
            let mut d = concat("remove module on empty path statck: <", mod_name);
            d.append(">");
            Err(error_peg_s(d.as_str()))
        }
    }
}

/// The value of a step that reads a set of rules.
pub open spec fn rules_step_pv<C>(r: Result<(SetOfRules, &[Node], C), Error>) -> Step<
    Map<Seq<char>, ExprV>,
> {
    match r {
        Ok((rules, rest, _)) => Ok((rules@, flats_v(rest@))),
        Err(e) => Err(e@),
    }
}

/// `rule = _ rule_name _ '=' _ expr _eol _`: its name and expression.
fn consume_rule<'a>(nodes: &'a [Node]) -> (r: Result<((String, Expression), &'a [Node]), Error>)
    ensures
        step_pv(r) == spec_consume_rule(flats_v(nodes@)),
        r matches Ok((p, rest)) ==> rest@.len() < nodes@.len() && expr_wf(p.1@),
{
    let inner = match enter_rule("rule", nodes) {
        Err(e) => Err(e),
        Ok(r) => close_step(
            "rule",
            match consume_rule_name(r) {
                Err(e) => Err(e),
                Ok((name, r2)) => match this_value("=", r2) {
                    Err(e) => Err(e),
                    Ok(r3) => match consume_peg_expr(r3) {
                        Err(e) => Err(e),
                        Ok((ex, r4)) => Ok(((name, ex), r4)),
                    },
                },
            },
        ),
    };
    consuming(inner, "rule")
}

/// `mod_name = symbol`
fn consume_mod_name<'a>(nodes: &'a [Node]) -> (r: Result<(&'a str, &'a [Node]), Error>)
    ensures
        step_pv(r) == spec_consume_mod_name(flats_v(nodes@)),
        r matches Ok((_, rest)) ==> rest@.len() < nodes@.len(),
{
    let inner = match enter_rule("mod_name", nodes) {
        Err(e) => Err(e),
        Ok(r) => close_step("mod_name", consume_symbol(r)),
    };
    consuming(inner, "mod_name")
}

/// `module = _ mod_name _ '{' _ grammar _ '}' _eol _`: the rules inside.
fn consume_module<'a>(nodes: &'a [Node], context: Context) -> (r: Result<
    (SetOfRules, &'a [Node], Context),
    Error,
>)
    ensures
        rules_step_pv(r) == spec_consume_module(flats_v(nodes@)),
        r matches Ok((rules, rest, c)) ==> rest@.len() < nodes@.len() && rules.wf() && c@
            == context@,
    decreases nodes@.len(), 0nat,
{
    let ghost ctx0 = context@;
    let inner = match enter_rule("module", nodes) {
        Err(e) => Err(e),
        Ok(r) => match consume_mod_name(r) {
            Err(e) => Err(e),
            Ok((mod_name, r2)) => match this_value("{", r2) {
                Err(e) => Err(e),
                Ok(r3) => match consume_grammar(r3, context.add_module(mod_name)) {
                    Err(e) => Err(e),
                    Ok((rules, r4, ctx)) => match this_value("}", r4) {
                        Err(e) => Err(e),
                        Ok(r5) => match ctx.remove_module(mod_name) {
                            Err(e) => Err(e),
                            Ok(ctx2) => match leave_rule("module", r5) {
                                Err(e) => Err(e),
                                Ok(r6) => {
                                    proof {
                                        assert(ctx2@ =~= ctx0);
                                    }
                                    Ok((rules, r6, ctx2))
                                },
                            },
                        },
                    },
                },
            },
        },
    };
    consuming(inner, "module")
}

/// `grammar = (rule / module)+`: the rules, those of modules included.
fn consume_grammar<'a>(nodes: &'a [Node], context: Context) -> (r: Result<
    (SetOfRules, &'a [Node], Context),
    Error,
>)
    ensures
        rules_step_pv(r) == spec_consume_grammar(flats_v(nodes@)),
        r matches Ok((rules, rest, c)) ==> rest@.len() < nodes@.len() && rules.wf() && c@
            == context@,
    decreases nodes@.len(), 0nat,
{
    let inner = match enter_rule("grammar", nodes) {
        Err(e) => Err(e),
        Ok(r) => match rec_consume_rules_or_modules(SetOfRules::empty(), r, context) {
            Err(e) => Err(e),
            Ok((rules, r2, ctx)) => match leave_rule("grammar", r2) {
                Err(e) => Err(e),
                Ok(r3) => Ok((rules, r3, ctx)),
            },
        },
    };
    consuming(inner, "grammar")
}

/// The rules and modules that follow, added to `rules`.
fn rec_consume_rules_or_modules<'a>(rules: SetOfRules, nodes: &'a [Node], context: Context) -> (r:
    Result<(SetOfRules, &'a [Node], Context), Error>)
    requires
        rules.wf(),
    ensures
        rules_step_pv(r) == spec_rec_consume_rules_or_modules(rules@, flats_v(nodes@)),
        r matches Ok((rules2, rest, c)) ==> rest@.len() <= nodes@.len() && rules2.wf() && c@
            == context@,
    decreases nodes@.len(), 1nat,
{
    match peek(nodes) {
        Err(e) => Err(e),
        Ok(n) => match n {
            Node::BeginRule(rm) => {
                let step = if str_eq(rm.as_str(), "rule") {
                    match consume_rule(nodes) {
                        Err(e) => Err(e),
                        Ok(((name, ex), r)) => {
                            let rules2 = rules.add(name.as_str(), ex);
                            Ok((rules2, r, context))
                        },
                    }
                } else if str_eq(rm.as_str(), "module") {
                    match consume_module(nodes, context) {
                        Err(e) => Err(e),
                        Ok((mod_rules, r, ctx)) => {
                            let rules2 = rules.merge(mod_rules);
                            Ok((rules2, r, ctx))
                        },
                    }
                } else {
                    Err(error_peg_s(concat("expected rule or module, received: ", rm.as_str()).as_str()))
                };
                match step {
                    Err(e) => Err(e),
                    Ok((rules2, r, ctx)) => rec_consume_rules_or_modules(rules2, r, ctx),
                }
            },
            _ => Ok((rules, nodes, context)),
        },
    }
}

/// `main = grammar`
fn consume_main<'a>(nodes: &'a [Node], context: Context) -> (r: Result<
    (SetOfRules, &'a [Node], Context),
    Error,
>)
    ensures
        rules_step_pv(r) == spec_consume_main(flats_v(nodes@)),
        r matches Ok((rules, rest, c)) ==> rules.wf() && c@ == context@,
{
    let inner = match enter_rule("main", nodes) {
        Err(e) => Err(e),
        Ok(r) => match consume_grammar(r, context) {
            Err(e) => Err(e),
            Ok((rules, r2, ctx)) => match leave_rule("main", r2) {
                Err(e) => Err(e),
                Ok(r3) => Ok((rules, r3, ctx)),
            },
        },
    };
    consuming(inner, "main")
}

/// The rules read from the flat nodes of a PEG tree; every node must be
/// read.
pub fn rules_from_flat_ast(nodes: &[Node]) -> (r: Result<SetOfRules, Error>)
    ensures
        match r {
            Ok(rules) => spec_rules_from_flat(flats_v(nodes@)) == Ok::<
                Map<Seq<char>, ExprV>,
                PegErrV,
            >(rules@) && rules.wf(),
            Err(e) => spec_rules_from_flat(flats_v(nodes@)) == Err::<Map<Seq<char>, ExprV>, PegErrV>(
                e@,
            ),
        },
{
    let (rules, rest, _context) = match consume_main(nodes, Context::new()) {
        Err(e) => {
            return Err(e);
        },
        Ok(t) => t,
    };
    if rest.len() != 0 {
        Err(error_peg_s("expected empty nodes after processing main"))
    } else {
        Ok(rules)
    }
}

/// The rules that tell spacing and line ends apart; they are pruned from
/// the tree of a PEG text before it is read.
pub open spec fn spacing_rules() -> Seq<Seq<char>> {
    seq!["_"@, "_1"@, "_eol"@]
}

/// The rules of the PEG text `peg`: the text
/// is parsed with the grammar of PEG grammars, the tree is compacted, the
/// spacing rules are pruned, and its flat nodes are read into rules.
pub open spec fn peg_rules_result(peg: Seq<char>) -> Result<
    Map<Seq<char>, ExprV>,
    PegErrV,
> {
    match parse_result(peg, peg_grammar()) {
        Err(e) => Err(PegErrV::Parser(e)),
        Ok(tree) => spec_rules_from_flat(
            flatten_v(prune_v(compact_v(tree), spacing_rules())),
        ),
    }
}

/// The set of rules that a grammar written in PEG gives, to use with
/// [`crate::parse`]; or the error met reading it.
///
/// ```text
/// main    =   '('  main  ( ')'  /  error("unbalanced parenthesys") )
///         /   'hello'
/// ```
pub fn rules_from_peg(peg: &str) -> (r: Result<SetOfRules, Error>)
    ensures
        match r {
            Ok(rules) => peg_rules_result(peg@) == Ok::<
                Map<Seq<char>, ExprV>,
                PegErrV,
            >(rules@) && rules.wf(),
            Err(e) => peg_rules_result(peg@) == Err::<
                Map<Seq<char>, ExprV>,
                PegErrV,
            >(e@),
        },
{
    let grammar = parse_peg();
    let ast = match crate::parse(peg, &grammar) {
        Err(e) => {
            return Err(Error::Parser(e));
        },
        Ok(a) => a,
    };
    let names: [&str; 3] = ["_", "_1", "_eol"];
    proof {
        assert(strs_v(names@) =~= spacing_rules());
    }
    let nodes = ast.compact().prune(&names).flatten();
    rules_from_flat_ast(nodes.as_slice())
}

} // verus!
