//! What reading a flattened PEG tree into rules gives, written as spec
//! functions over the values of the flat nodes.
//!
//! Each function takes the remaining nodes and gives what it read together
//! with the nodes left after it, or the error. Errors met inside a rule are
//! wrapped with a `consuming <rule>` description, as the reader does.

use vstd::prelude::*;

use crate::ast::flat::{
    spec_consume_val, spec_end_rule, spec_nodename, spec_peek, spec_start_rule, spec_this_value,
    FlatV,
};
use crate::ast::ErrorV;
use crate::parser::atom::AtomV;
use crate::parser::expression::ExprV;

verus! {

/// The value of a PEG reading error.
pub enum PegErrV {
    /// A description and, optionally, the error it wraps
    Peg(Seq<char>, Option<Box<PegErrV>>),
    /// An error of the parser
    Parser(crate::parser::ErrorV),
    /// An error met walking the tree
    Ast(ErrorV),
}

/// What a reading step gives: a value and the nodes left, or an error.
pub type Step<T> = Result<(T, Seq<FlatV>), PegErrV>;

/// A PEG error with only a description.
pub open spec fn peg_s(d: Seq<char>) -> PegErrV {
    PegErrV::Peg(d, None)
}

/// `e` wrapped under the description `d`.
pub open spec fn pushed(e: PegErrV, d: Seq<char>) -> PegErrV {
    PegErrV::Peg(d, Some(Box::new(e)))
}

/// An error of `r`, if any, wrapped under `d`.
pub open spec fn push_on<T>(r: Result<T, PegErrV>, d: Seq<char>) -> Result<T, PegErrV> {
    match r {
        Ok(x) => Ok(x),
        Err(e) => Err(pushed(e, d)),
    }
}

/// An error of the tree walk, as a PEG error.
pub open spec fn lift<T>(r: Result<T, ErrorV>) -> Result<T, PegErrV> {
    match r {
        Ok(x) => Ok(x),
        Err(e) => Err(PegErrV::Ast(e)),
    }
}

/// The description wrapped around errors met inside rule `name`.
pub open spec fn consuming_descr(name: Seq<char>) -> Seq<char> {
    "consuming "@ + name
}

/// Entering rule `name`: the nodes after its begin node.
pub open spec fn enter(name: Seq<char>, ns: Seq<FlatV>) -> Result<Seq<FlatV>, PegErrV> {
    lift(spec_start_rule(name, ns))
}

/// The result of the content of rule `name`, followed by its end node.
pub open spec fn close<T>(name: Seq<char>, inner: Step<T>) -> Step<T> {
    match inner {
        Err(e) => Err(e),
        Ok((x, rest)) => match lift(spec_end_rule(name, rest)) {
            Err(e) => Err(e),
            Ok(r) => Ok((x, r)),
        },
    }
}

/// Whether the first node begins rule `name`.
pub open spec fn begins(ns: Seq<FlatV>, name: Seq<char>) -> bool {
    ns.len() > 0 && ns[0] == FlatV::BeginRule(name)
}

/// Rule `name` holding a single value node: that value.
pub open spec fn spec_rule_val(name: Seq<char>, ns: Seq<FlatV>) -> Step<Seq<char>> {
    push_on(
        match enter(name, ns) {
            Err(e) => Err(e),
            Ok(r) => close(name, lift(spec_consume_val(r))),
        },
        consuming_descr(name),
    )
}

/// Rule `name` holding the value node `v`.
pub open spec fn spec_rule_this(name: Seq<char>, v: Seq<char>, ns: Seq<FlatV>) -> Result<
    Seq<FlatV>,
    PegErrV,
> {
    push_on(
        match enter(name, ns) {
            Err(e) => Err(e),
            Ok(r) => match lift(spec_this_value(v, r)) {
                Err(e) => Err(e),
                Ok(r2) => lift(spec_end_rule(name, r2)),
            },
        },
        consuming_descr(name),
    )
}

/// `symbol = [_'a-zA-Z0-9] [_'"a-zA-Z0-9]*`
pub open spec fn spec_consume_symbol(ns: Seq<FlatV>) -> Step<Seq<char>> {
    spec_rule_val("symbol"@, ns)
}

/// `mchars = (!"]" !(. "-") .)+`
pub open spec fn spec_consume_mchars(ns: Seq<FlatV>) -> Step<Seq<char>> {
    spec_rule_val("mchars"@, ns)
}

/// `_" = "\""`
pub open spec fn spec_consume_quote(ns: Seq<FlatV>) -> Result<Seq<FlatV>, PegErrV> {
    spec_rule_this("_\""@, "\""@, ns)
}

/// `_' = "'"`
pub open spec fn spec_consume_single_quote(ns: Seq<FlatV>) -> Result<Seq<FlatV>, PegErrV> {
    spec_rule_this("_'"@, "'"@, ns)
}

/// `dot = "."`: the expression matching any char.
pub open spec fn spec_consume_dot(ns: Seq<FlatV>) -> Step<ExprV> {
    match spec_rule_val("dot"@, ns) {
        Err(e) => Err(e),
        Ok((_, r)) => Ok((ExprV::Simple(AtomV::Dot), r)),
    }
}

/// The char an escape sequence of a double quoted literal stands for.
pub open spec fn unescaped(v: Seq<char>) -> Option<Seq<char>> {
    if v == "\\r"@ {
        Some("\r"@)
    } else if v == "\\n"@ {
        Some("\n"@)
    } else if v == "\\t"@ {
        Some("\t"@)
    } else if v == "\\\\"@ {
        Some("\\"@)
    } else if v == "\\\""@ {
        Some("\""@)
    } else {
        None
    }
}

/// `esc_char = '\r' / '\n' / '\t' / '\\' / '\"'`: the char it stands for.
pub open spec fn spec_consume_esc_char(ns: Seq<FlatV>) -> Step<Seq<char>> {
    push_on(
        match enter("esc_char"@, ns) {
            Err(e) => Err(e),
            Ok(r) => close(
                "esc_char"@,
                match lift(spec_consume_val(r)) {
                    Err(e) => Err(e),
                    Ok((v, r2)) => match unescaped(v) {
                        Some(c) => Ok((c, r2)),
                        None => Err(peg_s("unknow esc char: "@ + v)),
                    },
                },
            ),
        },
        consuming_descr("esc_char"@),
    )
}

/// The value of a hexadecimal digit.
pub open spec fn hex_digit(c: char) -> Option<nat> {
    if '0' <= c && c <= '9' {
        Some((c as nat - '0' as nat) as nat)
    } else if 'a' <= c && c <= 'f' {
        Some((c as nat - 'a' as nat + 10) as nat)
    } else if 'A' <= c && c <= 'F' {
        Some((c as nat - 'A' as nat + 10) as nat)
    } else {
        None
    }
}

/// The number written by hexadecimal digits (0 for none).
pub open spec fn hex_number(s: Seq<char>) -> Option<nat>
    decreases s.len(),
{
    if s.len() == 0 {
        Some(0)
    } else {
        match (hex_number(s.drop_last()), hex_digit(s.last())) {
            (Some(a), Some(d)) => Some(a * 16 + d),
            _ => None,
        }
    }
}

/// A byte written in hexadecimal, as std's `u8::from_str_radix(s, 16)`
/// reads it: an optional `+`, then at least one digit, for a value up
/// to 255.
pub open spec fn hex_byte(s: Seq<char>) -> Option<u8> {
    let digits = if s.len() > 0 && s[0] == '+' {
        s.drop_first()
    } else {
        s
    };
    if digits.len() == 0 {
        None
    } else {
        match hex_number(digits) {
            Some(v) => if v <= 255 {
                Some(v as u8)
            } else {
                None
            },
            None => None,
        }
    }
}

/// The chars of `s` from index `i` on (none when `s` is shorter).
pub open spec fn chars_from(s: Seq<char>, i: int) -> Seq<char> {
    if s.len() <= i {
        Seq::empty()
    } else {
        s.skip(i)
    }
}

/// The one-char string for a byte read as a Latin-1 char.
pub open spec fn byte_char(b: u8) -> Seq<char> {
    seq![b as char]
}

/// `hex_char = '\0x' [0-9A-F] [0-9A-F]`: the char with that code.
pub open spec fn spec_consume_hex_char(ns: Seq<FlatV>) -> Step<Seq<char>> {
    push_on(
        match enter("hex_char"@, ns) {
            Err(e) => Err(e),
            Ok(r) => close(
                "hex_char"@,
                match lift(spec_consume_val(r)) {
                    Err(e) => Err(e),
                    Ok((v, r2)) => {
                        let digits = chars_from(v, 3);
                        match hex_byte(digits) {
                            Some(b) => Ok((byte_char(b), r2)),
                            None => Err(peg_s("error parsing hex "@ + chars_from(digits, 2))),
                        }
                    },
                },
            ),
        },
        consuming_descr("hex_char"@),
    )
}

/// `mbetween = . "-" .`: the first and the third char of its value.
pub open spec fn spec_consume_mbetween(ns: Seq<FlatV>) -> Step<(char, char)> {
    push_on(
        match enter("mbetween"@, ns) {
            Err(e) => Err(e),
            Ok(r) => close(
                "mbetween"@,
                match lift(spec_consume_val(r)) {
                    Err(e) => Err(e),
                    Ok((v, r2)) => if v.len() < 1 {
                        Err(peg_s("expected from char"@))
                    } else if v.len() < 2 {
                        Err(peg_s("expected '-' char"@))
                    } else if v.len() < 3 {
                        Err(peg_s("expected to char"@))
                    } else {
                        Ok(((v[0], v[2]), r2))
                    },
                },
            ),
        },
        consuming_descr("mbetween"@),
    )
}

/// The `mbetween` rules that follow, appended to `acc`.
pub open spec fn spec_rec_consume_mbetween(acc: Seq<(char, char)>, ns: Seq<FlatV>) -> Step<
    Seq<(char, char)>,
>
    decreases ns.len(),
{
    match lift(spec_peek(ns)) {
        Err(e) => Err(e),
        Ok(n) => if spec_nodename(n) == Ok::<Seq<char>, ErrorV>("mbetween"@) {
            match spec_consume_mbetween(ns) {
                Err(e) => Err(e),
                Ok((p, r)) => if r.len() < ns.len() {
                    spec_rec_consume_mbetween(acc.push(p), r)
                } else {
                    Err(peg_s(Seq::empty()))
                },
            }
        } else {
            Ok((acc, ns))
        },
    }
}

/// The match expression for optional chars and a list of ranges.
pub open spec fn match_expr(omchars: Option<Seq<char>>, pairs: Seq<(char, char)>) -> Result<
    ExprV,
    PegErrV,
> {
    match omchars {
        Some(chars) => Ok(ExprV::Simple(AtomV::Match(chars, pairs))),
        None => if pairs.len() == 0 {
            Err(peg_s("Invalid match combination"@))
        } else {
            Ok(ExprV::Simple(AtomV::Match(Seq::empty(), pairs)))
        },
    }
}

/// The optional `mchars` that opens a match, and the nodes after it.
pub open spec fn spec_opt_mchars(ns: Seq<FlatV>) -> Step<Option<Seq<char>>> {
    match lift(spec_peek(ns)) {
        Err(e) => Err(e),
        Ok(n) => match lift(spec_nodename(n)) {
            Err(e) => Err(e),
            Ok(name) => if name == "mchars"@ {
                match spec_consume_mchars(ns) {
                    Err(e) => Err(e),
                    Ok((c, r)) => Ok((Some(c), r)),
                }
            } else {
                Ok((None, ns))
            },
        },
    }
}

/// `match = "[" ((mchars mbetween*) / mbetween+) "]"`
pub open spec fn spec_consume_match(ns: Seq<FlatV>) -> Step<ExprV> {
    push_on(
        match enter("match"@, ns) {
            Err(e) => Err(e),
            Ok(r) => close(
                "match"@,
                match lift(spec_this_value("["@, r)) {
                    Err(e) => Err(e),
                    Ok(r2) => match spec_opt_mchars(r2) {
                        Err(e) => Err(e),
                        Ok((om, r3)) => match spec_rec_consume_mbetween(Seq::empty(), r3) {
                            Err(e) => Err(e),
                            Ok((pairs, r4)) => match match_expr(om, pairs) {
                                Err(e) => Err(e),
                                Ok(ex) => match lift(spec_this_value("]"@, r4)) {
                                    Err(e) => Err(e),
                                    Ok(r5) => Ok((ex, r5)),
                                },
                            },
                        },
                    },
                },
            ),
        },
        consuming_descr("match"@),
    )
}

/// The `.symbol` parts that follow, appended to `acc`.
pub open spec fn spec_rec_consume_dot_symbol(acc: Seq<char>, ns: Seq<FlatV>) -> Step<Seq<char>>
    decreases ns.len(),
{
    match lift(spec_peek(ns)) {
        Err(e) => Err(e),
        Ok(n) => if n == FlatV::Val("."@) {
            match lift(spec_consume_val(ns)) {
                Err(e) => Err(e),
                Ok((_, r)) => match spec_consume_symbol(r) {
                    Err(e) => Err(e),
                    Ok((sym, r2)) => if r2.len() < ns.len() {
                        spec_rec_consume_dot_symbol(acc + "."@ + sym, r2)
                    } else {
                        Err(peg_s(Seq::empty()))
                    },
                },
            }
        } else {
            Ok((acc, ns))
        },
    }
}

/// An optional leading dot of a rule name.
pub open spec fn spec_dot_or_empty(ns: Seq<FlatV>) -> Step<Seq<char>> {
    match lift(spec_peek(ns)) {
        Err(e) => Err(e),
        Ok(n) => if n == FlatV::Val("."@) {
            match lift(spec_this_value("."@, ns)) {
                Err(e) => Err(e),
                Ok(r) => Ok(("."@, r)),
            }
        } else {
            Ok((Seq::empty(), ns))
        },
    }
}

/// `rule_name = '.'? symbol ('.' symbol)*`: the name, dots included.
pub open spec fn spec_consume_rule_name(ns: Seq<FlatV>) -> Step<Seq<char>> {
    push_on(
        match enter("rule_name"@, ns) {
            Err(e) => Err(e),
            Ok(r) => close(
                "rule_name"@,
                match spec_dot_or_empty(r) {
                    Err(e) => Err(e),
                    Ok((d, r2)) => match spec_consume_symbol(r2) {
                        Err(e) => Err(e),
                        Ok((sym, r3)) => match spec_rec_consume_dot_symbol(Seq::empty(), r3) {
                            Err(e) => Err(e),
                            Ok((rest_name, r4)) => Ok((d + sym + rest_name, r4)),
                        },
                    },
                },
            ),
        },
        consuming_descr("rule_name"@),
    )
}

/// A reference to the rule named by a `rule_name`.
pub open spec fn spec_consume_rule_ref(ns: Seq<FlatV>) -> Step<ExprV> {
    push_on(
        match spec_consume_rule_name(ns) {
            Err(e) => Err(e),
            Ok((name, r)) => Ok((ExprV::RuleName(name), r)),
        },
        "consuming symbol rule_ref"@,
    )
}

/// What std's pretty `Debug` formatting (`{:#?}`) writes for a flat node.
pub uninterp spec fn debug_flat_node(n: FlatV) -> Seq<char>;

/// One element of a double quoted literal: an escape sequence, a
/// hexadecimal char or plain text.
pub open spec fn spec_consume_element(ns: Seq<FlatV>) -> Step<Seq<char>> {
    match lift(spec_peek(ns)) {
        Err(e) => Err(e),
        Ok(n) => match n {
            FlatV::BeginRule(rn) => if rn == "esc_char"@ {
                spec_consume_esc_char(ns)
            } else if rn == "hex_char"@ {
                spec_consume_hex_char(ns)
            } else {
                Err(peg_s("unknown rule_name: "@ + rn))
            },
            FlatV::Val(_) => lift(spec_consume_val(ns)),
            _ => Err(peg_s("looking for element "@ + debug_flat_node(n))),
        },
    }
}

/// The elements of a double quoted literal up to its closing quote,
/// appended to `s`.
pub open spec fn spec_rec_consume_lit_esc_ch(s: Seq<char>, ns: Seq<FlatV>) -> Step<Seq<char>>
    decreases ns.len(),
{
    match lift(spec_peek(ns)) {
        Err(e) => Err(e),
        Ok(n) => if spec_nodename(n) == Ok::<Seq<char>, ErrorV>("_\""@) {
            Ok((s, ns))
        } else {
            match spec_consume_element(ns) {
                Err(e) => Err(e),
                Ok((v, r)) => if r.len() < ns.len() {
                    spec_rec_consume_lit_esc_ch(s + v, r)
                } else {
                    Err(peg_s(Seq::empty()))
                },
            }
        },
    }
}

/// `lit_esc = _" (esc_char / hex_char / !_" .)* _"`: the text it stands for.
pub open spec fn spec_consume_literal_esc(ns: Seq<FlatV>) -> Step<Seq<char>> {
    push_on(
        match enter("lit_esc"@, ns) {
            Err(e) => Err(e),
            Ok(r) => close(
                "lit_esc"@,
                match spec_consume_quote(r) {
                    Err(e) => Err(e),
                    Ok(r2) => match spec_rec_consume_lit_esc_ch(Seq::empty(), r2) {
                        Err(e) => Err(e),
                        Ok((val, r3)) => match push_on(
                            spec_consume_quote(r3),
                            "lesc:("@ + val + ")"@,
                        ) {
                            Err(e) => Err(e),
                            Ok(r4) => Ok((val, r4)),
                        },
                    },
                },
            ),
        },
        consuming_descr("lit_esc"@),
    )
}

/// `lit_noesc = _' (!_' .)* _'`: the text between the quotes, as it is.
pub open spec fn spec_consume_literal_no_esc(ns: Seq<FlatV>) -> Step<Seq<char>> {
    push_on(
        match enter("lit_noesc"@, ns) {
            Err(e) => Err(e),
            Ok(r) => close(
                "lit_noesc"@,
                match spec_consume_single_quote(r) {
                    Err(e) => Err(e),
                    Ok(r2) => match lift(spec_consume_val(r2)) {
                        Err(e) => Err(e),
                        Ok((v, r3)) => match push_on(
                            spec_consume_single_quote(r3),
                            "l:("@ + v + ")"@,
                        ) {
                            Err(e) => Err(e),
                            Ok(r4) => Ok((v, r4)),
                        },
                    },
                },
            ),
        },
        consuming_descr("lit_noesc"@),
    )
}

/// `literal = lit_noesc / lit_esc`: its text.
pub open spec fn spec_consume_literal_string(ns: Seq<FlatV>) -> Step<Seq<char>> {
    push_on(
        match enter("literal"@, ns) {
            Err(e) => Err(e),
            Ok(r) => close(
                "literal"@,
                match lift(spec_peek(r)) {
                    Err(e) => Err(e),
                    Ok(n) => match lift(spec_nodename(n)) {
                        Err(e) => Err(e),
                        Ok(nm) => if nm == "lit_noesc"@ {
                            spec_consume_literal_no_esc(r)
                        } else if nm == "lit_esc"@ {
                            spec_consume_literal_esc(r)
                        } else {
                            Err(peg_s("unexpected node "@ + nm))
                        },
                    },
                },
            ),
        },
        consuming_descr("literal"@),
    )
}

/// A literal expression.
pub open spec fn spec_consume_literal_expr(ns: Seq<FlatV>) -> Step<ExprV> {
    match spec_consume_literal_string(ns) {
        Err(e) => Err(e),
        Ok((v, r)) => Ok((ExprV::Simple(AtomV::Literal(v)), r)),
    }
}

/// `error = 'error' _ '(' _ literal _ ')'`: the expression that fails with
/// that text.
pub open spec fn spec_consume_error(ns: Seq<FlatV>) -> Step<ExprV> {
    match push_on(
        match enter("error"@, ns) {
            Err(e) => Err(e),
            Ok(r) => close(
                "error"@,
                match lift(spec_this_value("error"@, r)) {
                    Err(e) => Err(e),
                    Ok(r2) => match lift(spec_this_value("("@, r2)) {
                        Err(e) => Err(e),
                        Ok(r3) => match spec_consume_literal_string(r3) {
                            Err(e) => Err(e),
                            Ok((text, r4)) => match lift(spec_this_value(")"@, r4)) {
                                Err(e) => Err(e),
                                Ok(r5) => Ok((text, r5)),
                            },
                        },
                    },
                },
            ),
        },
        consuming_descr("error"@),
    ) {
        Err(e) => Err(e),
        Ok((v, r)) => Ok((ExprV::Simple(AtomV::Error(v)), r)),
    }
}

/// `atom = literal / match / dot / rule_name`
pub open spec fn spec_consume_atom(ns: Seq<FlatV>) -> Step<ExprV> {
    push_on(
        match enter("atom"@, ns) {
            Err(e) => Err(e),
            Ok(r) => close(
                "atom"@,
                match lift(spec_peek(r)) {
                    Err(e) => Err(e),
                    Ok(n) => match lift(spec_nodename(n)) {
                        Err(e) => Err(e),
                        Ok(nm) => push_on(
                            if nm == "literal"@ {
                                spec_consume_literal_expr(r)
                            } else if nm == "rule_name"@ {
                                spec_consume_rule_ref(r)
                            } else if nm == "dot"@ {
                                spec_consume_dot(r)
                            } else if nm == "match"@ {
                                spec_consume_match(r)
                            } else {
                                Err(peg_s("unknown "@ + nm))
                            },
                            "n:"@ + nm,
                        ),
                    },
                },
            ),
        },
        consuming_descr("atom"@),
    )
}

/// The expression of a list of alternatives (or of a sequence): the only
/// one, or all of them under `Or` (`And`).
pub open spec fn multi_expr(v: Seq<ExprV>, is_or: bool) -> Result<ExprV, PegErrV> {
    if v.len() == 0 {
        Err(peg_s("logic error, empty or parsing???"@))
    } else if v.len() == 1 {
        Ok(v[0])
    } else if is_or {
        Ok(ExprV::Or(v))
    } else {
        Ok(ExprV::And(v))
    }
}

/// An expression under a repetition mark `*`, `+` or `?`.
pub open spec fn repetition(ex: ExprV, sym: Seq<char>) -> Result<ExprV, PegErrV> {
    if sym == "+"@ {
        Ok(ExprV::Repeat(Box::new(ex), 1, None))
    } else if sym == "*"@ {
        Ok(ExprV::Repeat(Box::new(ex), 0, None))
    } else if sym == "?"@ {
        Ok(ExprV::Repeat(Box::new(ex), 0, Some(1)))
    } else {
        Err(peg_s("repetition symbol unknown "@ + sym))
    }
}

/// `expr = or`
pub open spec fn spec_consume_peg_expr(ns: Seq<FlatV>) -> Step<ExprV>
    decreases ns.len(), 0nat,
{
    push_on(
        match enter("expr"@, ns) {
            Err(e) => Err(e),
            Ok(r) => close("expr"@, spec_consume_or(r)),
        },
        consuming_descr("expr"@),
    )
}

/// `or = and (_ '/' _ (error / or))?`: the alternatives.
pub open spec fn spec_consume_or(ns: Seq<FlatV>) -> Step<ExprV>
    decreases ns.len(), 2nat,
{
    push_on(
        match spec_rec_consume_or(Seq::empty(), ns) {
            Err(e) => Err(e),
            Ok((v, r)) => match multi_expr(v, true) {
                Err(e) => Err(e),
                Ok(ex) => Ok((ex, r)),
            },
        },
        "or:"@,
    )
}

/// The alternatives of nested `or` rules, appended to `acc`.
pub open spec fn spec_rec_consume_or(acc: Seq<ExprV>, ns: Seq<FlatV>) -> Step<Seq<ExprV>>
    decreases ns.len(), 1nat,
{
    push_on(
        match enter("or"@, ns) {
            Err(e) => Err(e),
            Ok(r) => close(
                "or"@,
                match spec_consume_and(r) {
                    Err(e) => Err(e),
                    Ok((ex, r2)) => {
                        let acc2 = acc.push(ex);
                        match lift(spec_peek(r2)) {
                            Err(e) => Err(e),
                            Ok(n) => match n {
                                FlatV::Val(_) => match lift(spec_this_value("/"@, r2)) {
                                    Err(e) => Err(e),
                                    Ok(r3) => if begins(r3, "error"@) {
                                        match spec_consume_error(r3) {
                                            Err(e) => Err(e),
                                            Ok((ee, r4)) => Ok((acc2.push(ee), r4)),
                                        }
                                    } else if r3.len() < ns.len() {
                                        spec_rec_consume_or(acc2, r3)
                                    } else {
                                        Err(peg_s(Seq::empty()))
                                    },
                                },
                                _ => Ok((acc2, r2)),
                            },
                        }
                    },
                },
            ),
        },
        consuming_descr("or"@),
    )
}

/// `and = rep_or_neg (_1 _ !(rule_name _ '=') and)*`: the sequence.
pub open spec fn spec_consume_and(ns: Seq<FlatV>) -> Step<ExprV>
    decreases ns.len(), 2nat,
{
    match spec_rec_consume_and(Seq::empty(), ns) {
        Err(e) => Err(e),
        Ok((v, r)) => match multi_expr(v, false) {
            Err(e) => Err(e),
            Ok(ex) => Ok((ex, r)),
        },
    }
}

/// The elements of nested `and` rules, appended to `acc`.
pub open spec fn spec_rec_consume_and(acc: Seq<ExprV>, ns: Seq<FlatV>) -> Step<Seq<ExprV>>
    decreases ns.len(), 1nat,
{
    push_on(
        match enter("and"@, ns) {
            Err(e) => Err(e),
            Ok(r) => close(
                "and"@,
                match lift(spec_peek(r)) {
                    Err(e) => Err(e),
                    Ok(n) => match lift(spec_nodename(n)) {
                        Err(e) => Err(e),
                        Ok(nm) => if nm == "error"@ {
                            match spec_consume_error(r) {
                                Err(e) => Err(e),
                                Ok((ee, r2)) => Ok((acc.push(ee), r2)),
                            }
                        } else {
                            match spec_consume_rep_or_neg(r) {
                                Err(e) => Err(e),
                                Ok((ex, r2)) => {
                                    let acc2 = acc.push(ex);
                                    match lift(spec_peek(r2)) {
                                        Err(e) => Err(e),
                                        Ok(n2) => if n2 == FlatV::BeginRule("and"@) {
                                            if r2.len() < ns.len() {
                                                spec_rec_consume_and(acc2, r2)
                                            } else {
                                                Err(peg_s(Seq::empty()))
                                            }
                                        } else {
                                            Ok((acc2, r2))
                                        },
                                    }
                                },
                            }
                        },
                    },
                },
            ),
        },
        consuming_descr("and"@),
    )
}

/// `rep_or_neg = atom_or_par ("*" / "+" / "?")? / "!" atom_or_par`
pub open spec fn spec_consume_rep_or_neg(ns: Seq<FlatV>) -> Step<ExprV>
    decreases ns.len(), 0nat,
{
    push_on(
        match enter("rep_or_neg"@, ns) {
            Err(e) => Err(e),
            Ok(r) => close(
                "rep_or_neg"@,
                match lift(spec_peek(r)) {
                    Err(e) => Err(e),
                    Ok(n) => match n {
                        FlatV::Val(v) => if v == "!"@ {
                            match lift(spec_this_value("!"@, r)) {
                                Err(e) => Err(e),
                                Ok(r2) => match spec_consume_atom_or_par(r2) {
                                    Err(e) => Err(e),
                                    Ok((ex, r3)) => Ok((ExprV::Not(Box::new(ex)), r3)),
                                },
                            }
                        } else {
                            Err(peg_s("expected '!', received "@ + v))
                        },
                        _ => match spec_consume_atom_or_par(r) {
                            Err(e) => Err(e),
                            Ok((ex, r2)) => match lift(spec_peek(r2)) {
                                Err(e) => Err(e),
                                Ok(n2) => match n2 {
                                    FlatV::Val(_) => match lift(spec_consume_val(r2)) {
                                        Err(e) => Err(e),
                                        Ok((sym, r3)) => match repetition(ex, sym) {
                                            Err(e) => Err(e),
                                            Ok(e2) => Ok((e2, r3)),
                                        },
                                    },
                                    _ => Ok((ex, r2)),
                                },
                            },
                        },
                    },
                },
            ),
        },
        consuming_descr("rep_or_neg"@),
    )
}

/// `atom_or_par = atom / parenth`
pub open spec fn spec_consume_atom_or_par(ns: Seq<FlatV>) -> Step<ExprV>
    decreases ns.len(), 0nat,
{
    push_on(
        match enter("atom_or_par"@, ns) {
            Err(e) => Err(e),
            Ok(r) => close(
                "atom_or_par"@,
                match lift(spec_peek(r)) {
                    Err(e) => Err(e),
                    Ok(n) => match lift(spec_nodename(n)) {
                        Err(e) => Err(e),
                        Ok(nm) => push_on(
                            if nm == "atom"@ {
                                spec_consume_atom(r)
                            } else if nm == "parenth"@ {
                                spec_consume_parenth(r)
                            } else {
                                Err(peg_s("unknown "@ + nm))
                            },
                            "n:"@ + nm,
                        ),
                    },
                },
            ),
        },
        consuming_descr("atom_or_par"@),
    )
}

/// `parenth = "(" _ expr _ ")"`
pub open spec fn spec_consume_parenth(ns: Seq<FlatV>) -> Step<ExprV>
    decreases ns.len(), 0nat,
{
    push_on(
        match enter("parenth"@, ns) {
            Err(e) => Err(e),
            Ok(r) => close(
                "parenth"@,
                match lift(spec_this_value("("@, r)) {
                    Err(e) => Err(e),
                    Ok(r2) => match spec_consume_peg_expr(r2) {
                        Err(e) => Err(e),
                        Ok((ex, r3)) => match lift(spec_this_value(")"@, r3)) {
                            Err(e) => Err(e),
                            Ok(r4) => Ok((ex, r4)),
                        },
                    },
                },
            ),
        },
        consuming_descr("parenth"@),
    )
}

/// `rule = _ rule_name _ '=' _ expr _eol _`: its name and expression.
pub open spec fn spec_consume_rule(ns: Seq<FlatV>) -> Step<(Seq<char>, ExprV)> {
    push_on(
        match enter("rule"@, ns) {
            Err(e) => Err(e),
            Ok(r) => close(
                "rule"@,
                match spec_consume_rule_name(r) {
                    Err(e) => Err(e),
                    Ok((name, r2)) => match lift(spec_this_value("="@, r2)) {
                        Err(e) => Err(e),
                        Ok(r3) => match spec_consume_peg_expr(r3) {
                            Err(e) => Err(e),
                            Ok((ex, r4)) => Ok(((name, ex), r4)),
                        },
                    },
                },
            ),
        },
        consuming_descr("rule"@),
    )
}

/// `mod_name = symbol`
pub open spec fn spec_consume_mod_name(ns: Seq<FlatV>) -> Step<Seq<char>> {
    push_on(
        match enter("mod_name"@, ns) {
            Err(e) => Err(e),
            Ok(r) => close("mod_name"@, spec_consume_symbol(r)),
        },
        consuming_descr("mod_name"@),
    )
}

/// `module = _ mod_name _ '{' _ grammar _ '}' _eol _`: the rules inside.
pub open spec fn spec_consume_module(ns: Seq<FlatV>) -> Step<Map<Seq<char>, ExprV>>
    decreases ns.len(), 0nat,
{
    push_on(
        match enter("module"@, ns) {
            Err(e) => Err(e),
            Ok(r) => close(
                "module"@,
                match spec_consume_mod_name(r) {
                    Err(e) => Err(e),
                    Ok((_, r2)) => match lift(spec_this_value("{"@, r2)) {
                        Err(e) => Err(e),
                        Ok(r3) => if r3.len() < ns.len() {
                            match spec_consume_grammar(r3) {
                                Err(e) => Err(e),
                                Ok((rules, r4)) => match lift(spec_this_value("}"@, r4)) {
                                    Err(e) => Err(e),
                                    Ok(r5) => Ok((rules, r5)),
                                },
                            }
                        } else {
                            Err(peg_s(Seq::empty()))
                        },
                    },
                },
            ),
        },
        consuming_descr("module"@),
    )
}

/// `grammar = (rule / module)+`: the rules, those of modules included.
pub open spec fn spec_consume_grammar(ns: Seq<FlatV>) -> Step<Map<Seq<char>, ExprV>>
    decreases ns.len(), 0nat,
{
    push_on(
        match enter("grammar"@, ns) {
            Err(e) => Err(e),
            Ok(r) => close("grammar"@, spec_rec_consume_rules_or_modules(Map::empty(), r)),
        },
        consuming_descr("grammar"@),
    )
}

/// The rules and modules that follow, added to `rules`; a rule replaces an
/// earlier one of the same name, while a module's rule does not.
pub open spec fn spec_rec_consume_rules_or_modules(
    rules: Map<Seq<char>, ExprV>,
    ns: Seq<FlatV>,
) -> Step<Map<Seq<char>, ExprV>>
    decreases ns.len(), 1nat,
{
    match lift(spec_peek(ns)) {
        Err(e) => Err(e),
        Ok(n) => match n {
            FlatV::BeginRule(rm) => {
                let step: Step<Map<Seq<char>, ExprV>> = if rm == "rule"@ {
                    match spec_consume_rule(ns) {
                        Err(e) => Err(e),
                        Ok(((name, ex), r)) => Ok((rules.insert(name, ex), r)),
                    }
                } else if rm == "module"@ {
                    match spec_consume_module(ns) {
                        Err(e) => Err(e),
                        Ok((mod_rules, r)) => Ok((mod_rules.union_prefer_right(rules), r)),
                    }
                } else {
                    Err(peg_s("expected rule or module, received: "@ + rm))
                };
                match step {
                    Err(e) => Err(e),
                    Ok((rules2, r)) => if r.len() < ns.len() {
                        spec_rec_consume_rules_or_modules(rules2, r)
                    } else {
                        Err(peg_s(Seq::empty()))
                    },
                }
            },
            _ => Ok((rules, ns)),
        },
    }
}

/// `main = grammar`
pub open spec fn spec_consume_main(ns: Seq<FlatV>) -> Step<Map<Seq<char>, ExprV>> {
    push_on(
        match enter("main"@, ns) {
            Err(e) => Err(e),
            Ok(r) => close("main"@, spec_consume_grammar(r)),
        },
        consuming_descr("main"@),
    )
}

/// The rules read from the flat nodes of a PEG tree, which must all be
/// consumed.
pub open spec fn spec_rules_from_flat(ns: Seq<FlatV>) -> Result<Map<Seq<char>, ExprV>, PegErrV> {
    match spec_consume_main(ns) {
        Err(e) => Err(e),
        Ok((rules, r)) => if r.len() == 0 {
            Ok(rules)
        } else {
            Err(peg_s("expected empty nodes after processing main"@))
        },
    }
}

} // verus!
