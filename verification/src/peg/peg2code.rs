//! The grammar of PEG grammars, written in PEG, and the Rust code of the
//! rules that it gives.

use vstd::prelude::*;

use crate::parser::expression::{rules_map, Expression};
use crate::peg::gcode::{rules_code, rust_from_rules};
use crate::peg::model::PegErrV;
use crate::peg::{peg_rules_result, rules_from_peg, Error};

verus! {

/// The grammar of PEG grammars, written in PEG.
pub const PEG_OF_PEG: &'static str = r#"
    /*      A peg grammar to parse peg grammars
     *
     */

    main            =   grammar

    grammar         =   rule+

    rule            =   _  symbol  _  '='  _  expr  _eol _

    expr            =   or

    or              =   and         ( _  '/'  _  (error  /  or)  )?
    error           =   'error' _  '('  _  literal  _  ')'

    and             =   rep_or_neg  ( _1 _ !(symbol _ '=') and )*
    _1              =   (' ' / eol)     //  this is the and separator

    rep_or_neg      =   atom_or_par ('*' / '+' / '?')?
                    /   '!' atom_or_par

    atom_or_par     =   (atom / parenth)

    parenth         =   '('  _  expr  _  ')'

    atom            =   literal
                    /   match
                    /   dot
                    /   symbol

    literal         =  lit_noesc  /  lit_esc

    lit_noesc       =   _'   (  !_' .  )*   _'
    _'              =   "'"

    lit_esc         =   _"
                            (   esc_char
                            /   hex_char
                            /   !_" .
                            )*
                        _"
    _"              =   '"'

    esc_char        =   '\r'
                    /   '\n'
                    /   '\t'
                    /   '\\'
                    /   '\"'

    hex_char        =   '\0x' [0-9A-F] [0-9A-F]

    symbol          =   [_a-zA-Z0-9] [_'"a-zA-Z0-9]*

    eol             =   ("\r\n"  /  "\n"  /  "\r")
    _eol            =   (' ' / comment)*  eol

    match           =   '['
                            (
                                (mchars  mbetween*)
                                / mbetween+
                            )
                        ']'

    mchars          =   (!']' !(. '-') .)+
    mbetween        =   (.  '-'  .)

    dot             =   '.'

    _               =   (  ' '
                        /   eol
                        /   comment
                        )*

    comment         =   line_comment
                    /   mline_comment

    line_comment    =   '//' (!eol .)*  eol
    mline_comment   =   '/*' (!'*/' .)* '*/'
    "#;

/// The grammar of PEG grammars, written in PEG.
pub fn text_peg2code() -> (r: &'static str)
    ensures
        r@ == PEG_OF_PEG@,
{
    PEG_OF_PEG
}

/// The Rust code of the rules that the grammar of PEG grammars gives,
/// or the error met reading it.
pub fn rules2parse_peg_code() -> (r: Result<String, Error>)
    ensures
        match r {
            Ok(code) => exists|s: Seq<(String, Expression)>|
                #![trigger rules_code(s)]
                peg_rules_result(PEG_OF_PEG@)
                    == Ok::<Map<Seq<char>, crate::parser::expression::ExprV>, PegErrV>(
                    rules_map(s),
                ) && code@ == rules_code(s),
            Err(e) => peg_rules_result(PEG_OF_PEG@) == Err::<
                Map<Seq<char>, crate::parser::expression::ExprV>,
                PegErrV,
            >(e@),
        },
{
    let text = text_peg2code();
    match rules_from_peg(text) {
        Err(e) => Err(e),
        Ok(rules) => {
            let code = rust_from_rules(&rules);
            proof {
                assert(rules@ == rules_map(rules.0@));
            }
            Ok(code)
        },
    }
}

} // verus!
