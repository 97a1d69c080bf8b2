//! Terminals parsed directly on a [`Parsing`] state.

use vstd::prelude::*;

use crate::parsing::Parsing;
use crate::text::{chars_of, str_eq, string_from_chars};

verus! {

/// A terminal of a grammar.
#[derive(Debug, PartialEq)]
pub enum Terminal {
    Literal(String),
    Match,
    Dot,
    Symbol,
}

/// The number of bytes of the UTF-8 encoding of `s`, as std's `len`
/// gives it.
pub open spec fn utf8_len(s: Seq<char>) -> usize {
    vstd::utf8::encode_utf8(s).len() as usize
}

/// The (at most) `k` chars of `text` from char index `n`.
pub open spec fn window(text: Seq<char>, n: nat, k: nat) -> Seq<char> {
    let rest = if n <= text.len() {
        text.skip(n as int)
    } else {
        Seq::empty()
    };
    if k <= rest.len() {
        rest.take(k as int)
    } else {
        rest
    }
}

/// Whether the literal `s` (of `nbytes` bytes) is read at the position
/// of `p`: the text from there, as many chars as `s` has bytes, is `s`.
pub open spec fn literal_found(s: Seq<char>, nbytes: usize, p: Parsing) -> bool {
    s == window(p.parsing_text@, p.position.n as nat, nbytes as nat)
}

/// Whether a char can be read at the position of `p`: its index is
/// below the byte length of the text.
pub open spec fn dot_found(p: Parsing) -> bool {
    p.position.n < utf8_len(p.parsing_text@)
}

/// `p` moved `k` places forward along its row.
pub open spec fn moved(p: Parsing, q: Parsing, k: usize) -> bool {
    &&& q.parsing_text@ == p.parsing_text@
    &&& q.position.n == p.position.n + k
    &&& q.position.col == p.position.col + k
    &&& q.position.row == p.position.row
}

impl Terminal {
    /// Parses the terminal at the position of `parsing`: on success, the
    /// state moved past it.
    pub fn parse(&self, parsing: Parsing) -> (r: Result<Parsing, String>)
        requires
            self matches Terminal::Literal(s) ==> (literal_found(s@, utf8_len(s@), parsing) ==> (
            parsing.position.n + utf8_len(s@) <= usize::MAX && parsing.position.col + utf8_len(
                s@,
            ) <= usize::MAX)),
            self is Dot ==> (dot_found(parsing) ==> parsing.position.col < usize::MAX),
        ensures
            match self {
                Terminal::Literal(s) => match r {
                    Ok(q) => literal_found(s@, utf8_len(s@), parsing) && moved(
                        parsing,
                        q,
                        utf8_len(s@),
                    ),
                    Err(e) => !literal_found(s@, utf8_len(s@), parsing) && e@ == "error parsing"@,
                },
                Terminal::Dot => match r {
                    Ok(q) => dot_found(parsing) && moved(parsing, q, 1),
                    Err(e) => !dot_found(parsing) && e@ == "expected any char on end of file"@,
                },
                _ => r matches Err(e) && e@ == "pending implementation"@,
            },
    {
        match self {
            Terminal::Literal(s) => parse_literal(s.as_str(), parsing),
            Terminal::Dot => parse_dot(parsing),
            _ => Err("pending implementation".to_owned()),
        }
    }
}

/// Parses the literal `s` at the position of `parsing`.
fn parse_literal(s: &str, parsing: Parsing) -> (r: Result<Parsing, String>)
    requires
        literal_found(s@, utf8_len(s@), parsing) ==> (parsing.position.n + utf8_len(s@)
            <= usize::MAX && parsing.position.col + utf8_len(s@) <= usize::MAX),
    ensures
        match r {
            Ok(q) => literal_found(s@, utf8_len(s@), parsing) && moved(parsing, q, utf8_len(s@)),
            Err(e) => !literal_found(s@, utf8_len(s@), parsing) && e@ == "error parsing"@,
        },
{
    let mut parsing = parsing;
    let self_len = s.len();
    assert(self_len == utf8_len(s@));
    let text = parsing.parsing_text.string();
    let cs = chars_of(text.as_str());
    let n = parsing.position.n;
    let start = if n <= cs.len() {
        n
    } else {
        cs.len()
    };
    let remaining = cs.len() - start;
    let take = if self_len <= remaining {
        self_len
    } else {
        remaining
    };
    let mut w: Vec<char> = Vec::new();
    let mut i: usize = 0;
    while i < take
        invariant
            i <= take,
            start + take <= cs@.len(),
            cs@.len() <= usize::MAX,
            w@ == cs@.subrange(start as int, start + i),
        decreases take - i,
    {
        w.push(cs[start + i]);
        i = i + 1;
    }
    proof {
        let text_v = parsing.parsing_text@;
        assert(cs@ == text_v);
        let rest = if n as nat <= text_v.len() {
            text_v.skip(n as int)
        } else {
            Seq::empty()
        };
        assert(rest =~= cs@.subrange(start as int, cs@.len() as int));
        assert(w@ =~= window(text_v, n as nat, self_len as nat));
    }
    let in_text = string_from_chars(w.as_slice());
    if str_eq(s, in_text.as_str()) {
        parsing.position.n = n + self_len;
        parsing.position.col = parsing.position.col + self_len;
        Ok(parsing)
    } else {
        Err("error parsing".to_owned())
    }
}

/// Reads any char at the position of `parsing`.
fn parse_dot(parsing: Parsing) -> (r: Result<Parsing, String>)
    requires
        dot_found(parsing) ==> parsing.position.col < usize::MAX,
    ensures
        match r {
            Ok(q) => dot_found(parsing) && moved(parsing, q, 1),
            Err(e) => !dot_found(parsing) && e@ == "expected any char on end of file"@,
        },
{
    let mut parsing = parsing;
    let text = parsing.parsing_text.string();
    let len = text.as_str().len();
    assert(len == utf8_len(parsing.parsing_text@));
    if parsing.position.n < len {
        parsing.position.n = parsing.position.n + 1;
        parsing.position.col = parsing.position.col + 1;
        Ok(parsing)
    } else {
        Err("expected any char on end of file".to_owned())
    }
}

/// The literal terminal `s`.
pub fn literal(s: &str) -> (r: Terminal)
    ensures
        r matches Terminal::Literal(l) && l@ == s@,
{
    Terminal::Literal(s.to_owned())
}

} // verus!
