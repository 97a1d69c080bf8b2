//! Atoms: the minimal expressions (literals, char matches, any char,
//! end of input, and explicit errors).

use vstd::prelude::*;

use crate::ast::{Node, NodeV};
use crate::parser::{advance, err_at, Ctx, Cursor, Error, ErrorV, Possition, Status};
use crate::text::debug_char_pairs;

verus! {

/// A minimal expression element.
#[derive(Debug)]
pub enum Atom {
    /// Literal string
    Literal(String),
    /// Always fails, with this description
    Error(String),
    /// A char that is in a list of chars or inside one of a list of ranges
    Match(MatchRules),
    /// Any char
    Dot,
    /// End of input
    EOF,
}

/// A list of chars and a list of (from, to) ranges. A char matches if
/// it is in the list, or between the bounds of one range.
#[derive(Debug)]
pub struct MatchRules(pub String, pub Vec<(char, char)>);

impl MatchRules {
    /// Match rules from a list of chars and a list of ranges.
    pub fn init(s: &str, bounds: Vec<(char, char)>) -> (r: Self)
        ensures
            r.0@ == s@,
            r.1@ == bounds@,
    {
        MatchRules(s.to_owned(), bounds)
    }

    /// Match rules that match nothing.
    pub fn new() -> (r: Self)
        ensures
            r.0@ == Seq::<char>::empty(),
            r.1@ == Seq::<(char, char)>::empty(),
    {
        MatchRules(String::new(), Vec::new())
    }

    /// The same rules with this list of chars.
    pub fn with_chars(self, chrs: &str) -> (r: Self)
        ensures
            r.0@ == chrs@,
            r.1@ == self.1@,
    {
        MatchRules(chrs.to_owned(), self.1)
    }

    /// The same rules with this list of ranges.
    pub fn with_bound_chars(self, bounds: Vec<(char, char)>) -> (r: Self)
        ensures
            r.0@ == self.0@,
            r.1@ == bounds@,
    {
        MatchRules(self.0, bounds)
    }

    /// Whether `ch` matches these rules.
    pub open spec fn matches(&self, ch: char) -> bool {
        char_matches(self.0@, self.1@, ch)
    }
}

/// `ch` is one of `chars` or inside one of the ranges of `pairs`.
pub open spec fn char_matches(chars: Seq<char>, pairs: Seq<(char, char)>, ch: char) -> bool {
    ||| chars.contains(ch)
    ||| exists|i: int| 0 <= i < pairs.len() && pairs[i].0 <= ch && ch <= pairs[i].1
}

/// The mathematical value of an [`Atom`].
#[verifier::ext_equal]
pub enum AtomV {
    Literal(Seq<char>),
    Error(Seq<char>),
    Match(Seq<char>, Seq<(char, char)>),
    Dot,
    EOF,
}

impl View for Atom {
    type V = AtomV;

    open spec fn view(&self) -> AtomV {
        match self {
            Atom::Literal(s) => AtomV::Literal(s@),
            Atom::Error(s) => AtomV::Error(s@),
            Atom::Match(mr) => AtomV::Match(mr.0@, mr.1@),
            Atom::Dot => AtomV::Dot,
            Atom::EOF => AtomV::EOF,
        }
    }
}

} // verus!

verus! {

/// The position and char after reading one char at `p`, if there is one.
pub open spec fn get_char(text: Seq<char>, p: Possition) -> Option<(Possition, char)> {
    if p.n < text.len() {
        Some((advance(p, text[p.n as int]), text[p.n as int]))
    } else {
        None
    }
}

/// Reading the chars of `lit` one by one from `p`: the position at the end,
/// or the position reached when a char differed or the text ended.
pub open spec fn read_literal(text: Seq<char>, p: Possition, lit: Seq<char>) -> Result<
    Possition,
    Possition,
>
    decreases lit.len(),
{
    if lit.len() == 0 {
        Ok(p)
    } else {
        match get_char(text, p) {
            None => Err(p),
            Some((p2, ch)) => if ch == lit[0] {
                read_literal(text, p2, lit.drop_first())
            } else {
                Err(p2)
            },
        }
    }
}

/// The description of a failed match.
pub open spec fn match_descr(chars: Seq<char>, pairs: Seq<(char, char)>) -> Seq<char> {
    "match. expected "@ + chars + " "@ + debug_char_pairs(pairs)
}

/// The result of parsing the literal `lit` from cursor `cur`.
pub open spec fn eval_literal(ctx: Ctx, cur: Cursor, lit: Seq<char>) -> Result<(Cursor, NodeV), ErrorV> {
    match read_literal(ctx.text, cur.pos, lit) {
        Ok(p) => Ok((Cursor { pos: p, ..cur }, NodeV::Val(lit))),
        Err(p) => Err(err_at(ctx, p, "literal "@ + lit)),
    }
}

/// The result of parsing an atom from cursor `cur`.
pub open spec fn eval_atom(ctx: Ctx, cur: Cursor, a: AtomV) -> Result<(Cursor, NodeV), ErrorV> {
    match a {
        AtomV::Literal(s) => eval_literal(ctx, cur, s),
        AtomV::Error(s) => Err(err_at(ctx, cur.pos, s)),
        AtomV::Match(chars, pairs) => match get_char(ctx.text, cur.pos) {
            None => Err(err_at(ctx, cur.pos, match_descr(chars, pairs))),
            Some((p, ch)) => if char_matches(chars, pairs, ch) {
                Ok((Cursor { pos: p, ..cur }, NodeV::Val(seq![ch])))
            } else {
                Err(err_at(ctx, p, match_descr(chars, pairs)))
            },
        },
        AtomV::Dot => match get_char(ctx.text, cur.pos) {
            None => Err(err_at(ctx, cur.pos, "dot"@)),
            Some((p, ch)) => Ok((Cursor { pos: p, ..cur }, NodeV::Val(seq![ch]))),
        },
        AtomV::EOF => match get_char(ctx.text, cur.pos) {
            Some((p, _)) => Err(err_at(ctx, p, "expected EOF"@)),
            None => Ok((cur, NodeV::Val("EOF"@))),
        },
    }
}

/// The text, rules and rules path of `b` are those of `a`.
pub open spec fn same_ctx(a: &Status, b: &Status) -> bool {
    &&& a.text2parse@ == b.text2parse@
    &&& a.rules == b.rules
    &&& a.walking_rules@ == b.walking_rules@
}

/// A read position never goes past the end of the text.
pub proof fn lemma_advance_wf(text: Seq<char>, p: Possition)
    requires
        p.wf(text.len()),
        p.n < text.len(),
        text.len() <= usize::MAX,
    ensures
        advance(p, text[p.n as int]).wf(text.len()),
{
}

/// The position reached by reading a literal stays inside the text.
pub proof fn lemma_read_literal_wf(text: Seq<char>, p: Possition, lit: Seq<char>)
    requires
        p.wf(text.len()),
        text.len() <= usize::MAX,
    ensures
        match read_literal(text, p, lit) {
            Ok(q) => q.wf(text.len()),
            Err(q) => q.wf(text.len()),
        },
    decreases lit.len(),
{
    if lit.len() > 0 {
        if let Some((p2, ch)) = get_char(text, p) {
            lemma_read_literal_wf(text, p2, lit.drop_first());
        }
    }
}

impl<'a> Status<'a> {
    /// Reads the next char: the status after it and the char, or the
    /// unchanged status at the end of the text.
    pub fn get_char(self) -> (r: Result<(Self, char), Self>)
        requires
            self.wf(),
        ensures
            match get_char(self.text2parse@, self.pos) {
                Some((p, ch)) => r matches Ok((st, c)) && c == ch && st.pos == p,
                None => r matches Err(st) && st.pos == self.pos,
            },
            match r {
                Ok((st, _)) => st.wf() && same_ctx(&st, &self) && st.potential_error == self.potential_error,
                Err(st) => st.wf() && same_ctx(&st, &self) && st.potential_error == self.potential_error,
            },
    {
        let mut st = self;
        match next_char(&mut st) {
            Some(ch) => Ok((st, ch)),
            None => Err(st),
        }
    }
}

/// Reads the next char in place.
pub fn next_char(st: &mut Status) -> (r: Option<char>)
    requires
        old(st).wf(),
    ensures
        final(st).wf(),
        same_ctx(final(st), old(st)),
        final(st).potential_error == old(st).potential_error,
        match get_char(old(st).text2parse@, old(st).pos) {
            Some((p, ch)) => r == Some(ch) && final(st).pos == p,
            None => r is None && final(st).pos == old(st).pos,
        },
{
    if st.pos.n < st.text2parse.len() {
        let ch = st.text2parse[st.pos.n];
        proof {
            lemma_advance_wf(st.text2parse@, st.pos);
        }
        let n = st.pos.n + 1;
        if ch == '\n' {
            st.pos = Possition { n, row: st.pos.row + 1, col: 0, start_line: n };
        } else if ch == '\r' {
            st.pos = Possition { n, row: st.pos.row, col: 0, start_line: st.pos.start_line };
        } else {
            st.pos = Possition { n, row: st.pos.row, col: st.pos.col + 1, start_line: st.pos.start_line };
        }
        Some(ch)
    } else {
        None
    }
}

/// The outcome of an atom parse done in place, as a value.
pub open spec fn atom_outcome(r: Result<Node, Error>, c: Cursor) -> Result<(Cursor, NodeV), ErrorV> {
    match r {
        Ok(n) => Ok((c, n@)),
        Err(e) => Err(e@),
    }
}

/// Whether `ch` is one of the chars of `s`.
fn chars_contain(s: &str, ch: char) -> (r: bool)
    ensures
        r == s@.contains(ch),
{
    let cs = crate::text::chars_of(s);
    let mut i: usize = 0;
    while i < cs.len()
        invariant
            cs@ == s@,
            i <= cs@.len(),
            forall|j: int| 0 <= j < i ==> cs@[j] != ch,
        decreases cs@.len() - i,
    {
        if cs[i] == ch {
            return true;
        }
        i = i + 1;
    }
    false
}

impl MatchRules {
    /// Whether `ch` matches these rules.
    pub fn match_char(&self, ch: char) -> (r: bool)
        ensures
            r == self.matches(ch),
    {
        if chars_contain(self.0.as_str(), ch) {
            return true;
        }
        let mut i: usize = 0;
        while i < self.1.len()
            invariant
                i <= self.1@.len(),
                forall|j: int| 0 <= j < i ==> !(self.1@[j].0 <= ch && ch <= self.1@[j].1),
                !self.0@.contains(ch),
            decreases self.1@.len() - i,
        {
            let (b, t) = self.1[i];
            if b <= ch && ch <= t {
                return true;
            }
            i = i + 1;
        }
        false
    }

    /// The description of a failed match on these rules.
    pub fn descr(&self) -> (r: String)
        ensures
            r@ == match_descr(self.0@, self.1@),
    {
        let mut s = crate::text::concat("match. expected ", self.0.as_str());
        s.append(" ");
        let pairs = crate::text::fmt_char_pairs(&self.1);
        s.append(pairs.as_str());
        s
    }
}

/// Parses an atom in place.
pub fn atom_mut(st: &mut Status, atom: &Atom) -> (r: Result<Node, Error>)
    requires
        old(st).wf(),
    ensures
        final(st).wf(),
        same_ctx(final(st), old(st)),
        atom_outcome(r, final(st).cursor()) == eval_atom(old(st).ctx(), old(st).cursor(), atom@),
{
    match atom {
        Atom::Literal(literal) => literal_mut(st, literal.as_str()),
        Atom::Error(descr) => Err(Error::from_status(st, descr.as_str())),
        Atom::Match(match_rules) => {
            let ghost p0 = st.pos;
            match next_char(st) {
                Some(ch) => {
                    if match_rules.match_char(ch) {
                        Ok(Node::Val(crate::text::char_to_string(ch)))
                    } else {
                        Err(Error::from_status(st, match_rules.descr().as_str()))
                    }
                },
                None => Err(Error::from_status(st, match_rules.descr().as_str())),
            }
        },
        Atom::Dot => match next_char(st) {
            Some(ch) => Ok(Node::Val(crate::text::char_to_string(ch))),
            None => Err(Error::from_status(st, "dot")),
        },
        Atom::EOF => match next_char(st) {
            Some(_) => Err(Error::from_status(st, "expected EOF")),
            None => Ok(Node::Val("EOF".to_owned())),
        },
    }
}

/// Parses a literal in place.
pub fn literal_mut(st: &mut Status, literal: &str) -> (r: Result<Node, Error>)
    requires
        old(st).wf(),
    ensures
        final(st).wf(),
        same_ctx(final(st), old(st)),
        atom_outcome(r, final(st).cursor()) == eval_literal(old(st).ctx(), old(st).cursor(), literal@),
{
    let lit = crate::text::chars_of(literal);
    let mut i: usize = 0;
    let ghost p0 = st.pos;
    proof {
        assert(lit@.skip(0) =~= lit@);
    }
    while i < lit.len()
        invariant
            lit@ == literal@,
            p0 == old(st).pos,
            i <= lit@.len(),
            st.wf(),
            same_ctx(st, old(st)),
            st.potential_error == old(st).potential_error,
            read_literal(old(st).text2parse@, p0, lit@) == read_literal(st.text2parse@, st.pos, lit@.skip(i as int)),
        decreases lit@.len() - i,
    {
        let ghost p = st.pos;
        proof {
            assert(lit@.skip(i as int).drop_first() =~= lit@.skip(i + 1));
            assert(lit@.skip(i as int)[0] == lit@[i as int]);
        }
        match next_char(st) {
            Some(ch) => {
                if ch != lit[i] {
                    let descr = crate::text::concat("literal ", literal);
                    return Err(Error::from_status(st, descr.as_str()));
                }
            },
            None => {
                let descr = crate::text::concat("literal ", literal);
                return Err(Error::from_status(st, descr.as_str()));
            },
        }
        i = i + 1;
    }
    proof {
        assert(lit@.skip(i as int) =~= Seq::<char>::empty());
    }
    Ok(Node::Val(literal.to_owned()))
}

} // verus!

verus! {

/// The outcome of an atom parse that hands its status back, as a value.
pub open spec fn status_atom_outcome(r: Result<(Status, Node), Error>) -> Result<(Cursor, NodeV), ErrorV> {
    match r {
        Ok((st, n)) => Ok((st.cursor(), n@)),
        Err(e) => Err(e@),
    }
}

/// The status handed back is well formed and keeps the text, rules and
/// rules path of `status`.
pub open spec fn keeps_ctx_atom(r: Result<(Status, Node), Error>, status: &Status) -> bool {
    r matches Ok((st, _)) ==> st.wf() && same_ctx(&st, status)
}

/// Parses an atom.
pub fn parse<'a>(status: Status<'a>, atom: &Atom) -> (r: Result<(Status<'a>, Node), Error>)
    requires
        status.wf(),
    ensures
        keeps_ctx_atom(r, &status),
        status_atom_outcome(r) == eval_atom(status.ctx(), status.cursor(), atom@),
{
    let mut st = status;
    match atom_mut(&mut st, atom) {
        Ok(n) => Ok((st, n)),
        Err(e) => Err(e),
    }
}

/// Parses a literal.
pub fn parse_literal<'a>(status: Status<'a>, literal: &str) -> (r: Result<(Status<'a>, Node), Error>)
    requires
        status.wf(),
    ensures
        keeps_ctx_atom(r, &status),
        status_atom_outcome(r) == eval_literal(status.ctx(), status.cursor(), literal@),
{
    let mut st = status;
    match literal_mut(&mut st, literal) {
        Ok(n) => Ok((st, n)),
        Err(e) => Err(e),
    }
}

/// Parses any char.
pub fn parse_dot<'a>(status: Status<'a>) -> (r: Result<(Status<'a>, Node), Error>)
    requires
        status.wf(),
    ensures
        keeps_ctx_atom(r, &status),
        status_atom_outcome(r) == eval_atom(status.ctx(), status.cursor(), AtomV::Dot),
{
    parse(status, &Atom::Dot)
}

/// Parses a char accepted by `match_rules`.
pub fn parse_match<'a>(status: Status<'a>, match_rules: &MatchRules) -> (r: Result<(Status<'a>, Node), Error>)
    requires
        status.wf(),
    ensures
        keeps_ctx_atom(r, &status),
        status_atom_outcome(r) == match get_char(status.text2parse@, status.pos) {
            None => Err(err_at(status.ctx(), status.pos, match_descr(match_rules.0@, match_rules.1@))),
            Some((p, ch)) => if match_rules.matches(ch) {
                Ok((Cursor { pos: p, ..status.cursor() }, NodeV::Val(seq![ch])))
            } else {
                Err(err_at(status.ctx(), p, match_descr(match_rules.0@, match_rules.1@)))
            },
        },
{
    let mut st = status;
    match next_char(&mut st) {
        Some(ch) => {
            if match_rules.match_char(ch) {
                Ok((st, Node::Val(crate::text::char_to_string(ch))))
            } else {
                Err(Error::from_status(&st, match_rules.descr().as_str()))
            }
        },
        None => Err(Error::from_status(&st, match_rules.descr().as_str())),
    }
}

/// Succeeds only at the end of the text.
pub fn parse_eof<'a>(status: Status<'a>) -> (r: Result<(Status<'a>, Node), Error>)
    requires
        status.wf(),
    ensures
        keeps_ctx_atom(r, &status),
        status_atom_outcome(r) == eval_atom(status.ctx(), status.cursor(), AtomV::EOF),
{
    parse(status, &Atom::EOF)
}

/// Reads the next char and checks that it is `ch`. Either way the status
/// after the read is handed back.
pub fn parse_char<'a>(status: Status<'a>, ch: char) -> (r: Result<Status<'a>, Status<'a>>)
    requires
        status.wf(),
    ensures
        match get_char(status.text2parse@, status.pos) {
            Some((p, c)) => if c == ch {
                r matches Ok(st) && st.pos == p
            } else {
                r matches Err(st) && st.pos == p
            },
            None => r matches Err(st) && st.pos == status.pos,
        },
        match r {
            Ok(st) => st.wf() && same_ctx(&st, &status) && st.potential_error == status.potential_error,
            Err(st) => st.wf() && same_ctx(&st, &status) && st.potential_error == status.potential_error,
        },
{
    match status.get_char() {
        Ok((st, got_ch)) => if ch == got_ch {
            Ok(st)
        } else {
            Err(st)
        },
        Err(st) => Err(st),
    }
}

} // verus!
