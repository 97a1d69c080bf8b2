//! The state of a terminal parse: a text and the position reached in it.

use vstd::prelude::*;

verus! {

/// A text being parsed and the position reached.
#[derive(Default, Debug, PartialEq)]
pub struct Parsing {
    pub position: ParsingPossition,
    pub parsing_text: ParsingText,
}

/// A position in a text: the char index, the column and the row.
#[derive(Debug, PartialEq, Default)]
pub struct ParsingPossition {
    pub n: usize,
    pub col: usize,
    pub row: usize,
}

/// The text being parsed.
#[derive(Debug, PartialEq, Default)]
pub struct ParsingText(String);

impl View for ParsingText {
    type V = Seq<char>;

    closed spec fn view(&self) -> Seq<char> {
        self.0@
    }
}

impl ParsingText {
    /// The text `txt`.
    pub fn new(txt: &str) -> (r: Self)
        ensures
            r@ == txt@,
    {
        ParsingText(txt.to_owned())
    }

    /// A copy of the text.
    pub fn string(&self) -> (r: String)
        ensures
            r@ == self@,
    {
        self.0.clone()
    }
}

/// The text `txt`.
pub fn parsing_text(txt: &str) -> (r: ParsingText)
    ensures
        r@ == txt@,
{
    ParsingText(txt.to_owned())
}

impl Parsing {
    /// The start of a parse of `s`.
    pub fn new(s: &str) -> (r: Self)
        ensures
            r.parsing_text@ == s@,
            r.position == (ParsingPossition { n: 0, col: 0, row: 0 }),
    {
        Parsing {
            position: ParsingPossition { n: 0, col: 0, row: 0 },
            parsing_text: ParsingText(s.to_owned()),
        }
    }
}

} // verus!
