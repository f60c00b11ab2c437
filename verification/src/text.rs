//! Message-log text: a specification of base-ten integer text, and the
//! ordered log of `(text, colour)` lines the core emits for the presentation
//! layer to render.

use vstd::prelude::*;

use crate::color::Color;

verus! {

/// The character for one decimal digit.
pub open spec fn spec_digit(d: int) -> char {
    if d == 0 {
        '0'
    } else if d == 1 {
        '1'
    } else if d == 2 {
        '2'
    } else if d == 3 {
        '3'
    } else if d == 4 {
        '4'
    } else if d == 5 {
        '5'
    } else if d == 6 {
        '6'
    } else if d == 7 {
        '7'
    } else if d == 8 {
        '8'
    } else {
        '9'
    }
}

/// Base-ten digits of a non-negative number, most significant first.
pub open spec fn spec_nat_text(n: int) -> Seq<char>
    decreases n,
{
    if n <= 9 {
        seq![spec_digit(n)]
    } else {
        spec_nat_text(n / 10).push(spec_digit(n % 10))
    }
}

/// Base-ten text of an integer: digits, with a leading `-` when negative.
pub open spec fn spec_int_text(n: int) -> Seq<char> {
    if n < 0 {
        seq!['-'] + spec_nat_text(-n)
    } else {
        spec_nat_text(n)
    }
}

/// Relies on the `Display` implementation of `i32` from std: its documented
/// output is the plain base-ten digits, preceded by `-` when negative.
#[verifier::external_body]
pub(crate) fn int_to_text(n: i32) -> (s: String)
    ensures
        s@ == spec_int_text(n as int),
{
    n.to_string()
}

/// The scrolling message log: lines of coloured text, newest appended last.
/// The core only ever appends; rendering decides how many lines fit.
pub struct Messages {
    pub messages: Vec<(String, Color)>,
}

impl Messages {
    /// An empty log.
    pub fn new() -> (m: Messages)
        ensures
            m.messages@ =~= Seq::<(String, Color)>::empty(),
    {
        Messages { messages: Vec::new() }
    }

    /// Append one line to the log.
    pub fn add(&mut self, message: String, color: Color)
        ensures
            final(self).messages@ == old(self).messages@.push((message, color)),
    {
        self.messages.push((message, color));
    }

    /// How many lines the log holds.
    pub fn len(&self) -> (n: usize)
        ensures
            n == self.messages@.len(),
    {
        self.messages.len()
    }

    /// Read one line of the log, oldest at index 0.
    pub fn get(&self, i: usize) -> (line: &(String, Color))
        requires
            i < self.messages@.len(),
        ensures
            *line == self.messages@[i as int],
    {
        &self.messages[i]
    }
}

} // verus!
