//! Text as a sequence of characters: from strings and back, runs of one kind of
//! character, and the lines of a text.
use vstd::prelude::*;
use vstd::std_specs::iter::IteratorSpec;
use crate::common::is_digit;

verus! {

/// `String::push` appends one character to the end of the string and changes nothing else.
pub assume_specification[ String::push ](s: &mut String, c: char)
    ensures
        final(s)@ == old(s)@.push(c),
;

/// `std::fmt::Error`, the error that formatting into a writer may report. It is only
/// named in a result type; no value of it is made or read here.
#[verifier::external_type_specification]
#[verifier::external_body]
pub struct ExFmtError(core::fmt::Error);

/// The characters of a string, in order.
pub fn chars_of(s: &str) -> (chars: Vec<char>)
    ensures
        chars@ == s@,
{
    let mut chars: Vec<char> = Vec::new();
    for c in it: s.chars()
        invariant
            it.seq() == s@,
            chars@ == s@.take(it.index() as int),
    {
        chars.push(c);
    }
    chars
}

/// The string made of `chars[from..to]`.
pub fn string_of(chars: &[char], from: usize, to: usize) -> (s: String)
    requires
        from <= to <= chars@.len(),
    ensures
        s@ == chars@.subrange(from as int, to as int),
{
    let mut s = String::new();
    let mut i: usize = from;
    while i < to
        invariant
            from <= i <= to <= chars@.len(),
            s@ == chars@.subrange(from as int, i as int),
        decreases to - i,
    {
        s.push(chars[i]);
        i += 1;
    }
    s
}

/// The kinds of characters that a scan passes over.
#[derive(Clone, Copy, Debug)]
pub enum CharClass {
    /// The digits `0` to `9`.
    Digit,
    /// Everything but the semicolon.
    NoSemicolon,
    /// Everything but the line feed.
    NoLineFeed,
}

impl CharClass {
    /// Whether `c` is of this kind.
    pub open spec fn has(self, c: char) -> bool {
        match self {
            CharClass::Digit => is_digit(c),
            CharClass::NoSemicolon => c != ';',
            CharClass::NoLineFeed => c != '\n',
        }
    }

    /// Whether `c` is of this kind.
    pub fn holds(self, c: char) -> (b: bool)
        ensures
            b == self.has(c),
    {
        match self {
            CharClass::Digit => c >= '0' && c <= '9',
            CharClass::NoSemicolon => c != ';',
            CharClass::NoLineFeed => c != '\n',
        }
    }
}

/// The first position at or after `from` whose character is not of the kind `class`,
/// or the length of `s` where every character from `from` on is.
pub open spec fn skip(s: Seq<char>, from: int, class: CharClass) -> int
    decreases s.len() - from,
{
    if 0 <= from < s.len() && class.has(s[from]) {
        skip(s, from + 1, class)
    } else {
        from
    }
}

/// A skip passes over characters of its kind only, and stops before the first other.
pub proof fn lemma_skip_stops(s: Seq<char>, from: int, class: CharClass)
    requires
        0 <= from <= s.len(),
    ensures
        from <= skip(s, from, class) <= s.len(),
        forall|i: int| from <= i < skip(s, from, class) ==> class.has(#[trigger] s[i]),
        skip(s, from, class) < s.len() ==> !class.has(s[skip(s, from, class)]),
    decreases s.len() - from,
{
    if from < s.len() && class.has(s[from]) {
        lemma_skip_stops(s, from + 1, class);
    }
}

/// Over a run of characters of its kind that ends at `end`, a skip leads to `end`.
pub proof fn lemma_skip_run(s: Seq<char>, from: int, end: int, class: CharClass)
    requires
        0 <= from <= end <= s.len(),
        forall|i: int| from <= i < end ==> class.has(#[trigger] s[i]),
        end < s.len() ==> !class.has(s[end]),
    ensures
        skip(s, from, class) == end,
    decreases end - from,
{
    if from < end {
        lemma_skip_run(s, from + 1, end, class);
    }
}

/// The first position at or after `from` whose character is not of the kind `class`.
pub fn skip_in(text: &[char], from: usize, class: CharClass) -> (end: usize)
    requires
        from <= text@.len(),
    ensures
        end == skip(text@, from as int, class),
        from <= end <= text@.len(),
{
    let mut i: usize = from;
    while i < text.len() && class.holds(text[i])
        invariant
            from <= i <= text@.len(),
            skip(text@, i as int, class) == skip(text@, from as int, class),
        decreases text@.len() - i,
    {
        i += 1;
    }
    i
}

/// A line without the carriage return that stood before its line feed.
pub open spec fn without_carriage_return(line: Seq<char>) -> Seq<char> {
    if line.len() > 0 && line.last() == '\r' {
        line.drop_last()
    } else {
        line
    }
}

/// The lines of `text` that begin at or after `from`.
pub open spec fn lines_from(text: Seq<char>, from: int) -> Seq<Seq<char>>
    decreases text.len() - from,
{
    if from < 0 || from >= text.len() {
        Seq::empty()
    } else {
        let end = skip(text, from, CharClass::NoLineFeed);
        if from <= end < text.len() {
            seq![without_carriage_return(text.subrange(from, end))] + lines_from(text, end + 1)
        } else {
            seq![text.subrange(from, text.len() as int)]
        }
    }
}

/// The lines of a text. A line ends at a line feed, or at a carriage return followed
/// by a line feed; neither belongs to the line. What follows the last line feed is a
/// line too unless it is empty, and keeps a carriage return at its end.
pub open spec fn lines_of(text: Seq<char>) -> Seq<Seq<char>> {
    lines_from(text, 0)
}

} // verus!
