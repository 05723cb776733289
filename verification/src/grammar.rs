//! The grammar of a structured line of the kernel log:
//!
//! ```text
//! <faclev>,<sequence>,<timestamp>,<ignored>;<message>
//! ```
use vstd::prelude::*;
use crate::common::{all_digits, is_digit, is_numeral};
use crate::text::{lemma_skip_run, lemma_skip_stops, skip, skip_in, CharClass};

verus! {

/// Where one number of the structured prefix lies: its digits are `start..end`, and
/// the comma that closes it stands at `end`.
pub struct Field {
    pub start: int,
    pub end: int,
}

impl Field {
    /// The field lies in `s` at `from`: its digits begin there, nothing but digits
    /// stands before `end`, and a comma stands at `end`. The run of digits may be
    /// empty.
    pub open spec fn lies_at(self, s: Seq<char>, from: int) -> bool {
        &&& 0 <= from == self.start <= self.end < s.len()
        &&& forall|i: int| self.start <= i < self.end ==> is_digit(#[trigger] s[i])
        &&& s[self.end] == ','
    }

    /// The digits of the field.
    pub open spec fn digits(self, s: Seq<char>) -> Seq<char> {
        s.subrange(self.start, self.end)
    }

    /// The position behind the comma that closes the field.
    pub open spec fn next(self) -> int {
        self.end + 1
    }
}

/// The number that begins at `from`: the digits that stand there, closed by a comma
/// directly behind them.
pub open spec fn field_at(s: Seq<char>, from: int) -> Option<Field> {
    let end = skip(s, from, CharClass::Digit);
    if 0 <= from <= end < s.len() && s[end] == ',' {
        Some(Field { start: from, end })
    } else {
        None
    }
}

/// The pieces of a structured line.
pub struct Parts {
    /// The digits of the priority.
    pub faclev: Seq<char>,
    /// The digits of the sequence number.
    pub sequence: Seq<char>,
    /// The digits of the timestamp.
    pub timestamp: Seq<char>,
    /// What follows the first semicolon behind the three numbers.
    pub message: Seq<char>,
}

impl Parts {
    /// None of the three numbers is left empty.
    pub open spec fn complete(self) -> bool {
        self.faclev.len() > 0 && self.sequence.len() > 0 && self.timestamp.len() > 0
    }

    /// The line that holds these pieces and nothing else: `-` alone stands between the
    /// last comma and the semicolon.
    pub open spec fn plain_text(self) -> Seq<char> {
        self.faclev + seq![','] + self.sequence + seq![','] + self.timestamp + seq![',', '-', ';']
            + self.message
    }

    /// `line` is written the way the kernel writes it: it is the plain text of these
    /// pieces, and each number is a numeral without leading zeros.
    pub open spec fn written_plainly(self, line: Seq<char>) -> bool {
        &&& line == self.plain_text()
        &&& is_numeral(self.faclev)
        &&& is_numeral(self.sequence)
        &&& is_numeral(self.timestamp)
    }
}

/// Where the pieces of a structured line lie.
pub struct Layout {
    pub faclev: Field,
    pub sequence: Field,
    pub timestamp: Field,
    /// The first semicolon behind the three numbers.
    pub semicolon: int,
}

impl Layout {
    /// The layout is one of `line` under the structured grammar: the three numbers lie
    /// one directly behind the other from the start of the line, no semicolon stands
    /// between the last of their commas and `semicolon`, and no line feed stands behind
    /// `semicolon`.
    pub open spec fn fits(self, line: Seq<char>) -> bool {
        &&& self.faclev.lies_at(line, 0)
        &&& self.sequence.lies_at(line, self.faclev.next())
        &&& self.timestamp.lies_at(line, self.sequence.next())
        &&& self.timestamp.next() <= self.semicolon < line.len()
        &&& forall|i: int|
            self.timestamp.next() <= i < self.semicolon ==> #[trigger] line[i] != ';'
        &&& line[self.semicolon] == ';'
        &&& forall|i: int| self.semicolon < i < line.len() ==> #[trigger] line[i] != '\n'
    }

    /// The pieces that the layout cuts out of `line`.
    pub open spec fn parts(self, line: Seq<char>) -> Parts {
        Parts {
            faclev: self.faclev.digits(line),
            sequence: self.sequence.digits(line),
            timestamp: self.timestamp.digits(line),
            message: line.subrange(self.semicolon + 1, line.len() as int),
        }
    }
}

/// The layout of a line, found from left to right: three numbers, then the first
/// semicolon, and from there to the end of the line no line feed. `None` where the
/// line is not of that form.
pub open spec fn layout_of(line: Seq<char>) -> Option<Layout> {
    match field_at(line, 0) {
        Some(faclev) => match field_at(line, faclev.next()) {
            Some(sequence) => match field_at(line, sequence.next()) {
                Some(timestamp) => {
                    let semicolon = skip(line, timestamp.next(), CharClass::NoSemicolon);
                    if semicolon < line.len() && skip(line, semicolon + 1, CharClass::NoLineFeed)
                        == line.len() {
                        Some(Layout { faclev, sequence, timestamp, semicolon })
                    } else {
                        None
                    }
                },
                None => None,
            },
            None => None,
        },
        None => None,
    }
}

/// A line split by the structured grammar.
///
/// Each of the three numbers is a run of digits that may be empty; it begins where
/// the line, or the comma before it, ends, and is closed by the comma directly behind
/// its digits. What follows the third comma is passed over up to the first semicolon;
/// the message is the rest of the line and holds no line feed. `None` for every other
/// line, one with white space around a number too.
pub open spec fn split_line(line: Seq<char>) -> Option<Parts> {
    match layout_of(line) {
        Some(layout) => Some(layout.parts(line)),
        None => None,
    }
}

/// A number that is found lies where it was found.
pub proof fn lemma_field_lies(s: Seq<char>, from: int)
    requires
        field_at(s, from) is Some,
    ensures
        field_at(s, from)->0.lies_at(s, from),
{
    lemma_skip_stops(s, from, CharClass::Digit);
}

/// A number that lies at a position is the one that is found there.
pub proof fn lemma_field_found(s: Seq<char>, from: int, field: Field)
    requires
        field.lies_at(s, from),
    ensures
        field_at(s, from) == Some(field),
{
    lemma_skip_run(s, from, field.end, CharClass::Digit);
}

/// The layout that is found of a line fits the line.
pub proof fn lemma_layout_fits(line: Seq<char>)
    requires
        layout_of(line) is Some,
    ensures
        layout_of(line)->0.fits(line),
{
    let layout = layout_of(line)->0;
    lemma_field_lies(line, 0);
    lemma_field_lies(line, layout.faclev.next());
    lemma_field_lies(line, layout.sequence.next());
    lemma_skip_stops(line, layout.timestamp.next(), CharClass::NoSemicolon);
    lemma_skip_stops(line, layout.semicolon + 1, CharClass::NoLineFeed);
}

/// In a structured line nothing but digits and commas stands before the third comma:
/// a line with white space around one of its numbers is not structured.
pub proof fn lemma_numbers_stand_bare(line: Seq<char>, i: int)
    requires
        layout_of(line) is Some,
        0 <= i <= layout_of(line)->0.timestamp.end,
    ensures
        is_digit(line[i]) || line[i] == ',',
{
    lemma_layout_fits(line);
}

/// A layout that fits a line is the one that is found of it: the grammar accepts
/// exactly the lines that have a fitting layout, and a line has no second one.
pub proof fn lemma_layout_found(line: Seq<char>, layout: Layout)
    requires
        layout.fits(line),
    ensures
        layout_of(line) == Some(layout),
        split_line(line) == Some(layout.parts(line)),
{
    lemma_field_found(line, 0, layout.faclev);
    lemma_field_found(line, layout.faclev.next(), layout.sequence);
    lemma_field_found(line, layout.sequence.next(), layout.timestamp);
    lemma_skip_run(line, layout.timestamp.next(), layout.semicolon, CharClass::NoSemicolon);
    lemma_skip_run(line, layout.semicolon + 1, line.len() as int, CharClass::NoLineFeed);
}

/// The plain text of pieces is split into those pieces again.
pub proof fn lemma_split_of_plain_text(parts: Parts)
    requires
        all_digits(parts.faclev),
        all_digits(parts.sequence),
        all_digits(parts.timestamp),
        !parts.message.contains('\n'),
    ensures
        split_line(parts.plain_text()) == Some(parts),
{
    let s = parts.plain_text();
    let a = parts.faclev.len() as int;
    let b = a + 1 + parts.sequence.len();
    let c = b + 1 + parts.timestamp.len();
    let layout = Layout {
        faclev: Field { start: 0, end: a },
        sequence: Field { start: a + 1, end: b },
        timestamp: Field { start: b + 1, end: c },
        semicolon: c + 2,
    };
    let s1 = parts.faclev + seq![','];
    let s2 = s1 + parts.sequence;
    let s3 = s2 + seq![','];
    let s4 = s3 + parts.timestamp;
    let s5 = s4 + seq![',', '-', ';'];
    assert(s == s5 + parts.message);
    assert(s.len() == c + 3 + parts.message.len());
    assert forall|i: int| 0 <= i < a implies is_digit(#[trigger] s[i]) by {
        assert(s[i] == parts.faclev[i]);
    }
    assert(s[a] == ',');
    assert forall|i: int| a + 1 <= i < b implies is_digit(#[trigger] s[i]) by {
        assert(s[i] == parts.sequence[i - a - 1]);
    }
    assert(s[b] == ',');
    assert forall|i: int| b + 1 <= i < c implies is_digit(#[trigger] s[i]) by {
        assert(s[i] == parts.timestamp[i - b - 1]);
    }
    assert(s[c] == ',');
    assert(s[c + 1] == '-');
    assert(s[c + 2] == ';');
    assert forall|i: int| c + 2 < i < s.len() implies #[trigger] s[i] != '\n' by {
        assert(s[i] == parts.message[i - c - 3]);
    }
    assert(layout.fits(s));
    lemma_layout_found(s, layout);
    assert(s.subrange(0, a) =~= parts.faclev);
    assert(s.subrange(a + 1, b) =~= parts.sequence);
    assert(s.subrange(b + 1, c) =~= parts.timestamp);
    assert(s.subrange(c + 3, s.len() as int) =~= parts.message);
}

/// Where the pieces of a structured line lie, as found by `scan_line`: the digits of
/// each number from the first of a pair up to the second, and the start of the message.
#[derive(Clone, Copy, Debug, PartialEq, Eq)]
pub struct Spans {
    pub faclev: (usize, usize),
    pub sequence: (usize, usize),
    pub timestamp: (usize, usize),
    pub message: usize,
}

impl Spans {
    /// The spans are those of the layout.
    pub open spec fn of_layout(self, layout: Layout) -> bool {
        &&& self.faclev.0 == layout.faclev.start
        &&& self.faclev.1 == layout.faclev.end
        &&& self.sequence.0 == layout.sequence.start
        &&& self.sequence.1 == layout.sequence.end
        &&& self.timestamp.0 == layout.timestamp.start
        &&& self.timestamp.1 == layout.timestamp.end
        &&& self.message == layout.semicolon + 1
    }
}

/// The number that begins at `from`: the end of its digits, where a comma stands.
fn scan_field(line: &[char], from: usize) -> (end: Option<usize>)
    requires
        from <= line@.len(),
    ensures
        match (field_at(line@, from as int), end) {
            (Some(field), Some(end)) => field.start == from && field.end == end && from <= end
                < line@.len(),
            (None, None) => true,
            _ => false,
        },
{
    let end: usize = skip_in(line, from, CharClass::Digit);
    if end < line.len() && line[end] == ',' {
        Some(end)
    } else {
        None
    }
}

/// Finds the layout of a line.
pub fn scan_line(line: &[char]) -> (spans: Option<Spans>)
    ensures
        match (layout_of(line@), spans) {
            (Some(layout), Some(found)) => {
                &&& found.of_layout(layout)
                &&& found.faclev.0 <= found.faclev.1 < found.sequence.0 <= found.sequence.1
                    < found.timestamp.0 <= found.timestamp.1 < found.message <= line@.len()
            },
            (None, None) => true,
            _ => false,
        },
{
    let length: usize = line.len();
    let faclev: usize = match scan_field(line, 0) {
        Some(end) => end,
        None => {
            return None;
        },
    };
    let sequence: usize = match scan_field(line, faclev + 1) {
        Some(end) => end,
        None => {
            return None;
        },
    };
    let timestamp: usize = match scan_field(line, sequence + 1) {
        Some(end) => end,
        None => {
            return None;
        },
    };
    let semicolon: usize = skip_in(line, timestamp + 1, CharClass::NoSemicolon);
    if semicolon >= length {
        return None;
    }
    if skip_in(line, semicolon + 1, CharClass::NoLineFeed) < length {
        return None;
    }
    Some(
        Spans {
            faclev: (0, faclev),
            sequence: (faclev + 1, sequence),
            timestamp: (sequence + 1, timestamp),
            message: semicolon + 1,
        },
    )
}

} // verus!
