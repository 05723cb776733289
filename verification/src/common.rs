//! Decimal numerals: what a run of digits is worth, and how a number is written.
use vstd::prelude::*;
use vstd::string::StringExecFns;
use crate::entry::{EntryParsingError, EntryParsingErrorView};
use crate::text::string_of;

verus! {

/// The ASCII decimal digits.
pub open spec fn is_digit(c: char) -> bool {
    '0' <= c && c <= '9'
}

/// Whether every character of `s` is a decimal digit.
pub open spec fn all_digits(s: Seq<char>) -> bool {
    forall|i: int| 0 <= i < s.len() ==> is_digit(#[trigger] s[i])
}

/// The worth of one digit; zero for any other character.
pub open spec fn digit_value(c: char) -> nat {
    if is_digit(c) {
        (c as u32 - '0' as u32) as nat
    } else {
        0
    }
}

/// The character that writes the digit `d`.
pub open spec fn digit_char(d: nat) -> char
    recommends
        d < 10,
{
    (d + '0' as u32) as char
}

/// The number that a run of digits denotes, most significant digit first.
/// The empty run denotes zero.
pub open spec fn decimal_value(s: Seq<char>) -> nat
    decreases s.len(),
{
    if s.len() == 0 {
        0
    } else {
        10 * decimal_value(s.drop_last()) + digit_value(s.last())
    }
}

/// The numeral of `n`: its decimal digits without leading zeros, `0` for zero.
pub open spec fn decimal_text(n: nat) -> Seq<char>
    decreases n,
{
    if n < 10 {
        seq![digit_char(n)]
    } else {
        decimal_text(n / 10).push(digit_char(n % 10))
    }
}

/// A numeral as `decimal_text` writes it: at least one digit, and no leading zero
/// unless it is the single digit `0`.
pub open spec fn is_numeral(s: Seq<char>) -> bool {
    &&& s.len() > 0
    &&& all_digits(s)
    &&& (s.len() == 1 || s[0] != '0')
}

/// What a fragment decodes to under the limit `max`: its value, where it is a
/// non-empty run of digits that denotes at most `max`.
pub open spec fn fragment_value(s: Seq<char>, max: nat) -> Option<nat> {
    if s.len() > 0 && all_digits(s) && decimal_value(s) <= max {
        Some(decimal_value(s))
    } else {
        None
    }
}

/// A run of digits is worth at least as much as any of its prefixes.
pub proof fn lemma_value_grows(s: Seq<char>, k: int)
    requires
        0 <= k <= s.len(),
    ensures
        decimal_value(s.take(k)) <= decimal_value(s),
    decreases s.len() - k,
{
    if k == s.len() {
        assert(s.take(k) =~= s);
    } else {
        lemma_value_grows(s.drop_last(), k);
        assert(s.drop_last().take(k) =~= s.take(k));
    }
}

/// Writing a number and reading it back gives the number, and what is written
/// is a numeral.
pub proof fn lemma_value_of_text(n: nat)
    ensures
        is_numeral(decimal_text(n)),
        decimal_value(decimal_text(n)) == n,
    decreases n,
{
    let t = decimal_text(n);
    if n < 10 {
        assert(t.drop_last() =~= Seq::<char>::empty());
        assert(decimal_value(t.drop_last()) == 0);
        assert(t.last() == digit_char(n));
    } else {
        lemma_value_of_text(n / 10);
        let p = decimal_text(n / 10);
        assert(t.drop_last() =~= p);
        assert(t.last() == digit_char(n % 10));
        assert(t[0] == p[0]);
        if p.len() == 1 {
            assert(p.drop_last() =~= Seq::<char>::empty());
            assert(decimal_value(p.drop_last()) == 0);
            assert(digit_value(p[0]) == n / 10);
        }
        assert forall|i: int| 0 <= i < t.len() implies is_digit(#[trigger] t[i]) by {
            if i < p.len() {
                assert(t[i] == p[i]);
            }
        }
    }
}

/// A numeral that starts with a digit other than `0` denotes a positive number.
proof fn lemma_numeral_positive(s: Seq<char>)
    requires
        s.len() > 0,
        all_digits(s),
        s[0] != '0',
    ensures
        decimal_value(s) >= 1,
    decreases s.len(),
{
    if s.len() == 1 {
        assert(s.drop_last() =~= Seq::<char>::empty());
        assert(decimal_value(s.drop_last()) == 0);
    } else {
        let p = s.drop_last();
        assert(p[0] == s[0]);
        lemma_numeral_positive(p);
    }
}

/// Reading a numeral and writing the number back gives the numeral.
pub proof fn lemma_text_of_value(s: Seq<char>)
    requires
        is_numeral(s),
    ensures
        decimal_text(decimal_value(s)) == s,
    decreases s.len(),
{
    let p = s.drop_last();
    if s.len() == 1 {
        assert(p =~= Seq::<char>::empty());
        assert(decimal_value(p) == 0);
        assert(is_digit(s[0]));
        assert(decimal_text(decimal_value(s)) =~= s);
    } else {
        assert(p[0] == s[0]);
        assert(is_digit(s.last()));
        lemma_numeral_positive(p);
        lemma_text_of_value(p);
        let v = decimal_value(s);
        assert(v / 10 == decimal_value(p));
        assert(v % 10 == digit_value(s.last()));
        assert(decimal_text(v) =~= s);
    }
}

/// Reads `chars[from..to]` as a decimal number of at most `max`.
pub fn read_decimal(chars: &[char], from: usize, to: usize, max: u64) -> (value: Option<u64>)
    requires
        from <= to <= chars@.len(),
    ensures
        match fragment_value(chars@.subrange(from as int, to as int), max as nat) {
            Some(v) => value == Some(v as u64),
            None => value is None,
        },
{
    let ghost s = chars@.subrange(from as int, to as int);
    if from == to {
        return None;
    }
    let mut acc: u64 = 0;
    let mut i: usize = from;
    while i < to
        invariant
            from <= i <= to <= chars@.len(),
            s == chars@.subrange(from as int, to as int),
            all_digits(s.take(i - from)),
            acc as nat == decimal_value(s.take(i - from)),
            acc <= max,
        decreases to - i,
    {
        let c: char = chars[i];
        let ghost next = s.take(i - from + 1);
        proof {
            assert(next.drop_last() =~= s.take(i - from));
            assert(next.last() == c);
            lemma_value_grows(s, i - from + 1);
        }
        if !(c >= '0' && c <= '9') {
            assert(!is_digit(s[i - from]));
            return None;
        }
        let d: u64 = (c as u32 - '0' as u32) as u64;
        if d > max || acc > (max - d) / 10 {
            return None;
        }
        acc = acc * 10 + d;
        i += 1;
        proof {
            assert forall|j: int| 0 <= j < next.len() implies is_digit(#[trigger] next[j]) by {
                if j < next.len() - 1 {
                    assert(next[j] == s.take(i - from - 1)[j]);
                }
            }
        }
    }
    proof {
        assert(s.take(i - from) =~= s);
    }
    Some(acc)
}

/// What the error says of a fragment that could not be decoded.
pub open spec fn parse_failure_text(fragment: Seq<char>, line: Seq<char>) -> Seq<char> {
    "Unable to parse "@ + fragment + " as a number in line: "@ + line
}

/// What a fragment of a line decodes to: its value, or the error that names the
/// fragment and the line.
pub open spec fn fragment_of_line(fragment: Seq<char>, line: Seq<char>, max: nat) -> Result<
    nat,
    EntryParsingErrorView,
> {
    match fragment_value(fragment, max) {
        Some(v) => Ok(v),
        None => Err(EntryParsingErrorView::Generic(parse_failure_text(fragment, line))),
    }
}

/// Decodes the fragment `line[from..to]` as a decimal number of at most `max`.
///
/// Fails on a fragment that is empty, holds anything but digits, or denotes more
/// than `max`.
pub fn parse_fragment(line: &[char], from: usize, to: usize, max: u64) -> (value: Result<
    u64,
    EntryParsingError,
>)
    requires
        from <= to <= line@.len(),
    ensures
        match fragment_of_line(line@.subrange(from as int, to as int), line@, max as nat) {
            Ok(v) => value == Ok::<u64, EntryParsingError>(v as u64),
            Err(e) => value is Err && value->Err_0@ == e,
        },
{
    match read_decimal(line, from, to, max) {
        Some(v) => Ok(v),
        None => {
            let mut text = String::from_str("Unable to parse ");
            text.append(string_of(line, from, to).as_str());
            text.append(" as a number in line: ");
            text.append(string_of(line, 0, line.len()).as_str());
            proof {
                assert(line@.subrange(0, line@.len() as int) =~= line@);
            }
            Err(EntryParsingError::Generic(text))
        },
    }
}

/// Facility and level as the priority fragment packs them: the facility is the
/// priority divided by 8, the level is the remainder.
pub open spec fn unpack_priority(faclev: nat) -> (nat, nat) {
    (faclev / 8, faclev % 8)
}

/// Decodes the priority fragment `line[from..to]` into facility and level.
pub fn parse_favlecstr(line: &[char], from: usize, to: usize) -> (parts: Result<
    (u32, u32),
    EntryParsingError,
>)
    requires
        from <= to <= line@.len(),
    ensures
        match fragment_of_line(line@.subrange(from as int, to as int), line@, u32::MAX as nat) {
            Ok(v) => parts == Ok::<(u32, u32), EntryParsingError>(
                (unpack_priority(v).0 as u32, unpack_priority(v).1 as u32),
            ),
            Err(e) => parts is Err && parts->Err_0@ == e,
        },
{
    match parse_fragment(line, from, to, 0xffff_ffff) {
        Ok(faclev) => {
            let facility: u64 = faclev / 8;
            let level: u64 = faclev % 8;
            Ok((facility as u32, level as u32))
        },
        Err(e) => Err(e),
    }
}

/// Appends the numeral of `n` to `out`.
pub fn push_decimal(out: &mut String, n: u64)
    ensures
        final(out)@ == old(out)@ + decimal_text(n as nat),
    decreases n,
{
    if n >= 10 {
        push_decimal(out, n / 10);
    }
    let d: u8 = (n % 10) as u8;
    out.push((d + 48u8) as char);
    proof {
        assert((d + 48u8) as char == digit_char((n % 10) as nat));
        if n >= 10 {
            assert(old(out)@ + decimal_text(n as nat) =~= (old(out)@ + decimal_text((n / 10) as nat)).push(
                digit_char((n % 10) as nat),
            ));
        } else {
            assert(old(out)@ + decimal_text(n as nat) =~= old(out)@.push(digit_char(n as nat)));
        }
    }
}

} // verus!
