//! One kernel log line as a record, and the text form it is written back in.
use vstd::prelude::*;
use vstd::string::StringExecFns;
use crate::common::{decimal_text, push_decimal};
use crate::error::RMesgError;

verus! {

/// One line of the kernel log.
///
/// An entry parsed from a line of the device file has the four optional fields from
/// the structured prefix of the line, all of them, or has none and holds in `message`
/// the line as it was read.
#[derive(Clone, Debug, PartialEq, Eq)]
pub struct Entry {
    /// Microseconds since the system started.
    pub timestamp_from_system_start: Option<u64>,
    /// The subsystem that logged the line.
    pub facility: Option<u32>,
    /// The severity of the line.
    pub level: Option<u32>,
    /// The kernel's running count of log lines.
    pub sequence_num: Option<u64>,
    /// The text of the line.
    pub message: String,
}

/// An `Entry` with its message as a sequence of characters.
pub struct EntryView {
    pub timestamp_from_system_start: Option<u64>,
    pub facility: Option<u32>,
    pub level: Option<u32>,
    pub sequence_num: Option<u64>,
    pub message: Seq<char>,
}

impl View for Entry {
    type V = EntryView;

    open spec fn view(&self) -> EntryView {
        EntryView {
            timestamp_from_system_start: self.timestamp_from_system_start,
            facility: self.facility,
            level: self.level,
            sequence_num: self.sequence_num,
            message: self.message@,
        }
    }
}

impl EntryView {
    /// The entry that stands for a line without a structured prefix.
    pub open spec fn raw(line: Seq<char>) -> EntryView {
        EntryView {
            timestamp_from_system_start: None,
            facility: None,
            level: None,
            sequence_num: None,
            message: line,
        }
    }

    /// No field but the message is present.
    pub open spec fn is_raw(self) -> bool {
        &&& self.timestamp_from_system_start is None
        &&& self.facility is None
        &&& self.level is None
        &&& self.sequence_num is None
    }

    /// Every field is present.
    pub open spec fn is_structured(self) -> bool {
        &&& self.timestamp_from_system_start is Some
        &&& self.facility is Some
        &&& self.level is Some
        &&& self.sequence_num is Some
    }

    /// Facility and level packed into the one number that the kernel writes.
    pub open spec fn faclev(self) -> Option<nat> {
        match (self.facility, self.level) {
            (Some(facility), Some(level)) => Some((facility * 8 + level) as nat),
            _ => None,
        }
    }

    /// The fields are all present or all absent, and where they are present the level is
    /// below 8 and the packed priority fits 32 bits.
    pub open spec fn well_formed(self) -> bool {
        ||| self.is_raw()
        ||| {
            &&& self.is_structured()
            &&& self.level->0 < 8
            &&& self.facility->0 * 8 + self.level->0 <= u32::MAX
        }
    }

    /// The line that the entry is written as: priority, sequence number and timestamp in
    /// decimal, then `-`, a semicolon and the message; for an entry that lacks a field,
    /// the message alone.
    pub open spec fn kmsg_text(self) -> Seq<char> {
        if self.is_structured() {
            decimal_text(self.faclev()->0) + seq![','] + decimal_text(
                self.sequence_num->0 as nat,
            ) + seq![','] + decimal_text(self.timestamp_from_system_start->0 as nat) + seq![
                ',',
                '-',
                ';',
            ] + self.message
        } else {
            self.message
        }
    }
}

/// Why a line could not be turned into an entry.
#[derive(Clone, Debug, PartialEq, Eq)]
pub enum EntryParsingError {
    /// A number of the structured prefix could not be decoded; the text says which.
    Generic(String),
}

/// An `EntryParsingError` with its text as a sequence of characters.
pub enum EntryParsingErrorView {
    Generic(Seq<char>),
}

impl View for EntryParsingError {
    type V = EntryParsingErrorView;

    open spec fn view(&self) -> EntryParsingErrorView {
        match self {
            EntryParsingError::Generic(s) => EntryParsingErrorView::Generic(s@),
        }
    }
}

impl EntryParsingErrorView {
    /// The same failure as an error of a request.
    pub open spec fn as_request_error(self) -> crate::error::RMesgErrorView {
        match self {
            EntryParsingErrorView::Generic(s) => crate::error::RMesgErrorView::EntryParsingError(s),
        }
    }
}

impl EntryParsingError {
    /// The same failure as an error of a request.
    pub fn into_request_error(self) -> (e: RMesgError)
        ensures
            e@ == self@.as_request_error(),
    {
        match self {
            EntryParsingError::Generic(s) => RMesgError::EntryParsingError(s),
        }
    }
}

impl Entry {
    /// Facility and level packed into one number, where both are present.
    pub fn to_faclev(&self) -> (faclev: Option<u64>)
        ensures
            match self@.faclev() {
                Some(n) => faclev == Some(n as u64),
                None => faclev is None,
            },
    {
        match (self.facility, self.level) {
            (Some(facility), Some(level)) => {
                let packed: u64 = facility as u64 * 8 + level as u64;
                Some(packed)
            },
            _ => None,
        }
    }

    /// Writes the entry as a line of the device file.
    pub fn to_kmsg_str(&self) -> (text: Result<String, core::fmt::Error>)
        ensures
            text is Ok,
            text->Ok_0@ == self@.kmsg_text(),
    {
        match (self.to_faclev(), self.sequence_num, self.timestamp_from_system_start) {
            (Some(faclev), Some(sequence_num), Some(timestamp)) => {
                let mut out = String::new();
                push_decimal(&mut out, faclev);
                out.push(',');
                push_decimal(&mut out, sequence_num);
                out.push(',');
                push_decimal(&mut out, timestamp);
                out.push(',');
                out.push('-');
                out.push(';');
                out.append(self.message.as_str());
                assert(out@ =~= self@.kmsg_text());
                Ok(out)
            },
            _ => Ok(self.message.clone()),
        }
    }
}

} // verus!
