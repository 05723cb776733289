//! The device file of the kernel log: what its lines are parsed to, and what is made
//! of what was read from it.
use vstd::prelude::*;
use vstd::slice::slice_subrange;
use vstd::string::StringExecFns;
use crate::common::{
    decimal_text, decimal_value, fragment_of_line, lemma_text_of_value, lemma_value_of_text,
    parse_favlecstr, parse_fragment, unpack_priority,
};
use crate::entry::{Entry, EntryParsingError, EntryParsingErrorView, EntryView};
use crate::error::{OsFailure, RMesgError, RMesgErrorView};
use crate::grammar::{
    layout_of, lemma_layout_fits, lemma_split_of_plain_text, scan_line, split_line, Parts,
};
use crate::text::{
    chars_of, lines_from, lines_of, skip_in, string_of, without_carriage_return, CharClass,
};

verus! {

/// The entry that the pieces of a complete structured line decode to, or the error of
/// the first number that is out of range: the priority as a 32-bit number, the
/// sequence number and the timestamp as 64-bit numbers.
pub open spec fn entry_of_parts(parts: Parts, line: Seq<char>) -> Result<
    EntryView,
    EntryParsingErrorView,
> {
    match fragment_of_line(parts.faclev, line, u32::MAX as nat) {
        Err(e) => Err(e),
        Ok(faclev) => match fragment_of_line(parts.sequence, line, u64::MAX as nat) {
            Err(e) => Err(e),
            Ok(sequence) => match fragment_of_line(parts.timestamp, line, u64::MAX as nat) {
                Err(e) => Err(e),
                Ok(timestamp) => Ok(
                    EntryView {
                        timestamp_from_system_start: Some(timestamp as u64),
                        facility: Some(unpack_priority(faclev).0 as u32),
                        level: Some(unpack_priority(faclev).1 as u32),
                        sequence_num: Some(sequence as u64),
                        message: parts.message,
                    },
                ),
            },
        },
    }
}

/// What a line of the kernel log is parsed to.
///
/// A line that the structured grammar splits, with none of its three numbers left
/// empty, gives the entry of its pieces. Every other line gives the raw entry: no
/// field is present and the message is the whole line.
pub open spec fn entry_of_line(line: Seq<char>) -> Result<EntryView, EntryParsingErrorView> {
    match split_line(line) {
        Some(parts) => if parts.complete() {
            entry_of_parts(parts, line)
        } else {
            Ok(EntryView::raw(line))
        },
        None => Ok(EntryView::raw(line)),
    }
}

/// Whether the structured grammar splits the line and finds all three numbers.
pub open spec fn is_structured_line(line: Seq<char>) -> bool {
    match split_line(line) {
        Some(parts) => parts.complete(),
        None => false,
    }
}

/// A line that is not structured is kept whole: its entry has no field but the
/// message, and the message is the line.
pub proof fn lemma_raw_fallback(line: Seq<char>)
    requires
        !is_structured_line(line),
    ensures
        entry_of_line(line) == Ok::<EntryView, EntryParsingErrorView>(EntryView::raw(line)),
        EntryView::raw(line).is_raw(),
        EntryView::raw(line).message == line,
{
}

/// An entry never holds some of the four fields without the others: a structured line
/// gives all of them, with a level below 8, or an error; every other line gives none.
pub proof fn lemma_all_or_nothing(line: Seq<char>)
    ensures
        match entry_of_line(line) {
            Ok(e) => e.well_formed() && (e.is_structured() <==> is_structured_line(line)) && (
            e.is_raw() <==> !is_structured_line(line)),
            Err(_) => is_structured_line(line),
        },
{
}

/// The priority `f` of a structured line is taken apart as facility `f / 8` and level
/// `f % 8`, and `kmsg_text` packs the two into `f` again.
pub proof fn lemma_priority_decode(line: Seq<char>)
    requires
        is_structured_line(line),
        entry_of_line(line) is Ok,
    ensures
        ({
            let f = decimal_value(split_line(line)->0.faclev);
            let e = entry_of_line(line)->Ok_0;
            &&& e.facility == Some((f / 8) as u32)
            &&& e.level == Some((f % 8) as u32)
            &&& f / 8 <= u32::MAX
            &&& e.faclev() == Some(f)
        }),
{
}

/// Writing back the entry of a line gives the line again, character for character.
///
/// This holds of every line that is not structured, and of the structured lines that
/// are written plainly: leading zeros of a number, and anything but `-` between the
/// third comma and the semicolon, are not kept in an entry.
pub proof fn lemma_round_trip(line: Seq<char>)
    requires
        entry_of_line(line) is Ok,
        is_structured_line(line) ==> split_line(line)->0.written_plainly(line),
    ensures
        entry_of_line(line)->Ok_0.kmsg_text() == line,
{
    if is_structured_line(line) {
        let parts = split_line(line)->0;
        let e = entry_of_line(line)->Ok_0;
        lemma_priority_decode(line);
        lemma_text_of_value(parts.faclev);
        lemma_text_of_value(parts.sequence);
        lemma_text_of_value(parts.timestamp);
        assert(e.kmsg_text() =~= parts.plain_text());
    }
}

/// Of the structured lines, only those that are written plainly come back from their
/// entry as they were.
pub proof fn lemma_round_trip_needs_plain_text(line: Seq<char>)
    requires
        is_structured_line(line),
        entry_of_line(line) is Ok,
        entry_of_line(line)->Ok_0.kmsg_text() == line,
    ensures
        split_line(line)->0.written_plainly(line),
{
    let parts = split_line(line)->0;
    let e = entry_of_line(line)->Ok_0;
    lemma_priority_decode(line);
    lemma_layout_fits(line);
    let written = Parts {
        faclev: decimal_text(e.faclev()->0),
        sequence: decimal_text(e.sequence_num->0 as nat),
        timestamp: decimal_text(e.timestamp_from_system_start->0 as nat),
        message: e.message,
    };
    lemma_value_of_text(e.faclev()->0);
    lemma_value_of_text(e.sequence_num->0 as nat);
    lemma_value_of_text(e.timestamp_from_system_start->0 as nat);
    assert(e.kmsg_text() =~= written.plain_text());
    assert(!e.message.contains('\n')) by {
        let layout = layout_of(line)->0;
        assert forall|i: int| 0 <= i < e.message.len() implies e.message[i] != '\n' by {
            assert(e.message[i] == line[layout.semicolon + 1 + i]);
        }
    }
    lemma_split_of_plain_text(written);
    assert(parts == written);
}

/// Parsing the line that an entry is written as gives the entry again.
///
/// This holds of a well-formed structured entry whose message has no line feed, and
/// of a raw entry whose message is not itself a structured line.
pub proof fn lemma_parse_of_text(e: EntryView)
    requires
        e.well_formed(),
        e.is_structured() ==> !e.message.contains('\n'),
        e.is_raw() ==> !is_structured_line(e.message),
    ensures
        entry_of_line(e.kmsg_text()) == Ok::<EntryView, EntryParsingErrorView>(e),
{
    if e.is_structured() {
        let faclev = e.faclev()->0;
        let parts = Parts {
            faclev: decimal_text(faclev),
            sequence: decimal_text(e.sequence_num->0 as nat),
            timestamp: decimal_text(e.timestamp_from_system_start->0 as nat),
            message: e.message,
        };
        lemma_value_of_text(faclev);
        lemma_value_of_text(e.sequence_num->0 as nat);
        lemma_value_of_text(e.timestamp_from_system_start->0 as nat);
        assert(e.kmsg_text() =~= parts.plain_text());
        lemma_split_of_plain_text(parts);
        let parsed = entry_of_line(e.kmsg_text())->Ok_0;
        assert(parsed.facility == e.facility);
        assert(parsed.level == e.level);
        assert(parsed == e);
    } else {
        assert(e == EntryView::raw(e.message));
    }
}

/// The raw entry of a line.
fn raw_entry(line: &[char]) -> (entry: Entry)
    ensures
        entry@ == EntryView::raw(line@),
{
    let message = string_of(line, 0, line.len());
    proof {
        assert(line@.subrange(0, line@.len() as int) =~= line@);
    }
    Entry {
        timestamp_from_system_start: None,
        facility: None,
        level: None,
        sequence_num: None,
        message,
    }
}

/// Parses one line of the kernel log, given as its characters.
pub fn entry_from_chars(line: &[char]) -> (entry: Result<Entry, EntryParsingError>)
    ensures
        match entry_of_line(line@) {
            Ok(e) => entry is Ok && entry->Ok_0@ == e,
            Err(e) => entry is Err && entry->Err_0@ == e,
        },
        entry is Ok ==> entry->Ok_0@.well_formed(),
{
    proof {
        lemma_all_or_nothing(line@);
    }
    let spans = match scan_line(line) {
        Some(spans) => spans,
        None => {
            return Ok(raw_entry(line));
        },
    };
    if spans.faclev.0 == spans.faclev.1 || spans.sequence.0 == spans.sequence.1
        || spans.timestamp.0 == spans.timestamp.1 {
        return Ok(raw_entry(line));
    }
    let (facility, level) = match parse_favlecstr(line, spans.faclev.0, spans.faclev.1) {
        Ok(pair) => pair,
        Err(e) => {
            return Err(e);
        },
    };
    let sequence_num: u64 = match parse_fragment(
        line,
        spans.sequence.0,
        spans.sequence.1,
        u64::MAX,
    ) {
        Ok(n) => n,
        Err(e) => {
            return Err(e);
        },
    };
    let micros: u64 = match parse_fragment(line, spans.timestamp.0, spans.timestamp.1, u64::MAX) {
        Ok(n) => n,
        Err(e) => {
            return Err(e);
        },
    };
    let message = string_of(line, spans.message, line.len());
    Ok(
        Entry {
            timestamp_from_system_start: Some(micros),
            facility: Some(facility),
            level: Some(level),
            sequence_num: Some(sequence_num),
            message,
        },
    )
}

/// Parses one line of the kernel log.
///
/// Never fails on a line that is not structured; fails on a structured line only where
/// one of its three numbers is too large.
pub fn entry_from_line(line: &str) -> (entry: Result<Entry, EntryParsingError>)
    ensures
        match entry_of_line(line@) {
            Ok(e) => entry is Ok && entry->Ok_0@ == e,
            Err(e) => entry is Err && entry->Err_0@ == e,
        },
        entry is Ok ==> entry->Ok_0@.well_formed(),
{
    let chars = chars_of(line);
    entry_from_chars(chars.as_slice())
}

/// Whether `entries` is what the lines parse to: the entry of every line, in order,
/// or the error of the first line that fails.
pub open spec fn parsed_lines(
    lines: Seq<Seq<char>>,
    entries: Result<Vec<Entry>, EntryParsingError>,
) -> bool {
    match entries {
        Ok(found) => {
            &&& found@.len() == lines.len()
            &&& forall|i: int|
                0 <= i < lines.len() ==> #[trigger] entry_of_line(lines[i]) == Ok::<
                    EntryView,
                    EntryParsingErrorView,
                >(found@[i]@)
        },
        Err(e) => exists|k: int|
            {
                &&& 0 <= k < lines.len()
                &&& #[trigger] entry_of_line(lines[k]) == Err::<EntryView, EntryParsingErrorView>(
                    e@,
                )
                &&& forall|i: int| 0 <= i < k ==> #[trigger] entry_of_line(lines[i]) is Ok
            },
    }
}

/// The entries of a text, written back one by one, give the lines that were read,
/// where each structured line among them is written plainly.
pub proof fn lemma_lines_round_trip(lines: Seq<Seq<char>>, found: Vec<Entry>)
    requires
        parsed_lines(lines, Ok::<Vec<Entry>, EntryParsingError>(found)),
        forall|i: int|
            0 <= i < lines.len() && is_structured_line(#[trigger] lines[i]) ==> split_line(
                lines[i],
            )->0.written_plainly(lines[i]),
    ensures
        found@.len() == lines.len(),
        forall|i: int| 0 <= i < lines.len() ==> (#[trigger] found@[i])@.kmsg_text() == lines[i],
{
    assert forall|i: int| 0 <= i < lines.len() implies (#[trigger] found@[i])@.kmsg_text()
        == lines[i] by {
        assert(entry_of_line(lines[i]) == Ok::<EntryView, EntryParsingErrorView>(found@[i]@));
        lemma_round_trip(lines[i]);
    }
}

/// Parses every line of a text read from the device file. The first line that fails
/// ends the whole with its error.
pub fn entries_from_text(text: &str) -> (entries: Result<Vec<Entry>, EntryParsingError>)
    ensures
        parsed_lines(lines_of(text@), entries),
{
    let chars = chars_of(text);
    let all: &[char] = chars.as_slice();
    let n: usize = all.len();
    let mut found: Vec<Entry> = Vec::new();
    let mut from: usize = 0;
    let ghost lines = lines_of(text@);
    while from < n
        invariant
            all@ == text@,
            n == all@.len(),
            from <= n,
            lines == lines_of(text@),
            found@.len() <= lines.len(),
            lines.skip(found@.len() as int) == lines_from(all@, from as int),
            forall|i: int|
                0 <= i < found@.len() ==> #[trigger] entry_of_line(lines[i]) == Ok::<
                    EntryView,
                    EntryParsingErrorView,
                >(found@[i]@),
        decreases n - from,
    {
        let end: usize = skip_in(all, from, CharClass::NoLineFeed);
        let mut stop: usize = end;
        if end < n && from < end && all[end - 1] == '\r' {
            stop = end - 1;
        }
        let line: &[char] = slice_subrange(all, from, stop);
        let ghost k = found@.len() as int;
        proof {
            let rest = lines_from(all@, from as int);
            assert(rest.len() > 0);
            assert(lines.skip(k)[0] == rest[0]);
            assert(lines[k] == rest[0]);
            if end < n {
                assert(rest[0] == without_carriage_return(all@.subrange(from as int, end as int)));
                assert(line@ =~= rest[0]);
                assert(lines.skip(k + 1) =~= lines.skip(k).skip(1));
                assert(rest.skip(1) =~= lines_from(all@, end + 1));
            } else {
                assert(line@ =~= rest[0]);
                assert(rest.len() == 1);
                assert(lines.skip(k + 1) =~= lines.skip(k).skip(1));
                assert(lines.skip(k + 1) =~= lines_from(all@, n as int));
            }
        }
        match entry_from_chars(line) {
            Ok(entry) => {
                found.push(entry);
            },
            Err(e) => {
                return Err(e);
            },
        }
        from = if end < n {
            end + 1
        } else {
            n
        };
    }
    proof {
        assert(lines.skip(found@.len() as int).len() == 0);
    }
    Ok(found)
}

/// Where the kernel offers its log as a file.
pub const DEV_KMSG_PATH: &'static str = "/dev/kmsg";

/// The file that is read: the override where one is given, `/dev/kmsg` otherwise.
pub open spec fn device_path(file_override: Option<String>) -> Seq<char> {
    match file_override {
        Some(path) => path@,
        None => DEV_KMSG_PATH@,
    }
}

/// The error numbers with which the operating system refuses an operation for lack of
/// permission.
#[derive(Clone, Copy, Debug, PartialEq, Eq)]
pub struct Refusals {
    /// "Operation not permitted".
    pub not_permitted: i32,
    /// "Permission denied".
    pub access_denied: i32,
}

impl Refusals {
    /// Whether a failure with this error number is a refusal for lack of permission.
    /// A failure without a number is none.
    pub open spec fn has(self, code: Option<i32>) -> bool {
        code == Some(self.not_permitted) || code == Some(self.access_denied)
    }

    /// Whether a failure with this error number is a refusal for lack of permission.
    pub fn holds(&self, code: Option<i32>) -> (refused: bool)
        ensures
            refused == self.has(code),
    {
        match code {
            Some(code) => code == self.not_permitted || code == self.access_denied,
            None => false,
        }
    }
}

/// The error for a file that could not be opened. A failure whose error number is one
/// of `denied` is a refusal; every other failure says that the file is unavailable.
pub open spec fn open_failure(path: Seq<char>, failure: OsFailure, denied: Refusals) -> RMesgErrorView {
    if denied.has(failure.code) {
        RMesgErrorView::OperationNotPermitted("Open File "@ + path)
    } else {
        RMesgErrorView::DevKMsgFileOpenError(
            "Unable to open file "@ + path + ": "@ + failure.text@,
        )
    }
}

/// The error for an open file that could not be read. The same two error numbers
/// count as on opening: a failure whose error number is one of `denied` is a refusal;
/// every other failure is an input/output error.
pub open spec fn read_failure(path: Seq<char>, failure: OsFailure, denied: Refusals) -> RMesgErrorView {
    if denied.has(failure.code) {
        RMesgErrorView::OperationNotPermitted("Read from File "@ + path)
    } else {
        RMesgErrorView::IOError("Unable to read from file "@ + path + ": "@ + failure.text@)
    }
}

/// The file that is read: the override where one is given, `/dev/kmsg` otherwise.
pub fn device_file(file_override: &Option<String>) -> (path: &str)
    ensures
        path@ == device_path(*file_override),
{
    match file_override {
        Some(path) => path.as_str(),
        None => DEV_KMSG_PATH,
    }
}

/// `libc::EPERM`, the error number of "Operation not permitted". Its value differs
/// between platforms, so nothing is said of it.
#[verifier::external_body]
fn not_permitted_code() -> i32 {
    libc::EPERM
}

/// `libc::EACCES`, the error number of "Permission denied". Its value differs between
/// platforms, so nothing is said of it.
#[verifier::external_body]
fn access_denied_code() -> i32 {
    libc::EACCES
}

/// The two error numbers of a refusal on this platform.
fn refusals() -> Refusals {
    Refusals { not_permitted: not_permitted_code(), access_denied: access_denied_code() }
}

/// Makes the error for a file that could not be opened, where `denied` holds the
/// error numbers of a refusal.
pub fn open_error(path: &str, failure: &OsFailure, denied: Refusals) -> (e: RMesgError)
    ensures
        e@ == open_failure(path@, *failure, denied),
{
    if denied.holds(failure.code) {
        let mut text = String::from_str("Open File ");
        text.append(path);
        RMesgError::OperationNotPermitted(text)
    } else {
        let mut text = String::from_str("Unable to open file ");
        text.append(path);
        text.append(": ");
        text.append(failure.text.as_str());
        RMesgError::DevKMsgFileOpenError(text)
    }
}

/// Makes the error for an open file that could not be read, where `denied` holds the
/// error numbers of a refusal.
pub fn read_error(path: &str, failure: &OsFailure, denied: Refusals) -> (e: RMesgError)
    ensures
        e@ == read_failure(path@, *failure, denied),
{
    if denied.holds(failure.code) {
        let mut text = String::from_str("Read from File ");
        text.append(path);
        RMesgError::OperationNotPermitted(text)
    } else {
        let mut text = String::from_str("Unable to read from file ");
        text.append(path);
        text.append(": ");
        text.append(failure.text.as_str());
        RMesgError::IOError(text)
    }
}

/// How one pass over the device file went.
#[derive(Clone, Debug, PartialEq, Eq)]
pub enum DeviceRead {
    /// The file could not be opened.
    OpenFailed(OsFailure),
    /// The file was opened and could not be read.
    ReadFailed(OsFailure),
    /// Everything that the file had to offer at the time, as text.
    Read(String),
}

/// What a pass over the device file at `path` comes to, where `denied` holds the error
/// numbers of a refusal: the text that was read, or the error of the failure.
pub open spec fn text_of_read(path: Seq<char>, outcome: DeviceRead, denied: Refusals) -> Result<
    Seq<char>,
    RMesgErrorView,
> {
    match outcome {
        DeviceRead::OpenFailed(failure) => Err(open_failure(path, failure, denied)),
        DeviceRead::ReadFailed(failure) => Err(read_failure(path, failure, denied)),
        DeviceRead::Read(text) => Ok(text@),
    }
}

/// The kernel log as one text, from what a pass over the device file gave.
///
/// The text comes back as it was read. A failure comes back as the error of its kind,
/// which names the file. A refusal is a failure with the platform's error number for
/// "Operation not permitted" or for "Permission denied"; what those numbers are is the
/// platform's.
pub fn kmsg_raw(file_override: Option<String>, outcome: DeviceRead) -> (text: Result<
    String,
    RMesgError,
>)
    ensures
        exists|denied: Refusals|
            match #[trigger] text_of_read(device_path(file_override), outcome, denied) {
                Ok(t) => text is Ok && text->Ok_0@ == t,
                Err(e) => text is Err && text->Err_0@ == e,
            },
        outcome is Read ==> text == Ok::<String, RMesgError>(outcome->Read_0),
{
    let denied = refusals();
    let ghost path_view = device_path(file_override);
    let result = match outcome {
        DeviceRead::Read(text) => Ok(text),
        DeviceRead::OpenFailed(failure) => {
            Err(open_error(device_file(&file_override), &failure, denied))
        },
        DeviceRead::ReadFailed(failure) => {
            Err(read_error(device_file(&file_override), &failure, denied))
        },
    };
    proof {
        let spec_result = text_of_read(path_view, outcome, denied);
        assert(match spec_result {
            Ok(t) => result is Ok && result->Ok_0@ == t,
            Err(e) => result is Err && result->Err_0@ == e,
        });
    }
    result
}

/// The kernel log as entries, from what a pass over the device file gave.
///
/// A text that was read is parsed line by line; the first line that fails ends the
/// whole with its error. A failure to open or read comes back as in `kmsg_raw`.
pub fn kmsg(file_override: Option<String>, outcome: DeviceRead) -> (entries: Result<
    Vec<Entry>,
    RMesgError,
>)
    ensures
        match outcome {
            DeviceRead::Read(text) => match entries {
                Ok(found) => parsed_lines(
                    lines_of(text@),
                    Ok::<Vec<Entry>, EntryParsingError>(found),
                ),
                Err(e) => exists|cause: EntryParsingError|
                    #[trigger] parsed_lines(
                        lines_of(text@),
                        Err::<Vec<Entry>, EntryParsingError>(cause),
                    ) && e@ == cause@.as_request_error(),
            },
            _ => exists|denied: Refusals|
                entries is Err && Err::<Seq<char>, RMesgErrorView>(entries->Err_0@)
                    == #[trigger] text_of_read(device_path(file_override), outcome, denied),
        },
{
    match kmsg_raw(file_override, outcome) {
        Ok(text) => match entries_from_text(text.as_str()) {
            Ok(found) => Ok(found),
            Err(cause) => {
                let ghost c = cause;
                let e = cause.into_request_error();
                proof {
                    assert(parsed_lines(
                        lines_of(text@),
                        Err::<Vec<Entry>, EntryParsingError>(c),
                    ));
                }
                Err(e)
            },
        },
        Err(e) => Err(e),
    }
}

/// What the reader of the device file handed over when asked for the next line.
#[derive(Clone, Debug, PartialEq, Eq)]
pub enum LineRead {
    /// The file has ended.
    End,
    /// Reading failed; the failure in words.
    Failed(String),
    /// One line, without its line ending.
    Line(String),
}

/// The item that a read becomes: none at the end of the file; an input/output error
/// for a failed read; for a line its entry, which under `raw` is the raw entry of the
/// line whatever the line looks like.
pub open spec fn item_of_read(raw: bool, read: LineRead) -> Option<
    Result<EntryView, RMesgErrorView>,
> {
    match read {
        LineRead::End => None,
        LineRead::Failed(text) => Some(
            Err(
                RMesgErrorView::IOError(
                    "Error reading next line from kernel log device file: "@ + text@,
                ),
            ),
        ),
        LineRead::Line(line) => if raw {
            Some(Ok(EntryView::raw(line@)))
        } else {
            match entry_of_line(line@) {
                Ok(e) => Some(Ok(e)),
                Err(e) => Some(Err(e.as_request_error())),
            }
        },
    }
}

/// An item of the iteration with its strings as sequences of characters.
pub open spec fn item_view(item: Option<Result<Entry, RMesgError>>) -> Option<
    Result<EntryView, RMesgErrorView>,
> {
    match item {
        None => None,
        Some(Ok(entry)) => Some(Ok(entry@)),
        Some(Err(e)) => Some(Err(e@)),
    }
}

/// Turns what is read from the device file, line by line, into entries.
///
/// The file itself is held by whoever reads it: each read is handed to `next`, which
/// says what the iteration yields for it.
#[derive(Clone, Copy, Debug, PartialEq, Eq)]
pub struct KMsgEntriesIter {
    raw: bool,
}

impl KMsgEntriesIter {
    /// Whether lines are passed on unparsed.
    pub closed spec fn is_raw(&self) -> bool {
        self.raw
    }

    /// Sets the iteration up once the device file has been opened, or reports why it
    /// could not be. Under `raw` each line becomes the message of a raw entry.
    pub fn with_options(
        file_override: Option<String>,
        raw: bool,
        opened: Result<(), OsFailure>,
    ) -> (iter: Result<Self, RMesgError>)
        ensures
            match opened {
                Ok(_) => iter is Ok && iter->Ok_0.is_raw() == raw,
                Err(failure) => exists|denied: Refusals|
                    iter is Err && iter->Err_0@ == #[trigger] open_failure(
                        device_path(file_override),
                        failure,
                        denied,
                    ),
            },
    {
        match opened {
            Ok(_) => {
                let iter = KMsgEntriesIter { raw };
                assert(iter.is_raw() == raw);
                Ok(iter)
            },
            Err(failure) => {
                let denied = refusals();
                let e = open_error(device_file(&file_override), &failure, denied);
                assert(e@ == open_failure(device_path(file_override), failure, denied));
                Err(e)
            },
        }
    }

    /// The next item of the iteration, for what the reader handed over.
    pub fn next(&mut self, read: LineRead) -> (item: Option<Result<Entry, RMesgError>>)
        ensures
            *final(self) == *old(self),
            item_view(item) == item_of_read(old(self).is_raw(), read),
    {
        match read {
            LineRead::End => None,
            LineRead::Failed(text) => {
                let mut message = String::from_str(
                    "Error reading next line from kernel log device file: ",
                );
                message.append(text.as_str());
                Some(Err(RMesgError::IOError(message)))
            },
            LineRead::Line(line) => {
                if self.raw {
                    Some(
                        Ok(
                            Entry {
                                timestamp_from_system_start: None,
                                facility: None,
                                level: None,
                                sequence_num: None,
                                message: line,
                            },
                        ),
                    )
                } else {
                    match entry_from_line(line.as_str()) {
                        Ok(entry) => Some(Ok(entry)),
                        Err(e) => Some(Err(e.into_request_error())),
                    }
                }
            },
        }
    }
}

} // verus!
