//! The ways in which reading the kernel log fails.
use vstd::prelude::*;

verus! {

/// Why a request for kernel log entries failed.
#[derive(Clone, Debug, PartialEq, Eq)]
pub enum RMesgError {
    /// Tailing through the syscall needs kernel timestamps, and they are switched off.
    KLogTimestampsDisabled,
    /// A line matched the structured form, but one of its numbers could not be decoded.
    EntryParsingError(String),
    /// The device file could not be opened, for a reason other than a refusal.
    /// The only failure after which the default backend turns to the syscall.
    DevKMsgFileOpenError(String),
    /// The operating system refused to open or read the device file.
    OperationNotPermitted(String),
    /// Reading failed for any other reason.
    IOError(String),
}

/// What the operating system answered when it refused to open or to read a file.
#[derive(Clone, Debug, PartialEq, Eq)]
pub struct OsFailure {
    /// The error number, where the failure came with one.
    pub code: Option<i32>,
    /// The failure in words.
    pub text: String,
}

/// An `RMesgError` with its text as a sequence of characters.
pub enum RMesgErrorView {
    KLogTimestampsDisabled,
    EntryParsingError(Seq<char>),
    DevKMsgFileOpenError(Seq<char>),
    OperationNotPermitted(Seq<char>),
    IOError(Seq<char>),
}

impl View for RMesgError {
    type V = RMesgErrorView;

    open spec fn view(&self) -> RMesgErrorView {
        match self {
            RMesgError::KLogTimestampsDisabled => RMesgErrorView::KLogTimestampsDisabled,
            RMesgError::EntryParsingError(s) => RMesgErrorView::EntryParsingError(s@),
            RMesgError::DevKMsgFileOpenError(s) => RMesgErrorView::DevKMsgFileOpenError(s@),
            RMesgError::OperationNotPermitted(s) => RMesgErrorView::OperationNotPermitted(s@),
            RMesgError::IOError(s) => RMesgErrorView::IOError(s@),
        }
    }
}

} // verus!
