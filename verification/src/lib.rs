//! The kernel's log as structured entries, read from the device file `/dev/kmsg` or
//! through the `klogctl` syscall.
//!
//! This crate holds what is decided and computed: the grammar of a log line and its
//! inverse, what becomes of the outcome of a read, and which backend a request turns
//! to next. Files and syscalls are the caller's; what they gave is handed in as plain
//! values.
use vstd::prelude::*;
use vstd::string::StringExecFns;
use crate::error::RMesgError;

pub mod common;
pub mod entry;
pub mod error;
pub mod grammar;
pub mod kmsgfile;
pub mod text;

verus! {

/// Which kernel mechanism a request is served from.
#[derive(Clone, Copy, Debug, PartialEq, Eq, Structural)]
pub enum Backend {
    /// The device file first, and the syscall where the device file cannot be opened.
    Default,
    /// The syscall only.
    KLogCtl,
    /// The device file only.
    DevKMsg,
}

/// What is asked of the kernel log.
#[derive(Clone, Copy, Debug, PartialEq, Eq, Structural)]
pub enum Request {
    /// All entries that the log holds now.
    Entries,
    /// The log as it stands now, as one text.
    Raw,
    /// An iterator that follows the log as it grows.
    Iter,
}

/// What the caller does next for a request.
#[derive(Debug, PartialEq, Eq)]
pub enum Step<T> {
    /// Serve the request from the device file, and answer with what came of it.
    Device,
    /// Tell the user that the device file is given up for the syscall.
    Notice(String),
    /// Ask the kernel whether it stamps its log lines with the time.
    Timestamps,
    /// Serve the request through the syscall, and answer with what came of it.
    Syscall,
    /// The request has ended with this.
    Done(Result<T, RMesgError>),
}

/// A `Step` with its notice as a sequence of characters.
pub enum StepView<T> {
    Device,
    Notice(Seq<char>),
    Timestamps,
    Syscall,
    Done(Result<T, RMesgError>),
}

impl<T> View for Step<T> {
    type V = StepView<T>;

    open spec fn view(&self) -> StepView<T> {
        match self {
            Step::Device => StepView::Device,
            Step::Notice(text) => StepView::Notice(text@),
            Step::Timestamps => StepView::Timestamps,
            Step::Syscall => StepView::Syscall,
            Step::Done(result) => StepView::Done(*result),
        }
    }
}

/// What came of the step that was asked for last.
#[derive(Debug, PartialEq, Eq)]
pub enum Answer<T> {
    /// What the device file gave.
    Device(Result<T, RMesgError>),
    /// The notice has been shown.
    Noticed,
    /// Whether the kernel stamps its log lines, or why that could not be read.
    Timestamps(Result<bool, RMesgError>),
    /// What the syscall gave.
    Syscall(Result<T, RMesgError>),
}

/// Whether a failure of the device file sends the request on to the syscall: only
/// under the default backend, and only where the file could not be opened.
pub open spec fn falls_back(backend: Backend, e: RMesgError) -> bool {
    backend == Backend::Default && e is DevKMsgFileOpenError
}

/// What the user is told when the device file is given up.
pub open spec fn fallback_notice(cause: Seq<char>) -> Seq<char> {
    "Falling back from device file to klogctl syscall due to error: "@ + cause
}

/// How a request enters the syscall backend: an iterator is not made before the
/// kernel has been asked for its timestamps; the snapshots go straight to the syscall.
pub open spec fn syscall_step<T>(request: Request) -> StepView<T> {
    if request == Request::Iter {
        StepView::Timestamps
    } else {
        StepView::Syscall
    }
}

/// What the answer on the kernel's timestamps allows: the iterator where they are on,
/// `KLogTimestampsDisabled` where they are off, and the error where they could not
/// be read.
pub open spec fn timestamp_gate(enabled: Result<bool, RMesgError>) -> Result<(), RMesgError> {
    match enabled {
        Ok(true) => Ok(()),
        Ok(false) => Err(RMesgError::KLogTimestampsDisabled),
        Err(e) => Err(e),
    }
}

/// The first step of a request.
pub open spec fn first_step<T>(backend: Backend, request: Request) -> StepView<T> {
    if backend == Backend::KLogCtl {
        syscall_step(request)
    } else {
        StepView::Device
    }
}

/// The step that follows an answer.
pub open spec fn next_step<T>(backend: Backend, request: Request, answer: Answer<T>) -> StepView<
    T,
> {
    match answer {
        Answer::Device(Ok(found)) => StepView::Done(Ok(found)),
        Answer::Device(Err(e)) => if falls_back(backend, e) {
            StepView::Notice(fallback_notice(e->DevKMsgFileOpenError_0@))
        } else {
            StepView::Done(Err(e))
        },
        Answer::Noticed => syscall_step(request),
        Answer::Timestamps(enabled) => match timestamp_gate(enabled) {
            Ok(_) => StepView::Syscall,
            Err(e) => StepView::Done(Err(e)),
        },
        Answer::Syscall(result) => StepView::Done(result),
    }
}

/// Allows an iterator over the syscall only where the kernel stamps its log lines:
/// without timestamps the iterator could not tell the lines of one poll from those of
/// the next.
pub fn klog_entries_only_if_timestamp_enabled(enabled: Result<bool, RMesgError>) -> (allowed:
    Result<(), RMesgError>)
    ensures
        allowed == timestamp_gate(enabled),
{
    match enabled {
        Ok(log_timestamps_enabled) => {
            if !log_timestamps_enabled {
                Err(RMesgError::KLogTimestampsDisabled)
            } else {
                Ok(())
            }
        },
        Err(e) => Err(e),
    }
}

fn enter_syscall<T>(request: Request) -> (step: Step<T>)
    ensures
        step@ == syscall_step::<T>(request),
{
    match request {
        Request::Iter => Step::Timestamps,
        _ => Step::Syscall,
    }
}

/// The first step of a request.
pub fn begin<T>(backend: Backend, request: Request) -> (step: Step<T>)
    ensures
        step@ == first_step::<T>(backend, request),
{
    match backend {
        Backend::KLogCtl => enter_syscall(request),
        _ => Step::Device,
    }
}

/// The step that follows an answer.
///
/// What the device file gave ends the request, unless the default backend finds that
/// the file could not be opened: then a notice is due, and after it the syscall. An
/// iterator over the syscall is allowed by the kernel's timestamps alone. What the
/// syscall gave ends the request.
pub fn advance<T>(backend: Backend, request: Request, answer: Answer<T>) -> (step: Step<T>)
    ensures
        step@ == next_step(backend, request, answer),
{
    match answer {
        Answer::Device(Ok(found)) => Step::Done(Ok(found)),
        Answer::Device(Err(e)) => {
            match backend {
                Backend::Default => match e {
                    RMesgError::DevKMsgFileOpenError(cause) => {
                        let mut notice = String::from_str(
                            "Falling back from device file to klogctl syscall due to error: ",
                        );
                        notice.append(cause.as_str());
                        Step::Notice(notice)
                    },
                    other => Step::Done(Err(other)),
                },
                _ => Step::Done(Err(e)),
            }
        },
        Answer::Noticed => enter_syscall(request),
        Answer::Timestamps(enabled) => match klog_entries_only_if_timestamp_enabled(enabled) {
            Ok(_) => Step::Syscall,
            Err(e) => Step::Done(Err(e)),
        },
        Answer::Syscall(result) => Step::Done(result),
    }
}

/// The syscall is turned to after the device file only under the default backend and
/// only where the file could not be opened; whatever else the device file gave, a
/// refusal too, ends the request as it is.
pub proof fn lemma_fallback_selectivity<T>(
    backend: Backend,
    request: Request,
    outcome: Result<T, RMesgError>,
)
    ensures
        match outcome {
            Err(RMesgError::DevKMsgFileOpenError(cause)) if backend == Backend::Default => {
                &&& next_step(backend, request, Answer::Device(outcome)) == StepView::<
                    T,
                >::Notice(fallback_notice(cause@))
                &&& next_step::<T>(backend, request, Answer::Noticed) == syscall_step::<T>(request)
            },
            _ => next_step(backend, request, Answer::Device(outcome)) == StepView::Done(outcome),
        },
        request != Request::Iter ==> syscall_step::<T>(request) == StepView::<T>::Syscall,
{
}

/// No iterator is made over the syscall while the kernel's timestamps are off: the
/// request then ends with `KLogTimestampsDisabled`, and for an iterator the syscall is
/// the next step only after the answer that the timestamps are on.
pub proof fn lemma_tailing_needs_timestamps<T>(
    backend: Backend,
    answer: Answer<T>,
)
    ensures
        next_step::<T>(backend, Request::Iter, Answer::Timestamps(Ok(false))) == StepView::<
            T,
        >::Done(Err(RMesgError::KLogTimestampsDisabled)),
        first_step::<T>(backend, Request::Iter) != StepView::<T>::Syscall,
        next_step(backend, Request::Iter, answer) == StepView::<T>::Syscall <==> answer
            == Answer::<T>::Timestamps(Ok(true)),
{
}

} // verus!
