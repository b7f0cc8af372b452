//! The writer: what is written to the output file, and what follows a
//! failure to write.
use crate::error::{Error, ErrorKind, ErrorView};
use crate::home::{expand_tilde, has_home_prefix, is_tilde_expansion, lemma_unexpanded};
use crate::phase::Phase;
use vstd::prelude::*;

verus! {

/// The line that marks the start of a playlist, with its terminator.
pub open spec fn marker_line() -> Seq<char> {
    "#\r\n"@
}

/// The line written for `path`: the path followed by the line terminator.
pub open spec fn entry_line(path: Seq<char>) -> Seq<char> {
    path + "\r\n"@
}

/// The error reported when the output file cannot be created.
pub open spec fn create_failure(output_file: Seq<char>, cause: Seq<char>) -> ErrorView {
    ErrorView {
        kind: ErrorKind::IoOpen,
        message: "failed to create the output file '"@ + output_file + "': "@ + cause,
    }
}

/// The error reported when a line cannot be written to the output file.
pub open spec fn append_failure(output_file: Seq<char>, cause: Seq<char>) -> ErrorView {
    ErrorView {
        kind: ErrorKind::IoWrite,
        message: "failed to append a line to the output file '"@ + output_file + "': "@ + cause,
    }
}

/// Where the writer stands.
#[derive(Debug, Clone, PartialEq, Eq)]
pub enum WriterState {
    /// Nothing was asked of the stage yet.
    Start,
    /// The output file is being created.
    Creating,
    /// The marker line is being written.
    Marking,
    /// Waiting for the next processed path.
    Receiving,
    /// The line of a processed path is being written.
    Appending,
    /// Everything was written; the output is being flushed.
    Flushing,
    /// Writing or flushing failed with `error`; the quit signal is being
    /// raised.
    Quitting { error: Error },
    /// The stage has ended.
    Stopped,
}

/// What happened since the last action.
#[derive(Debug, Clone, PartialEq, Eq)]
pub enum WriterEvent {
    /// The stage is started.
    Begin,
    /// The last action was carried out.
    Done,
    /// A message arrived: a processed path, or the empty end marker.
    Received(String),
    /// The channel was closed without an end marker.
    Closed,
    /// The last action failed, for the reason given.
    Failed(String),
}

/// What the writer asks for next.
#[derive(Debug, Clone, PartialEq, Eq)]
pub enum WriterAction {
    /// Create the file at this path, emptying it if it exists.
    Create(String),
    /// Write this text to the file.
    Write(String),
    /// Wait for the next message.
    Receive,
    /// Flush what was written.
    Flush,
    /// Raise the quit signal for the task processor, without waiting.
    SignalQuit,
    /// End the stage with success.
    Succeed,
    /// End the stage with this error.
    Fail(Error),
    /// Nothing: the event called for no action.
    Idle,
}

/// A state of the writer, with its texts as sequences of characters.
pub enum WriterStateView {
    Start,
    Creating,
    Marking,
    Receiving,
    Appending,
    Flushing,
    Quitting { error: ErrorView },
    Stopped,
}

/// An event of the writer, with its texts as sequences of characters.
pub enum WriterEventView {
    Begin,
    Done,
    Received(Seq<char>),
    Closed,
    Failed(Seq<char>),
}

/// An action of the writer, with its texts as sequences of characters.
pub enum WriterActionView {
    Create(Seq<char>),
    Write(Seq<char>),
    Receive,
    Flush,
    SignalQuit,
    Succeed,
    Fail(ErrorView),
    Idle,
}

impl View for WriterState {
    type V = WriterStateView;

    open spec fn view(&self) -> WriterStateView {
        match self {
            WriterState::Start => WriterStateView::Start,
            WriterState::Creating => WriterStateView::Creating,
            WriterState::Marking => WriterStateView::Marking,
            WriterState::Receiving => WriterStateView::Receiving,
            WriterState::Appending => WriterStateView::Appending,
            WriterState::Flushing => WriterStateView::Flushing,
            WriterState::Quitting { error } => WriterStateView::Quitting { error: error@ },
            WriterState::Stopped => WriterStateView::Stopped,
        }
    }
}

impl View for WriterEvent {
    type V = WriterEventView;

    open spec fn view(&self) -> WriterEventView {
        match self {
            WriterEvent::Begin => WriterEventView::Begin,
            WriterEvent::Done => WriterEventView::Done,
            WriterEvent::Received(path) => WriterEventView::Received(path@),
            WriterEvent::Closed => WriterEventView::Closed,
            WriterEvent::Failed(cause) => WriterEventView::Failed(cause@),
        }
    }
}

impl View for WriterAction {
    type V = WriterActionView;

    open spec fn view(&self) -> WriterActionView {
        match self {
            WriterAction::Create(path) => WriterActionView::Create(path@),
            WriterAction::Write(text) => WriterActionView::Write(text@),
            WriterAction::Receive => WriterActionView::Receive,
            WriterAction::Flush => WriterActionView::Flush,
            WriterAction::SignalQuit => WriterActionView::SignalQuit,
            WriterAction::Succeed => WriterActionView::Succeed,
            WriterAction::Fail(error) => WriterActionView::Fail(error@),
            WriterAction::Idle => WriterActionView::Idle,
        }
    }
}

impl WriterStateView {
    /// The phase of the life cycle that a state belongs to.
    pub open spec fn phase(self) -> Phase {
        match self {
            WriterStateView::Stopped => Phase::Stopped,
            WriterStateView::Flushing => Phase::Draining,
            WriterStateView::Quitting { error } => Phase::Draining,
            _ => Phase::Running,
        }
    }
}

/// The writer's transition: the state after `event` and the action to
/// perform next. `output_file` is the name the file was configured under,
/// `path` the path at which the stage creates it.
///
/// The file is created and the marker line written. Each path received is
/// written as a line of its own; the empty end marker, or a closed channel,
/// ends the receiving, and the output is flushed. A failure to create the
/// file, to write a line or to flush raises the quit signal and then ends
/// the stage with an error. An event that does not answer the pending action
/// changes nothing.
pub open spec fn writer_step(
    output_file: Seq<char>,
    path: Seq<char>,
    state: WriterStateView,
    event: WriterEventView,
) -> (WriterStateView, WriterActionView) {
    match (state, event) {
        (WriterStateView::Start, WriterEventView::Begin) => (
            WriterStateView::Creating,
            WriterActionView::Create(path),
        ),
        (WriterStateView::Creating, WriterEventView::Done) => (
            WriterStateView::Marking,
            WriterActionView::Write(marker_line()),
        ),
        (WriterStateView::Creating, WriterEventView::Failed(cause)) => (
            WriterStateView::Quitting { error: create_failure(output_file, cause) },
            WriterActionView::SignalQuit,
        ),
        (WriterStateView::Marking, WriterEventView::Done) => (
            WriterStateView::Receiving,
            WriterActionView::Receive,
        ),
        (WriterStateView::Marking, WriterEventView::Failed(cause)) => (
            WriterStateView::Quitting { error: append_failure(output_file, cause) },
            WriterActionView::SignalQuit,
        ),
        (WriterStateView::Receiving, WriterEventView::Received(processed)) => {
            if processed.len() == 0 {
                (WriterStateView::Flushing, WriterActionView::Flush)
            } else {
                (WriterStateView::Appending, WriterActionView::Write(entry_line(processed)))
            }
        },
        (WriterStateView::Receiving, WriterEventView::Closed) => (
            WriterStateView::Flushing,
            WriterActionView::Flush,
        ),
        (WriterStateView::Appending, WriterEventView::Done) => (
            WriterStateView::Receiving,
            WriterActionView::Receive,
        ),
        (WriterStateView::Appending, WriterEventView::Failed(cause)) => (
            WriterStateView::Quitting { error: append_failure(output_file, cause) },
            WriterActionView::SignalQuit,
        ),
        (WriterStateView::Flushing, WriterEventView::Done) => (
            WriterStateView::Stopped,
            WriterActionView::Succeed,
        ),
        (WriterStateView::Flushing, WriterEventView::Failed(cause)) => (
            WriterStateView::Quitting { error: append_failure(output_file, cause) },
            WriterActionView::SignalQuit,
        ),
        (WriterStateView::Quitting { error }, WriterEventView::Done) => (
            WriterStateView::Stopped,
            WriterActionView::Fail(error),
        ),
        (WriterStateView::Quitting { error }, WriterEventView::Failed(cause)) => (
            WriterStateView::Stopped,
            WriterActionView::Fail(error),
        ),
        (state, _) => (state, WriterActionView::Idle),
    }
}

/// The writer never goes back in its life cycle, and does nothing once it is
/// stopped.
pub proof fn lemma_writer_never_resumes(
    output_file: Seq<char>,
    path: Seq<char>,
    state: WriterStateView,
    event: WriterEventView,
)
    ensures
        state.phase().rank() <= writer_step(output_file, path, state, event).0.phase().rank(),
        state is Stopped ==> writer_step(output_file, path, state, event) == (
            WriterStateView::Stopped,
            WriterActionView::Idle,
        ),
        writer_step(output_file, path, state, event).1 is Write ==> state.phase()
            == Phase::Running,
{
}

/// A failure of the writer is announced before it is returned: the stage
/// ends with an error only out of the state in which the quit signal is
/// raised, and every failure to create the file, to write a line or to flush
/// leads into that state with the request to raise the signal. No failure
/// of the file is passed over: each one ends in an error.
pub proof fn lemma_writer_signals_before_failing(
    output_file: Seq<char>,
    path: Seq<char>,
    state: WriterStateView,
    event: WriterEventView,
)
    ensures
        writer_step(output_file, path, state, event).1 is Fail ==> state is Quitting,
        writer_step(output_file, path, state, event).0 is Quitting <==> (state is Quitting
            && writer_step(output_file, path, state, event).1 is Idle) || writer_step(
            output_file,
            path,
            state,
            event,
        ).1 is SignalQuit,
        (state is Creating || state is Marking || state is Appending || state is Flushing)
            && event is Failed ==> writer_step(output_file, path, state, event).1 is SignalQuit
            && writer_step(output_file, path, state, event).0 is Quitting,
        state is Quitting && (event is Done || event is Failed) ==> writer_step(
            output_file,
            path,
            state,
            event,
        ) == (WriterStateView::Stopped, WriterActionView::Fail(state->error)),
{
}

fn append_error(output_file: &str, cause: &str) -> (error: Error)
    ensures
        error@ == append_failure(output_file@, cause@),
{
    let message = String::from_str("failed to append a line to the output file '").concat(
        output_file,
    ).concat("': ").concat(cause);
    Error::new(ErrorKind::IoWrite, message)
}

/// Takes one step of the writer, given the path at which the stage creates
/// its file.
pub fn writer_transition(output_file: &str, path: &str, state: WriterState, event: WriterEvent) -> (r:
    (WriterState, WriterAction))
    ensures
        (r.0@, r.1@) == writer_step(output_file@, path@, state@, event@),
{
    match (state, event) {
        (WriterState::Start, WriterEvent::Begin) => (
            WriterState::Creating,
            WriterAction::Create(String::from_str(path)),
        ),
        (WriterState::Creating, WriterEvent::Done) => (
            WriterState::Marking,
            WriterAction::Write(String::from_str("#\r\n")),
        ),
        (WriterState::Creating, WriterEvent::Failed(cause)) => {
            let message = String::from_str("failed to create the output file '").concat(
                output_file,
            ).concat("': ").concat(cause.as_str());
            (
                WriterState::Quitting { error: Error::new(ErrorKind::IoOpen, message) },
                WriterAction::SignalQuit,
            )
        },
        (WriterState::Marking, WriterEvent::Done) => (
            WriterState::Receiving,
            WriterAction::Receive,
        ),
        (WriterState::Marking, WriterEvent::Failed(cause)) => (
            WriterState::Quitting { error: append_error(output_file, cause.as_str()) },
            WriterAction::SignalQuit,
        ),
        (WriterState::Receiving, WriterEvent::Received(processed)) => {
            if processed.as_str().is_empty() {
                (WriterState::Flushing, WriterAction::Flush)
            } else {
                (WriterState::Appending, WriterAction::Write(processed.concat("\r\n")))
            }
        },
        (WriterState::Receiving, WriterEvent::Closed) => (
            WriterState::Flushing,
            WriterAction::Flush,
        ),
        (WriterState::Appending, WriterEvent::Done) => (
            WriterState::Receiving,
            WriterAction::Receive,
        ),
        (WriterState::Appending, WriterEvent::Failed(cause)) => (
            WriterState::Quitting { error: append_error(output_file, cause.as_str()) },
            WriterAction::SignalQuit,
        ),
        (WriterState::Flushing, WriterEvent::Done) => (WriterState::Stopped, WriterAction::Succeed),
        (WriterState::Flushing, WriterEvent::Failed(cause)) => (
            WriterState::Quitting { error: append_error(output_file, cause.as_str()) },
            WriterAction::SignalQuit,
        ),
        (WriterState::Quitting { error }, WriterEvent::Done) => (
            WriterState::Stopped,
            WriterAction::Fail(error),
        ),
        (WriterState::Quitting { error }, WriterEvent::Failed(cause)) => (
            WriterState::Stopped,
            WriterAction::Fail(error),
        ),
        (state, _) => (state, WriterAction::Idle),
    }
}

/// Takes one step of the writer of `output_file`.
///
/// The path at which the stage creates its file is `output_file` with a
/// leading home-directory shorthand resolved; from there on the step is that
/// of `writer_step`.
pub fn write_entries(output_file: &str, state: WriterState, event: WriterEvent) -> (r: (
    WriterState,
    WriterAction,
))
    ensures
        exists|path: Seq<char>|
            is_tilde_expansion(output_file@, path) && (r.0@, r.1@) == #[trigger] writer_step(
                output_file@,
                path,
                state@,
                event@,
            ),
        !(state@ is Start && event@ is Begin) ==> (r.0@, r.1@) == writer_step(
            output_file@,
            output_file@,
            state@,
            event@,
        ),
        !has_home_prefix(output_file@) ==> (r.0@, r.1@) == writer_step(
            output_file@,
            output_file@,
            state@,
            event@,
        ),
{
    let begins = match (&state, &event) {
        (WriterState::Start, WriterEvent::Begin) => true,
        _ => false,
    };
    proof {
        lemma_unexpanded(output_file@);
    }
    if begins {
        let path = expand_tilde(output_file);
        writer_transition(output_file, path.as_str(), state, event)
    } else {
        writer_transition(output_file, output_file, state, event)
    }
}

} // verus!
