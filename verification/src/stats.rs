//! The statistics collector: what is printed at once, what is kept for the
//! closing summary, and when the stage ends.
use crate::error::{Error, ErrorKind, ErrorView};
use vstd::prelude::*;

verus! {

/// A diagnostic sent by the task processor.
#[derive(Debug, Clone, PartialEq, Eq)]
pub enum Stat {
    /// The entry does not exist at the path the playlist gives.
    OriginalPathNotFound(String),
    /// The path written in place of a missing entry does not exist either.
    SubstitutionNotFound(String),
    /// No diagnostic follows.
    End,
}

/// A diagnostic, with its path as a sequence of characters.
pub enum StatView {
    OriginalPathNotFound(Seq<char>),
    SubstitutionNotFound(Seq<char>),
    End,
}

impl View for Stat {
    type V = StatView;

    open spec fn view(&self) -> StatView {
        match self {
            Stat::OriginalPathNotFound(p) => StatView::OriginalPathNotFound(p@),
            Stat::SubstitutionNotFound(p) => StatView::SubstitutionNotFound(p@),
            Stat::End => StatView::End,
        }
    }
}

/// The texts of a sequence of strings.
pub open spec fn texts(v: Seq<String>) -> Seq<Seq<char>> {
    Seq::new(v.len(), |i: int| v[i]@)
}

/// The character that writes the digit `d`.
pub open spec fn digit_char(d: nat) -> char {
    if d == 0 {
        '0'
    } else if d == 1 {
        '1'
    } else if d == 2 {
        '2'
    } else if d == 3 {
        '3'
    } else if d == 4 {
        '4'
    } else if d == 5 {
        '5'
    } else if d == 6 {
        '6'
    } else if d == 7 {
        '7'
    } else if d == 8 {
        '8'
    } else {
        '9'
    }
}

/// `n` written in base ten, without leading zeros.
pub open spec fn decimal(n: nat) -> Seq<char>
    decreases n,
{
    if n < 10 {
        seq![digit_char(n)]
    } else {
        decimal(n / 10).push(digit_char(n % 10))
    }
}

/// The line that introduces the closing summary of `count` paths.
pub open spec fn summary_header(count: nat) -> Seq<char> {
    "\nAttention: the following "@ + decimal(count) + " substituted paths don't exist."@
}

/// The closing summary: nothing when no substituted path is missing, else the
/// header followed by the missing paths in the order in which they came.
pub open spec fn summary_lines(missing: Seq<Seq<char>>) -> Seq<Seq<char>> {
    if missing.len() == 0 {
        Seq::empty()
    } else {
        seq![summary_header(missing.len())] + missing
    }
}

fn digit_str(d: usize) -> (r: &'static str)
    requires
        d < 10,
    ensures
        r@ == seq![digit_char(d as nat)],
{
    let r = if d == 0 {
        "0"
    } else if d == 1 {
        "1"
    } else if d == 2 {
        "2"
    } else if d == 3 {
        "3"
    } else if d == 4 {
        "4"
    } else if d == 5 {
        "5"
    } else if d == 6 {
        "6"
    } else if d == 7 {
        "7"
    } else if d == 8 {
        "8"
    } else {
        "9"
    };
    proof {
        reveal_strlit("0");
        reveal_strlit("1");
        reveal_strlit("2");
        reveal_strlit("3");
        reveal_strlit("4");
        reveal_strlit("5");
        reveal_strlit("6");
        reveal_strlit("7");
        reveal_strlit("8");
        reveal_strlit("9");
        assert(r@ =~= seq![digit_char(d as nat)]);
    }
    r
}

/// Writes `n` in base ten.
pub fn decimal_string(n: usize) -> (r: String)
    ensures
        r@ == decimal(n as nat),
    decreases n,
{
    if n < 10 {
        String::from_str(digit_str(n))
    } else {
        let r = decimal_string(n / 10).concat(digit_str(n % 10));
        assert(r@ =~= decimal(n as nat));
        r
    }
}

/// Builds the closing summary for the missing substituted paths in `missing`.
pub fn summary(missing: Vec<String>) -> (lines: Vec<String>)
    ensures
        texts(lines@) == summary_lines(texts(missing@)),
{
    let mut lines: Vec<String> = Vec::new();
    let count: usize = missing.len();
    if count == 0 {
        assert(texts(lines@) =~= summary_lines(texts(missing@)));
        return lines;
    }
    let header = String::from_str("\nAttention: the following ").concat(
        decimal_string(count).as_str(),
    ).concat(" substituted paths don't exist.");
    lines.push(header);
    let ghost first = lines@;
    let mut missing = missing;
    let ghost all = missing@;
    lines.append(&mut missing);
    assert(texts(lines@) =~= summary_lines(texts(all))) by {
        assert(lines@ =~= first + all);
    }
    lines
}

/// Where the collector stands.
#[derive(Debug, Clone, PartialEq, Eq)]
pub enum StatsState {
    /// Nothing was asked of the stage yet.
    Start,
    /// Waiting for the next diagnostic; `missing` holds the substituted paths
    /// reported missing so far.
    Collecting { missing: Vec<String> },
    /// A missing original path is being printed.
    Printing { missing: Vec<String> },
    /// The closing summary is being printed.
    Reporting,
    /// The stage has ended.
    Stopped,
}

/// What happened since the last action.
#[derive(Debug, Clone, PartialEq, Eq)]
pub enum StatsEvent {
    /// The stage is started.
    Begin,
    /// A diagnostic arrived.
    Received(Stat),
    /// The channel was closed without a closing diagnostic.
    Closed,
    /// The last action was carried out.
    Done,
    /// The last action failed, for the reason given.
    Failed(String),
}

/// What the collector asks for next.
#[derive(Debug, Clone, PartialEq, Eq)]
pub enum StatsAction {
    /// Wait for the next diagnostic.
    Receive,
    /// Print this path on a line of its own.
    Print(String),
    /// Print each of these lines.
    Report(Vec<String>),
    /// End the stage with success.
    Succeed,
    /// End the stage with this error.
    Fail(Error),
    /// Nothing: the event called for no action.
    Idle,
}

/// A state of the collector, with its paths as sequences of characters.
pub enum StatsStateView {
    Start,
    Collecting { missing: Seq<Seq<char>> },
    Printing { missing: Seq<Seq<char>> },
    Reporting,
    Stopped,
}

/// An event of the collector, with its paths as sequences of characters.
pub enum StatsEventView {
    Begin,
    Received(StatView),
    Closed,
    Done,
    Failed(Seq<char>),
}

/// An action of the collector, with its lines as sequences of characters.
pub enum StatsActionView {
    Receive,
    Print(Seq<char>),
    Report(Seq<Seq<char>>),
    Succeed,
    Fail(ErrorView),
    Idle,
}

impl View for StatsState {
    type V = StatsStateView;

    open spec fn view(&self) -> StatsStateView {
        match self {
            StatsState::Start => StatsStateView::Start,
            StatsState::Collecting { missing } => StatsStateView::Collecting {
                missing: texts(missing@),
            },
            StatsState::Printing { missing } => StatsStateView::Printing {
                missing: texts(missing@),
            },
            StatsState::Reporting => StatsStateView::Reporting,
            StatsState::Stopped => StatsStateView::Stopped,
        }
    }
}

impl View for StatsEvent {
    type V = StatsEventView;

    open spec fn view(&self) -> StatsEventView {
        match self {
            StatsEvent::Begin => StatsEventView::Begin,
            StatsEvent::Received(stat) => StatsEventView::Received(stat@),
            StatsEvent::Closed => StatsEventView::Closed,
            StatsEvent::Done => StatsEventView::Done,
            StatsEvent::Failed(cause) => StatsEventView::Failed(cause@),
        }
    }
}

impl View for StatsAction {
    type V = StatsActionView;

    open spec fn view(&self) -> StatsActionView {
        match self {
            StatsAction::Receive => StatsActionView::Receive,
            StatsAction::Print(line) => StatsActionView::Print(line@),
            StatsAction::Report(lines) => StatsActionView::Report(texts(lines@)),
            StatsAction::Succeed => StatsActionView::Succeed,
            StatsAction::Fail(error) => StatsActionView::Fail(error@),
            StatsAction::Idle => StatsActionView::Idle,
        }
    }
}

/// The error reported when a line cannot be printed.
pub open spec fn print_failure(cause: Seq<char>) -> ErrorView {
    ErrorView { kind: ErrorKind::IoWrite, message: "failed to print the statistics: "@ + cause }
}

/// The collector's transition: the state after `event` and the action to
/// perform next.
///
/// A missing original path is printed as soon as it is reported. A missing
/// substituted path is kept. The closing diagnostic, or a closed channel,
/// ends the stage, after the summary where any substituted path was missing.
/// A failure to print ends the stage with an error. An event that does not
/// answer the pending action changes nothing.
pub open spec fn stats_step(state: StatsStateView, event: StatsEventView) -> (
    StatsStateView,
    StatsActionView,
) {
    match (state, event) {
        (StatsStateView::Start, StatsEventView::Begin) => (
            StatsStateView::Collecting { missing: Seq::empty() },
            StatsActionView::Receive,
        ),
        (
            StatsStateView::Collecting { missing },
            StatsEventView::Received(StatView::OriginalPathNotFound(path)),
        ) => (StatsStateView::Printing { missing }, StatsActionView::Print(path)),
        (
            StatsStateView::Collecting { missing },
            StatsEventView::Received(StatView::SubstitutionNotFound(path)),
        ) => (StatsStateView::Collecting { missing: missing.push(path) }, StatsActionView::Receive),
        (StatsStateView::Collecting { missing }, StatsEventView::Received(StatView::End)) => {
            if missing.len() == 0 {
                (StatsStateView::Stopped, StatsActionView::Succeed)
            } else {
                (StatsStateView::Reporting, StatsActionView::Report(summary_lines(missing)))
            }
        },
        (StatsStateView::Collecting { missing }, StatsEventView::Closed) => {
            if missing.len() == 0 {
                (StatsStateView::Stopped, StatsActionView::Succeed)
            } else {
                (StatsStateView::Reporting, StatsActionView::Report(summary_lines(missing)))
            }
        },
        (StatsStateView::Printing { missing }, StatsEventView::Done) => (
            StatsStateView::Collecting { missing },
            StatsActionView::Receive,
        ),
        (StatsStateView::Printing { missing }, StatsEventView::Failed(cause)) => (
            StatsStateView::Stopped,
            StatsActionView::Fail(print_failure(cause)),
        ),
        (StatsStateView::Reporting, StatsEventView::Done) => (
            StatsStateView::Stopped,
            StatsActionView::Succeed,
        ),
        (StatsStateView::Reporting, StatsEventView::Failed(cause)) => (
            StatsStateView::Stopped,
            StatsActionView::Fail(print_failure(cause)),
        ),
        (state, _) => (state, StatsActionView::Idle),
    }
}

/// No failure is passed over: a failure to print a path or the summary ends
/// the stage with an error of the kind for failed writes.
pub proof fn lemma_print_failures_end_the_stage(state: StatsStateView, cause: Seq<char>)
    requires
        state is Printing || state is Reporting,
    ensures
        stats_step(state, StatsEventView::Failed(cause)) == (
            StatsStateView::Stopped,
            StatsActionView::Fail(print_failure(cause)),
        ),
        print_failure(cause).kind == ErrorKind::IoWrite,
{
}

fn print_error(cause: &str) -> (error: Error)
    ensures
        error@ == print_failure(cause@),
{
    Error::new(
        ErrorKind::IoWrite,
        String::from_str("failed to print the statistics: ").concat(cause),
    )
}

/// Takes one step of the statistics collector.
pub fn process_stats(state: StatsState, event: StatsEvent) -> (r: (StatsState, StatsAction))
    ensures
        (r.0@, r.1@) == stats_step(state@, event@),
{
    match (state, event) {
        (StatsState::Start, StatsEvent::Begin) => {
            let missing: Vec<String> = Vec::new();
            assert(texts(missing@) =~= Seq::empty());
            (StatsState::Collecting { missing }, StatsAction::Receive)
        },
        (StatsState::Collecting { missing }, StatsEvent::Received(Stat::OriginalPathNotFound(path))) => {
            (StatsState::Printing { missing }, StatsAction::Print(path))
        },
        (StatsState::Collecting { missing }, StatsEvent::Received(Stat::SubstitutionNotFound(path))) => {
            let mut missing = missing;
            let ghost before = missing@;
            missing.push(path);
            assert(texts(missing@) =~= texts(before).push(path@));
            (StatsState::Collecting { missing }, StatsAction::Receive)
        },
        (StatsState::Collecting { missing }, StatsEvent::Received(Stat::End)) => {
            if missing.len() == 0 {
                (StatsState::Stopped, StatsAction::Succeed)
            } else {
                (StatsState::Reporting, StatsAction::Report(summary(missing)))
            }
        },
        (StatsState::Collecting { missing }, StatsEvent::Closed) => {
            if missing.len() == 0 {
                (StatsState::Stopped, StatsAction::Succeed)
            } else {
                (StatsState::Reporting, StatsAction::Report(summary(missing)))
            }
        },
        (StatsState::Printing { missing }, StatsEvent::Done) => {
            (StatsState::Collecting { missing }, StatsAction::Receive)
        },
        (StatsState::Printing { missing }, StatsEvent::Failed(cause)) => (
            StatsState::Stopped,
            StatsAction::Fail(print_error(cause.as_str())),
        ),
        (StatsState::Reporting, StatsEvent::Done) => (StatsState::Stopped, StatsAction::Succeed),
        (StatsState::Reporting, StatsEvent::Failed(cause)) => (
            StatsState::Stopped,
            StatsAction::Fail(print_error(cause.as_str())),
        ),
        (state, _) => (state, StatsAction::Idle),
    }
}

} // verus!
