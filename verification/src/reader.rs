//! The reader: which lines are playlist entries, how much of the file's head
//! is skipped, and the decisions taken between two reads.
use crate::error::{Error, ErrorKind, ErrorView};
use crate::home::{expand_tilde, has_home_prefix, is_tilde_expansion, lemma_unexpanded};
use crate::phase::Phase;
use vstd::prelude::*;

verus! {

/// A line is an entry when it is not empty and does not begin with `#`.
pub open spec fn is_entry_text(line: Seq<char>) -> bool {
    line.len() > 0 && line[0] != '#'
}

/// Tells whether `line` is a playlist entry: blank lines and comments are not.
pub fn is_entry(line: &str) -> (b: bool)
    ensures
        b == is_entry_text(line@),
{
    !line.is_empty() && line.get_char(0) != '#'
}

/// The byte-order marks that can be told apart at the head of a file.
#[derive(Debug, Clone, Copy, PartialEq, Eq, Structural)]
pub enum BomKind {
    Null,
    Bocu1,
    Gb18030,
    Scsu,
    UtfEbcdic,
    Utf1,
    Utf7,
    Utf8,
    Utf16Be,
    Utf16Le,
    Utf32Be,
    Utf32Le,
}

/// The three bytes of the UTF-8 byte-order mark.
pub open spec fn utf8_mark() -> Seq<u8> {
    seq![0xefu8, 0xbbu8, 0xbfu8]
}

/// The mark that `head` begins with. The UTF-7 mark needs a fourth byte out
/// of four; the little-endian UTF-32 mark wins over the UTF-16 mark that it
/// begins with.
pub open spec fn bom_of(head: Seq<u8>) -> BomKind {
    if seq![0u8, 0u8, 0xfeu8, 0xffu8].is_prefix_of(head) {
        BomKind::Utf32Be
    } else if seq![0x0eu8, 0xfeu8, 0xffu8].is_prefix_of(head) {
        BomKind::Scsu
    } else if seq![0x2bu8, 0x2fu8, 0x76u8].is_prefix_of(head) && head.len() >= 4 && (head[3]
        == 0x38 || head[3] == 0x39 || head[3] == 0x2b || head[3] == 0x2f) {
        BomKind::Utf7
    } else if seq![0x84u8, 0x31u8, 0x95u8, 0x33u8].is_prefix_of(head) {
        BomKind::Gb18030
    } else if seq![0xddu8, 0x73u8, 0x66u8, 0x73u8].is_prefix_of(head) {
        BomKind::UtfEbcdic
    } else if utf8_mark().is_prefix_of(head) {
        BomKind::Utf8
    } else if seq![0xf7u8, 0x64u8, 0x4cu8].is_prefix_of(head) {
        BomKind::Utf1
    } else if seq![0xfbu8, 0xeeu8, 0x28u8].is_prefix_of(head) {
        BomKind::Bocu1
    } else if seq![0xfeu8, 0xffu8].is_prefix_of(head) {
        BomKind::Utf16Be
    } else if seq![0xffu8, 0xfeu8, 0u8, 0u8].is_prefix_of(head) {
        BomKind::Utf32Le
    } else if seq![0xffu8, 0xfeu8].is_prefix_of(head) {
        BomKind::Utf16Le
    } else {
        BomKind::Null
    }
}

/// Calls `unicode_bom::Bom::from` on a byte slice and names the variant it
/// returns. Trusted: the mark found is the one whose bytes `head` begins
/// with, as `bom_of` lists them.
#[verifier::external_body]
fn detect_bom(head: &[u8]) -> (kind: BomKind)
    ensures
        kind == bom_of(head@),
{
    match unicode_bom::Bom::from(head) {
        unicode_bom::Bom::Null => BomKind::Null,
        unicode_bom::Bom::Bocu1 => BomKind::Bocu1,
        unicode_bom::Bom::Gb18030 => BomKind::Gb18030,
        unicode_bom::Bom::Scsu => BomKind::Scsu,
        unicode_bom::Bom::UtfEbcdic => BomKind::UtfEbcdic,
        unicode_bom::Bom::Utf1 => BomKind::Utf1,
        unicode_bom::Bom::Utf7 => BomKind::Utf7,
        unicode_bom::Bom::Utf8 => BomKind::Utf8,
        unicode_bom::Bom::Utf16Be => BomKind::Utf16Be,
        unicode_bom::Bom::Utf16Le => BomKind::Utf16Le,
        unicode_bom::Bom::Utf32Be => BomKind::Utf32Be,
        unicode_bom::Bom::Utf32Le => BomKind::Utf32Le,
    }
}

/// Finds the byte-order mark that `head`, the first bytes of a file, begins
/// with.
pub fn bom_kind(head: &[u8]) -> (kind: BomKind)
    ensures
        kind == bom_of(head@),
{
    detect_bom(head)
}

/// How many bytes of a file's head decide its mark: no mark is longer.
pub const BOM_HEAD_LEN: usize = 4;

/// The mark of a file is decided by its first `BOM_HEAD_LEN` bytes: a head
/// cut to that length, or to any greater one, has the mark of the whole.
pub proof fn lemma_head_decides_the_mark(head: Seq<u8>, n: int)
    requires
        BOM_HEAD_LEN <= n <= head.len(),
    ensures
        bom_of(head.take(n)) == bom_of(head),
        leading_skip_of(head.take(n)) == leading_skip_of(head),
{
    let cut = head.take(n);
    assert(forall|mark: Seq<u8>| #![trigger mark.is_prefix_of(cut)]
        mark.len() <= 4 ==> (mark.is_prefix_of(cut) <==> mark.is_prefix_of(head))) by {
        assert forall|mark: Seq<u8>| mark.len() <= 4 implies (#[trigger] mark.is_prefix_of(cut)
            <==> mark.is_prefix_of(head)) by {
            assert(cut.subrange(0, mark.len() as int) =~= head.subrange(0, mark.len() as int));
        }
    }
    assert(cut[3] == head[3]);
}

/// The number of bytes to pass over before the first line: the length of the
/// UTF-8 mark where the file begins with it, and nothing otherwise.
pub open spec fn leading_skip_of(head: Seq<u8>) -> nat {
    if utf8_mark().is_prefix_of(head) {
        3
    } else {
        0
    }
}

/// Says how many bytes of a file that begins with `head` come before its
/// first line.
pub fn leading_skip(head: &[u8]) -> (n: usize)
    ensures
        n == leading_skip_of(head@),
{
    match bom_kind(head) {
        BomKind::Utf8 => 3,
        _ => 0,
    }
}

/// Where the reader stands.
#[derive(Debug, Clone, PartialEq, Eq)]
pub enum ReaderState {
    /// Nothing was asked of the stage yet.
    Start,
    /// The input file at `path` is being opened.
    Opening { path: String },
    /// The byte-order mark is being passed over.
    Skipping,
    /// The next line is being read.
    Reading,
    /// The quit signal is polled before `line` is sent.
    Polling { line: String },
    /// An entry is being sent.
    Sending,
    /// The input is exhausted; the quit signal is polled before the end
    /// marker is sent.
    Draining,
    /// The end marker is being sent.
    Ending,
    /// The stage has ended.
    Stopped,
}

/// What happened since the last action.
#[derive(Debug, Clone, PartialEq, Eq)]
pub enum ReaderEvent {
    /// The stage is started.
    Begin,
    /// The file is open and begins with these bytes.
    Opened { head: Vec<u8> },
    /// The last action was carried out.
    Done,
    /// A line was read, given without its line terminator.
    Line(String),
    /// The input holds no further line.
    EndOfInput,
    /// The quit signal was polled: whether a quit is pending.
    QuitPending(bool),
    /// The last action failed, for the reason given.
    Failed(String),
}

/// What the reader asks for next.
#[derive(Debug, Clone, PartialEq, Eq)]
pub enum ReaderAction {
    /// Open the file at this path and report its first bytes: as many as
    /// `BOM_HEAD_LEN` where the file holds that many, else all of them.
    Open(String),
    /// Pass over this many bytes of the file.
    Skip(usize),
    /// Read the next line.
    ReadLine,
    /// Poll the quit signal of the task processor.
    PollQuit,
    /// Send this entry to the task processor.
    Send(String),
    /// Send the end marker to the task processor.
    SendEnd,
    /// End the stage with success.
    Succeed,
    /// End the stage with this error.
    Fail(Error),
    /// Nothing: the event called for no action.
    Idle,
}

/// A state of the reader, with its texts as sequences of characters.
pub enum ReaderStateView {
    Start,
    Opening { path: Seq<char> },
    Skipping,
    Reading,
    Polling { line: Seq<char> },
    Sending,
    Draining,
    Ending,
    Stopped,
}

/// An event of the reader, with its texts as sequences of characters.
pub enum ReaderEventView {
    Begin,
    Opened { head: Seq<u8> },
    Done,
    Line(Seq<char>),
    EndOfInput,
    QuitPending(bool),
    Failed(Seq<char>),
}

/// An action of the reader, with its texts as sequences of characters.
pub enum ReaderActionView {
    Open(Seq<char>),
    Skip(nat),
    ReadLine,
    PollQuit,
    Send(Seq<char>),
    SendEnd,
    Succeed,
    Fail(ErrorView),
    Idle,
}

impl View for ReaderState {
    type V = ReaderStateView;

    open spec fn view(&self) -> ReaderStateView {
        match self {
            ReaderState::Start => ReaderStateView::Start,
            ReaderState::Opening { path } => ReaderStateView::Opening { path: path@ },
            ReaderState::Skipping => ReaderStateView::Skipping,
            ReaderState::Reading => ReaderStateView::Reading,
            ReaderState::Polling { line } => ReaderStateView::Polling { line: line@ },
            ReaderState::Sending => ReaderStateView::Sending,
            ReaderState::Draining => ReaderStateView::Draining,
            ReaderState::Ending => ReaderStateView::Ending,
            ReaderState::Stopped => ReaderStateView::Stopped,
        }
    }
}

impl View for ReaderEvent {
    type V = ReaderEventView;

    open spec fn view(&self) -> ReaderEventView {
        match self {
            ReaderEvent::Begin => ReaderEventView::Begin,
            ReaderEvent::Opened { head } => ReaderEventView::Opened { head: head@ },
            ReaderEvent::Done => ReaderEventView::Done,
            ReaderEvent::Line(line) => ReaderEventView::Line(line@),
            ReaderEvent::EndOfInput => ReaderEventView::EndOfInput,
            ReaderEvent::QuitPending(pending) => ReaderEventView::QuitPending(*pending),
            ReaderEvent::Failed(cause) => ReaderEventView::Failed(cause@),
        }
    }
}

impl View for ReaderAction {
    type V = ReaderActionView;

    open spec fn view(&self) -> ReaderActionView {
        match self {
            ReaderAction::Open(path) => ReaderActionView::Open(path@),
            ReaderAction::Skip(n) => ReaderActionView::Skip(*n as nat),
            ReaderAction::ReadLine => ReaderActionView::ReadLine,
            ReaderAction::PollQuit => ReaderActionView::PollQuit,
            ReaderAction::Send(line) => ReaderActionView::Send(line@),
            ReaderAction::SendEnd => ReaderActionView::SendEnd,
            ReaderAction::Succeed => ReaderActionView::Succeed,
            ReaderAction::Fail(error) => ReaderActionView::Fail(error@),
            ReaderAction::Idle => ReaderActionView::Idle,
        }
    }
}

impl ReaderStateView {
    /// The phase of the life cycle that a state belongs to.
    pub open spec fn phase(self) -> Phase {
        match self {
            ReaderStateView::Stopped => Phase::Stopped,
            ReaderStateView::Draining => Phase::Draining,
            ReaderStateView::Ending => Phase::Draining,
            _ => Phase::Running,
        }
    }
}

/// The error reported when the input file at `path` cannot be opened.
pub open spec fn open_failure(path: Seq<char>, cause: Seq<char>) -> ErrorView {
    ErrorView {
        kind: ErrorKind::IoOpen,
        message: "failed to open the input file '"@ + path + "': "@ + cause,
    }
}

/// The error reported when the input file cannot be read.
pub open spec fn read_failure(cause: Seq<char>) -> ErrorView {
    ErrorView { kind: ErrorKind::IoRead, message: "failed to read the input file: "@ + cause }
}

/// The error reported when an entry, or the end marker, cannot be sent on.
pub open spec fn send_failure(cause: Seq<char>) -> ErrorView {
    ErrorView {
        kind: ErrorKind::ChannelClosed,
        message: "failed to send the task to the task processor: "@ + cause,
    }
}

/// The reader's transition: the state after `event` and the action to
/// perform next; `path` is the path that the stage opens.
///
/// The file is opened and a UTF-8 byte-order mark at its head passed over.
/// Each line that is an entry is sent, after a poll of the quit signal; a
/// pending quit ends the stage at once, without end marker. When the input
/// is exhausted, the signal is polled once more and the end marker sent
/// unless a quit is pending. A failure to open, skip or read, or to send an
/// entry or the end marker, ends the stage with an error. An event that does
/// not answer the pending action changes nothing.
pub open spec fn reader_step(path: Seq<char>, state: ReaderStateView, event: ReaderEventView) -> (
    ReaderStateView,
    ReaderActionView,
) {
    match (state, event) {
        (ReaderStateView::Start, ReaderEventView::Begin) => (
            ReaderStateView::Opening { path },
            ReaderActionView::Open(path),
        ),
        (ReaderStateView::Opening { path: opened }, ReaderEventView::Opened { head }) => {
            if leading_skip_of(head) > 0 {
                (ReaderStateView::Skipping, ReaderActionView::Skip(leading_skip_of(head)))
            } else {
                (ReaderStateView::Reading, ReaderActionView::ReadLine)
            }
        },
        (ReaderStateView::Opening { path: opened }, ReaderEventView::Failed(cause)) => (
            ReaderStateView::Stopped,
            ReaderActionView::Fail(open_failure(opened, cause)),
        ),
        (ReaderStateView::Skipping, ReaderEventView::Done) => (
            ReaderStateView::Reading,
            ReaderActionView::ReadLine,
        ),
        (ReaderStateView::Skipping, ReaderEventView::Failed(cause)) => (
            ReaderStateView::Stopped,
            ReaderActionView::Fail(read_failure(cause)),
        ),
        (ReaderStateView::Reading, ReaderEventView::Line(line)) => {
            if is_entry_text(line) {
                (ReaderStateView::Polling { line }, ReaderActionView::PollQuit)
            } else {
                (ReaderStateView::Reading, ReaderActionView::ReadLine)
            }
        },
        (ReaderStateView::Reading, ReaderEventView::EndOfInput) => (
            ReaderStateView::Draining,
            ReaderActionView::PollQuit,
        ),
        (ReaderStateView::Reading, ReaderEventView::Failed(cause)) => (
            ReaderStateView::Stopped,
            ReaderActionView::Fail(read_failure(cause)),
        ),
        (ReaderStateView::Polling { line }, ReaderEventView::QuitPending(pending)) => {
            if pending {
                (ReaderStateView::Stopped, ReaderActionView::Succeed)
            } else {
                (ReaderStateView::Sending, ReaderActionView::Send(line))
            }
        },
        (ReaderStateView::Sending, ReaderEventView::Done) => (
            ReaderStateView::Reading,
            ReaderActionView::ReadLine,
        ),
        (ReaderStateView::Sending, ReaderEventView::Failed(cause)) => (
            ReaderStateView::Stopped,
            ReaderActionView::Fail(send_failure(cause)),
        ),
        (ReaderStateView::Draining, ReaderEventView::QuitPending(pending)) => {
            if pending {
                (ReaderStateView::Stopped, ReaderActionView::Succeed)
            } else {
                (ReaderStateView::Ending, ReaderActionView::SendEnd)
            }
        },
        (ReaderStateView::Ending, ReaderEventView::Done) => (
            ReaderStateView::Stopped,
            ReaderActionView::Succeed,
        ),
        (ReaderStateView::Ending, ReaderEventView::Failed(cause)) => (
            ReaderStateView::Stopped,
            ReaderActionView::Fail(send_failure(cause)),
        ),
        (state, _) => (state, ReaderActionView::Idle),
    }
}

/// What the reader does from its start over a sequence of events: the state
/// it reaches and the actions it asked for, one for each event.
pub open spec fn reader_run(path: Seq<char>, events: Seq<ReaderEventView>) -> (
    ReaderStateView,
    Seq<ReaderActionView>,
)
    decreases events.len(),
{
    if events.len() == 0 {
        (ReaderStateView::Start, Seq::empty())
    } else {
        let before = reader_run(path, events.drop_last());
        let step = reader_step(path, before.0, events.last());
        (step.0, before.1.push(step.1))
    }
}

/// The reader never goes back in its life cycle, and does nothing once it is
/// stopped.
pub proof fn lemma_reader_never_resumes(
    path: Seq<char>,
    state: ReaderStateView,
    event: ReaderEventView,
)
    ensures
        state.phase().rank() <= reader_step(path, state, event).0.phase().rank(),
        state is Stopped ==> reader_step(path, state, event) == (
            ReaderStateView::Stopped,
            ReaderActionView::Idle,
        ),
        reader_step(path, state, event).1 is Send ==> state.phase() == Phase::Running,
{
}

/// No failure is passed over: a failure to open, skip or read, or to send
/// an entry or the end marker, ends the stage at once with an error. Only
/// where the stage waits for no action that can fail is a failure event left
/// unanswered, and none ends in success.
pub proof fn lemma_reader_failures_end_the_stage(
    path: Seq<char>,
    state: ReaderStateView,
    cause: Seq<char>,
)
    ensures
        state is Opening || state is Skipping || state is Reading || state is Sending
            || state is Ending ==> reader_step(path, state, ReaderEventView::Failed(cause)).0
            is Stopped && reader_step(path, state, ReaderEventView::Failed(cause)).1 is Fail,
        state is Sending || state is Ending ==> reader_step(
            path,
            state,
            ReaderEventView::Failed(cause),
        ).1 == ReaderActionView::Fail(send_failure(cause)),
        reader_step(path, state, ReaderEventView::Failed(cause)).1 is Idle <==> state is Start
            || state is Polling || state is Draining || state is Stopped,
        !(reader_step(path, state, ReaderEventView::Failed(cause)).1 is Succeed),
{
}

/// Whatever the events, the reader sends nothing but entries: each line it
/// sends was read before, is not empty and does not begin with `#`.
pub proof fn lemma_reader_sends_entries_only(path: Seq<char>, events: Seq<ReaderEventView>)
    ensures
        forall|i: int|
            0 <= i < events.len() ==> (#[trigger] reader_run(path, events).1[i] matches ReaderActionView::Send(
                line,
            ) ==> is_entry_text(line) && events.contains(ReaderEventView::Line(line))),
        reader_run(path, events).1.len() == events.len(),
        reader_run(path, events).0 matches ReaderStateView::Polling { line } ==> is_entry_text(line)
            && events.contains(ReaderEventView::Line(line)),
    decreases events.len(),
{
    if events.len() > 0 {
        let front = events.drop_last();
        lemma_reader_sends_entries_only(path, front);
        let before = reader_run(path, front);
        let after = reader_run(path, events);
        assert forall|line: Seq<char>| front.contains(ReaderEventView::Line(line)) implies events.contains(
            ReaderEventView::Line(line),
        ) by {
            let j = choose|j: int| 0 <= j < front.len() && front[j] == ReaderEventView::Line(line);
            assert(events[j] == ReaderEventView::Line(line));
        }
        assert(events[events.len() - 1] == events.last());
        assert forall|i: int| 0 <= i < events.len() implies (#[trigger] after.1[i] matches ReaderActionView::Send(
            line,
        ) ==> is_entry_text(line) && events.contains(ReaderEventView::Line(line))) by {
            if i < front.len() {
                assert(after.1[i] == before.1[i]);
            }
        }
    }
}

fn send_error(cause: &str) -> (error: Error)
    ensures
        error@ == send_failure(cause@),
{
    Error::new(
        ErrorKind::ChannelClosed,
        String::from_str("failed to send the task to the task processor: ").concat(cause),
    )
}

/// Takes one step of the reader, given the path that the stage opens.
pub fn reader_transition(path: &str, state: ReaderState, event: ReaderEvent) -> (r: (
    ReaderState,
    ReaderAction,
))
    ensures
        (r.0@, r.1@) == reader_step(path@, state@, event@),
{
    match (state, event) {
        (ReaderState::Start, ReaderEvent::Begin) => {
            (
                ReaderState::Opening { path: String::from_str(path) },
                ReaderAction::Open(String::from_str(path)),
            )
        },
        (ReaderState::Opening { path: opened }, ReaderEvent::Opened { head }) => {
            let skip: usize = leading_skip(head.as_slice());
            if skip > 0 {
                (ReaderState::Skipping, ReaderAction::Skip(skip))
            } else {
                (ReaderState::Reading, ReaderAction::ReadLine)
            }
        },
        (ReaderState::Opening { path: opened }, ReaderEvent::Failed(cause)) => {
            let message = String::from_str("failed to open the input file '").concat(
                opened.as_str(),
            ).concat("': ").concat(cause.as_str());
            (ReaderState::Stopped, ReaderAction::Fail(Error::new(ErrorKind::IoOpen, message)))
        },
        (ReaderState::Skipping, ReaderEvent::Done) => (
            ReaderState::Reading,
            ReaderAction::ReadLine,
        ),
        (ReaderState::Skipping, ReaderEvent::Failed(cause)) => {
            let message = String::from_str("failed to read the input file: ").concat(
                cause.as_str(),
            );
            (ReaderState::Stopped, ReaderAction::Fail(Error::new(ErrorKind::IoRead, message)))
        },
        (ReaderState::Reading, ReaderEvent::Line(line)) => {
            if is_entry(line.as_str()) {
                (ReaderState::Polling { line }, ReaderAction::PollQuit)
            } else {
                (ReaderState::Reading, ReaderAction::ReadLine)
            }
        },
        (ReaderState::Reading, ReaderEvent::EndOfInput) => (
            ReaderState::Draining,
            ReaderAction::PollQuit,
        ),
        (ReaderState::Reading, ReaderEvent::Failed(cause)) => {
            let message = String::from_str("failed to read the input file: ").concat(
                cause.as_str(),
            );
            (ReaderState::Stopped, ReaderAction::Fail(Error::new(ErrorKind::IoRead, message)))
        },
        (ReaderState::Polling { line }, ReaderEvent::QuitPending(pending)) => {
            if pending {
                (ReaderState::Stopped, ReaderAction::Succeed)
            } else {
                (ReaderState::Sending, ReaderAction::Send(line))
            }
        },
        (ReaderState::Sending, ReaderEvent::Done) => (
            ReaderState::Reading,
            ReaderAction::ReadLine,
        ),
        (ReaderState::Sending, ReaderEvent::Failed(cause)) => (
            ReaderState::Stopped,
            ReaderAction::Fail(send_error(cause.as_str())),
        ),
        (ReaderState::Draining, ReaderEvent::QuitPending(pending)) => {
            if pending {
                (ReaderState::Stopped, ReaderAction::Succeed)
            } else {
                (ReaderState::Ending, ReaderAction::SendEnd)
            }
        },
        (ReaderState::Ending, ReaderEvent::Done) => (ReaderState::Stopped, ReaderAction::Succeed),
        (ReaderState::Ending, ReaderEvent::Failed(cause)) => (
            ReaderState::Stopped,
            ReaderAction::Fail(send_error(cause.as_str())),
        ),
        (state, _) => (state, ReaderAction::Idle),
    }
}

/// Takes one step of the reader of `input_file`.
///
/// The path that the stage opens is `input_file` with a leading
/// home-directory shorthand resolved; from there on the step is that of
/// `reader_step`.
pub fn read_entries(input_file: &str, state: ReaderState, event: ReaderEvent) -> (r: (
    ReaderState,
    ReaderAction,
))
    ensures
        exists|path: Seq<char>|
            is_tilde_expansion(input_file@, path) && (r.0@, r.1@) == #[trigger] reader_step(
                path,
                state@,
                event@,
            ),
        !(state@ is Start && event@ is Begin) ==> (r.0@, r.1@) == reader_step(
            input_file@,
            state@,
            event@,
        ),
        !has_home_prefix(input_file@) ==> (r.0@, r.1@) == reader_step(
            input_file@,
            state@,
            event@,
        ),
{
    let begins = match (&state, &event) {
        (ReaderState::Start, ReaderEvent::Begin) => true,
        _ => false,
    };
    proof {
        lemma_unexpanded(input_file@);
    }
    if begins {
        let path = expand_tilde(input_file);
        reader_transition(path.as_str(), state, event)
    } else {
        reader_transition(input_file, state, event)
    }
}

} // verus!
