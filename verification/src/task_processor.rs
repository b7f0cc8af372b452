//! The task processor: path repair and the decisions taken for each entry.
use crate::error::{Error, ErrorKind, ErrorView};
use crate::phase::Phase;
use crate::stats::{Stat, StatView};
use vstd::prelude::*;

verus! {

/// The position of the last occurrence of `c` in `s`, if it occurs at all.
pub open spec fn last_index_of(s: Seq<char>, c: char) -> Option<int>
    decreases s.len(),
{
    if s.len() == 0 {
        None
    } else if s.last() == c {
        Some(s.len() - 1)
    } else {
        last_index_of(s.drop_last(), c)
    }
}

/// Where the final segment of `path` starts: just after its last `/`, or at
/// the beginning when it has none.
pub open spec fn file_name_start(path: Seq<char>) -> int {
    match last_index_of(path, '/') {
        Some(i) => i + 1,
        None => 0,
    }
}

/// The final segment of `path`: everything after its last `/`.
pub open spec fn file_name(path: Seq<char>) -> Seq<char> {
    path.subrange(file_name_start(path), path.len() as int)
}

/// The position in `path` of the dot that introduces its extension.
///
/// The extension is the part of the final segment after its last dot. A
/// segment without a dot, one whose only dot is its first character, and the
/// segment `..` have no extension.
pub open spec fn extension_dot(path: Seq<char>) -> Option<int> {
    let name = file_name(path);
    if name =~= seq!['.', '.'] {
        None
    } else {
        match last_index_of(name, '.') {
            Some(d) => if d > 0 {
                Some(file_name_start(path) + d)
            } else {
                None
            },
            None => None,
        }
    }
}

/// The extension of `path`, without its dot.
pub open spec fn extension(path: Seq<char>) -> Option<Seq<char>> {
    match extension_dot(path) {
        Some(d) => Some(path.subrange(d + 1, path.len() as int)),
        None => None,
    }
}

/// `path` without its extension and the dot before it; the whole of `path`
/// when it has no extension.
pub open spec fn stem(path: Seq<char>) -> Seq<char> {
    match extension_dot(path) {
        Some(d) => path.subrange(0, d),
        None => path,
    }
}

/// The path tried in place of a missing `path`: its stem followed by `new_ext`.
pub open spec fn repaired_path(path: Seq<char>, new_ext: Seq<char>) -> Seq<char> {
    stem(path) + new_ext
}

/// `last_index_of` finds an occurrence after which there is no other, and
/// finds none only where there is none.
pub proof fn lemma_last_index_of(s: Seq<char>, c: char)
    ensures
        match last_index_of(s, c) {
            Some(i) => 0 <= i < s.len() && s[i] == c && forall|j: int|
                i < j < s.len() ==> s[j] != c,
            None => forall|j: int| 0 <= j < s.len() ==> s[j] != c,
        },
    decreases s.len(),
{
    if s.len() > 0 && s.last() != c {
        let front = s.drop_last();
        lemma_last_index_of(front, c);
        assert(forall|j: int| 0 <= j < front.len() ==> front[j] == s[j]);
    }
}

/// An occurrence of `c` with none after it is the one `last_index_of` finds.
pub proof fn lemma_last_index_of_unique(s: Seq<char>, c: char, i: int)
    requires
        0 <= i < s.len(),
        s[i] == c,
        forall|j: int| i < j < s.len() ==> s[j] != c,
    ensures
        last_index_of(s, c) == Some(i),
{
    lemma_last_index_of(s, c);
}

/// A sequence in which `c` does not occur has no last occurrence of it.
pub proof fn lemma_last_index_of_absent(s: Seq<char>, c: char)
    requires
        forall|j: int| 0 <= j < s.len() ==> s[j] != c,
    ensures
        last_index_of(s, c) is None,
{
    lemma_last_index_of(s, c);
}

/// The last occurrence within a tail of `s` is the last occurrence in `s`,
/// provided that one lies in the tail.
proof fn lemma_last_index_of_tail(s: Seq<char>, c: char, start: int)
    requires
        0 <= start <= s.len(),
    ensures
        last_index_of(s.subrange(start, s.len() as int), c) == match last_index_of(s, c) {
            Some(i) => if i >= start {
                Some(i - start)
            } else {
                None
            },
            None => None,
        },
{
    let tail = s.subrange(start, s.len() as int);
    lemma_last_index_of(s, c);
    match last_index_of(s, c) {
        Some(i) => {
            if i >= start {
                lemma_last_index_of_unique(tail, c, i - start);
            } else {
                lemma_last_index_of_absent(tail, c);
            }
        },
        None => {
            lemma_last_index_of_absent(tail, c);
        },
    }
}

/// Replacing an extension: for a path made of `base`, a dot and `ext`, where
/// `base` does not end in `/`, `ext` holds neither `.` nor `/`, and the final
/// segment is not `..`, the extension is `ext`, the stem is `base`, and the
/// repaired path is `base` followed by the new extension. No character of
/// `base` is looked at beyond that, so this holds of any text.
pub proof fn lemma_repair_replaces_extension(base: Seq<char>, ext: Seq<char>, new_ext: Seq<char>)
    requires
        base.len() > 0,
        base.last() != '/',
        forall|i: int| 0 <= i < ext.len() ==> ext[i] != '.' && ext[i] != '/',
        !(file_name(base) =~= seq!['.'] && ext.len() == 0),
    ensures
        extension(base + seq!['.'] + ext) == Some(ext),
        stem(base + seq!['.'] + ext) == base,
        repaired_path(base + seq!['.'] + ext, new_ext) == base + new_ext,
{
    let path = base + seq!['.'] + ext;
    let n = base.len() as int;
    lemma_last_index_of(base, '/');
    match last_index_of(base, '/') {
        Some(i) => {
            lemma_last_index_of_unique(path, '/', i);
        },
        None => {
            lemma_last_index_of_absent(path, '/');
        },
    }
    let start = file_name_start(path);
    assert(start == file_name_start(base));
    assert(start < n);
    let name = file_name(path);
    assert(name.len() == path.len() - start);
    lemma_last_index_of_unique(name, '.', n - start);
    assert(!(name =~= seq!['.', '.'])) by {
        if name =~= seq!['.', '.'] {
            assert(ext.len() == 0 && start == n - 1);
            assert(file_name(base) =~= seq![name[0]]);
        }
    }
    assert(extension_dot(path) == Some(n));
    assert(path.subrange(0, n) =~= base);
    assert(path.subrange(n + 1, path.len() as int) =~= ext);
}

/// Appending an extension: a path whose final segment holds no dot has no
/// extension, and its repaired path is the whole path followed by the new
/// extension.
pub proof fn lemma_repair_appends_extension(path: Seq<char>, new_ext: Seq<char>)
    requires
        forall|i: int| file_name_start(path) <= i < path.len() ==> path[i] != '.',
    ensures
        extension(path) is None,
        stem(path) == path,
        repaired_path(path, new_ext) == path + new_ext,
{
    lemma_last_index_of(path, '/');
    lemma_last_index_of_absent(file_name(path), '.');
}

/// A path that has an extension is its stem, a dot and the extension; the
/// extension holds neither `.` nor `/`, and the stem keeps at least one
/// character of the final segment.
pub proof fn lemma_extension_splits_path(path: Seq<char>)
    requires
        extension(path) is Some,
    ensures
        path == stem(path) + seq!['.'] + extension(path)->0,
        forall|i: int|
            0 <= i < extension(path)->0.len() ==> (#[trigger] extension(path)->0[i]) != '.'
                && extension(path)->0[i] != '/',
        file_name_start(path) < stem(path).len() < path.len(),
{
    let start = file_name_start(path);
    let name = file_name(path);
    let d = extension_dot(path)->0;
    lemma_last_index_of(path, '/');
    lemma_last_index_of(name, '.');
    assert(path =~= stem(path) + seq!['.'] + extension(path)->0);
    let ext = extension(path)->0;
    assert forall|i: int| 0 <= i < ext.len() implies (#[trigger] ext[i]) != '.' && ext[i]
        != '/' by {
        assert(ext[i] == path[d + 1 + i]);
        assert(ext[i] == name[d + 1 + i - start]);
    }
}

/// Repairing a path with the extension that it already has changes nothing.
pub proof fn lemma_repair_same_extension(path: Seq<char>)
    requires
        extension(path) is Some,
    ensures
        repaired_path(path, seq!['.'] + extension(path)->0) == path,
{
    lemma_extension_splits_path(path);
    assert(stem(path) + (seq!['.'] + extension(path)->0) =~= stem(path) + seq!['.'] + extension(
        path,
    )->0);
}

/// Replaces the extension of `path` by `new_ext`, or appends `new_ext` where
/// `path` has no extension. Text before the extension is kept as it is,
/// whatever characters it holds.
pub fn get_processed_path(path: &str, new_ext: &str) -> (r: String)
    ensures
        r@ == repaired_path(path@, new_ext@),
{
    let n: usize = path.unicode_len();
    let mut slash: Option<usize> = None;
    let mut dot: Option<usize> = None;
    let mut i: usize = 0;
    for c in it: path.chars()
        invariant
            n == path@.len(),
            it.seq() == path@,
            i == it.index(),
            i <= n,
            match slash {
                Some(k) => last_index_of(path@.take(i as int), '/') == Some(k as int),
                None => last_index_of(path@.take(i as int), '/') is None,
            },
            match dot {
                Some(k) => last_index_of(path@.take(i as int), '.') == Some(k as int),
                None => last_index_of(path@.take(i as int), '.') is None,
            },
    {
        assert(path@.take(i + 1).drop_last() =~= path@.take(i as int));
        assert(path@.take(i + 1).last() == c);
        if c == '/' {
            slash = Some(i);
        }
        if c == '.' {
            dot = Some(i);
        }
        i = i + 1;
    }
    assert(path@.take(n as int) =~= path@);
    proof {
        lemma_last_index_of(path@, '/');
    }
    let start: usize = match slash {
        Some(k) => k + 1,
        None => 0,
    };
    proof {
        lemma_last_index_of(path@, '.');
        lemma_last_index_of_tail(path@, '.', start as int);
    }
    let cut: usize = match dot {
        Some(d) => {
            if d <= start {
                n
            } else if n - start == 2 && d == start + 1 && path.get_char(start) == '.' {
                n
            } else {
                d
            }
        },
        None => n,
    };
    proof {
        let name = file_name(path@);
        if name =~= seq!['.', '.'] {
            assert(name[0] == '.' && name[1] == '.');
            lemma_last_index_of_unique(name, '.', 1);
        }
        assert(stem(path@) =~= path@.subrange(0, cut as int));
    }
    String::from_str(path.substring_char(0, cut)).concat(new_ext)
}

/// Where the task processor stands.
#[derive(Debug, Clone, PartialEq, Eq)]
pub enum TaskState {
    /// Nothing was asked of the stage yet.
    Start,
    /// Waiting for the next entry.
    Receiving,
    /// The entry `path` is looked for on disk.
    CheckingOriginal { path: String },
    /// The entry is missing, which is being reported; `processed` goes on.
    ReportingOriginal { processed: String },
    /// The processed path is looked for on disk.
    CheckingProcessed { processed: String },
    /// The processed path is missing, which is being reported.
    ReportingSubstitution { processed: String },
    /// The writer's quit signal is polled before `processed` is forwarded.
    Polling { processed: String },
    /// A processed path is being forwarded to the writer.
    Forwarding,
    /// The writer has quit; the reader is being told to quit too.
    Signalling,
    /// The end marker has come; the writer's quit signal is polled before
    /// the closing messages are sent.
    Draining,
    /// The closing diagnostic is being sent.
    EndingStats,
    /// The end marker is being sent to the writer.
    EndingWriter,
    /// The stage has ended.
    Stopped,
}

/// What happened since the last action.
#[derive(Debug, Clone, PartialEq, Eq)]
pub enum TaskEvent {
    /// The stage is started.
    Begin,
    /// A message arrived: an entry, or the empty end marker.
    Received(String),
    /// The path asked about was looked for: whether it exists.
    Exists(bool),
    /// The last action was carried out.
    Done,
    /// The last action failed, for the reason given. For a receive: the
    /// channel is closed and holds no message.
    Failed(String),
    /// The writer's quit signal was polled: whether a quit is pending.
    QuitPending(bool),
}

/// What the task processor asks for next.
#[derive(Debug, Clone, PartialEq, Eq)]
pub enum TaskAction {
    /// Wait for the next message of the reader.
    Receive,
    /// Look for this path on disk.
    CheckExists(String),
    /// Send this diagnostic to the statistics collector.
    Emit(Stat),
    /// Poll the quit signal of the writer.
    PollQuit,
    /// Send this processed path to the writer.
    Forward(String),
    /// Raise the quit signal for the reader, without waiting.
    SignalQuit,
    /// Send the end marker to the writer.
    SendEnd,
    /// End the stage with success.
    Succeed,
    /// End the stage with this error.
    Fail(Error),
    /// Nothing: the event called for no action.
    Idle,
}

/// A state of the task processor, with its paths as sequences of characters.
pub enum TaskStateView {
    Start,
    Receiving,
    CheckingOriginal { path: Seq<char> },
    ReportingOriginal { processed: Seq<char> },
    CheckingProcessed { processed: Seq<char> },
    ReportingSubstitution { processed: Seq<char> },
    Polling { processed: Seq<char> },
    Forwarding,
    Signalling,
    Draining,
    EndingStats,
    EndingWriter,
    Stopped,
}

/// An event of the task processor, with its texts as sequences of characters.
pub enum TaskEventView {
    Begin,
    Received(Seq<char>),
    Exists(bool),
    Done,
    Failed(Seq<char>),
    QuitPending(bool),
}

/// An action of the task processor, with its texts as sequences of characters.
pub enum TaskActionView {
    Receive,
    CheckExists(Seq<char>),
    Emit(StatView),
    PollQuit,
    Forward(Seq<char>),
    SignalQuit,
    SendEnd,
    Succeed,
    Fail(ErrorView),
    Idle,
}

impl View for TaskState {
    type V = TaskStateView;

    open spec fn view(&self) -> TaskStateView {
        match self {
            TaskState::Start => TaskStateView::Start,
            TaskState::Receiving => TaskStateView::Receiving,
            TaskState::CheckingOriginal { path } => TaskStateView::CheckingOriginal { path: path@ },
            TaskState::ReportingOriginal { processed } => TaskStateView::ReportingOriginal {
                processed: processed@,
            },
            TaskState::CheckingProcessed { processed } => TaskStateView::CheckingProcessed {
                processed: processed@,
            },
            TaskState::ReportingSubstitution { processed } => TaskStateView::ReportingSubstitution {
                processed: processed@,
            },
            TaskState::Polling { processed } => TaskStateView::Polling { processed: processed@ },
            TaskState::Forwarding => TaskStateView::Forwarding,
            TaskState::Signalling => TaskStateView::Signalling,
            TaskState::Draining => TaskStateView::Draining,
            TaskState::EndingStats => TaskStateView::EndingStats,
            TaskState::EndingWriter => TaskStateView::EndingWriter,
            TaskState::Stopped => TaskStateView::Stopped,
        }
    }
}

impl View for TaskEvent {
    type V = TaskEventView;

    open spec fn view(&self) -> TaskEventView {
        match self {
            TaskEvent::Begin => TaskEventView::Begin,
            TaskEvent::Received(path) => TaskEventView::Received(path@),
            TaskEvent::Exists(exists) => TaskEventView::Exists(*exists),
            TaskEvent::Done => TaskEventView::Done,
            TaskEvent::Failed(cause) => TaskEventView::Failed(cause@),
            TaskEvent::QuitPending(pending) => TaskEventView::QuitPending(*pending),
        }
    }
}

impl View for TaskAction {
    type V = TaskActionView;

    open spec fn view(&self) -> TaskActionView {
        match self {
            TaskAction::Receive => TaskActionView::Receive,
            TaskAction::CheckExists(path) => TaskActionView::CheckExists(path@),
            TaskAction::Emit(stat) => TaskActionView::Emit(stat@),
            TaskAction::PollQuit => TaskActionView::PollQuit,
            TaskAction::Forward(path) => TaskActionView::Forward(path@),
            TaskAction::SignalQuit => TaskActionView::SignalQuit,
            TaskAction::SendEnd => TaskActionView::SendEnd,
            TaskAction::Succeed => TaskActionView::Succeed,
            TaskAction::Fail(error) => TaskActionView::Fail(error@),
            TaskAction::Idle => TaskActionView::Idle,
        }
    }
}

impl TaskStateView {
    /// The phase of the life cycle that a state belongs to.
    pub open spec fn phase(self) -> Phase {
        match self {
            TaskStateView::Stopped => Phase::Stopped,
            TaskStateView::Signalling => Phase::Draining,
            TaskStateView::Draining => Phase::Draining,
            TaskStateView::EndingStats => Phase::Draining,
            TaskStateView::EndingWriter => Phase::Draining,
            _ => Phase::Running,
        }
    }
}

/// The error reported when no entry can be received because the reader is
/// gone without an end marker.
pub open spec fn receive_failure(cause: Seq<char>) -> ErrorView {
    ErrorView {
        kind: ErrorKind::ChannelClosed,
        message: "failed to receive the task from the reader: "@ + cause,
    }
}

/// The error reported when a diagnostic, or the closing diagnostic, cannot
/// be sent.
pub open spec fn stat_failure(cause: Seq<char>) -> ErrorView {
    ErrorView { kind: ErrorKind::ChannelClosed, message: "failed to send stat: "@ + cause }
}

/// The error reported when a processed path, or the end marker, cannot be
/// sent to the writer.
pub open spec fn forward_failure(cause: Seq<char>) -> ErrorView {
    ErrorView {
        kind: ErrorKind::ChannelClosed,
        message: "failed to send the processed path to the writer: "@ + cause,
    }
}

/// The path that goes to the writer for the entry `path`: the entry itself
/// where it exists, else the entry with its extension replaced by `new_ext`.
pub open spec fn processed_path(path: Seq<char>, new_ext: Seq<char>, exists: bool) -> Seq<char> {
    if exists {
        path
    } else {
        repaired_path(path, new_ext)
    }
}

/// The task processor's transition: the state after `event` and the action
/// to perform next.
///
/// An entry that exists is processed unchanged. One that is missing is
/// reported, and processed into the path with the new extension. The
/// processed path is looked for in either case, and reported where it is
/// missing. It is then forwarded to the writer, unless the writer has quit:
/// then the reader is told to quit and the stage ends, with nothing further
/// sent. The empty end marker ends the receiving: the writer's signal is
/// polled once more, and the closing diagnostic and the end marker are sent
/// unless a quit is pending. A failure to receive an entry, or to send a
/// diagnostic, a path, the closing diagnostic or the end marker, ends the
/// stage with an error and nothing further is sent. The quit signal alone is
/// best effort: the stage ends in the same way whether it was taken or not.
/// An event that does not answer the pending action changes nothing.
pub open spec fn task_step(new_ext: Seq<char>, state: TaskStateView, event: TaskEventView) -> (
    TaskStateView,
    TaskActionView,
) {
    match (state, event) {
        (TaskStateView::Start, TaskEventView::Begin) => (
            TaskStateView::Receiving,
            TaskActionView::Receive,
        ),
        (TaskStateView::Receiving, TaskEventView::Received(path)) => {
            if path.len() == 0 {
                (TaskStateView::Draining, TaskActionView::PollQuit)
            } else {
                (TaskStateView::CheckingOriginal { path }, TaskActionView::CheckExists(path))
            }
        },
        (TaskStateView::Receiving, TaskEventView::Failed(cause)) => (
            TaskStateView::Stopped,
            TaskActionView::Fail(receive_failure(cause)),
        ),
        (TaskStateView::CheckingOriginal { path }, TaskEventView::Exists(exists)) => {
            let processed = processed_path(path, new_ext, exists);
            if exists {
                (
                    TaskStateView::CheckingProcessed { processed },
                    TaskActionView::CheckExists(processed),
                )
            } else {
                (
                    TaskStateView::ReportingOriginal { processed },
                    TaskActionView::Emit(StatView::OriginalPathNotFound(path)),
                )
            }
        },
        (TaskStateView::ReportingOriginal { processed }, TaskEventView::Done) => (
            TaskStateView::CheckingProcessed { processed },
            TaskActionView::CheckExists(processed),
        ),
        (TaskStateView::ReportingOriginal { processed }, TaskEventView::Failed(cause)) => (
            TaskStateView::Stopped,
            TaskActionView::Fail(stat_failure(cause)),
        ),
        (TaskStateView::CheckingProcessed { processed }, TaskEventView::Exists(exists)) => {
            if exists {
                (TaskStateView::Polling { processed }, TaskActionView::PollQuit)
            } else {
                (
                    TaskStateView::ReportingSubstitution { processed },
                    TaskActionView::Emit(StatView::SubstitutionNotFound(processed)),
                )
            }
        },
        (TaskStateView::ReportingSubstitution { processed }, TaskEventView::Done) => (
            TaskStateView::Polling { processed },
            TaskActionView::PollQuit,
        ),
        (TaskStateView::ReportingSubstitution { processed }, TaskEventView::Failed(cause)) => (
            TaskStateView::Stopped,
            TaskActionView::Fail(stat_failure(cause)),
        ),
        (TaskStateView::Polling { processed }, TaskEventView::QuitPending(pending)) => {
            if pending {
                (TaskStateView::Signalling, TaskActionView::SignalQuit)
            } else {
                (TaskStateView::Forwarding, TaskActionView::Forward(processed))
            }
        },
        (TaskStateView::Forwarding, TaskEventView::Done) => (
            TaskStateView::Receiving,
            TaskActionView::Receive,
        ),
        (TaskStateView::Forwarding, TaskEventView::Failed(cause)) => (
            TaskStateView::Stopped,
            TaskActionView::Fail(forward_failure(cause)),
        ),
        (TaskStateView::Signalling, TaskEventView::Done) => (
            TaskStateView::Stopped,
            TaskActionView::Succeed,
        ),
        (TaskStateView::Signalling, TaskEventView::Failed(cause)) => (
            TaskStateView::Stopped,
            TaskActionView::Succeed,
        ),
        (TaskStateView::Draining, TaskEventView::QuitPending(pending)) => {
            if pending {
                (TaskStateView::Stopped, TaskActionView::Succeed)
            } else {
                (TaskStateView::EndingStats, TaskActionView::Emit(StatView::End))
            }
        },
        (TaskStateView::EndingStats, TaskEventView::Done) => (
            TaskStateView::EndingWriter,
            TaskActionView::SendEnd,
        ),
        (TaskStateView::EndingStats, TaskEventView::Failed(cause)) => (
            TaskStateView::Stopped,
            TaskActionView::Fail(stat_failure(cause)),
        ),
        (TaskStateView::EndingWriter, TaskEventView::Done) => (
            TaskStateView::Stopped,
            TaskActionView::Succeed,
        ),
        (TaskStateView::EndingWriter, TaskEventView::Failed(cause)) => (
            TaskStateView::Stopped,
            TaskActionView::Fail(forward_failure(cause)),
        ),
        (state, _) => (state, TaskActionView::Idle),
    }
}

/// The repaired path of a path that is not empty is not empty, so that it is
/// never mistaken for the end marker.
pub proof fn lemma_repaired_path_not_empty(path: Seq<char>, new_ext: Seq<char>)
    requires
        path.len() > 0,
    ensures
        repaired_path(path, new_ext).len() > 0,
{
    lemma_last_index_of(path, '/');
    if extension(path) is Some {
        lemma_extension_splits_path(path);
    }
    assert(repaired_path(path, new_ext).len() == stem(path).len() + new_ext.len());
}

/// What the task processor does from its start over a sequence of events:
/// the state it reaches and the actions it asked for, one for each event.
pub open spec fn task_run(new_ext: Seq<char>, events: Seq<TaskEventView>) -> (
    TaskStateView,
    Seq<TaskActionView>,
)
    decreases events.len(),
{
    if events.len() == 0 {
        (TaskStateView::Start, Seq::empty())
    } else {
        let before = task_run(new_ext, events.drop_last());
        let step = task_step(new_ext, before.0, events.last());
        (step.0, before.1.push(step.1))
    }
}

/// The number of closing diagnostics among `actions`.
pub open spec fn closing_diagnostics(actions: Seq<TaskActionView>) -> nat
    decreases actions.len(),
{
    if actions.len() == 0 {
        0
    } else if actions.last() == TaskActionView::Emit(StatView::End) {
        closing_diagnostics(actions.drop_last()) + 1
    } else {
        closing_diagnostics(actions.drop_last())
    }
}

/// The task processor never goes back in its life cycle, does nothing once
/// it is stopped, and forwards paths only while it runs.
pub proof fn lemma_task_never_resumes(
    new_ext: Seq<char>,
    state: TaskStateView,
    event: TaskEventView,
)
    ensures
        state.phase().rank() <= task_step(new_ext, state, event).0.phase().rank(),
        state is Stopped ==> task_step(new_ext, state, event) == (
            TaskStateView::Stopped,
            TaskActionView::Idle,
        ),
        task_step(new_ext, state, event).1 is Forward ==> state.phase() == Phase::Running,
{
}

/// No failure of a data channel is passed over: a failure to receive an
/// entry, or to send a diagnostic, a path, the closing diagnostic or the end
/// marker, ends the stage at once with an error of the kind for closed
/// channels, which names what failed.
pub proof fn lemma_task_channel_failures_are_fatal(
    new_ext: Seq<char>,
    state: TaskStateView,
    cause: Seq<char>,
)
    requires
        state is Receiving || state is ReportingOriginal || state is ReportingSubstitution
            || state is Forwarding || state is EndingStats || state is EndingWriter,
    ensures
        task_step(new_ext, state, TaskEventView::Failed(cause)).0 is Stopped,
        task_step(new_ext, state, TaskEventView::Failed(cause)).1 matches TaskActionView::Fail(
            error,
        ) && error.kind == ErrorKind::ChannelClosed,
        state is Receiving ==> task_step(new_ext, state, TaskEventView::Failed(cause)).1
            == TaskActionView::Fail(receive_failure(cause)),
        state is ReportingOriginal || state is ReportingSubstitution || state is EndingStats
            ==> task_step(new_ext, state, TaskEventView::Failed(cause)).1 == TaskActionView::Fail(
            stat_failure(cause),
        ),
        state is Forwarding || state is EndingWriter ==> task_step(
            new_ext,
            state,
            TaskEventView::Failed(cause),
        ).1 == TaskActionView::Fail(forward_failure(cause)),
{
}

/// A failure event is left unanswered only where the stage waits for no
/// action that can fail, and ends in success only after the quit signal,
/// which is best effort.
pub proof fn lemma_task_failures_are_answered(
    new_ext: Seq<char>,
    state: TaskStateView,
    cause: Seq<char>,
)
    ensures
        task_step(new_ext, state, TaskEventView::Failed(cause)).1 is Idle <==> state is Start
            || state is CheckingOriginal || state is CheckingProcessed || state is Polling
            || state is Draining || state is Stopped,
        task_step(new_ext, state, TaskEventView::Failed(cause)).1 is Succeed <==> state
            is Signalling,
{
}

/// An entry that exists is passed on as it is: it is looked for once more
/// under its own name and, unless the writer has quit, forwarded unchanged,
/// whatever the new extension.
pub proof fn lemma_existing_entry_is_forwarded_unchanged(new_ext: Seq<char>, path: Seq<char>)
    ensures
        processed_path(path, new_ext, true) == path,
        task_step(new_ext, TaskStateView::CheckingOriginal { path }, TaskEventView::Exists(true))
            == (
            TaskStateView::CheckingProcessed { processed: path },
            TaskActionView::CheckExists(path),
        ),
        task_step(
            new_ext,
            TaskStateView::CheckingProcessed { processed: path },
            TaskEventView::Exists(true),
        ) == (TaskStateView::Polling { processed: path }, TaskActionView::PollQuit),
        task_step(
            new_ext,
            TaskStateView::Polling { processed: path },
            TaskEventView::QuitPending(false),
        ) == (TaskStateView::Forwarding, TaskActionView::Forward(path)),
{
}

/// Once the writer's quit is seen, the reader is told to quit and the stage
/// ends: no path, no closing diagnostic and no end marker goes out. A quit
/// that is pending when the end marker comes ends the stage in the same way.
pub proof fn lemma_quit_stops_forwarding(new_ext: Seq<char>, processed: Seq<char>)
    ensures
        task_step(
            new_ext,
            TaskStateView::Polling { processed },
            TaskEventView::QuitPending(true),
        ) == (TaskStateView::Signalling, TaskActionView::SignalQuit),
        task_step(new_ext, TaskStateView::Signalling, TaskEventView::Done) == (
            TaskStateView::Stopped,
            TaskActionView::Succeed,
        ),
        task_step(new_ext, TaskStateView::Draining, TaskEventView::QuitPending(true)) == (
            TaskStateView::Stopped,
            TaskActionView::Succeed,
        ),
{
}

/// The paths held by a state of the task processor are not empty.
pub open spec fn holds_no_empty_path(state: TaskStateView) -> bool {
    match state {
        TaskStateView::CheckingOriginal { path } => path.len() > 0,
        TaskStateView::ReportingOriginal { processed } => processed.len() > 0,
        TaskStateView::CheckingProcessed { processed } => processed.len() > 0,
        TaskStateView::ReportingSubstitution { processed } => processed.len() > 0,
        TaskStateView::Polling { processed } => processed.len() > 0,
        _ => true,
    }
}

/// Whatever the events, the task processor never forwards an empty path,
/// and sends the closing diagnostic at most once: not before it drains, and
/// not at all where it stops on a pending quit.
pub proof fn lemma_task_run_invariants(new_ext: Seq<char>, events: Seq<TaskEventView>)
    ensures
        task_run(new_ext, events).1.len() == events.len(),
        holds_no_empty_path(task_run(new_ext, events).0),
        forall|i: int|
            0 <= i < events.len() ==> (#[trigger] task_run(new_ext, events).1[i] matches TaskActionView::Forward(
                path,
            ) ==> path.len() > 0),
        closing_diagnostics(task_run(new_ext, events).1) <= 1,
        closing_diagnostics(task_run(new_ext, events).1) == 1 ==> task_run(new_ext, events).0
            is EndingStats || task_run(new_ext, events).0 is EndingWriter || task_run(
            new_ext,
            events,
        ).0 is Stopped,
    decreases events.len(),
{
    if events.len() > 0 {
        let front = events.drop_last();
        lemma_task_run_invariants(new_ext, front);
        let before = task_run(new_ext, front);
        let after = task_run(new_ext, events);
        assert(after.1.drop_last() =~= before.1);
        match (before.0, events.last()) {
            (TaskStateView::CheckingOriginal { path }, TaskEventView::Exists(exists)) => {
                lemma_repaired_path_not_empty(path, new_ext);
            },
            _ => {},
        }
        assert forall|i: int| 0 <= i < events.len() implies (#[trigger] after.1[i] matches TaskActionView::Forward(
            path,
        ) ==> path.len() > 0) by {
            if i < front.len() {
                assert(after.1[i] == before.1[i]);
            }
        }
    }
}

fn stat_error(cause: &str) -> (error: Error)
    ensures
        error@ == stat_failure(cause@),
{
    Error::new(ErrorKind::ChannelClosed, String::from_str("failed to send stat: ").concat(cause))
}

fn forward_error(cause: &str) -> (error: Error)
    ensures
        error@ == forward_failure(cause@),
{
    Error::new(
        ErrorKind::ChannelClosed,
        String::from_str("failed to send the processed path to the writer: ").concat(cause),
    )
}

/// Takes one step of the task processor that repairs with `new_ext`.
pub fn process_task(new_ext: &str, state: TaskState, event: TaskEvent) -> (r: (
    TaskState,
    TaskAction,
))
    ensures
        (r.0@, r.1@) == task_step(new_ext@, state@, event@),
{
    match (state, event) {
        (TaskState::Start, TaskEvent::Begin) => (TaskState::Receiving, TaskAction::Receive),
        (TaskState::Receiving, TaskEvent::Received(path)) => {
            if path.as_str().is_empty() {
                (TaskState::Draining, TaskAction::PollQuit)
            } else {
                let asked = path.clone();
                (TaskState::CheckingOriginal { path }, TaskAction::CheckExists(asked))
            }
        },
        (TaskState::Receiving, TaskEvent::Failed(cause)) => {
            let message = String::from_str("failed to receive the task from the reader: ").concat(
                cause.as_str(),
            );
            (TaskState::Stopped, TaskAction::Fail(Error::new(ErrorKind::ChannelClosed, message)))
        },
        (TaskState::CheckingOriginal { path }, TaskEvent::Exists(exists)) => {
            if exists {
                let asked = path.clone();
                (TaskState::CheckingProcessed { processed: path }, TaskAction::CheckExists(asked))
            } else {
                let processed = get_processed_path(path.as_str(), new_ext);
                (
                    TaskState::ReportingOriginal { processed },
                    TaskAction::Emit(Stat::OriginalPathNotFound(path)),
                )
            }
        },
        (TaskState::ReportingOriginal { processed }, TaskEvent::Done) => {
            let asked = processed.clone();
            (TaskState::CheckingProcessed { processed }, TaskAction::CheckExists(asked))
        },
        (TaskState::ReportingOriginal { processed }, TaskEvent::Failed(cause)) => (
            TaskState::Stopped,
            TaskAction::Fail(stat_error(cause.as_str())),
        ),
        (TaskState::CheckingProcessed { processed }, TaskEvent::Exists(exists)) => {
            if exists {
                (TaskState::Polling { processed }, TaskAction::PollQuit)
            } else {
                let reported = processed.clone();
                (
                    TaskState::ReportingSubstitution { processed },
                    TaskAction::Emit(Stat::SubstitutionNotFound(reported)),
                )
            }
        },
        (TaskState::ReportingSubstitution { processed }, TaskEvent::Done) => (
            TaskState::Polling { processed },
            TaskAction::PollQuit,
        ),
        (TaskState::ReportingSubstitution { processed }, TaskEvent::Failed(cause)) => (
            TaskState::Stopped,
            TaskAction::Fail(stat_error(cause.as_str())),
        ),
        (TaskState::Polling { processed }, TaskEvent::QuitPending(pending)) => {
            if pending {
                (TaskState::Signalling, TaskAction::SignalQuit)
            } else {
                (TaskState::Forwarding, TaskAction::Forward(processed))
            }
        },
        (TaskState::Forwarding, TaskEvent::Done) => (TaskState::Receiving, TaskAction::Receive),
        (TaskState::Forwarding, TaskEvent::Failed(cause)) => (
            TaskState::Stopped,
            TaskAction::Fail(forward_error(cause.as_str())),
        ),
        (TaskState::Signalling, TaskEvent::Done) => (TaskState::Stopped, TaskAction::Succeed),
        (TaskState::Signalling, TaskEvent::Failed(cause)) => (
            TaskState::Stopped,
            TaskAction::Succeed,
        ),
        (TaskState::Draining, TaskEvent::QuitPending(pending)) => {
            if pending {
                (TaskState::Stopped, TaskAction::Succeed)
            } else {
                (TaskState::EndingStats, TaskAction::Emit(Stat::End))
            }
        },
        (TaskState::EndingStats, TaskEvent::Done) => (
            TaskState::EndingWriter,
            TaskAction::SendEnd,
        ),
        (TaskState::EndingStats, TaskEvent::Failed(cause)) => (
            TaskState::Stopped,
            TaskAction::Fail(stat_error(cause.as_str())),
        ),
        (TaskState::EndingWriter, TaskEvent::Done) => (TaskState::Stopped, TaskAction::Succeed),
        (TaskState::EndingWriter, TaskEvent::Failed(cause)) => (
            TaskState::Stopped,
            TaskAction::Fail(forward_error(cause.as_str())),
        ),
        (state, _) => (state, TaskAction::Idle),
    }
}

} // verus!
