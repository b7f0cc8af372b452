//! The pipeline as a whole: what an undisturbed run writes and reports, and a
//! run of the four stages over a playlist held in memory.
use crate::reader::{is_entry_text, reader_transition, ReaderAction, ReaderEvent, ReaderState};
use crate::stats::{
    process_stats, summary_lines, texts, Stat, StatView, StatsAction, StatsEvent, StatsState,
    StatsStateView,
};
use crate::task_processor::{
    process_task, processed_path, TaskAction, TaskEvent, TaskState,
};
use crate::writer::{
    entry_line, marker_line, writer_transition, WriterAction, WriterEvent, WriterState,
};
use vstd::pervasive::unreached;
use vstd::prelude::*;

verus! {

/// The test that tells entries from blank lines and comments.
pub open spec fn entry_filter() -> spec_fn(Seq<char>) -> bool {
    |line: Seq<char>| is_entry_text(line)
}

/// The entries among `lines`, in the order of the lines.
pub open spec fn entries_of(lines: Seq<Seq<char>>) -> Seq<Seq<char>> {
    lines.filter(entry_filter())
}

/// The processed path of each entry, given the paths that exist.
pub open spec fn processed_of(
    entries: Seq<Seq<char>>,
    new_ext: Seq<char>,
    existing: Seq<Seq<char>>,
) -> Seq<Seq<char>> {
    entries.map_values(|entry: Seq<char>| processed_path(entry, new_ext, existing.contains(entry)))
}

/// The diagnostics of one entry: that it is missing, where it is, and that
/// its processed path is missing, where that is.
pub open spec fn entry_diagnostics(
    entry: Seq<char>,
    new_ext: Seq<char>,
    existing: Seq<Seq<char>>,
) -> Seq<StatView> {
    let processed = processed_path(entry, new_ext, existing.contains(entry));
    let first = if existing.contains(entry) {
        Seq::empty()
    } else {
        seq![StatView::OriginalPathNotFound(entry)]
    };
    if existing.contains(processed) {
        first
    } else {
        first.push(StatView::SubstitutionNotFound(processed))
    }
}

/// The diagnostics of all entries, in the order of the entries.
pub open spec fn diagnostics_of(
    entries: Seq<Seq<char>>,
    new_ext: Seq<char>,
    existing: Seq<Seq<char>>,
) -> Seq<StatView>
    decreases entries.len(),
{
    if entries.len() == 0 {
        Seq::empty()
    } else {
        diagnostics_of(entries.drop_last(), new_ext, existing) + entry_diagnostics(
            entries.last(),
            new_ext,
            existing,
        )
    }
}

/// The text of the output file that lists `paths`: the marker line, then one
/// line for each path.
pub open spec fn playlist_text(paths: Seq<Seq<char>>) -> Seq<char>
    decreases paths.len(),
{
    if paths.len() == 0 {
        marker_line()
    } else {
        playlist_text(paths.drop_last()) + entry_line(paths.last())
    }
}

/// The paths printed as soon as their diagnostic arrives: the missing
/// original paths.
pub open spec fn printed_at_once(diagnostics: Seq<StatView>) -> Seq<Seq<char>>
    decreases diagnostics.len(),
{
    if diagnostics.len() == 0 {
        Seq::empty()
    } else {
        match diagnostics.last() {
            StatView::OriginalPathNotFound(path) => printed_at_once(diagnostics.drop_last()).push(
                path,
            ),
            _ => printed_at_once(diagnostics.drop_last()),
        }
    }
}

/// The paths kept for the closing summary: the missing substituted paths.
pub open spec fn kept_for_summary(diagnostics: Seq<StatView>) -> Seq<Seq<char>>
    decreases diagnostics.len(),
{
    if diagnostics.len() == 0 {
        Seq::empty()
    } else {
        match diagnostics.last() {
            StatView::SubstitutionNotFound(path) => kept_for_summary(diagnostics.drop_last()).push(
                path,
            ),
            _ => kept_for_summary(diagnostics.drop_last()),
        }
    }
}

/// Everything the statistics collector prints for `diagnostics`: the paths
/// printed at once, then the closing summary.
pub open spec fn printed_of(diagnostics: Seq<StatView>) -> Seq<Seq<char>> {
    printed_at_once(diagnostics) + summary_lines(kept_for_summary(diagnostics))
}

/// The views of a sequence of diagnostics.
pub open spec fn stat_views(stats: Seq<Stat>) -> Seq<StatView> {
    Seq::new(stats.len(), |i: int| stats[i]@)
}

/// Adding a line to the input adds it to the entries if it is one, and
/// changes nothing otherwise.
pub proof fn lemma_entries_of_push(lines: Seq<Seq<char>>, line: Seq<char>)
    ensures
        entries_of(lines.push(line)) == if is_entry_text(line) {
            entries_of(lines).push(line)
        } else {
            entries_of(lines)
        },
{
    reveal(Seq::filter);
    assert(lines.push(line).drop_last() =~= lines);
}

/// The positions in `lines` of the lines that are entries, in rising order.
pub open spec fn entry_positions(lines: Seq<Seq<char>>) -> Seq<int>
    decreases lines.len(),
{
    if lines.len() == 0 {
        Seq::empty()
    } else if is_entry_text(lines.last()) {
        entry_positions(lines.drop_last()).push(lines.len() - 1)
    } else {
        entry_positions(lines.drop_last())
    }
}

/// The entries are the lines that are neither blank nor comments, each once
/// for each time it occurs, in the order in which they stand in the input:
/// the entry of rank `k` is the line at the position of rank `k`, the
/// positions rise, and no position of such a line is left out.
pub proof fn lemma_entries_keep_order(lines: Seq<Seq<char>>)
    ensures
        entry_positions(lines).len() == entries_of(lines).len(),
        forall|k: int|
            0 <= k < entries_of(lines).len() ==> 0 <= (#[trigger] entry_positions(lines)[k])
                < lines.len() && entries_of(lines)[k] == lines[entry_positions(lines)[k]]
                && is_entry_text(entries_of(lines)[k]),
        forall|j: int, k: int|
            0 <= j < k < entries_of(lines).len() ==> (#[trigger] entry_positions(lines)[j])
                < (#[trigger] entry_positions(lines)[k]),
        forall|i: int|
            0 <= i < lines.len() && is_entry_text(#[trigger] lines[i]) ==> entry_positions(
                lines,
            ).contains(i),
    decreases lines.len(),
{
    if lines.len() > 0 {
        let front = lines.drop_last();
        lemma_entries_keep_order(front);
        lemma_entries_of_push(front, lines.last());
        assert(front.push(lines.last()) =~= lines);
        let positions = entry_positions(lines);
        let before = entry_positions(front);
        assert forall|i: int| 0 <= i < lines.len() && is_entry_text(
            #[trigger] lines[i],
        ) implies positions.contains(i) by {
            if i < front.len() {
                assert(front[i] == lines[i]);
                let k = choose|k: int| 0 <= k < before.len() && before[k] == i;
                assert(positions[k] == i);
            } else {
                assert(positions[positions.len() - 1] == i);
            }
        }
    } else {
        reveal(Seq::filter);
    }
}

/// Round trip: an undisturbed run writes one path for each line that is an
/// entry, in the order of the lines; where the entry exists, the path written
/// is the line itself, and nothing is reported for it.
pub proof fn lemma_existing_entries_are_written_unchanged(
    lines: Seq<Seq<char>>,
    new_ext: Seq<char>,
    existing: Seq<Seq<char>>,
)
    ensures
        processed_of(entries_of(lines), new_ext, existing).len() == entry_positions(lines).len(),
        forall|k: int|
            0 <= k < entry_positions(lines).len() && existing.contains(
                lines[#[trigger] entry_positions(lines)[k]],
            ) ==> processed_of(entries_of(lines), new_ext, existing)[k]
                == lines[entry_positions(lines)[k]] && entry_diagnostics(
                lines[entry_positions(lines)[k]],
                new_ext,
                existing,
            ).len() == 0,
{
    lemma_entries_keep_order(lines);
}

/// The output keeps the order of the paths: it begins with the text for any
/// beginning of the list of paths.
pub proof fn lemma_playlist_text_grows(paths: Seq<Seq<char>>, n: int)
    requires
        0 <= n <= paths.len(),
    ensures
        playlist_text(paths.take(n)).is_prefix_of(playlist_text(paths)),
    decreases paths.len() - n,
{
    if n == paths.len() {
        assert(paths.take(n) =~= paths);
    } else {
        lemma_playlist_text_grows(paths, n + 1);
        assert(paths.take(n + 1).drop_last() =~= paths.take(n));
    }
}

/// Whatever the paths, the output begins with the marker line.
pub proof fn lemma_playlist_text_starts_with_marker(paths: Seq<Seq<char>>)
    ensures
        marker_line().is_prefix_of(playlist_text(paths)),
{
    lemma_playlist_text_grows(paths, 0);
    assert(paths.take(0) =~= Seq::empty());
}

fn contains_path(existing: &Vec<String>, path: &String) -> (found: bool)
    ensures
        found == texts(existing@).contains(path@),
{
    let mut i: usize = 0;
    while i < existing.len()
        invariant
            i <= existing.len(),
            forall|j: int| 0 <= j < i ==> texts(existing@)[j] != path@,
        decreases existing.len() - i,
    {
        if existing[i] == *path {
            assert(texts(existing@)[i as int] == path@);
            return true;
        }
        i = i + 1;
    }
    false
}

fn copy_stat(stat: &Stat) -> (copy: Stat)
    ensures
        copy@ == stat@,
{
    match stat {
        Stat::OriginalPathNotFound(path) => Stat::OriginalPathNotFound(path.clone()),
        Stat::SubstitutionNotFound(path) => Stat::SubstitutionNotFound(path.clone()),
        Stat::End => Stat::End,
    }
}

/// Hands one line to the reader and takes what it sends on.
fn read_line(state: ReaderState, line: String) -> (r: (ReaderState, Option<String>))
    requires
        state@ is Reading,
    ensures
        r.0@ is Reading,
        match r.1 {
            Some(entry) => is_entry_text(line@) && entry@ == line@,
            None => !is_entry_text(line@),
        },
{
    let (state, action) = reader_transition("", state, ReaderEvent::Line(line));
    match action {
        ReaderAction::ReadLine => (state, None),
        ReaderAction::PollQuit => {
            let (state, action) = reader_transition("", state, ReaderEvent::QuitPending(false));
            match action {
                ReaderAction::Send(entry) => {
                    let (state, action) = reader_transition("", state, ReaderEvent::Done);
                    (state, Some(entry))
                },
                _ => unreached(),
            }
        },
        _ => unreached(),
    }
}

/// Hands one diagnostic to the statistics collector and prints what it asks
/// to have printed.
fn collect(state: StatsState, stat: Stat, printed: &mut Vec<String>, Ghost(seen): Ghost<
    Seq<StatView>,
>) -> (next: StatsState)
    requires
        stat@ !is End,
        state@ == (StatsStateView::Collecting { missing: kept_for_summary(seen) }),
        texts(old(printed)@) == printed_at_once(seen),
    ensures
        next@ == (StatsStateView::Collecting { missing: kept_for_summary(seen.push(stat@)) }),
        texts(final(printed)@) == printed_at_once(seen.push(stat@)),
{
    assert(seen.push(stat@).drop_last() =~= seen);
    let (state, action) = process_stats(state, StatsEvent::Received(stat));
    match action {
        StatsAction::Receive => state,
        StatsAction::Print(path) => {
            let ghost before = printed@;
            printed.push(path);
            assert(texts(printed@) =~= texts(before).push(path@));
            let (state, action) = process_stats(state, StatsEvent::Done);
            state
        },
        _ => unreached(),
    }
}

/// Hands one entry to the task processor, answers its questions from
/// `existing`, and takes the path it forwards. The diagnostics it emits go
/// to the statistics collector and are recorded.
fn process_entry(
    new_ext: &str,
    state: TaskState,
    entry: String,
    existing: &Vec<String>,
    stats_state: StatsState,
    diagnostics: &mut Vec<Stat>,
    printed: &mut Vec<String>,
) -> (r: (TaskState, StatsState, String))
    requires
        state@ is Receiving,
        entry@.len() > 0,
        stats_state@ == (StatsStateView::Collecting {
            missing: kept_for_summary(stat_views(old(diagnostics)@)),
        }),
        texts(old(printed)@) == printed_at_once(stat_views(old(diagnostics)@)),
    ensures
        r.0@ is Receiving,
        r.2@ == processed_path(entry@, new_ext@, texts(existing@).contains(entry@)),
        stat_views(final(diagnostics)@) == stat_views(old(diagnostics)@) + entry_diagnostics(
            entry@,
            new_ext@,
            texts(existing@),
        ),
        r.1@ == (StatsStateView::Collecting {
            missing: kept_for_summary(stat_views(final(diagnostics)@)),
        }),
        texts(final(printed)@) == printed_at_once(stat_views(final(diagnostics)@)),
{
    let ghost seen = stat_views(diagnostics@);
    let mut stats_state = stats_state;
    let (state, action) = process_task(new_ext, state, TaskEvent::Received(entry));
    let asked = match action {
        TaskAction::CheckExists(path) => path,
        _ => unreached(),
    };
    let exists = contains_path(existing, &asked);
    let (state, action) = process_task(new_ext, state, TaskEvent::Exists(exists));
    let (state, asked) = match action {
        TaskAction::CheckExists(path) => (state, path),
        TaskAction::Emit(stat) => {
            let ghost before = diagnostics@;
            diagnostics.push(copy_stat(&stat));
            assert(stat_views(diagnostics@) =~= stat_views(before).push(stat@));
            stats_state = collect(stats_state, stat, printed, Ghost(stat_views(before)));
            let (state, action) = process_task(new_ext, state, TaskEvent::Done);
            match action {
                TaskAction::CheckExists(path) => (state, path),
                _ => unreached(),
            }
        },
        _ => unreached(),
    };
    let exists = contains_path(existing, &asked);
    let (state, action) = process_task(new_ext, state, TaskEvent::Exists(exists));
    let state = match action {
        TaskAction::PollQuit => state,
        TaskAction::Emit(stat) => {
            let ghost before = diagnostics@;
            diagnostics.push(copy_stat(&stat));
            assert(stat_views(diagnostics@) =~= stat_views(before).push(stat@));
            stats_state = collect(stats_state, stat, printed, Ghost(stat_views(before)));
            let (state, action) = process_task(new_ext, state, TaskEvent::Done);
            state
        },
        _ => unreached(),
    };
    let (state, action) = process_task(new_ext, state, TaskEvent::QuitPending(false));
    let processed = match action {
        TaskAction::Forward(path) => path,
        _ => unreached(),
    };
    let (state, action) = process_task(new_ext, state, TaskEvent::Done);
    assert(stat_views(diagnostics@) =~= seen + entry_diagnostics(
        entry@,
        new_ext@,
        texts(existing@),
    ));
    (state, stats_state, processed)
}

/// Hands one processed path to the writer and appends what it writes.
fn write_line(state: WriterState, processed: String, output: &mut String) -> (next: WriterState)
    requires
        state@ is Receiving,
        processed@.len() > 0,
    ensures
        next@ is Receiving,
        final(output)@ == old(output)@ + entry_line(processed@),
{
    let (state, action) = writer_transition("", "", state, WriterEvent::Received(processed));
    match action {
        WriterAction::Write(text) => {
            output.append(text.as_str());
            let (state, action) = writer_transition("", "", state, WriterEvent::Done);
            state
        },
        _ => unreached(),
    }
}

/// What a run over a playlist held in memory hands out.
#[derive(Debug, Clone, PartialEq, Eq)]
pub struct FixedPlaylist {
    /// The text of the output file.
    pub output: String,
    /// The diagnostics sent to the statistics collector, in order.
    pub diagnostics: Vec<Stat>,
    /// The lines that the statistics collector prints, in order.
    pub printed: Vec<String>,
}

/// Runs the four stages to their end over the lines of a playlist, with
/// `existing` as the paths that exist. No quit signal is raised and nothing
/// fails, so every entry is processed and written.
///
/// The output is the marker line followed by the processed path of each
/// entry; the diagnostics are those of the entries followed by the closing
/// one; what is printed is what the statistics collector prints for them.
pub fn fix_playlist(lines: &Vec<String>, new_ext: &str, existing: &Vec<String>) -> (fixed:
    FixedPlaylist)
    ensures
        fixed.output@ == playlist_text(
            processed_of(entries_of(texts(lines@)), new_ext@, texts(existing@)),
        ),
        stat_views(fixed.diagnostics@) == diagnostics_of(
            entries_of(texts(lines@)),
            new_ext@,
            texts(existing@),
        ).push(StatView::End),
        texts(fixed.printed@) == printed_of(
            diagnostics_of(entries_of(texts(lines@)), new_ext@, texts(existing@)),
        ),
{
    let ghost input = texts(lines@);
    let ghost known = texts(existing@);
    let mut output = String::new();
    let mut diagnostics: Vec<Stat> = Vec::new();
    let mut printed: Vec<String> = Vec::new();

    let mut reader = ReaderState::Reading;
    let (task, action) = process_task(new_ext, TaskState::Start, TaskEvent::Begin);
    let mut task = task;
    let (stats, action) = process_stats(StatsState::Start, StatsEvent::Begin);
    let mut stats = stats;
    let (writer, action) = writer_transition("", "", WriterState::Creating, WriterEvent::Done);
    match action {
        WriterAction::Write(text) => {
            output.append(text.as_str());
        },
        _ => unreached(),
    }
    let (writer, action) = writer_transition("", "", writer, WriterEvent::Done);
    let mut writer = writer;

    proof {
        reveal(Seq::filter);
        assert(input.take(0) =~= Seq::empty());
        assert(processed_of(entries_of(input.take(0)), new_ext@, known) =~= Seq::empty());
        assert(stat_views(diagnostics@) =~= Seq::empty());
        assert(texts(printed@) =~= Seq::empty());
        assert(output@ =~= marker_line());
    }
    let mut i: usize = 0;
    while i < lines.len()
        invariant
            i <= lines.len(),
            input == texts(lines@),
            known == texts(existing@),
            reader@ is Reading,
            task@ is Receiving,
            writer@ is Receiving,
            stats@ == (StatsStateView::Collecting {
                missing: kept_for_summary(stat_views(diagnostics@)),
            }),
            texts(printed@) == printed_at_once(stat_views(diagnostics@)),
            stat_views(diagnostics@) == diagnostics_of(
                entries_of(input.take(i as int)),
                new_ext@,
                known,
            ),
            output@ == playlist_text(
                processed_of(entries_of(input.take(i as int)), new_ext@, known),
            ),
        decreases lines.len() - i,
    {
        let ghost before = entries_of(input.take(i as int));
        proof {
            assert(input.take(i + 1) =~= input.take(i as int).push(lines@[i as int]@));
            lemma_entries_of_push(input.take(i as int), lines@[i as int]@);
        }
        let (next_reader, sent) = read_line(reader, lines[i].clone());
        reader = next_reader;
        match sent {
            Some(entry) => {
                let ghost entry_text = entry@;
                let (next_task, next_stats, processed) = process_entry(
                    new_ext,
                    task,
                    entry,
                    existing,
                    stats,
                    &mut diagnostics,
                    &mut printed,
                );
                task = next_task;
                stats = next_stats;
                proof {
                    crate::task_processor::lemma_repaired_path_not_empty(entry_text, new_ext@);
                    let after = before.push(entry_text);
                    assert(after.drop_last() =~= before);
                    assert(processed_of(after, new_ext@, known) =~= processed_of(
                        before,
                        new_ext@,
                        known,
                    ).push(processed@));
                    assert(processed_of(after, new_ext@, known).drop_last() =~= processed_of(
                        before,
                        new_ext@,
                        known,
                    ));
                }
                writer = write_line(writer, processed, &mut output);
            },
            None => {},
        }
        i = i + 1;
    }
    assert(input.take(i as int) =~= input);

    let (reader, action) = reader_transition("", reader, ReaderEvent::EndOfInput);
    let (reader, action) = reader_transition("", reader, ReaderEvent::QuitPending(false));
    let end_marker = match action {
        ReaderAction::SendEnd => String::new(),
        _ => unreached(),
    };
    let (reader, action) = reader_transition("", reader, ReaderEvent::Done);

    let (task, action) = process_task(new_ext, task, TaskEvent::Received(end_marker));
    let (task, action) = process_task(new_ext, task, TaskEvent::QuitPending(false));
    let closing = match action {
        TaskAction::Emit(stat) => stat,
        _ => unreached(),
    };
    let ghost before = diagnostics@;
    diagnostics.push(copy_stat(&closing));
    assert(stat_views(diagnostics@) =~= stat_views(before).push(StatView::End));
    let (task, action) = process_task(new_ext, task, TaskEvent::Done);
    let end_marker = match action {
        TaskAction::SendEnd => String::new(),
        _ => unreached(),
    };
    let (task, action) = process_task(new_ext, task, TaskEvent::Done);

    let (stats, action) = process_stats(stats, StatsEvent::Received(closing));
    match action {
        StatsAction::Report(lines) => {
            let mut lines = lines;
            let ghost first = printed@;
            let ghost rest = lines@;
            printed.append(&mut lines);
            assert(texts(printed@) =~= texts(first) + texts(rest));
            let (stats, action) = process_stats(stats, StatsEvent::Done);
        },
        StatsAction::Succeed => {
            assert(texts(printed@) =~= printed_of(stat_views(before)));
        },
        _ => unreached(),
    }

    let (writer, action) = writer_transition("", "", writer, WriterEvent::Received(end_marker));
    let (writer, action) = writer_transition("", "", writer, WriterEvent::Done);

    FixedPlaylist { output, diagnostics, printed }
}

} // verus!
