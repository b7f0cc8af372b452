use playlist_fixer::error::{Error, ErrorKind};
use playlist_fixer::stats::Stat;
use playlist_fixer::task_processor::{
    get_processed_path, process_task, TaskAction, TaskEvent, TaskState,
};

fn task_step(state: TaskState, event: TaskEvent) -> (TaskState, TaskAction) {
    process_task(".m4a", state, event)
}

#[test]
fn test_get_processed_path() {
    {
        let original_path = "/path/to/file.opus";
        let new_ext = ".m4a";

        let expected = "/path/to/file.m4a";
        assert_eq!(expected, get_processed_path(original_path, new_ext));
    }

    {
        let original_path = "/path/to/file-without-ext";
        let new_ext = ".m4a";

        let expected = "/path/to/file-without-ext.m4a";
        assert_eq!(expected, get_processed_path(original_path, new_ext));
    }

    {
        let original_path = "/全字符路径/Artist - Title.opus";
        let new_ext = ".m4a";

        let expected = "/全字符路径/Artist - Title.m4a";
        assert_eq!(expected, get_processed_path(original_path, new_ext));
    }
}

#[test]
fn repair_looks_for_the_extension_in_the_final_segment_only() {
    assert_eq!(get_processed_path("/music.d/track", ".m4a"), "/music.d/track.m4a");
    assert_eq!(get_processed_path("/music.d/track.flac", ".m4a"), "/music.d/track.m4a");
    assert_eq!(get_processed_path("a.b.c", ".m4a"), "a.b.m4a");
}

#[test]
fn repair_keeps_names_whose_only_dot_comes_first() {
    assert_eq!(get_processed_path(".hidden", ".m4a"), ".hidden.m4a");
    assert_eq!(get_processed_path("/dir/.hidden", ".m4a"), "/dir/.hidden.m4a");
    assert_eq!(get_processed_path("/dir/.hidden.ogg", ".m4a"), "/dir/.hidden.m4a");
    assert_eq!(get_processed_path("..", ".m4a"), "...m4a");
    assert_eq!(get_processed_path("/dir/..", ".m4a"), "/dir/...m4a");
    assert_eq!(get_processed_path("...", ".m4a"), "...m4a");
}

#[test]
fn repair_of_edge_paths() {
    assert_eq!(get_processed_path("", ".m4a"), ".m4a");
    assert_eq!(get_processed_path("/dir/", ".m4a"), "/dir/.m4a");
    assert_eq!(get_processed_path("file.", ".m4a"), "file.m4a");
    assert_eq!(get_processed_path("file.mp3", ""), "file");
    assert_eq!(get_processed_path("ünïcödé.mp3", ".ögg"), "ünïcödé.ögg");
}

#[test]
fn repairing_with_the_extension_a_path_has_changes_nothing() {
    assert_eq!(get_processed_path("/m/b.m4a", ".m4a"), "/m/b.m4a");
    assert_eq!(get_processed_path("/全字符路径/Artist - Title.opus", ".opus"), "/全字符路径/Artist - Title.opus");
}

#[test]
fn an_existing_entry_is_forwarded_unchanged() {
    let (state, action) = task_step(TaskState::Start, TaskEvent::Begin);
    assert_eq!((state.clone(), action), (TaskState::Receiving, TaskAction::Receive));
    let (state, action) = task_step(state, TaskEvent::Received("/m/a.mp3".to_string()));
    assert_eq!(state, TaskState::CheckingOriginal { path: "/m/a.mp3".to_string() });
    assert_eq!(action, TaskAction::CheckExists("/m/a.mp3".to_string()));
    let (state, action) = task_step(state, TaskEvent::Exists(true));
    assert_eq!(state, TaskState::CheckingProcessed { processed: "/m/a.mp3".to_string() });
    assert_eq!(action, TaskAction::CheckExists("/m/a.mp3".to_string()));
    let (state, action) = task_step(state, TaskEvent::Exists(true));
    assert_eq!(state, TaskState::Polling { processed: "/m/a.mp3".to_string() });
    assert_eq!(action, TaskAction::PollQuit);
    let (state, action) = task_step(state, TaskEvent::QuitPending(false));
    assert_eq!(state, TaskState::Forwarding);
    assert_eq!(action, TaskAction::Forward("/m/a.mp3".to_string()));
    let (state, action) = task_step(state, TaskEvent::Done);
    assert_eq!((state, action), (TaskState::Receiving, TaskAction::Receive));
}

#[test]
fn a_missing_entry_is_reported_and_repaired() {
    let checking = TaskState::CheckingOriginal { path: "/m/b.flac".to_string() };
    let (state, action) = task_step(checking, TaskEvent::Exists(false));
    assert_eq!(state, TaskState::ReportingOriginal { processed: "/m/b.m4a".to_string() });
    assert_eq!(action, TaskAction::Emit(Stat::OriginalPathNotFound("/m/b.flac".to_string())));
    let (state, action) = task_step(state, TaskEvent::Done);
    assert_eq!(state, TaskState::CheckingProcessed { processed: "/m/b.m4a".to_string() });
    assert_eq!(action, TaskAction::CheckExists("/m/b.m4a".to_string()));
    let (state, action) = task_step(state, TaskEvent::Exists(true));
    assert_eq!(state, TaskState::Polling { processed: "/m/b.m4a".to_string() });
    assert_eq!(action, TaskAction::PollQuit);
}

#[test]
fn a_missing_processed_path_is_reported_and_still_forwarded() {
    let checking = TaskState::CheckingProcessed { processed: "/x/c.m4a".to_string() };
    let (state, action) = task_step(checking, TaskEvent::Exists(false));
    assert_eq!(state, TaskState::ReportingSubstitution { processed: "/x/c.m4a".to_string() });
    assert_eq!(action, TaskAction::Emit(Stat::SubstitutionNotFound("/x/c.m4a".to_string())));
    let (state, action) = task_step(state, TaskEvent::Done);
    assert_eq!(state, TaskState::Polling { processed: "/x/c.m4a".to_string() });
    assert_eq!(action, TaskAction::PollQuit);
    let (_, action) = task_step(state, TaskEvent::QuitPending(false));
    assert_eq!(action, TaskAction::Forward("/x/c.m4a".to_string()));
}

#[test]
fn the_end_marker_ends_both_downstream_channels() {
    let (state, action) = task_step(TaskState::Receiving, TaskEvent::Received(String::new()));
    assert_eq!((state.clone(), action), (TaskState::Draining, TaskAction::PollQuit));
    let (state, action) = task_step(state, TaskEvent::QuitPending(false));
    assert_eq!((state.clone(), action), (TaskState::EndingStats, TaskAction::Emit(Stat::End)));
    let (state, action) = task_step(state, TaskEvent::Done);
    assert_eq!((state.clone(), action), (TaskState::EndingWriter, TaskAction::SendEnd));
    let (state, action) = task_step(state, TaskEvent::Done);
    assert_eq!((state, action), (TaskState::Stopped, TaskAction::Succeed));
}

#[test]
fn a_failed_closing_send_is_fatal() {
    // The closing diagnostic: the stage ends, and the end marker is not sent.
    let (state, action) = task_step(TaskState::EndingStats, TaskEvent::Failed("gone".to_string()));
    assert_eq!(state, TaskState::Stopped);
    assert_eq!(
        action,
        TaskAction::Fail(Error {
            kind: ErrorKind::ChannelClosed,
            message: "failed to send stat: gone".to_string(),
        })
    );
    let (state, action) = task_step(state, TaskEvent::Done);
    assert_eq!((state, action), (TaskState::Stopped, TaskAction::Idle));

    // The end marker.
    let (state, action) = task_step(TaskState::EndingWriter, TaskEvent::Failed("gone".to_string()));
    assert_eq!(state, TaskState::Stopped);
    assert_eq!(
        action,
        TaskAction::Fail(Error {
            kind: ErrorKind::ChannelClosed,
            message: "failed to send the processed path to the writer: gone".to_string(),
        })
    );
}

#[test]
fn a_pending_quit_is_passed_upstream_and_nothing_is_sent() {
    let polling = TaskState::Polling { processed: "/m/a.mp3".to_string() };
    let (state, action) = task_step(polling, TaskEvent::QuitPending(true));
    assert_eq!((state.clone(), action), (TaskState::Signalling, TaskAction::SignalQuit));
    let (state, action) = task_step(state, TaskEvent::Done);
    assert_eq!((state, action), (TaskState::Stopped, TaskAction::Succeed));
    // The signal is best effort: the stage ends even where it was not taken.
    let (state, action) = task_step(TaskState::Signalling, TaskEvent::Failed("full".to_string()));
    assert_eq!((state, action), (TaskState::Stopped, TaskAction::Succeed));
    // A quit that is pending when the end marker comes: nothing is closed.
    let (state, action) = task_step(TaskState::Draining, TaskEvent::QuitPending(true));
    assert_eq!((state, action), (TaskState::Stopped, TaskAction::Succeed));
}

#[test]
fn task_failures_are_typed() {
    let stat = Error {
        kind: ErrorKind::ChannelClosed,
        message: "failed to send stat: sending on a closed channel".to_string(),
    };
    for state in [
        TaskState::ReportingOriginal { processed: "/m/b.m4a".to_string() },
        TaskState::ReportingSubstitution { processed: "/m/b.m4a".to_string() },
    ] {
        let (state, action) =
            task_step(state, TaskEvent::Failed("sending on a closed channel".to_string()));
        assert_eq!((state, action), (TaskState::Stopped, TaskAction::Fail(stat.clone())));
    }
    let (state, action) = task_step(
        TaskState::Receiving,
        TaskEvent::Failed("receiving on an empty and disconnected channel".to_string()),
    );
    assert_eq!(state, TaskState::Stopped);
    assert_eq!(
        action,
        TaskAction::Fail(Error {
            kind: ErrorKind::ChannelClosed,
            message: "failed to receive the task from the reader: \
                      receiving on an empty and disconnected channel"
                .to_string(),
        })
    );
    let (state, action) = task_step(TaskState::Forwarding, TaskEvent::Failed("gone".to_string()));
    assert_eq!(state, TaskState::Stopped);
    assert_eq!(
        action,
        TaskAction::Fail(Error {
            kind: ErrorKind::ChannelClosed,
            message: "failed to send the processed path to the writer: gone".to_string(),
        })
    );
}

#[test]
fn task_processor_ignores_events_that_answer_nothing() {
    let (state, action) = task_step(TaskState::Stopped, TaskEvent::Received("/m/a".to_string()));
    assert_eq!((state, action), (TaskState::Stopped, TaskAction::Idle));
    let (state, action) = task_step(TaskState::Receiving, TaskEvent::Exists(true));
    assert_eq!((state, action), (TaskState::Receiving, TaskAction::Idle));
    let (state, action) = task_step(TaskState::Receiving, TaskEvent::Done);
    assert_eq!((state, action), (TaskState::Receiving, TaskAction::Idle));
}
