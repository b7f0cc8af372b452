use playlist_fixer::error::{Error, ErrorKind};
use playlist_fixer::stats::{
    decimal_string, process_stats, summary, Stat, StatsAction, StatsEvent, StatsState,
};

fn paths(items: &[&str]) -> Vec<String> {
    items.iter().map(|s| s.to_string()).collect()
}

#[test]
fn decimal_string_writes_base_ten() {
    assert_eq!(decimal_string(0), "0");
    assert_eq!(decimal_string(7), "7");
    assert_eq!(decimal_string(10), "10");
    assert_eq!(decimal_string(1234567890), "1234567890");
    assert_eq!(decimal_string(usize::MAX), usize::MAX.to_string());
}

#[test]
fn summary_is_empty_without_missing_paths() {
    assert_eq!(summary(Vec::new()), Vec::<String>::new());
}

#[test]
fn summary_counts_and_lists_the_missing_paths() {
    assert_eq!(
        summary(paths(&["/x/c.m4a"])),
        paths(&["\nAttention: the following 1 substituted paths don't exist.", "/x/c.m4a"])
    );
    let many: Vec<String> = (0..12).map(|i| format!("/x/{}.m4a", i)).collect();
    let lines = summary(many.clone());
    assert_eq!(lines.len(), 13);
    assert_eq!(lines[0], "\nAttention: the following 12 substituted paths don't exist.");
    assert_eq!(lines[1..], many[..]);
}

#[test]
fn collector_prints_missing_originals_at_once() {
    let (state, action) = process_stats(StatsState::Start, StatsEvent::Begin);
    assert_eq!(state, StatsState::Collecting { missing: Vec::new() });
    assert_eq!(action, StatsAction::Receive);
    let (state, action) = process_stats(
        state,
        StatsEvent::Received(Stat::OriginalPathNotFound("/m/b.flac".to_string())),
    );
    assert_eq!(state, StatsState::Printing { missing: Vec::new() });
    assert_eq!(action, StatsAction::Print("/m/b.flac".to_string()));
    let (state, action) = process_stats(state, StatsEvent::Done);
    assert_eq!(state, StatsState::Collecting { missing: Vec::new() });
    assert_eq!(action, StatsAction::Receive);
}

#[test]
fn collector_keeps_missing_substitutions_for_the_summary() {
    let state = StatsState::Collecting { missing: paths(&["/x/a.m4a"]) };
    let (state, action) = process_stats(
        state,
        StatsEvent::Received(Stat::SubstitutionNotFound("/x/c.m4a".to_string())),
    );
    assert_eq!(state, StatsState::Collecting { missing: paths(&["/x/a.m4a", "/x/c.m4a"]) });
    assert_eq!(action, StatsAction::Receive);
    let (state, action) = process_stats(state, StatsEvent::Received(Stat::End));
    assert_eq!(state, StatsState::Reporting);
    assert_eq!(
        action,
        StatsAction::Report(paths(&[
            "\nAttention: the following 2 substituted paths don't exist.",
            "/x/a.m4a",
            "/x/c.m4a",
        ]))
    );
    let (state, action) = process_stats(state, StatsEvent::Done);
    assert_eq!((state, action), (StatsState::Stopped, StatsAction::Succeed));
}

#[test]
fn collector_ends_quietly_when_nothing_is_missing() {
    for event in [StatsEvent::Received(Stat::End), StatsEvent::Closed] {
        let (state, action) =
            process_stats(StatsState::Collecting { missing: Vec::new() }, event);
        assert_eq!((state, action), (StatsState::Stopped, StatsAction::Succeed));
    }
}

#[test]
fn collector_sums_up_when_the_channel_closes() {
    let (state, action) =
        process_stats(StatsState::Collecting { missing: paths(&["/x/c.m4a"]) }, StatsEvent::Closed);
    assert_eq!(state, StatsState::Reporting);
    assert_eq!(
        action,
        StatsAction::Report(paths(&[
            "\nAttention: the following 1 substituted paths don't exist.",
            "/x/c.m4a",
        ]))
    );
}

#[test]
fn collector_ignores_events_that_answer_nothing() {
    let (state, action) = process_stats(StatsState::Stopped, StatsEvent::Closed);
    assert_eq!((state, action), (StatsState::Stopped, StatsAction::Idle));
    let (state, action) = process_stats(StatsState::Reporting, StatsEvent::Received(Stat::End));
    assert_eq!((state, action), (StatsState::Reporting, StatsAction::Idle));
}

#[test]
fn a_failure_to_print_ends_the_collector_with_an_error() {
    let error = Error {
        kind: ErrorKind::IoWrite,
        message: "failed to print the statistics: Broken pipe (os error 32)".to_string(),
    };
    for state in [StatsState::Printing { missing: paths(&["/x/c.m4a"]) }, StatsState::Reporting] {
        let (state, action) =
            process_stats(state, StatsEvent::Failed("Broken pipe (os error 32)".to_string()));
        assert_eq!((state, action), (StatsState::Stopped, StatsAction::Fail(error.clone())));
    }
    // Receiving cannot fail but by the channel being closed.
    let collecting = StatsState::Collecting { missing: Vec::new() };
    let (state, action) = process_stats(collecting.clone(), StatsEvent::Failed("x".to_string()));
    assert_eq!((state, action), (collecting, StatsAction::Idle));
}
