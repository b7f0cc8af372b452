use playlist_fixer::error::{Error, ErrorKind};
use playlist_fixer::reader::{
    bom_kind, is_entry, leading_skip, read_entries, reader_transition, BomKind, ReaderAction,
    ReaderEvent, ReaderState, BOM_HEAD_LEN,
};

fn reader_step(state: ReaderState, event: ReaderEvent) -> (ReaderState, ReaderAction) {
    read_entries("/m/in.m3u8", state, event)
}

#[test]
fn blank_lines_and_comments_are_no_entries() {
    assert!(!is_entry(""));
    assert!(!is_entry("#"));
    assert!(!is_entry("# comment"));
    assert!(!is_entry("#EXTM3U"));
    assert!(is_entry("/m/a.mp3"));
    assert!(is_entry(" "));
    assert!(is_entry(" # not at the start"));
    assert!(is_entry("é#"));
}

#[test]
fn each_mark_is_told_by_its_bytes() {
    assert_eq!(bom_kind(&[]), BomKind::Null);
    assert_eq!(bom_kind(b"/m/a.mp3"), BomKind::Null);
    assert_eq!(bom_kind(&[0xef, 0xbb, 0xbf]), BomKind::Utf8);
    assert_eq!(bom_kind(&[0xef, 0xbb, 0xbf, b'#', b'\r', b'\n']), BomKind::Utf8);
    assert_eq!(bom_kind(&[0xef, 0xbb]), BomKind::Null);
    assert_eq!(bom_kind(&[0xfe, 0xff]), BomKind::Utf16Be);
    assert_eq!(bom_kind(&[0xff, 0xfe]), BomKind::Utf16Le);
    assert_eq!(bom_kind(&[0xff, 0xfe, 0x41, 0]), BomKind::Utf16Le);
    assert_eq!(bom_kind(&[0xff, 0xfe, 0, 0x41]), BomKind::Utf16Le);
    assert_eq!(bom_kind(&[0xff, 0xfe, 0]), BomKind::Utf16Le);
    assert_eq!(bom_kind(&[0xff, 0xfe, 0, 0]), BomKind::Utf32Le);
    assert_eq!(bom_kind(&[0, 0, 0xfe, 0xff]), BomKind::Utf32Be);
    assert_eq!(bom_kind(&[0, 0, 0xfe]), BomKind::Null);
    assert_eq!(bom_kind(&[0x0e, 0xfe, 0xff]), BomKind::Scsu);
    assert_eq!(bom_kind(&[0x84, 0x31, 0x95, 0x33]), BomKind::Gb18030);
    assert_eq!(bom_kind(&[0xdd, 0x73, 0x66, 0x73]), BomKind::UtfEbcdic);
    assert_eq!(bom_kind(&[0xf7, 0x64, 0x4c]), BomKind::Utf1);
    assert_eq!(bom_kind(&[0xfb, 0xee, 0x28]), BomKind::Bocu1);
    for fourth in [0x38, 0x39, 0x2b, 0x2f] {
        assert_eq!(bom_kind(&[0x2b, 0x2f, 0x76, fourth]), BomKind::Utf7);
    }
    assert_eq!(bom_kind(&[0x2b, 0x2f, 0x76]), BomKind::Null);
    assert_eq!(bom_kind(&[0x2b, 0x2f, 0x76, 0x3a]), BomKind::Null);
}

#[test]
fn only_the_utf8_mark_is_skipped() {
    assert_eq!(leading_skip(&[0xef, 0xbb, 0xbf]), 3);
    assert_eq!(leading_skip(&[0xef, 0xbb, 0xbf, b'/']), 3);
    assert_eq!(leading_skip(&[]), 0);
    assert_eq!(leading_skip(&[0xef]), 0);
    assert_eq!(leading_skip(&[0xef, 0xbb]), 0);
    assert_eq!(leading_skip(&[0xef, 0xbb, 0xbe, 0xbf]), 0);
    assert_eq!(leading_skip(b"/m/a"), 0);
    // Marks of other encodings are found but not passed over.
    assert_eq!(leading_skip(&[0xff, 0xfe]), 0);
    assert_eq!(leading_skip(&[0xfe, 0xff]), 0);
    assert_eq!(leading_skip(&[0xff, 0xfe, 0, 0]), 0);
    assert_eq!(leading_skip(&[0, 0, 0xfe, 0xff]), 0);
    assert_eq!(leading_skip(&[0x2b, 0x2f, 0x76, 0x38]), 0);
}

#[test]
fn reader_opens_the_input_file_as_named() {
    let (state, action) = reader_step(ReaderState::Start, ReaderEvent::Begin);
    assert_eq!(state, ReaderState::Opening { path: "/m/in.m3u8".to_string() });
    assert_eq!(action, ReaderAction::Open("/m/in.m3u8".to_string()));
}

#[test]
fn reader_keeps_what_follows_the_home_shorthand() {
    // Which directory stands for `~`, and whether one does, is the
    // environment's; what follows it is kept in either case.
    let (state, action) = read_entries("~/lists/in.m3u8", ReaderState::Start, ReaderEvent::Begin);
    let path = match action {
        ReaderAction::Open(path) => path,
        other => panic!("unexpected action {:?}", other),
    };
    assert!(path.ends_with("/lists/in.m3u8"));
    assert_eq!(state, ReaderState::Opening { path });

    let (_, action) = read_entries("~", ReaderState::Start, ReaderEvent::Begin);
    assert!(matches!(action, ReaderAction::Open(_)));
}

#[test]
fn reader_leaves_other_tildes_alone() {
    let (_, action) = read_entries("~other/in.m3u8", ReaderState::Start, ReaderEvent::Begin);
    assert_eq!(action, ReaderAction::Open("~other/in.m3u8".to_string()));
    let (_, action) = read_entries("/m/~/in.m3u8", ReaderState::Start, ReaderEvent::Begin);
    assert_eq!(action, ReaderAction::Open("/m/~/in.m3u8".to_string()));
}

#[test]
fn reader_skips_a_utf8_mark_and_then_reads() {
    let opening = ReaderState::Opening { path: "/m/in.m3u8".to_string() };
    let (state, action) =
        reader_step(opening.clone(), ReaderEvent::Opened { head: vec![0xef, 0xbb, 0xbf, b'#'] });
    assert_eq!((state, action), (ReaderState::Skipping, ReaderAction::Skip(3)));
    let (state, action) = reader_step(ReaderState::Skipping, ReaderEvent::Done);
    assert_eq!((state, action), (ReaderState::Reading, ReaderAction::ReadLine));

    let (state, action) =
        reader_step(opening, ReaderEvent::Opened { head: vec![b'/', b'm', b'/', b'a'] });
    assert_eq!((state, action), (ReaderState::Reading, ReaderAction::ReadLine));
}

#[test]
fn reader_sends_entries_and_passes_over_the_rest() {
    for line in ["", "#", "# comment"] {
        let (state, action) = reader_step(ReaderState::Reading, ReaderEvent::Line(line.to_string()));
        assert_eq!((state, action), (ReaderState::Reading, ReaderAction::ReadLine));
    }
    let (state, action) =
        reader_step(ReaderState::Reading, ReaderEvent::Line("/m/a.mp3".to_string()));
    assert_eq!(state, ReaderState::Polling { line: "/m/a.mp3".to_string() });
    assert_eq!(action, ReaderAction::PollQuit);
    let (state, action) = reader_step(state, ReaderEvent::QuitPending(false));
    assert_eq!(state, ReaderState::Sending);
    assert_eq!(action, ReaderAction::Send("/m/a.mp3".to_string()));
    let (state, action) = reader_step(state, ReaderEvent::Done);
    assert_eq!((state, action), (ReaderState::Reading, ReaderAction::ReadLine));
}

#[test]
fn reader_ends_with_the_end_marker() {
    let (state, action) = reader_step(ReaderState::Reading, ReaderEvent::EndOfInput);
    assert_eq!((state.clone(), action), (ReaderState::Draining, ReaderAction::PollQuit));
    let (state, action) = reader_step(state, ReaderEvent::QuitPending(false));
    assert_eq!((state.clone(), action), (ReaderState::Ending, ReaderAction::SendEnd));
    let (state, action) = reader_step(state, ReaderEvent::Done);
    assert_eq!((state, action), (ReaderState::Stopped, ReaderAction::Succeed));
}

#[test]
fn a_failed_end_marker_is_fatal() {
    let (state, action) = reader_step(ReaderState::Ending, ReaderEvent::Failed("closed".to_string()));
    assert_eq!(state, ReaderState::Stopped);
    assert_eq!(
        action,
        ReaderAction::Fail(Error {
            kind: ErrorKind::ChannelClosed,
            message: "failed to send the task to the task processor: closed".to_string(),
        })
    );
}

#[test]
fn the_head_that_decides_the_mark_is_four_bytes_long() {
    assert_eq!(BOM_HEAD_LEN, 4);
    let file = [0xef, 0xbb, 0xbf, b'/', b'm', b'/', b'a'];
    assert_eq!(bom_kind(&file[..BOM_HEAD_LEN]), bom_kind(&file));
    assert_eq!(leading_skip(&file[..BOM_HEAD_LEN]), 3);
    let file = [0xff, 0xfe, 0, 0, 0x41, 0, 0, 0];
    assert_eq!(bom_kind(&file[..BOM_HEAD_LEN]), BomKind::Utf32Le);
    assert_eq!(bom_kind(&file[..BOM_HEAD_LEN]), bom_kind(&file));
}

#[test]
fn reader_stops_on_a_pending_quit_without_end_marker() {
    // Before a send: the entry at hand is not sent, and no end marker either.
    let polling = ReaderState::Polling { line: "/m/a.mp3".to_string() };
    let (state, action) = reader_step(polling, ReaderEvent::QuitPending(true));
    assert_eq!((state, action), (ReaderState::Stopped, ReaderAction::Succeed));
    // At the end of the input: no end marker.
    let (state, action) = reader_step(ReaderState::Draining, ReaderEvent::QuitPending(true));
    assert_eq!((state, action), (ReaderState::Stopped, ReaderAction::Succeed));
}

#[test]
fn reader_failures_are_typed() {
    let opening = ReaderState::Opening { path: "/home/u/in.m3u8".to_string() };
    let (state, action) = reader_step(opening, ReaderEvent::Failed("No such file".to_string()));
    assert_eq!(state, ReaderState::Stopped);
    assert_eq!(
        action,
        ReaderAction::Fail(Error {
            kind: ErrorKind::IoOpen,
            message: "failed to open the input file '/home/u/in.m3u8': No such file".to_string(),
        })
    );

    for state in [ReaderState::Skipping, ReaderState::Reading] {
        let (state, action) = reader_step(state, ReaderEvent::Failed("bad data".to_string()));
        assert_eq!(state, ReaderState::Stopped);
        assert_eq!(
            action,
            ReaderAction::Fail(Error {
                kind: ErrorKind::IoRead,
                message: "failed to read the input file: bad data".to_string(),
            })
        );
    }

    let (state, action) = reader_step(ReaderState::Sending, ReaderEvent::Failed("gone".to_string()));
    assert_eq!(state, ReaderState::Stopped);
    assert_eq!(
        action,
        ReaderAction::Fail(Error {
            kind: ErrorKind::ChannelClosed,
            message: "failed to send the task to the task processor: gone".to_string(),
        })
    );
}

#[test]
fn reader_ignores_events_that_answer_nothing() {
    let (state, action) = reader_step(ReaderState::Stopped, ReaderEvent::Begin);
    assert_eq!((state, action), (ReaderState::Stopped, ReaderAction::Idle));
    let (state, action) = reader_step(ReaderState::Reading, ReaderEvent::QuitPending(true));
    assert_eq!((state, action), (ReaderState::Reading, ReaderAction::Idle));
    let polling = ReaderState::Polling { line: "/m/a.mp3".to_string() };
    let (state, action) = reader_step(polling.clone(), ReaderEvent::Done);
    assert_eq!((state, action), (polling, ReaderAction::Idle));
}

#[test]
fn reader_transition_opens_the_path_it_is_given() {
    let (state, action) = reader_transition("/expanded/in", ReaderState::Start, ReaderEvent::Begin);
    assert_eq!(state, ReaderState::Opening { path: "/expanded/in".to_string() });
    assert_eq!(action, ReaderAction::Open("/expanded/in".to_string()));
}
