use playlist_fixer::error::{Error, ErrorKind};
use playlist_fixer::report::failure_report;

fn failure(kind: ErrorKind, message: &str) -> Result<(), Error> {
    Err(Error { kind, message: message.to_string() })
}

#[test]
fn nothing_is_reported_when_every_stage_succeeds() {
    assert_eq!(failure_report(Vec::new()), Vec::<String>::new());
    assert_eq!(failure_report(vec![Ok(()), Ok(()), Ok(()), Ok(())]), Vec::<String>::new());
}

#[test]
fn every_failure_is_reported_in_the_order_of_the_stages() {
    let lines = failure_report(vec![
        failure(ErrorKind::IoRead, "failed to read the input file: bad data"),
        Ok(()),
        Ok(()),
        failure(ErrorKind::IoWrite, "failed to append a line to the output file 'out': full"),
    ]);
    assert_eq!(
        lines,
        vec![
            "".to_string(),
            "App failed with error(s):".to_string(),
            "failed to read the input file: bad data".to_string(),
            "failed to append a line to the output file 'out': full".to_string(),
        ]
    );
}

#[test]
fn equal_messages_are_each_reported() {
    let lines = failure_report(vec![
        failure(ErrorKind::ChannelClosed, "gone"),
        failure(ErrorKind::ChannelClosed, "gone"),
    ]);
    assert_eq!(lines.len(), 4);
    assert_eq!(lines[2], "gone");
    assert_eq!(lines[3], "gone");
}
