use std::sync::mpsc::channel;

use http_logger::{ingest, open_failure, Report, Writer, WriterAction, WriterEvent, WriterState};

fn drain(writer: &mut Writer, lines: Vec<String>, fail_at: Option<usize>) -> (Vec<String>, Vec<String>) {
    let mut file = Vec::new();
    let mut diagnostics = Vec::new();
    let mut pending = lines.into_iter();
    let mut action = writer.awaited();
    let mut writes = 0;
    loop {
        let event = match action {
            WriterAction::Open => WriterEvent::Opened,
            WriterAction::Receive => match pending.next() {
                Some(l) => WriterEvent::Received(l),
                None => WriterEvent::EndOfStream,
            },
            WriterAction::Write(l) => {
                let n = writes;
                writes += 1;
                if Some(n) == fail_at {
                    WriterEvent::Wrote(Err("No space left on device".to_string()))
                } else {
                    file.push(l);
                    WriterEvent::Wrote(Ok(()))
                }
            }
            WriterAction::Flush => WriterEvent::Flushed(Ok(())),
            WriterAction::Abort(_) | WriterAction::Stop => break,
        };
        let step = writer.step(event);
        if let Some(r) = step.report {
            diagnostics.push(r.describe("/var/log/js.log"));
        }
        action = step.action;
    }
    (file, diagnostics)
}

#[test]
fn concurrent_requests_each_land_once() {
    let (tx, rx) = channel::<String>();
    let n = 20;
    for k in 0..n {
        let sender = tx.clone();
        let f = vec![("info".to_string(), format!("message {}", k))];
        ingest(&f, &sender);
    }
    drop(tx);
    let received: Vec<String> = rx.iter().collect();
    let mut writer = Writer::new();
    let (file, diagnostics) = drain(&mut writer, received, None);
    assert!(diagnostics.is_empty());
    assert_eq!(file.len(), n);
    for k in 0..n {
        let suffix = format!("[INFO] message {}\n", k);
        assert_eq!(file.iter().filter(|l| l.ends_with(&suffix)).count(), 1);
    }
    assert!(matches!(writer.state, WriterState::Terminated));
}

#[test]
fn failed_write_is_dropped_and_reported() {
    let lines = vec!["a\n".to_string(), "b\n".to_string(), "c\n".to_string()];
    let mut writer = Writer::new();
    let (file, diagnostics) = drain(&mut writer, lines, Some(1));
    assert_eq!(file, vec!["a\n".to_string(), "c\n".to_string()]);
    assert_eq!(
        diagnostics,
        vec!["Error while writing to a log file: /var/log/js.log, reason: No space left on device".to_string()]
    );
}

#[test]
fn failed_flush_is_reported_and_writer_goes_on() {
    let mut writer = Writer::new();
    writer.step(WriterEvent::Opened);
    writer.step(WriterEvent::Received("x\n".to_string()));
    writer.step(WriterEvent::Wrote(Ok(())));
    let step = writer.step(WriterEvent::Flushed(Err("io".to_string())));
    assert!(matches!(step.action, WriterAction::Receive));
    let text = step.report.unwrap().describe("log.txt");
    assert_eq!(text, "Error while flushing file: log.txt, reason: io");
}

#[test]
fn open_failure_aborts() {
    let mut writer = Writer::new();
    assert!(matches!(writer.awaited(), WriterAction::Open));
    let step = writer.step(WriterEvent::OpenFailed("denied".to_string()));
    match step.action {
        WriterAction::Abort(reason) => assert_eq!(open_failure("x.log", &reason), "Unable to open log file x.log. Reason: denied"),
        _ => panic!("expected abort"),
    }
    assert!(matches!(writer.state, WriterState::Terminated));
}

#[test]
fn unexpected_event_changes_nothing() {
    let mut writer = Writer::new();
    let step = writer.step(WriterEvent::EndOfStream);
    assert!(matches!(step.action, WriterAction::Open));
    assert!(step.report.is_none());
    assert!(matches!(writer.state, WriterState::Starting));
    let r = Report::WriteFailed("w".to_string());
    assert_eq!(r.describe("p"), "Error while writing to a log file: p, reason: w");
}
