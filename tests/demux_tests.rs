use rkbuild::demux::LineSplitter;
use rkbuild::log::{Log, LogOp};

fn s(x: &str) -> String {
    x.to_string()
}

#[test]
fn progress_snapshots_collapse_before_newline() {
    let mut log = Log::new();
    let mut splitter = LineSplitter::new();
    splitter.feed_all(&mut log, b"50%\r75%\r100%\ndone\n");
    assert_eq!(log.draw(10), vec![s("100%"), s("done")]);
}

#[test]
fn carriage_return_overwrites_previous_line() {
    let mut log = Log::new();
    let mut splitter = LineSplitter::new();
    splitter.feed_all(&mut log, b"start\n10%\r20%\r");
    assert_eq!(log.draw(10), vec![s("20%")]);
}

#[test]
fn partial_trailing_line_is_not_flushed() {
    let mut log = Log::new();
    let mut splitter = LineSplitter::new();
    splitter.feed_all(&mut log, b"one\ntwo");
    assert_eq!(log.draw(10), vec![s("one")]);
}

#[test]
fn chunks_continue_the_pending_line() {
    let mut log = Log::new();
    let mut splitter = LineSplitter::new();
    splitter.feed_all(&mut log, b"hel");
    splitter.feed_all(&mut log, b"lo\n");
    assert_eq!(log.draw(10), vec![s("hello")]);
}

#[test]
fn feed_reports_line_ends() {
    let mut splitter = LineSplitter::new();
    assert!(splitter.feed(b'a').is_none());
    match splitter.feed(b'\n') {
        Some(LogOp::Append(line)) => assert_eq!(line, "a"),
        _ => panic!("expected an appended line"),
    }
    assert!(splitter.feed(b'b').is_none());
    match splitter.feed(b'\r') {
        Some(LogOp::ReplaceNewest(line)) => assert_eq!(line, "b"),
        _ => panic!("expected a replaced line"),
    }
}

#[test]
fn bytes_become_latin1_characters() {
    let mut log = Log::new();
    let mut splitter = LineSplitter::new();
    splitter.feed_all(&mut log, &[0xe9, b'\n']);
    assert_eq!(log.draw(10), vec![s("\u{e9}")]);
}

#[test]
fn empty_lines_are_kept() {
    let mut log = Log::new();
    let mut splitter = LineSplitter::new();
    splitter.feed_all(&mut log, b"\n\n");
    assert_eq!(log.draw(10), vec![s(""), s("")]);
}
