use readygate::lines::{mirror_on_event, LineSplitter, LogEvent, MirrorStep};

#[test]
fn lines_come_out_as_chunks_complete_them() {
    let mut splitter = LineSplitter::new();
    assert_eq!(splitter.push(b"foo\nba"), vec![b"foo\n".to_vec()]);
    assert_eq!(
        splitter.push(b"r\nready\n"),
        vec![b"bar\n".to_vec(), b"ready\n".to_vec()]
    );
}

#[test]
fn one_chunk_may_hold_many_lines() {
    let mut splitter = LineSplitter::new();
    assert_eq!(
        splitter.push(b"a\nb\nc\n"),
        vec![b"a\n".to_vec(), b"b\n".to_vec(), b"c\n".to_vec()]
    );
}

#[test]
fn incomplete_tail_stays_buffered() {
    let mut splitter = LineSplitter::new();
    assert_eq!(splitter.push(b"no newline yet"), Vec::<Vec<u8>>::new());
    assert_eq!(splitter.push(b""), Vec::<Vec<u8>>::new());
    assert_eq!(splitter.push(b"!\n"), vec![b"no newline yet!\n".to_vec()]);
}

#[test]
fn empty_lines_are_lines() {
    let mut splitter = LineSplitter::new();
    assert_eq!(splitter.push(b"\n\n"), vec![b"\n".to_vec(), b"\n".to_vec()]);
}

#[test]
fn byte_for_byte_reassembly() {
    let mut splitter = LineSplitter::new();
    let mut seen: Vec<u8> = Vec::new();
    for chunk in [&b"ab"[..], b"c\nde", b"\n", b"fg"] {
        for line in splitter.push(chunk) {
            seen.extend_from_slice(&line);
        }
    }
    assert_eq!(seen, b"abc\nde\n".to_vec());
}

#[test]
fn mirror_forwards_lines_and_finishes_on_close() {
    assert_eq!(
        mirror_on_event(&LogEvent::Line(b"x\n".to_vec())),
        MirrorStep::Forward
    );
    assert_eq!(mirror_on_event(&LogEvent::Closed), MirrorStep::Finish);
}

#[test]
fn mirror_survives_lag() {
    assert_eq!(mirror_on_event(&LogEvent::Lagged(12)), MirrorStep::Resume);
}
