use tf_agent::event::OutputEvent;
use tf_agent::event::StreamKind;
use tf_agent::relay::LineBuffer;

fn lines_of(events: &[OutputEvent]) -> Vec<Vec<u8>> {
    events.iter().map(|e| e.line.clone()).collect()
}

fn contains_slice(haystack: &[u8], needle: &[u8]) -> bool {
    haystack.windows(needle.len()).any(|w| w == needle)
}

#[test]
fn single_line_chunk() {
    let mut lb = LineBuffer::new(StreamKind::Stdout);
    let events = lb.push_chunk(&b"hello\n".to_vec());
    assert_eq!(lines_of(&events), vec![b"hello".to_vec()]);
    assert!(matches!(events[0].stream, StreamKind::Stdout));
    assert!(lb.finish().is_empty());
}

#[test]
fn chunk_split_mid_line() {
    let mut lb = LineBuffer::new(StreamKind::Stderr);
    let mut all: Vec<OutputEvent> = Vec::new();
    all.extend(lb.push_chunk(&b"he".to_vec()));
    all.extend(lb.push_chunk(&b"llo\nwor".to_vec()));
    all.extend(lb.push_chunk(&b"ld\n".to_vec()));
    assert_eq!(lines_of(&all), vec![b"hello".to_vec(), b"world".to_vec()]);
    for e in &all {
        assert!(matches!(e.stream, StreamKind::Stderr));
    }
    assert!(lb.finish().is_empty());
}

#[test]
fn carriage_return_before_newline_dropped() {
    let mut lb = LineBuffer::new(StreamKind::Stdout);
    let events = lb.push_chunk(&b"a\r\nb\n".to_vec());
    assert_eq!(lines_of(&events), vec![b"a".to_vec(), b"b".to_vec()]);
}

#[test]
fn trailing_line_without_newline_delivered_at_end() {
    let mut lb = LineBuffer::new(StreamKind::Stdout);
    let events = lb.push_chunk(&b"done".to_vec());
    assert!(events.is_empty());
    let last = lb.finish();
    assert_eq!(lines_of(&last), vec![b"done".to_vec()]);
}

#[test]
fn trailing_carriage_return_without_newline_kept() {
    let mut lb = LineBuffer::new(StreamKind::Stdout);
    let events = lb.push_chunk(&b"b\r".to_vec());
    assert!(events.is_empty());
    let last = lb.finish();
    assert_eq!(lines_of(&last), vec![b"b\r".to_vec()]);
}

#[test]
fn empty_lines_counted() {
    let mut lb = LineBuffer::new(StreamKind::Stdout);
    let events = lb.push_chunk(&b"\n\n".to_vec());
    assert_eq!(lines_of(&events), vec![Vec::new(), Vec::new()]);
}

#[test]
fn empty_chunk_no_events() {
    let mut lb = LineBuffer::new(StreamKind::Stdout);
    let events = lb.push_chunk(&Vec::new());
    assert!(events.is_empty());
    assert!(lb.finish().is_empty());
}

#[test]
fn stream_counts_and_order() {
    // A tool writing three lines to stdout and two to stderr yields exactly
    // three stdout-tagged and two stderr-tagged events, each stream in its
    // emission order.
    let mut out = LineBuffer::new(StreamKind::Stdout);
    let mut err = LineBuffer::new(StreamKind::Stderr);
    let mut out_events = out.push_chunk(&b"one\ntwo\nthr".to_vec());
    out_events.extend(out.push_chunk(&b"ee\n".to_vec()));
    out_events.extend(out.finish());
    let mut err_events = err.push_chunk(&b"warn a\nwarn b\n".to_vec());
    err_events.extend(err.finish());
    assert_eq!(out_events.len(), 3);
    assert_eq!(err_events.len(), 2);
    assert_eq!(
        lines_of(&out_events),
        vec![b"one".to_vec(), b"two".to_vec(), b"three".to_vec()]
    );
    assert_eq!(lines_of(&err_events), vec![b"warn a".to_vec(), b"warn b".to_vec()]);
    assert!(out_events.iter().all(|e| matches!(e.stream, StreamKind::Stdout)));
    assert!(err_events.iter().all(|e| matches!(e.stream, StreamKind::Stderr)));
}

#[test]
fn relay_never_invents_bytes() {
    // A value that never reached the stream (a credential in the process
    // environment, say) cannot appear in any delivered line.
    let secret = b"s3cr3t-value";
    let mut lb = LineBuffer::new(StreamKind::Stdout);
    let mut events = lb.push_chunk(&b"Apply complete!\nResources: 1 added\npartial".to_vec());
    events.extend(lb.finish());
    assert_eq!(events.len(), 3);
    for e in &events {
        assert!(!contains_slice(&e.line, secret));
    }
}
