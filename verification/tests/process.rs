use noalbsgui::process::{LogBuffer, LogStream, LOG_CAP};

#[test]
fn assigns_increasing_seq() {
    let mut b = LogBuffer::default();
    let a = b.push(LogStream::Stdout, "a".into());
    let c = b.push(LogStream::Stderr, "b".into());
    assert_eq!(a.seq, 0);
    assert_eq!(c.seq, 1);
}

#[test]
fn caps_at_log_cap() {
    let mut b = LogBuffer::default();
    for i in 0..(LOG_CAP + 10) {
        b.push(LogStream::Stdout, format!("line {i}"));
    }
    let snap = b.snapshot();
    assert_eq!(snap.len(), LOG_CAP);
    assert_eq!(snap.first().unwrap().seq, 10);
}

#[test]
fn push_returns_the_stored_line() {
    let mut b = LogBuffer::default();
    let l = b.push(LogStream::Stderr, "oops".into());
    assert_eq!(l.text, "oops");
    assert_eq!(l.stream, LogStream::Stderr);
    let snap = b.snapshot();
    assert_eq!(snap.len(), 1);
    assert_eq!(snap[0].text, "oops");
    assert_eq!(b.next_seq(), 1);
}

#[test]
fn clear_keeps_numbering() {
    let mut b = LogBuffer::default();
    b.push(LogStream::Stdout, "a".into());
    b.push(LogStream::Stdout, "b".into());
    b.clear();
    assert!(b.snapshot().is_empty());
    let c = b.push(LogStream::Stdout, "c".into());
    assert_eq!(c.seq, 2);
    assert_eq!(b.snapshot().len(), 1);
}
