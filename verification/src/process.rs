//! The bounded buffer of recent noalbs log lines.
use std::collections::VecDeque;

use vstd::prelude::*;

verus! {

/// How many log lines the buffer keeps.
pub const LOG_CAP: usize = 5000;

/// The output stream a log line came from.
#[derive(Debug, Clone, Copy, PartialEq, Eq, Structural)]
pub enum LogStream {
    Stdout,
    Stderr,
}

/// One captured log line, numbered in capture order.
#[derive(Debug, Clone)]
pub struct LogLine {
    pub seq: u64,
    pub stream: LogStream,
    pub text: String,
}

impl LogLine {
    /// A copy of this line.
    pub fn duplicate(&self) -> (r: Self)
        ensures
            r == *self,
    {
        LogLine { seq: self.seq, stream: self.stream, text: self.text.clone() }
    }
}

/// The lines a buffer holds and the number the next line will get.
pub open spec fn log_ok(lines: Seq<LogLine>, next: u64) -> bool {
    &&& lines.len() <= LOG_CAP
    &&& lines.len() <= next
    &&& forall|i: int| 0 <= i < lines.len() ==> #[trigger] lines[i].seq == next - lines.len() + i
}

/// The lines after one more line is captured: the new line gets number
/// `next`, and the oldest line goes when more than `LOG_CAP` would be kept.
pub open spec fn pushed(lines: Seq<LogLine>, next: u64, line: LogLine) -> Seq<LogLine> {
    let all = lines.push(line);
    if all.len() > LOG_CAP {
        all.subrange(all.len() - LOG_CAP, all.len() as int)
    } else {
        all
    }
}

/// Bounded buffer of recent log lines.
pub struct LogBuffer {
    lines: VecDeque<LogLine>,
    next_seq: u64,
}

impl View for LogBuffer {
    type V = (Seq<LogLine>, u64);

    closed spec fn view(&self) -> (Seq<LogLine>, u64) {
        (self.lines@, self.next_seq)
    }
}

impl LogBuffer {
    #[verifier::type_invariant]
    spec fn inv(self) -> bool {
        log_ok(self.lines@, self.next_seq)
    }

    /// The number the next captured line will get.
    pub fn next_seq(&self) -> (r: u64)
        ensures
            r == self@.1,
    {
        self.next_seq
    }

    pub fn push(&mut self, stream: LogStream, text: String) -> (r: LogLine)
        requires
            old(self)@.1 < u64::MAX,
        ensures
            r == (LogLine { seq: old(self)@.1, stream, text }),
            final(self)@ == (pushed(old(self)@.0, old(self)@.1, r), (old(self)@.1 + 1) as u64),
            log_ok(final(self)@.0, final(self)@.1),
            old(self)@.0.len() < LOG_CAP ==> final(self)@.0 == old(self)@.0.push(r),
            old(self)@.0.len() >= LOG_CAP ==> final(self)@.0 == old(self)@.0.drop_first().push(r),
    {
        proof {
            use_type_invariant(&*self);
        }
        let line = LogLine { seq: self.next_seq, stream, text };
        let ghost before = self.lines@;
        let ghost all = self.lines@.push(line);
        let mut lines: VecDeque<LogLine> = VecDeque::new();
        std::mem::swap(&mut lines, &mut self.lines);
        lines.push_back(line.duplicate());
        if lines.len() > LOG_CAP {
            lines.pop_front();
            assert(lines@ =~= all.subrange(all.len() - LOG_CAP, all.len() as int));
        }
        assert(log_ok(lines@, (self.next_seq + 1) as u64));
        assert(all.len() > LOG_CAP ==> lines@ =~= before.drop_first().push(line));
        let next = self.next_seq + 1;
        *self = LogBuffer { lines, next_seq: next };
        line
    }

    /// The lines held, oldest first; they are numbered consecutively and the
    /// last one has the number just before `next_seq`.
    pub fn snapshot(&self) -> (r: Vec<LogLine>)
        ensures
            r@ == self@.0,
            log_ok(r@, self@.1),
    {
        proof {
            use_type_invariant(self);
        }
        let mut r: Vec<LogLine> = Vec::new();
        let mut i: usize = 0;
        while i < self.lines.len()
            invariant
                i <= self.lines@.len(),
                r@ == self.lines@.take(i as int),
            decreases self.lines@.len() - i,
        {
            r.push(self.lines[i].duplicate());
            i = i + 1;
            assert(r@ =~= self.lines@.take(i as int));
        }
        assert(self.lines@.take(self.lines@.len() as int) =~= self.lines@);
        r
    }

    /// Forgets the lines held; numbering goes on where it was.
    pub fn clear(&mut self)
        ensures
            final(self)@ == (Seq::<LogLine>::empty(), old(self)@.1),
    {
        let mut lines: VecDeque<LogLine> = VecDeque::new();
        std::mem::swap(&mut lines, &mut self.lines);
    }
}

impl Default for LogBuffer {
    fn default() -> (r: Self)
        ensures
            r@ == (Seq::<LogLine>::empty(), 0u64),
    {
        LogBuffer { lines: VecDeque::new(), next_seq: 0 }
    }
}

} // verus!
