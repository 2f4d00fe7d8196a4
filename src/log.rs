//! A bounded log of setup messages: the oldest lines leave once it is full.
use std::collections::VecDeque;
use vstd::prelude::*;

verus! {

#[derive(Clone, Copy, Debug, PartialEq, Eq, Structural)]
pub enum LogLevel {
    Info,
    Warning,
    Error,
}

#[derive(Clone, Debug)]
pub struct LogLine(pub LogLevel, pub String);

pub struct LogBuffer {
    max_lines: usize,
    lines: VecDeque<LogLine>,
}

impl LogBuffer {
    /// The lines held, oldest first.
    pub closed spec fn lines_spec(&self) -> Seq<LogLine> {
        self.lines@
    }

    pub closed spec fn max_lines_spec(&self) -> nat {
        self.max_lines as nat
    }

    /// The buffer holds at most `max_lines` lines.
    pub open spec fn wf(&self) -> bool {
        1 <= self.max_lines_spec() && self.lines_spec().len() <= self.max_lines_spec()
    }

    /// An empty log that keeps the last `max_lines` lines.
    pub fn new(max_lines: usize) -> (r: LogBuffer)
        ensures
            max_lines >= 1 ==> r.wf(),
            r.max_lines_spec() == max_lines,
            r.lines_spec().len() == 0,
    {
        LogBuffer { max_lines, lines: VecDeque::new() }
    }

    pub fn max_lines(&self) -> (r: usize)
        ensures
            r == self.max_lines_spec(),
    {
        self.max_lines
    }

    pub fn len(&self) -> (r: usize)
        ensures
            r == self.lines_spec().len(),
    {
        self.lines.len()
    }

    pub fn clear(&mut self)
        ensures
            final(self).lines_spec().len() == 0,
            final(self).max_lines_spec() == old(self).max_lines_spec(),
    {
        self.lines.clear();
    }

    /// Appends a line, dropping the oldest one where the log is full.
    pub fn add_line(&mut self, line: LogLine)
        requires
            old(self).wf(),
        ensures
            final(self).wf(),
            final(self).max_lines_spec() == old(self).max_lines_spec(),
            final(self).lines_spec() == if old(self).lines_spec().len() >= old(
                self,
            ).max_lines_spec() {
                old(self).lines_spec().drop_first()
            } else {
                old(self).lines_spec()
            }.push(line),
    {
        if self.lines.len() >= self.max_lines {
            self.lines.pop_front();
        }
        self.lines.push_back(line);
        proof {
            let old_lines = old(self).lines_spec();
            let kept = if old_lines.len() >= old(self).max_lines_spec() {
                old_lines.drop_first()
            } else {
                old_lines
            };
            assert(self.lines_spec() =~= kept.push(line));
        }
    }
}

} // verus!
