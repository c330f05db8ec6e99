use vstd::prelude::*;

verus! {

/// Which phase of the engine produced a diagnostic line.
#[derive(Clone, Copy, PartialEq, Eq, Structural, Debug)]
pub enum LogKind {
    Parse,
    Lex,
}

/// One diagnostic line handed to the logger during a parse.
#[derive(Debug)]
pub struct LogEntry {
    pub kind: LogKind,
    pub message: String,
}

/// An optional diagnostic sink: the engine appends entries synchronously,
/// zero or more times per parse call, and the caller reads them back.
#[derive(Debug)]
pub struct Logger {
    entries: Vec<LogEntry>,
}

impl Logger {
    /// The entries recorded so far, oldest first.
    pub closed spec fn log(self) -> Seq<LogEntry> {
        self.entries@
    }

    pub fn new() -> (r: Logger)
        ensures
            r.log() == Seq::<LogEntry>::empty(),
    {
        Logger { entries: Vec::new() }
    }

    /// Appends one diagnostic line; entries are kept in arrival order.
    pub fn record(&mut self, kind: LogKind, message: String)
        ensures
            final(self).log() == old(self).log().push(LogEntry { kind, message }),
    {
        self.entries.push(LogEntry { kind, message });
    }

    pub fn len(&self) -> (r: usize)
        ensures
            r == self.log().len(),
    {
        self.entries.len()
    }

    /// The entry at the given position, oldest first.
    pub fn entry(&self, i: usize) -> (r: &LogEntry)
        requires
            i < self.log().len(),
        ensures
            *r == self.log()[i as int],
    {
        &self.entries[i]
    }
}

} // verus!
