//! The in-page log shown to the user: numbered entries with a level.
use vstd::prelude::*;

verus! {

#[derive(Debug, Clone, Copy, PartialEq, Eq, Structural)]
pub enum Level {
    Debug,
    Info,
    Success,
    Error,
}

impl Level {
    /// The tag printed before a message of this level.
    pub fn label(&self) -> (r: &'static str)
        ensures
            r@ == match *self {
                Level::Debug => "DEBUG"@,
                Level::Info => "INFO"@,
                Level::Success => "OK"@,
                Level::Error => "ERR"@,
            },
    {
        match self {
            Level::Debug => "DEBUG",
            Level::Info => "INFO",
            Level::Success => "OK",
            Level::Error => "ERR",
        }
    }
}

impl Default for Level {
    fn default() -> (r: Level)
        ensures
            r == Level::Debug,
    {
        Level::Debug
    }
}

#[derive(Debug, Clone, PartialEq)]
pub struct Entry {
    pub id: usize,
    pub timestamp: u64,
    pub level: Level,
    pub message: String,
}

#[derive(Debug, Clone)]
pub struct ConsoleState {
    pub history: Vec<Entry>,
}

/// Every entry is numbered by its position in the history.
pub open spec fn numbered(history: Seq<Entry>) -> bool {
    forall|k: int| 0 <= k < history.len() ==> #[trigger] history[k].id == k
}

impl ConsoleState {
    pub fn new() -> (r: ConsoleState)
        ensures
            r.history@.len() == 0,
    {
        ConsoleState { history: Vec::new() }
    }

    /// Append a message; its number is the count of earlier entries, so the
    /// numbering by position is kept.
    pub fn record(&mut self, timestamp: u64, level: Level, message: String)
        ensures
            final(self).history@ == old(self).history@.push(
                Entry { id: old(self).history@.len() as usize, timestamp, level, message },
            ),
            numbered(old(self).history@) ==> numbered(final(self).history@),
    {
        let entry = Entry { id: self.history.len(), timestamp, level, message };
        self.history.push(entry);
    }
}

impl Default for ConsoleState {
    fn default() -> (r: ConsoleState)
        ensures
            r.history@.len() == 0,
    {
        ConsoleState::new()
    }
}

} // verus!
