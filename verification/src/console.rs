//! The editor's console: a bounded log of messages.

use vstd::prelude::*;

verus! {

#[derive(Clone, Copy, Debug, PartialEq, Eq, Structural)]
pub enum LogLevel {
    Info,
    Warn,
    Error,
}

#[derive(Clone, Debug)]
pub struct LogEntry {
    pub level: LogLevel,
    pub message: String,
}

/// How many entries a log keeps: past it, the oldest goes.
pub const LOG_CAPACITY: usize = 200;

pub struct ConsoleLog {
    pub entries: Vec<LogEntry>,
    pub show: bool,
}

/// The entries of a log as `(level, text)` pairs.
pub open spec fn entries_view(v: Seq<LogEntry>) -> Seq<(LogLevel, Seq<char>)> {
    v.map_values(|e: LogEntry| (e.level, e.message@))
}

/// The mathematical value of a console log.
pub struct ConsoleView {
    pub entries: Seq<(LogLevel, Seq<char>)>,
    pub show: bool,
}

impl View for ConsoleLog {
    type V = ConsoleView;

    open spec fn view(&self) -> ConsoleView {
        ConsoleView { entries: entries_view(self.entries@), show: self.show }
    }
}

/// Appending a message: it goes at the end, and the oldest entry is dropped
/// when the log grows past `LOG_CAPACITY`.
pub open spec fn spec_log(c: ConsoleView, level: LogLevel, msg: Seq<char>) -> ConsoleView {
    let e = c.entries.push((level, msg));
    ConsoleView { entries: if e.len() > LOG_CAPACITY { e.drop_first() } else { e }, show: c.show }
}

impl Default for ConsoleLog {
    /// A shown log of up to 200 entries that starts with one greeting line.
    fn default() -> (r: Self)
        ensures
            r@ == (ConsoleView { entries: seq![(LogLevel::Info, "Editor initialized."@)], show: true }),
    {
        let mut entries: Vec<LogEntry> = Vec::new();
        entries.push(LogEntry { level: LogLevel::Info, message: String::from_str("Editor initialized.") });
        let r = ConsoleLog { entries, show: true };
        proof {
            assert(entries_view(r.entries@) =~= seq![(LogLevel::Info, "Editor initialized."@)]);
        }
        r
    }
}

impl ConsoleLog {
    pub fn log(&mut self, level: LogLevel, msg: String)
        ensures
            final(self)@ == spec_log(old(self)@, level, msg@),
    {
        let ghost before = self.entries@;
        self.entries.push(LogEntry { level, message: msg });
        proof {
            assert(entries_view(self.entries@) =~= entries_view(before).push((level, msg@)));
        }
        if self.entries.len() > LOG_CAPACITY {
            let ghost pushed = self.entries@;
            self.entries.remove(0);
            proof {
                assert(entries_view(self.entries@) =~= entries_view(pushed).drop_first());
            }
        }
    }

    pub fn info(&mut self, msg: String)
        ensures
            final(self)@ == spec_log(old(self)@, LogLevel::Info, msg@),
    {
        self.log(LogLevel::Info, msg);
    }

    pub fn warn(&mut self, msg: String)
        ensures
            final(self)@ == spec_log(old(self)@, LogLevel::Warn, msg@),
    {
        self.log(LogLevel::Warn, msg);
    }

    /// Empty the log; its visibility stays.
    pub fn clear(&mut self)
        ensures
            final(self)@ == (ConsoleView { entries: seq![], ..old(self)@ }),
    {
        self.entries.clear();
        proof {
            assert(entries_view(self.entries@) =~= seq![]);
        }
    }

    pub fn error(&mut self, msg: String)
        ensures
            final(self)@ == spec_log(old(self)@, LogLevel::Error, msg@),
    {
        self.log(LogLevel::Error, msg);
    }
}

/// The tag and colour a console line shows for its level.
pub fn level_style(level: LogLevel) -> (r: (&'static str, (u8, u8, u8)))
    ensures
        r.0@ == match level {
            LogLevel::Info => "[INFO]"@,
            LogLevel::Warn => "[WARN]"@,
            LogLevel::Error => "[ERR] "@,
        },
        r.1 == match level {
            LogLevel::Info => (160u8, 200u8, 160u8),
            LogLevel::Warn => (230u8, 200u8, 80u8),
            LogLevel::Error => (230u8, 90u8, 90u8),
        },
{
    match level {
        LogLevel::Info => ("[INFO]", (160, 200, 160)),
        LogLevel::Warn => ("[WARN]", (230, 200, 80)),
        LogLevel::Error => ("[ERR] ", (230, 90, 90)),
    }
}

/// Logging keeps the last `min(n + 1, 200)` of the `n` entries and the new
/// message, oldest dropped first, and leaves visibility alone; a log of at
/// most 200 entries stays so.
pub proof fn law_log_bounded(c: ConsoleView, level: LogLevel, msg: Seq<char>)
    ensures
        ({
            let all = c.entries.push((level, msg));
            let n = if all.len() <= LOG_CAPACITY { all.len() as int } else { LOG_CAPACITY as int };
            &&& c.entries.len() <= LOG_CAPACITY ==> spec_log(c, level, msg).entries.len() == n
            &&& c.entries.len() <= LOG_CAPACITY ==> spec_log(c, level, msg).entries == all.subrange(all.len() - n, all.len() as int)
            &&& spec_log(c, level, msg).entries.last() == (level, msg)
            &&& spec_log(c, level, msg).show == c.show
        }),
{
    let all = c.entries.push((level, msg));
    if all.len() > LOG_CAPACITY {
        assert(all.drop_first() =~= all.subrange(1, all.len() as int));
    } else {
        assert(all =~= all.subrange(0, all.len() as int));
    }
}

} // verus!
