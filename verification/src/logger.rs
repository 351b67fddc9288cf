//! The in-memory application log: the most recent entries, oldest first,
//! up to a fixed capacity.
use vstd::prelude::*;
use crate::text::push_str;

verus! {

/// Severity of a log entry.
#[derive(Debug, Clone, Copy, PartialEq, Eq)]
pub enum LogLevel {
    Info,
    Warning,
    Error,
    Debug,
    Activity,
}

/// One log entry.
#[derive(Debug)]
pub struct LogEntry {
    pub timestamp: String,
    pub level: LogLevel,
    pub module: String,
    pub message: String,
}

/// The label a level is printed with.
pub open spec fn level_label(l: LogLevel) -> Seq<char> {
    match l {
        LogLevel::Info => "INFO"@,
        LogLevel::Warning => "WARN"@,
        LogLevel::Error => "ERROR"@,
        LogLevel::Debug => "DEBUG"@,
        LogLevel::Activity => "ACTIVITY"@,
    }
}

impl LogLevel {
    /// The label the level is printed with.
    pub fn to_string(&self) -> (s: String)
        ensures
            s@ == level_label(*self),
    {
        match self {
            LogLevel::Info => String::from_str("INFO"),
            LogLevel::Warning => String::from_str("WARN"),
            LogLevel::Error => String::from_str("ERROR"),
            LogLevel::Debug => String::from_str("DEBUG"),
            LogLevel::Activity => String::from_str("ACTIVITY"),
        }
    }
}

impl LogEntry {
    /// An exact copy.
    pub fn duplicate(&self) -> (r: LogEntry)
        ensures
            r == *self,
    {
        LogEntry {
            timestamp: self.timestamp.clone(),
            level: self.level,
            module: self.module.clone(),
            message: self.message.clone(),
        }
    }
}

/// Entries kept at most.
pub const MAX_LOG_ENTRIES: usize = 1000;

/// The log. Holds at most `MAX_LOG_ENTRIES` entries, oldest first.
pub struct Logger {
    pub entries: Vec<LogEntry>,
}

/// The console line for an entry: `[time] [LEVEL] module: message`.
pub open spec fn console_line(e: LogEntry) -> Seq<char> {
    "["@ + e.timestamp@ + "] ["@ + level_label(e.level) + "] "@ + e.module@ + ": "@ + e.message@
}

/// The local time as `YYYY-MM-DD HH:MM:SS.mmm`: the system clock
/// (`SystemTime::now`) turned into a chrono `DateTime<Local>` by its
/// `From<SystemTime>` conversion, then formatted. Unlike `Local::now`, the
/// conversion does not panic on a clock set before the Unix epoch; it
/// panics only for a time beyond chrono's range (years -262143 to 262142),
/// which the system clock cannot reach. Nothing is claimed of the text: it
/// depends on the clock and time zone.
#[verifier::external_body]
fn local_timestamp() -> (s: String) {
    chrono::DateTime::<chrono::Local>::from(std::time::SystemTime::now()).format("%Y-%m-%d %H:%M:%S%.3f").to_string()
}

/// Copies of the entries `v[from..]`.
fn copy_entries(v: &Vec<LogEntry>, from: usize) -> (r: Vec<LogEntry>)
    requires
        from <= v@.len(),
    ensures
        r@ == v@.subrange(from as int, v@.len() as int),
{
    let mut r: Vec<LogEntry> = Vec::new();
    let mut i = from;
    while i < v.len()
        invariant
            from <= i <= v@.len(),
            r@ == v@.subrange(from as int, i as int),
        decreases v@.len() - i,
    {
        r.push(v[i].duplicate());
        i = i + 1;
        proof {
            assert(r@ =~= v@.subrange(from as int, i as int));
        }
    }
    r
}

impl Logger {
    /// The log holds at most `MAX_LOG_ENTRIES` entries.
    pub open spec fn wf(&self) -> bool {
        self.entries@.len() <= MAX_LOG_ENTRIES
    }

    /// An empty log.
    pub fn new() -> (l: Logger)
        ensures
            l.entries@.len() == 0,
            l.wf(),
    {
        Logger { entries: Vec::new() }
    }

    /// Appends an entry, dropping the oldest one when the log is full.
    /// Returns the console line for it.
    pub fn push_entry(&mut self, entry: LogEntry) -> (line: String)
        requires
            old(self).wf(),
        ensures
            final(self).wf(),
            line@ == console_line(entry),
            old(self).entries@.len() < MAX_LOG_ENTRIES ==> final(self).entries@ == old(self).entries@.push(entry),
            old(self).entries@.len() >= MAX_LOG_ENTRIES ==> final(self).entries@ == old(self).entries@.drop_first().push(entry),
    {
        let mut line = String::from_str("[");
        push_str(&mut line, entry.timestamp.as_str());
        push_str(&mut line, "] [");
        let label = entry.level.to_string();
        push_str(&mut line, label.as_str());
        push_str(&mut line, "] ");
        push_str(&mut line, entry.module.as_str());
        push_str(&mut line, ": ");
        push_str(&mut line, entry.message.as_str());
        proof {
            assert(line@ =~= console_line(entry));
        }
        if self.entries.len() >= MAX_LOG_ENTRIES {
            self.entries.remove(0);
        }
        self.entries.push(entry);
        proof {
            if old(self).entries@.len() >= MAX_LOG_ENTRIES {
                assert(self.entries@ =~= old(self).entries@.drop_first().push(entry));
            }
        }
        line
    }

    /// Logs a message stamped with the local time; returns the console line.
    pub fn log_message(&mut self, level: LogLevel, module: &str, message: &str) -> (line: String)
        requires
            old(self).wf(),
        ensures
            final(self).wf(),
            final(self).entries@.len() > 0,
            final(self).entries@.last().level == level,
            final(self).entries@.last().module@ == module@,
            final(self).entries@.last().message@ == message@,
            line@ == console_line(final(self).entries@.last()),
            final(self).entries@.drop_last() == (if old(self).entries@.len() < MAX_LOG_ENTRIES {
                old(self).entries@
            } else {
                old(self).entries@.drop_first()
            }),
    {
        let entry = LogEntry {
            timestamp: local_timestamp(),
            level,
            module: String::from_str(module),
            message: String::from_str(message),
        };
        let line = self.push_entry(entry);
        proof {
            if old(self).entries@.len() < MAX_LOG_ENTRIES {
                assert(self.entries@.drop_last() =~= old(self).entries@);
            } else {
                assert(self.entries@.drop_last() =~= old(self).entries@.drop_first());
            }
        }
        line
    }

    /// All entries, oldest first.
    pub fn get_logs(&self) -> (r: Vec<LogEntry>)
        ensures
            r@ == self.entries@,
    {
        let r = copy_entries(&self.entries, 0);
        proof {
            assert(self.entries@.subrange(0, self.entries@.len() as int) =~= self.entries@);
        }
        r
    }

    /// The last `count` entries (all of them when there are fewer), oldest
    /// first.
    pub fn get_recent_logs(&self, count: usize) -> (r: Vec<LogEntry>)
        ensures
            r@ == self.entries@.subrange(
                if count >= self.entries@.len() { 0 } else { self.entries@.len() - count },
                self.entries@.len() as int,
            ),
    {
        let n = self.entries.len();
        let from = if count >= n { 0 } else { n - count };
        copy_entries(&self.entries, from)
    }

    /// Empties the log.
    pub fn clear_logs(&mut self)
        ensures
            final(self).entries@.len() == 0,
            final(self).wf(),
    {
        self.entries.clear();
    }
}

/// The recent entries are the tail of all entries: asking for the last
/// `count` gives the last `count` of the full list, in the same order.
pub proof fn lemma_recent_logs_are_suffix(all: Seq<LogEntry>, count: nat)
    ensures
        ({
            let recent = all.subrange(if count >= all.len() { 0 } else { all.len() - count }, all.len() as int);
            &&& recent.len() == if count >= all.len() { all.len() } else { count }
            &&& all.subrange(all.len() - recent.len(), all.len() as int) == recent
        }),
{
}


/// Logs a message (see `Logger::log_message`).
pub fn log_message(logger: &mut Logger, level: LogLevel, module: &str, message: &str) -> (line: String)
    requires
        old(logger).wf(),
    ensures
        final(logger).wf(),
        final(logger).entries@.len() > 0,
        final(logger).entries@.last().level == level,
        final(logger).entries@.last().module@ == module@,
        final(logger).entries@.last().message@ == message@,
        line@ == console_line(final(logger).entries@.last()),
        final(logger).entries@.drop_last() == (if old(logger).entries@.len() < MAX_LOG_ENTRIES {
            old(logger).entries@
        } else {
            old(logger).entries@.drop_first()
        }),
{
    logger.log_message(level, module, message)
}

/// All entries, oldest first.
pub fn get_logs(logger: &Logger) -> (r: Vec<LogEntry>)
    ensures
        r@ == logger.entries@,
{
    logger.get_logs()
}

/// The last `count` entries, oldest first.
pub fn get_recent_logs(logger: &Logger, count: usize) -> (r: Vec<LogEntry>)
    ensures
        r@ == logger.entries@.subrange(
            if count >= logger.entries@.len() { 0 } else { logger.entries@.len() - count },
            logger.entries@.len() as int,
        ),
{
    logger.get_recent_logs(count)
}

/// Empties the log.
pub fn clear_logs(logger: &mut Logger)
    ensures
        final(logger).entries@.len() == 0,
{
    logger.clear_logs();
}

} // verus!
