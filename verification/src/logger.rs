//! Logging rules: levels, which messages a logger lets through, the line it
//! writes for each, and positional message templates.
use vstd::prelude::*;
use crate::text::{chars_of, digits, push_digits, replace_all, replace_all_exec, string_from};

verus! {

/// Log levels, from the most to the least severe.
#[derive(Debug, Clone, Copy, PartialEq, Eq, Structural, PartialOrd, Ord, Hash)]
pub enum LogLevel {
    Error,
    Warn,
    Info,
    Debug,
}

/// The position of a level in the order Error < Warn < Info < Debug.
pub open spec fn level_rank(level: LogLevel) -> nat {
    match level {
        LogLevel::Error => 0,
        LogLevel::Warn => 1,
        LogLevel::Info => 2,
        LogLevel::Debug => 3,
    }
}

/// The name of a level as log lines show it.
pub open spec fn level_name(level: LogLevel) -> Seq<char> {
    match level {
        LogLevel::Error => "ERROR"@,
        LogLevel::Warn => "WARN"@,
        LogLevel::Info => "INFO"@,
        LogLevel::Debug => "DEBUG"@,
    }
}

impl LogLevel {
    /// The position of the level in the order Error < Warn < Info < Debug.
    pub fn rank(&self) -> (r: u8)
        ensures
            r == level_rank(*self),
    {
        match self {
            LogLevel::Error => 0,
            LogLevel::Warn => 1,
            LogLevel::Info => 2,
            LogLevel::Debug => 3,
        }
    }

    /// The level's name: "ERROR", "WARN", "INFO" or "DEBUG".
    pub fn to_string(&self) -> (s: String)
        ensures
            s@ == level_name(*self),
    {
        match self {
            LogLevel::Error => "ERROR".to_owned(),
            LogLevel::Warn => "WARN".to_owned(),
            LogLevel::Info => "INFO".to_owned(),
            LogLevel::Debug => "DEBUG".to_owned(),
        }
    }
}

/// A logger: a level and a prefix put in front of every line.
#[derive(Debug, Clone)]
pub struct Logger {
    level: LogLevel,
    prefix: String,
}

/// A message at `message_level` passes a logger set to `logger_level` when it
/// is at least as severe.
pub open spec fn passes(message_level: LogLevel, logger_level: LogLevel) -> bool {
    level_rank(message_level) <= level_rank(logger_level)
}

/// The line a logger with `prefix` writes for a message: "<prefix> [<LEVEL>] <message>".
pub open spec fn log_line(prefix: Seq<char>, level: LogLevel, message: Seq<char>) -> Seq<char> {
    prefix + " ["@ + level_name(level) + "] "@ + message
}

/// The placeholder of argument `i` in a template: "{i}".
pub open spec fn placeholder(i: nat) -> Seq<char> {
    seq!['{'] + digits(i) + seq!['}']
}

/// A template with its placeholders "{0}", "{1}", ... replaced in turn by the
/// arguments: first every "{0}" by the first argument, then every "{1}" in the
/// result by the second, and so on.
pub open spec fn format_message_text(template: Seq<char>, args: Seq<Seq<char>>) -> Seq<char>
    decreases args.len(),
{
    if args.len() == 0 {
        template
    } else {
        replace_all(
            format_message_text(template, args.drop_last()),
            placeholder((args.len() - 1) as nat),
            args.last(),
        )
    }
}

impl Logger {
    pub closed spec fn spec_level(&self) -> LogLevel {
        self.level
    }

    pub closed spec fn spec_prefix(&self) -> Seq<char> {
        self.prefix@
    }

    /// A logger at `level` with the prefix "[LMStudio]".
    pub fn new(level: LogLevel) -> (l: Logger)
        ensures
            l.spec_level() == level,
            l.spec_prefix() == "[LMStudio]"@,
    {
        Logger { level, prefix: "[LMStudio]".to_owned() }
    }

    /// A logger at `level` with the given prefix.
    pub fn with_prefix(level: LogLevel, prefix: &str) -> (l: Logger)
        ensures
            l.spec_level() == level,
            l.spec_prefix() == prefix@,
    {
        Logger { level, prefix: prefix.to_owned() }
    }

    /// Sets the level; the prefix stays.
    pub fn set_level(&mut self, level: LogLevel)
        ensures
            final(self).spec_level() == level,
            final(self).spec_prefix() == old(self).spec_prefix(),
    {
        self.level = level;
    }

    /// The current level.
    pub fn level(&self) -> (l: LogLevel)
        ensures
            l == self.spec_level(),
    {
        self.level
    }

    /// The prefix put in front of every line.
    pub fn prefix(&self) -> (p: &str)
        ensures
            p@ == self.spec_prefix(),
    {
        self.prefix.as_str()
    }

    /// Whether messages at `level` are written: those at least as severe as
    /// the logger's level.
    pub fn is_enabled(&self, level: LogLevel) -> (b: bool)
        ensures
            b == passes(level, self.spec_level()),
    {
        level.rank() <= self.level.rank()
    }

    /// The line written for `message` at `level`, or `None` when the level is
    /// not enabled.
    pub fn line(&self, level: LogLevel, message: &str) -> (r: Option<String>)
        ensures
            match r {
                Some(s) => passes(level, self.spec_level()) && s@ == log_line(
                    self.spec_prefix(),
                    level,
                    message@,
                ),
                None => !passes(level, self.spec_level()),
            },
    {
        if !self.is_enabled(level) {
            return None;
        }
        let mut s = self.prefix.clone();
        s.append(" [");
        let name = level.to_string();
        s.append(name.as_str());
        s.append("] ");
        s.append(message);
        Some(s)
    }

    /// The line written for a template filled with `args` at `level`, or
    /// `None` when the level is not enabled.
    pub fn line_formatted(&self, level: LogLevel, template: &str, args: &[String]) -> (r: Option<
        String,
    >)
        ensures
            match r {
                Some(s) => passes(level, self.spec_level()) && s@ == log_line(
                    self.spec_prefix(),
                    level,
                    format_message_text(template@, args@.map_values(|a: String| a@)),
                ),
                None => !passes(level, self.spec_level()),
            },
    {
        if !self.is_enabled(level) {
            return None;
        }
        let message = format_message(template, args);
        self.line(level, message.as_str())
    }
}

impl Default for Logger {
    /// A logger at the Error level with the prefix "[LMStudio]".
    fn default() -> (l: Logger)
        ensures
            l.spec_level() == LogLevel::Error,
            l.spec_prefix() == "[LMStudio]"@,
    {
        Logger::new(LogLevel::Error)
    }
}

/// A message that passes a logger passes every logger set to a more verbose
/// level.
pub proof fn lemma_enabled_at_more_verbose_levels(message: LogLevel, level: LogLevel, more_verbose: LogLevel)
    requires
        passes(message, level),
        level_rank(level) <= level_rank(more_verbose),
    ensures
        passes(message, more_verbose),
{
}

/// Errors are written at every level; debug messages only at the Debug level.
pub proof fn lemma_errors_always_pass(level: LogLevel)
    ensures
        passes(LogLevel::Error, level),
        passes(LogLevel::Debug, level) <==> level == LogLevel::Debug,
{
}

/// Fills a template: every "{i}" is replaced by the i-th argument, for
/// i = 0, 1, ... in turn.
pub fn format_message(template: &str, args: &[String]) -> (s: String)
    ensures
        s@ == format_message_text(template@, args@.map_values(|a: String| a@)),
{
    let ghost views = args@.map_values(|a: String| a@);
    let mut result = chars_of(template);
    let mut i: usize = 0;
    while i < args.len()
        invariant
            i <= args@.len(),
            views == args@.map_values(|a: String| a@),
            result@ == format_message_text(template@, views.take(i as int)),
        decreases args@.len() - i,
    {
        let mut holder = String::new();
        crate::text::push_char(&mut holder, '{');
        push_digits(&mut holder, i as u128);
        crate::text::push_char(&mut holder, '}');
        assert(holder@ =~= placeholder(i as nat));
        let pattern = chars_of(holder.as_str());
        let value = chars_of(args[i].as_str());
        result = replace_all_exec(result.as_slice(), pattern.as_slice(), value.as_slice());
        proof {
            let t = views.take(i + 1);
            assert(t.drop_last() =~= views.take(i as int));
            assert(t.last() == args@[i as int]@);
        }
        i = i + 1;
    }
    assert(views.take(i as int) =~= views);
    string_from(result.as_slice(), 0)
}

/// The level the CLI logs at: Debug when verbose, else Error when quiet,
/// else Info.
pub fn cli_log_level(verbose: bool, quiet: bool) -> (l: LogLevel)
    ensures
        verbose ==> l == LogLevel::Debug,
        !verbose && quiet ==> l == LogLevel::Error,
        !verbose && !quiet ==> l == LogLevel::Info,
{
    if verbose {
        LogLevel::Debug
    } else if quiet {
        LogLevel::Error
    } else {
        LogLevel::Info
    }
}

} // verus!
