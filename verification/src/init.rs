//! Start-up decisions: what the command line asks for, and what the logger
//! lets through.
//!
//! Nothing here touches the process. The command line comes in as a list of
//! strings, and what goes out is a decision: a verbosity, or a line to write.

use crate::text::same_text;
use vstd::prelude::*;
use vstd::string::StringExecFns;

verus! {

/// The severity of a log record, most severe first.
#[derive(Clone, Copy, Debug, PartialEq, Eq, Structural)]
pub enum LogLevel {
    Error,
    Warn,
    Info,
    Debug,
    Trace,
}

/// The least severe level that is let through, or `Off` for none.
#[derive(Clone, Copy, Debug, PartialEq, Eq, Structural)]
pub enum LogLevelFilter {
    Off,
    Error,
    Warn,
    Info,
    Debug,
    Trace,
}

impl LogLevel {
    /// The place of a level in the order of severity: 1 for `Error`, up to 5
    /// for `Trace`.
    pub open spec fn rank(self) -> nat {
        match self {
            LogLevel::Error => 1,
            LogLevel::Warn => 2,
            LogLevel::Info => 3,
            LogLevel::Debug => 4,
            LogLevel::Trace => 5,
        }
    }

    /// The name of a level, as it is written in a log line.
    pub open spec fn name(self) -> Seq<char> {
        match self {
            LogLevel::Error => "ERROR"@,
            LogLevel::Warn => "WARN"@,
            LogLevel::Info => "INFO"@,
            LogLevel::Debug => "DEBUG"@,
            LogLevel::Trace => "TRACE"@,
        }
    }

    /// The name of this level, as it is written in a log line.
    pub fn label(self) -> (r: &'static str)
        ensures
            r@ == self.name(),
    {
        match self {
            LogLevel::Error => "ERROR",
            LogLevel::Warn => "WARN",
            LogLevel::Info => "INFO",
            LogLevel::Debug => "DEBUG",
            LogLevel::Trace => "TRACE",
        }
    }
}

/// What the command line asked for.
#[derive(Debug)]
pub struct Args {
    /// Whether `--verbose` was given.
    pub verbose: bool,
}

/// Whether one of `argv` is the flag `--verbose`.
pub open spec fn asks_verbose(argv: Seq<String>) -> bool {
    exists|i: int| 0 <= i < argv.len() && (#[trigger] argv[i])@ == "--verbose"@
}

impl Args {
    /// The options of a command line without flags.
    pub fn new() -> (r: Args)
        ensures
            !r.verbose,
    {
        Args { verbose: false }
    }

    /// Whether `arg` is a flag that the program knows.
    pub fn recognised(arg: &str) -> (r: bool)
        ensures
            r == (arg@ == "--verbose"@),
    {
        same_text(arg, "--verbose")
    }

    /// The options that the arguments `argv` ask for: verbose if and only if
    /// one of them is `--verbose`.
    pub fn from_args(argv: &Vec<String>) -> (r: Args)
        ensures
            r.verbose == asks_verbose(argv@),
    {
        let mut res = Args::new();
        let mut i: usize = 0;
        while i < argv.len()
            invariant
                i <= argv@.len(),
                res.verbose == exists|j: int| 0 <= j < i && (#[trigger] argv@[j])@ == "--verbose"@,
            decreases argv@.len() - i,
        {
            if Args::recognised(argv[i].as_str()) {
                res.verbose = true;
            }
            i = i + 1;
        }
        res
    }
}

/// A logger that writes records of level `Info` and above, one per line.
#[derive(Debug)]
pub struct SimpleLogger;

impl SimpleLogger {
    /// Whether a record of level `level` is written: `Error`, `Warn` and
    /// `Info` are, `Debug` and `Trace` are not.
    pub fn enabled(&self, level: LogLevel) -> (r: bool)
        ensures
            r == (level.rank() <= LogLevel::Info.rank()),
    {
        match level {
            LogLevel::Error | LogLevel::Warn | LogLevel::Info => true,
            _ => false,
        }
    }

    /// The line to write for a record: the name of its level, ` - `, and its
    /// message; `None` where the record is not written.
    pub fn log(&self, level: LogLevel, message: &str) -> (r: Option<String>)
        ensures
            match r {
                Some(line) => level.rank() <= LogLevel::Info.rank() && line@ == level.name()
                    + " - "@ + message@,
                None => level.rank() > LogLevel::Info.rank(),
            },
    {
        if self.enabled(level) {
            let mut line = String::from_str(level.label());
            line.append(" - ");
            line.append(message);
            Some(line)
        } else {
            None
        }
    }

    /// The filter to install the logger with: `Debug` for a verbose run,
    /// `Error` otherwise.
    pub fn init(args: &Args) -> (r: LogLevelFilter)
        ensures
            r == if args.verbose {
                LogLevelFilter::Debug
            } else {
                LogLevelFilter::Error
            },
    {
        if args.verbose {
            LogLevelFilter::Debug
        } else {
            LogLevelFilter::Error
        }
    }
}

/// The filter that the command line `argv` asks for: `Debug` if one of the
/// arguments is `--verbose`, `Error` otherwise.
pub fn init(argv: &Vec<String>) -> (r: LogLevelFilter)
    ensures
        r == if asks_verbose(argv@) {
            LogLevelFilter::Debug
        } else {
            LogLevelFilter::Error
        },
{
    let args = Args::from_args(argv);
    SimpleLogger::init(&args)
}

} // verus!
