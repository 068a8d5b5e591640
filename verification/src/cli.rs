//! Program options as plain data: what a command-line front end hands the
//! engine, and the verbosity arithmetic that picks a log level.
use vstd::prelude::*;

verus! {

/// A log verbosity level, from silence to full tracing.
#[derive(Clone, Copy, Debug, PartialEq, Eq, Structural)]
pub enum LogLevel {
    Off,
    ErrorsOnly,
    Warnings,
    Informational,
    Debugging,
    Tracing,
}

/// The level a signed verbosity score selects: at most 0 is silence,
/// 5 or more is full tracing.
pub open spec fn spec_level_for(score: int) -> LogLevel {
    if score <= 0 {
        LogLevel::Off
    } else if score == 1 {
        LogLevel::ErrorsOnly
    } else if score == 2 {
        LogLevel::Warnings
    } else if score == 3 {
        LogLevel::Informational
    } else if score == 4 {
        LogLevel::Debugging
    } else {
        LogLevel::Tracing
    }
}

/// The options of one program run.
#[derive(Debug)]
pub struct ProgramOptions {
    /// How many times more log output was asked for.
    pub verbose: i8,
    /// How many times less log output was asked for.
    pub quiet: i8,
    /// Recurse through directories.
    pub recursive: bool,
    /// Take hidden files and directories into account.
    pub all: bool,
    /// The operation to run.
    pub cmd: Option<Command>,
}

/// The operation one program run performs.
#[derive(Debug)]
pub enum Command {
    /// Find and report the thumbnails of the given files, for deletion.
    Delete {
        /// Delete without prompting.
        force: bool,
        /// The files whose thumbnails are sought.
        files: Vec<String>,
        /// Only thumbnails of files last accessed strictly before this
        /// time (nanoseconds since the Unix epoch) are reported.
        last_accessed: Option<u128>,
    },
    /// Print the paths of the thumbnails of one file.
    Locate {
        /// The file whose thumbnails are sought.
        file: String,
    },
    /// Find thumbnails whose origin files no longer exist.
    Cleanup {
        /// Delete what is found instead of only reporting it.
        force: bool,
        /// Include/exclude glob tokens; a leading `!` marks an exclude.
        glob: Vec<String>,
    },
}

impl ProgramOptions {
    /// The verbosity score relative to a default: the default, raised by
    /// each `verbose` occurrence and lowered by each `quiet` occurrence.
    pub open spec fn spec_score(&self, default: int) -> int {
        default + self.verbose - self.quiet
    }

    /// The log level the options select over `default`, or `None` when
    /// they leave the default untouched.
    pub fn log_level_with_default(&self, default: i8) -> (r: Option<LogLevel>)
        ensures
            r is Some <==> self.verbose != self.quiet,
            r matches Some(l) ==> l == spec_level_for(self.spec_score(default as int)),
    {
        let score: i32 = default as i32 + self.verbose as i32 - self.quiet as i32;
        if score == default as i32 {
            return None;
        }
        let level = if score <= 0 {
            LogLevel::Off
        } else if score == 1 {
            LogLevel::ErrorsOnly
        } else if score == 2 {
            LogLevel::Warnings
        } else if score == 3 {
            LogLevel::Informational
        } else if score == 4 {
            LogLevel::Debugging
        } else {
            LogLevel::Tracing
        };
        Some(level)
    }
}

} // verus!
