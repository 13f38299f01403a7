//! Settings of the constant-time analysis, beyond those of the symbolic
//! execution engine.
use vstd::prelude::*;
use crate::outcome::PathOutcome;

verus! {

/// How far the analysis goes after it meets an error or a constant-time
/// violation.
#[derive(Clone, Copy, Debug, PartialEq, Eq, Structural)]
pub enum KeepGoing {
    /// Stop the whole analysis after the first path with an error or a
    /// violation, and return the results so far.
    Stop,
    /// An error ends its path and a violation is recorded; go on exploring
    /// the other paths.
    StopPerPath,
    /// Go on as far as possible after an error or violation. The engine ends
    /// a path at an error in any case, so this explores the same paths as
    /// `StopPerPath`.
    Full,
}

/// `pitchfork`-specific configuration options, in addition to the
/// configuration options of the symbolic execution engine.
///
/// Fields may be added even in a point release; users should start with
/// `PitchforkConfig::default()` and then change the settings they want to
/// change.
#[derive(Clone, Copy, Debug, PartialEq, Eq, Structural)]
#[non_exhaustive]
pub struct PitchforkConfig {
    /// What to do after a path ends in an error or a constant-time
    /// violation; see `KeepGoing`.
    ///
    /// Default is `KeepGoing::Stop`.
    pub keep_going: KeepGoing,
    /// With `dump_errors == true`, detailed descriptions of all errors
    /// encountered are dumped to a file.
    ///
    /// This setting only applies if `keep_going` is not `KeepGoing::Stop`; it
    /// is completely ignored otherwise.
    ///
    /// Default is `true`.
    pub dump_errors: bool,
    /// If `true`, detailed coverage stats for the analysis are dumped to a
    /// file.
    ///
    /// Default is `true`.
    pub dump_coverage_stats: bool,
    /// If `true`, detailed progress updates are shown in a
    /// continuously-updated terminal display, and log messages other than the
    /// most recent are routed to a file.
    ///
    /// Default is `true`.
    pub progress_updates: bool,
    /// If `progress_updates == true`, this setting controls which log messages
    /// are recorded in the log file: messages with `DEBUG` and higher priority
    /// (`true`), or only messages with `INFO` and higher priority (`false`).
    /// Without progress updates it has no effect.
    ///
    /// Default is `false`.
    pub debug_logging: bool,
}

impl Default for PitchforkConfig {
    fn default() -> (r: Self)
        ensures
            r.keep_going == KeepGoing::Stop,
            r.dump_errors,
            r.dump_coverage_stats,
            r.progress_updates,
            !r.debug_logging,
    {
        Self {
            keep_going: KeepGoing::Stop,
            dump_errors: true,
            dump_coverage_stats: true,
            progress_updates: true,
            debug_logging: false,
        }
    }
}

impl PitchforkConfig {
    /// Does the analysis go on to further paths after a path that ended as
    /// `ended` (explored to its end, or stopped by an error) with
    /// `violations` constant-time violations found on it? After a path
    /// explored to its end without a violation always; otherwise unless
    /// `keep_going` is `KeepGoing::Stop`.
    pub fn continues_after(&self, ended: &PathOutcome, violations: usize) -> (r: bool)
        ensures
            r == ((*ended is Completed && violations == 0) || self.keep_going != KeepGoing::Stop),
    {
        match self.keep_going {
            KeepGoing::Stop => match ended {
                PathOutcome::Completed => violations == 0,
                _ => false,
            },
            _ => true,
        }
    }

    /// Are the detailed descriptions of all errors dumped to a file? Only
    /// when `dump_errors` is set and `keep_going` is not `KeepGoing::Stop`.
    pub fn dumps_errors(&self) -> (r: bool)
        ensures
            r == (self.dump_errors && self.keep_going != KeepGoing::Stop),
    {
        self.dump_errors && match self.keep_going {
            KeepGoing::Stop => false,
            _ => true,
        }
    }
}

} // verus!
