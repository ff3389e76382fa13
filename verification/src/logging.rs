//! Defaults of the log output.
//!
//! Logs always go to stderr (never stdout, which carries the downloaded bytes).

use vstd::prelude::*;
use vstd::string::*;

verus! {

/// The log filter for a verbosity: warnings, then this program's debug and trace
/// messages, then everything.
pub open spec fn level_text(verbose: u8) -> Seq<char> {
    if verbose == 0 {
        "warn"@
    } else if verbose == 1 {
        "info,pcurl=debug"@
    } else if verbose == 2 {
        "debug,pcurl=trace"@
    } else {
        "trace"@
    }
}

/// The default log filter; `verbose` raises the level of this program's own messages
/// (0 = warn, 1 = debug, 2+ = trace). At 1 and 2 those of the crates that it uses stay
/// one level below, at info and debug.
pub fn default_level(verbose: u8) -> (level: &'static str)
    ensures
        level@ == level_text(verbose),
{
    if verbose == 0 {
        "warn"
    } else if verbose == 1 {
        "info,pcurl=debug"
    } else if verbose == 2 {
        "debug,pcurl=trace"
    } else {
        "trace"
    }
}

/// How many rotated log files are kept.
pub open spec fn files_for(keep: usize) -> usize {
    if keep == 0 {
        1
    } else {
        keep
    }
}

/// How many rotated log files to keep: at least the one that is written to.
pub fn kept_files(keep: usize) -> (n: usize)
    ensures
        n == files_for(keep),
        n == (if keep == 0 {
            1
        } else {
            keep
        }),
{
    if keep == 0 {
        1
    } else {
        keep
    }
}

/// The filter for each verbosity: warnings only; this program's messages from debug and those
/// of other crates from info on; from trace and debug on; and everything from three on.
pub proof fn law_levels_rise_with_verbosity(verbose: u8)
    ensures
        verbose == 0 ==> level_text(verbose) == "warn"@,
        verbose == 1 ==> level_text(verbose) == "info,pcurl=debug"@,
        verbose == 2 ==> level_text(verbose) == "debug,pcurl=trace"@,
        verbose >= 3 ==> level_text(verbose) == "trace"@,
{
}

/// As many rotated log files are kept as asked for, and always one.
pub proof fn law_log_files_are_kept(keep: usize)
    ensures
        keep >= 1 ==> files_for(keep) == keep,
        keep == 0 ==> files_for(keep) == 1,
{
}

} // verus!
