//! The daemon's command-line options.
use vstd::prelude::*;

verus! {

/// Options of `replayd`.
#[derive(Debug, Clone, Copy)]
pub struct Args {
    /// display help
    pub help: (),
    /// print version
    pub version: bool,
    /// increase verbosity
    pub verbose: bool,
    /// open the window minimized
    pub open_minimized: bool,
}

impl Args {
    /// The log filter: everything from `trace` up when verbose, `info` and up otherwise.
    pub fn log_filter(&self) -> (s: &'static str)
        ensures
            s@ == if self.verbose {
                "trace"@
            } else {
                "info"@
            },
    {
        if !self.verbose {
            "info"
        } else {
            "trace"
        }
    }

    /// Whether the window opens visible.
    pub fn window_visible(&self) -> (b: bool)
        ensures
            b == !self.open_minimized,
    {
        !self.open_minimized
    }
}

} // verus!
