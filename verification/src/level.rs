use vstd::prelude::*;

verus! {

/// How much reporting the caller asked for. The decision logic lives here;
/// rendering to a terminal is left to the caller.
#[derive(Debug, Clone, Copy, PartialEq, Eq, Structural)]
pub enum Level {
    Quiet,
    Normal,
    Verbose,
}

impl Level {
    /// Quiet wins over verbose; verbose wins over normal.
    pub fn from_flags(verbose: bool, quiet: bool) -> (r: Level)
        ensures
            r == (if quiet {
                Level::Quiet
            } else if verbose {
                Level::Verbose
            } else {
                Level::Normal
            }),
    {
        if quiet {
            Level::Quiet
        } else if verbose {
            Level::Verbose
        } else {
            Level::Normal
        }
    }

    pub fn quiet(&self) -> (r: bool)
        ensures
            r == (*self == Level::Quiet),
    {
        matches!(self, Level::Quiet)
    }
}

} // verus!
