//! The tracer's command-line arguments, as plain values: two mutually
//! exclusive display flags and the target program with its argument vector.

use vstd::prelude::*;
use crate::session::Verbosity;

verus! {

/// Arguments of the tracer: verbose mode (`-v`), step mode (`-V`), and the
/// target program followed by its arguments.
pub struct Args {
    pub v: bool,
    pub step: bool,
    pub prog_and_args: Vec<String>,
}

impl Args {
    /// Whether a target program was named: the argument vector is
    /// non-empty. Absence of a target is a usage error for the caller.
    pub fn has_target(&self) -> (r: bool)
        ensures
            r == (self.prog_and_args@.len() > 0),
    {
        self.prog_and_args.len() > 0
    }

    /// The display mode the flags select: step mode shows lines and
    /// prompts, verbose alone shows lines, neither shows nothing.
    pub fn verbosity(&self) -> (r: Verbosity)
        ensures
            r == (if self.step {
                Verbosity::TraceAndStep
            } else if self.v {
                Verbosity::Trace
            } else {
                Verbosity::Silent
            }),
    {
        if self.step {
            Verbosity::TraceAndStep
        } else if self.v {
            Verbosity::Trace
        } else {
            Verbosity::Silent
        }
    }
}

} // verus!
