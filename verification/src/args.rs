//! The arguments a command-line front end hands to the library: currently
//! only the name of the file to read assignments from.

use vstd::prelude::*;

verus! {

/// Wrapper for the arguments passed to a program using this library. The
/// front end reads the command line and hands the filename over as a plain
/// string.
#[derive(Debug, Clone, PartialEq)]
pub struct Args {
    pub filename: String,
}

impl Args {
    /// Wrap a filename.
    pub fn new(filename: String) -> (r: Args)
        ensures
            r.filename@ == filename@,
    {
        Args { filename }
    }

    /// The filename, as an immutable reference.
    pub fn filename(&self) -> (r: &str)
        ensures
            r@ == self.filename@,
    {
        self.filename.as_str()
    }
}

} // verus!
