//! What running another program gave: the plain values the rest of the crate decides on.
use crate::error::{Error, ErrorView};
use crate::text;
use vstd::prelude::*;

verus! {

/// What a program that ran to its end left behind.
#[derive(Debug)]
pub struct ToolOutput {
    /// Whether it reported success.
    pub success: bool,
    /// Its exit status, in words.
    pub status: String,
    /// What it wrote to its standard output, with a replacement character for every byte sequence
    /// that is no text.
    pub stdout: String,
    /// Why its standard output is no text, where it is none.
    pub stdout_fault: Option<String>,
    /// What it wrote to its standard error, as `stdout`.
    pub stderr: String,
}

/// What came of running a program.
#[derive(Debug)]
pub enum ToolRun {
    /// It could not be started, and this is why.
    NotStarted(String),
    /// It ran to its end.
    Finished(ToolOutput),
}

impl ToolOutput {
    /// Standard output followed by standard error.
    pub open spec fn spec_combined(self) -> Seq<char> {
        self.stdout@ + self.stderr@
    }

    /// Standard output followed by standard error.
    pub fn combined(&self) -> (r: String)
        ensures
            r@ == self.spec_combined(),
    {
        text::cat2(self.stdout.as_str(), self.stderr.as_str())
    }
}

/// The failure to start the program at `path`.
pub open spec fn not_started(path: Seq<char>, reason: Seq<char>) -> ErrorView {
    crate::error::caused("failed to execute "@ + path, reason)
}

/// The error for a program that could not be started.
pub fn not_started_error(path: &str, reason: &str) -> (r: Error)
    ensures
        r@ == not_started(path@, reason@),
{
    Error::with_cause(text::cat2("failed to execute ", path), reason.to_owned())
}

} // verus!
