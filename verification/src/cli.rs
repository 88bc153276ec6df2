use vstd::prelude::*;

verus! {

/// The parsed command line. The binary's argument parser fills a mirror of
/// this type and converts; the library only ever sees these plain values.
pub struct Cli {
    pub command: Command,
}

/// One invocation's command.
pub enum Command {
    /// Create a new password entry.
    New { path: String },
    /// Display a decrypted entry (or dump the runtime configuration).
    Show { config: bool, path: Option<String>, qr: bool, line: Option<usize> },
    /// Edit an existing password entry.
    Edit { path: String },
    /// Display vault contents in a tree structure.
    List { path: Option<String>, all: bool },
    /// Hide an entry (or a folder of entries) from the list command.
    Archive { path: String, folder: bool },
    /// Delete an entry.
    Remove { path: String },
    /// Do the initial setup.
    Init,
}

impl Cli {
    /// The argument parser only produces a `Show` with a path unless the
    /// configuration dump was asked for.
    pub open spec fn wf(&self) -> bool {
        self.command matches Command::Show { config, path, .. } ==> (config || path is Some)
    }
}

} // verus!
