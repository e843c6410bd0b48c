//! The external executor's handle: the command path and model override it
//! is invoked with. Spawning the executor process is I/O and lives
//! outside the library; it reports back through
//! [`crate::dispatch::ExecOutcome`].

use vstd::prelude::*;

verus! {

/// Invocation settings for the external code-execution agent.
pub struct ClaudeExecutor {
    /// Path of the executor's command-line binary.
    pub cli_path: String,
    /// Optional model override passed on invocation.
    pub model: Option<String>,
}

impl ClaudeExecutor {
    /// Creates an executor handle with no model override.
    pub fn new(cli_path: &str) -> (r: ClaudeExecutor)
        ensures
            r.cli_path@ == cli_path@,
            r.model is None,
    {
        ClaudeExecutor { cli_path: cli_path.to_owned(), model: None }
    }

    /// Sets the model override.
    pub fn with_model(self, model: &str) -> (r: ClaudeExecutor)
        ensures
            r.cli_path == self.cli_path,
            r.model.deep_view() == Some(model@),
    {
        ClaudeExecutor { cli_path: self.cli_path, model: Some(model.to_owned()) }
    }
}

} // verus!
