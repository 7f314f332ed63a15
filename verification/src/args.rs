//! What the command line asks for, as plain data.

use vstd::prelude::*;

verus! {

/// The arguments of the program.
#[derive(Debug, PartialEq, Eq)]
pub struct RudderArgs {
    /// Subcommand to execute.
    pub command: RudderCommand,
}

/// The two commands.
#[derive(Debug, PartialEq, Eq)]
pub enum RudderCommand {
    /// Create a Flutter project folder structure.
    Create,
    /// Add a feature/sub feature to the Flutter project.
    Add(AddCommand),
}

/// What `add` is given.
#[derive(Debug, PartialEq, Eq)]
pub struct AddCommand {
    /// Name of the feature to add, or several names with commas between them.
    pub feature: String,
    /// Name of the sub feature to add under every listed feature.
    pub sub_feature: Option<String>,
}

} // verus!
