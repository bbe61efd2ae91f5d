//! Import configuration, read once when an import begins.

use vstd::prelude::*;

verus! {

/// The rigor applied to the parsed document before it is trusted for
/// further processing.
#[derive(Clone, Copy, Debug, PartialEq, Eq, Structural)]
pub enum ValidationStrategy {
    /// Trust the parsed document without any checking.
    Skip,
    /// Run the reduced rule set: existence, cardinality and range checks
    /// sufficient for safe indexing.
    Minimal,
    /// Run the full rule set: everything the minimal set checks, plus
    /// cross-reference and semantic checks.
    Complete,
}

/// Per-import configuration. An immutable value, read once at import start.
#[derive(Clone, Copy, Debug, PartialEq, Eq, Structural)]
pub struct Config {
    /// The validation strategy applied to the parsed document.
    pub validation_strategy: ValidationStrategy,
}

impl Default for Config {
    /// The default favours the reduced rule set, which is cheap and still
    /// guarantees that every index the importer follows is in range.
    fn default() -> (c: Config)
        ensures
            c.validation_strategy == ValidationStrategy::Minimal,
    {
        Config { validation_strategy: ValidationStrategy::Minimal }
    }
}

} // verus!
