//! Failure taxonomy of the migration core.
//!
//! Validation and consistency failures are surfaced to the immediate caller
//! with a reason identifying the violated rule; no partial work is kept.

use vstd::prelude::*;

verus! {

/// The specific migration rule that a validation or consistency check found
/// violated.
#[derive(Clone, Copy, Debug, PartialEq, Eq, Structural)]
pub enum MigrationRule {
    /// The input batch was empty.
    EmptyInputs,
    /// Not every input in the batch carries the same security level.
    MixedSecurityLevels,
    /// The signed bundle references more or fewer distinct addresses than the
    /// deduplicated inputs plus the migration target.
    AddressCountMismatch,
    /// An input address does not appear in the signed bundle.
    MissingInputAddress,
    /// Mining was requested without any previously-used bundle hashes to
    /// exclude.
    EmptySpentBundleHashes,
    /// A tryte string held a character outside the tryte alphabet.
    InvalidTryteString,
    /// A raw trit buffer did not have the expected fixed width or held a
    /// value outside -1..=1.
    InvalidTritLength,
}

/// An error surfaced by the migration core.
#[derive(Clone, Copy, Debug, PartialEq, Eq, Structural)]
pub enum Error {
    /// A required parameter was never supplied to a builder.
    MissingParameter,
    /// A migration validation or consistency rule was violated.
    MigrationError(MigrationRule),
}

impl Error {
    /// A human-readable reason naming the rule that failed.
    pub fn message(&self) -> &'static str {
        match self {
            Error::MissingParameter => "missing parameter: account index",
            Error::MigrationError(rule) => match rule {
                MigrationRule::EmptyInputs => "No inputs provided",
                MigrationRule::MixedSecurityLevels => {
                    "Not all inputs have the same security level"
                },
                MigrationRule::AddressCountMismatch => {
                    "Input address amount does't match created bundle"
                },
                MigrationRule::MissingInputAddress => "Not all input addresses in bundle",
                MigrationRule::EmptySpentBundleHashes => {
                    "Can't mine without spent_bundle_hashes"
                },
                MigrationRule::InvalidTryteString => "Invalid tryte string",
                MigrationRule::InvalidTritLength => "Invalid trit buffer length",
            },
        }
    }
}

} // verus!
