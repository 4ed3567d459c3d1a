//! The configuration that one invocation runs under: which UUID
//! version to generate, how many, in which textual format, and whether
//! output is quiet (bare values) or verbose (headers and labels).

use vstd::prelude::*;

verus! {

/// The UUID version to generate.
#[derive(Copy, Clone, PartialEq, Eq, Structural, Debug)]
pub enum UuidType {
    /// Random-based UUIDs.
    V4,
    /// Time-ordered UUIDs with a millisecond Unix timestamp prefix.
    V7,
}

/// The textual encoding to print.
#[derive(Copy, Clone, PartialEq, Eq, Structural, Debug)]
pub enum OutputFormat {
    /// Lowercase hexadecimal, hyphen-grouped 8-4-4-4-12.
    LowerDash,
    /// Uppercase hexadecimal, hyphen-grouped 8-4-4-4-12.
    UpperDash,
    /// Lowercase hexadecimal, 32 digits, no hyphens.
    LowerNoDash,
    /// Uppercase hexadecimal, 32 digits, no hyphens.
    UpperNoDash,
    /// All four encodings, labelled, in a fixed order.
    All,
}

/// One invocation's validated options.
#[derive(Copy, Clone, PartialEq, Eq, Structural, Debug)]
pub struct Config {
    /// Which UUID version to generate.
    pub uuid_type: UuidType,
    /// How many UUIDs to generate; zero produces no output and is not
    /// an error.
    pub count: usize,
    /// Which textual encoding to print.
    pub format: OutputFormat,
    /// Quiet mode prints one bare value per UUID, with no header and
    /// no label.
    pub quiet: bool,
}

/// The configuration that holds when no option is given: one
/// random-based identifier, every encoding, verbose.
pub open spec fn default_config_spec() -> Config {
    Config { uuid_type: UuidType::V4, count: 1, format: OutputFormat::All, quiet: false }
}

impl Config {
    /// The configuration that holds when no option is given.
    pub fn default_config() -> (c: Config)
        ensures
            c == default_config_spec(),
    {
        Config { uuid_type: UuidType::V4, count: 1, format: OutputFormat::All, quiet: false }
    }
}

} // verus!
