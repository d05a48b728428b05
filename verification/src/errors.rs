//! Configuration errors, detected before any resolution work starts.

use vstd::prelude::*;

verus! {

/// A malformed piece of user configuration. Every variant is fatal: the
/// caller reports it and stops before any resolution or rendering happens.
#[derive(Debug, Clone, Copy, PartialEq, Eq, Structural)]
pub enum ConfigError {
    /// A color string has fewer than the three required components.
    MissingColorComponent,
    /// A color component is empty, not a decimal number, or above 255.
    InvalidColorComponent,
    /// A dependency-kind name is none of "normal", "build", "dev".
    InvalidDepKind,
}

} // verus!
