//! The ways a resolution can fail.

use vstd::prelude::*;

verus! {

/// Why an asset could not be resolved. Every failure ends the request.
#[derive(Clone, Copy, PartialEq, Eq, Structural, Debug)]
pub enum ResolveError {
    /// The pattern, wildcard tokens removed, is longer than allowed.
    PatternTooLong,
    /// The compiled text is not a valid regular expression.
    InvalidRegex,
    /// The release data could not be had from the hosting platform.
    UpstreamUnavailable,
    /// No asset name is matched by the pattern.
    NoMatchingAsset,
    /// The platform named for a custom host is not supported.
    InvalidPlatform,
    /// Custom hosts were asked for, but they are switched off.
    CustomHostsDisabled,
}

} // verus!
