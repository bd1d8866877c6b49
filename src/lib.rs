//! Resolving a release asset from a wildcard pattern: version tags are
//! decomposed into components, the components are substituted into the
//! pattern, and the first asset whose name the resulting matcher finds wins.

pub mod error;
pub mod laws;
pub mod matcher;
pub mod pattern;
pub mod resolve;
pub mod text;
pub mod version;
