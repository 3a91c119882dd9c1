//! Target platform triples and a once-populated predicate cache.
//!
//! The library models the closed vocabulary of supported target
//! platforms (architecture, vendor, operating system, environment),
//! formats a triple into its canonical dash-separated string, and
//! keeps a once-populated cache mapping each canonical triple string
//! to the configuration predicates an external toolchain reports for
//! that platform.

pub mod cache;
pub mod registry;
pub mod triple;

pub use cache::PredicateCache;
pub use registry::supported_targets;

pub use triple::Arch;
pub use triple::Env;
pub use triple::Os;
pub use triple::TargetTriple;
pub use triple::Vendor;
