//! Function-level differential analysis of two compiled x86_64 binaries.
//!
//! The pipeline runs one way: bytes of an object file, its function symbols,
//! the normalized instructions of each function, a fingerprint of each
//! function, and finally the classification of every function of the two
//! sides as unchanged, modified, added or removed.

pub mod analysis;
pub mod arch;
pub mod diff;
pub mod failure;
pub mod html;
pub mod loader;
pub mod model;
pub mod pipeline;
pub mod text;

pub use analysis::hash::{FunctionHash, SimHash64};
pub use diff::{DiffResult, FunctionDelta, MatchKind};
