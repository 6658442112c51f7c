//! Build-time metadata as constants.
//!
//! Three collectors turn what is known of the repository, of the project and
//! of the build environment into records. The records are merged in a fixed
//! order, a later record taking the place of an earlier one with the same
//! key, and written out as a file of constant definitions under a fixed
//! header. Everything here works on plain values: reading the repository, the
//! environment and the clock, and writing the file, are left to the caller.

pub mod date;
pub mod env;
pub mod err;
pub mod git;
pub mod laws;
pub mod metadata;
pub mod project;
pub mod shadow;
pub mod text;
pub mod value;

pub use err::{SdResult, ShadowError};
pub use shadow::Shadow;
