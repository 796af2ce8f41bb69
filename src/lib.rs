//! Shell-style glob matching over Unicode code points, with a three-valued
//! outcome that keeps a malformed pattern apart from a plain mismatch.

pub mod glob;
pub mod glob_result;
pub mod laws;

pub use glob::glob;
pub use glob_result::GlobResult;
