//! Extended page tables: mapping records, the in-memory four-level
//! hierarchy built from them, and guest-to-host address resolution.

pub mod backend;
pub mod constants;
pub mod error;
pub mod init;
pub mod paging;
pub mod plan;
pub mod program;
pub mod resolve;
pub mod translation;
