//! The layout snapshot embedded in the hypervisor image: its types, and the
//! conversions between it and the planned platform layout.

pub mod convert;
pub mod requirements;
pub mod types;
