//! Hypervisor UEFI entry: its errors, the boot outcome markers reported on
//! the serial log, and the page allocator bookkeeping for resident installs.

pub mod allocator;
pub mod error;
pub mod markers;
