//! Verified core of a static x86-64 hypervisor: EPT planning, table
//! construction and address resolution; guest boot ABI encoding and
//! parsing; guest ELF loading; CPUID capability decoding; the platform
//! layout and requirements snapshots; Gate D datapath guest decisions; and
//! the error types, boot markers and firmware bookkeeping of the loader and
//! the hypervisor's UEFI entry.

pub mod boot_check;
pub mod bytes;
pub mod ept;
pub mod gate_d;
pub mod guest_abi;
pub mod guest_boot;
pub mod hypervisor_efi;
pub mod loader;
pub mod observation;
pub mod pci_scan;
pub mod snapshot;
