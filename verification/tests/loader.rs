//! Loader errors and firmware physical read bounds.

use aipervisor::loader::{
    AcpiWalkErrorKind, IdentityMappedPhysicalMemory, LoaderEfiError, LoaderEfiErrorKind, LoaderError,
    LoaderErrorKind, DEFAULT_MAX_PHYSICAL_ADDRESS,
};

#[test]
fn loader_error_display_includes_kind() {
    let err = LoaderError::new(LoaderErrorKind::BootInfo, "bad blob");
    assert!(err.to_string().contains("loader boot info error"));
    assert!(LoaderErrorKind::Observation.to_string().contains("loader observation error"));
}

#[test]
fn loader_efi_error_display_includes_kind() {
    let err = LoaderEfiError::new(LoaderEfiErrorKind::Handoff, "bad handoff");
    assert!(err.to_string().contains("uefi loader handoff error"));
}

#[test]
fn loader_efi_error_from_loader_error_keeps_full_text() {
    let err = LoaderEfiError::from_loader_error(&LoaderError::new(LoaderErrorKind::Observation, "no rsdp"));
    assert_eq!(err.kind, LoaderEfiErrorKind::Handoff);
    assert_eq!(err.message, "loader observation error: no rsdp");
    assert_eq!(err.to_string(), "uefi loader handoff error: loader observation error: no rsdp");
}

#[test]
fn identity_mapped_reads_stay_below_limit() {
    let memory = IdentityMappedPhysicalMemory::new(DEFAULT_MAX_PHYSICAL_ADDRESS);
    assert!(memory.check_read(0xE_0000, 36).is_ok());
    assert!(memory.check_read(0xFFFF_FFDC, 36).is_ok());
    let err = memory.check_read(0xFFFF_FFDD, 36).expect_err("past limit");
    assert_eq!(err.kind, AcpiWalkErrorKind::Memory);
    let err = memory.check_read(u64::MAX - 3, 36).expect_err("wraps");
    assert_eq!(err.kind, AcpiWalkErrorKind::Bounds);
    assert_eq!(err.message, "physical read overflow");
}
