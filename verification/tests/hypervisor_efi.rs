//! Hypervisor UEFI entry errors, digest check and page allocator bookkeeping.

use aipervisor::boot_check::{BootCheckError, BootCheckErrorKind};
use aipervisor::hypervisor_efi::allocator::{
    pages_for_bytes, validate_allocation_request, CpuSeamErrorKind, UefiPageAllocator, UEFI_PAGE_SIZE,
};
use aipervisor::hypervisor_efi::error::{check_requirements_digest, HypervisorEfiError, HypervisorEfiErrorKind};
use aipervisor::hypervisor_efi::markers::{RealHwBootMarkers, VmxLaunchBootMarkers};

/// A firmware that is never asked: invalid requests are refused first.
fn no_firmware(_page_count: usize) -> Result<u64, String> {
    panic!("firmware asked for an invalid request")
}

#[test]
fn allocate_pages_asks_firmware_for_whole_pages() {
    let mut allocator = UefiPageAllocator::new();
    let host_phys = allocator
        .allocate_pages(4097, 4096, |count| {
            assert_eq!(count, 2);
            Ok(0x30_0000)
        })
        .expect("allocate");
    assert_eq!(host_phys, 0x30_0000);
    assert!(allocator.check_copy_to_pages(host_phys, 8192).is_ok());
    assert!(allocator.check_copy_to_pages(host_phys, 8193).is_err());
    let err = allocator.allocate_pages(1, 4096, |_| Err("NOT_FOUND".to_string())).expect_err("firmware");
    assert_eq!(err.message, "UEFI AllocatePages failed: NOT_FOUND");
}

#[test]
fn uefi_page_allocator_default_constructs() {
    let _ = UefiPageAllocator::default();
}

#[test]
fn uefi_page_allocator_rejects_zero_size() {
    let mut allocator = UefiPageAllocator::new();
    assert!(allocator.allocate_pages(0, 4096, no_firmware).is_err());
}

#[test]
fn uefi_page_allocator_rejects_invalid_alignment() {
    let mut allocator = UefiPageAllocator::new();
    assert!(allocator.allocate_pages(4096, 0, no_firmware).is_err());
    assert!(allocator.allocate_pages(4096, 3, no_firmware).is_err());
}

#[test]
fn uefi_page_size_matches_firmware_crate() {
    assert_eq!(UEFI_PAGE_SIZE, uefi::boot::PAGE_SIZE);
}

#[test]
fn uefi_page_allocator_allocates_and_copies_on_host() {
    let mut allocator = UefiPageAllocator::new();
    let host_phys = allocator.accept_firmware_pages(Ok(0x20_0000), 1, 4096).expect("allocate");
    assert_eq!(host_phys & 0xFFF, 0);
    assert!(allocator.check_copy_to_pages(host_phys, 16).is_ok());
}

#[test]
fn uefi_page_allocator_copy_rejects_unknown_target() {
    let allocator = UefiPageAllocator::new();
    let err = allocator.check_copy_to_pages(0x1000, 16).expect_err("unknown");
    assert_eq!(err.kind, CpuSeamErrorKind::InvalidInput);
    assert_eq!(err.message, "copy target was not allocated by this allocator");
}

#[test]
fn pages_for_bytes_rounds_up_to_page_count() {
    assert_eq!(pages_for_bytes(1).expect("one byte"), 1);
    assert_eq!(pages_for_bytes(4096).expect("one page"), 1);
    assert_eq!(pages_for_bytes(4097).expect("page plus one"), 2);
}

#[test]
fn pages_for_bytes_rejects_overflow() {
    assert!(pages_for_bytes(usize::MAX).is_err());
}

#[test]
fn uefi_page_allocator_copy_rejects_over_capacity() {
    let mut allocator = UefiPageAllocator::new();
    allocator.accept_firmware_pages(Ok(0x1000), 1, 4096).expect("record");
    assert!(allocator.check_copy_to_pages(0x1000, 4097).is_err());
}

#[test]
fn uefi_page_allocator_copy_accepts_within_capacity() {
    let mut allocator = UefiPageAllocator::new();
    allocator.accept_firmware_pages(Ok(0x1000), 1, 4096).expect("record");
    assert!(allocator.check_copy_to_pages(0x1000, 8).is_ok());
    assert!(allocator.check_copy_to_pages(0x1000, 4096).is_ok());
}

#[test]
fn firmware_failure_and_misalignment_record_nothing() {
    let mut allocator = UefiPageAllocator::new();
    let err = allocator.accept_firmware_pages(Err("OUT_OF_RESOURCES".to_string()), 2, 4096).expect_err("fail");
    assert_eq!(err.kind, CpuSeamErrorKind::Unavailable);
    assert_eq!(err.message, "UEFI AllocatePages failed: OUT_OF_RESOURCES");
    let err = allocator.accept_firmware_pages(Ok(0x1000), 2, 0x20_0000).expect_err("misaligned");
    assert_eq!(err.kind, CpuSeamErrorKind::Unavailable);
    assert!(allocator.check_copy_to_pages(0x1000, 1).is_err());
}

#[test]
fn validate_allocation_request_messages() {
    assert!(validate_allocation_request(1, 1).is_ok());
    assert!(validate_allocation_request(4096, 0x20_0000).is_ok());
    assert_eq!(validate_allocation_request(0, 4096).unwrap_err().message, "UEFI allocation size must be non-zero");
    assert_eq!(
        validate_allocation_request(1, 6).unwrap_err().message,
        "UEFI allocation alignment must be a power of two"
    );
}

#[test]
fn hypervisor_efi_error_from_boot_check_maps_all_kinds() {
    let boot_abi: HypervisorEfiError = BootCheckError::new(BootCheckErrorKind::BootAbi, "boot").into();
    assert_eq!(boot_abi.kind, HypervisorEfiErrorKind::BootInfo);
    let observation: HypervisorEfiError = BootCheckError::new(BootCheckErrorKind::Observation, "obs").into();
    assert_eq!(observation.kind, HypervisorEfiErrorKind::Observation);
    let platform: HypervisorEfiError = BootCheckError::new(BootCheckErrorKind::Platform, "plat").into();
    assert_eq!(platform.kind, HypervisorEfiErrorKind::Platform);
    assert!(platform.to_string().contains("Platform"));
}

#[test]
fn hypervisor_efi_error_text_exact_value() {
    let err = HypervisorEfiError::new(HypervisorEfiErrorKind::Transfer, "bad transfer");
    assert_eq!(err.to_string(), "Transfer: bad transfer");
    let from: HypervisorEfiError = BootCheckError::new(BootCheckErrorKind::Platform, "plat").into();
    assert_eq!(from.message, "plat");
}

#[test]
fn boot_hypervisor_from_transfer_rejects_digest_mismatch() {
    let digest = [0x5Au8; 32];
    let mut snapshot_digest = digest;
    snapshot_digest[0] ^= 0xFF;
    let err = check_requirements_digest(&digest, &snapshot_digest).expect_err("must fail");
    assert_eq!(err.kind, HypervisorEfiErrorKind::Requirements);
    assert!(check_requirements_digest(&digest, &digest).is_ok());
}

#[test]
fn boot_markers_nest_by_stage() {
    let markers = VmxLaunchBootMarkers {
        real_hw: RealHwBootMarkers { vmxon_executed: true, ept_executed: false },
        vmlaunch_executed: true,
    };
    assert!(markers.real_hw.vmxon_executed);
    assert_eq!(markers, markers.clone());
}
