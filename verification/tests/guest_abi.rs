//! Guest boot ABI layout, compatibility and relay measurement parsing.

use core::mem::{align_of, size_of};

use aipervisor::guest_abi::{
    guest_abi_is_compatible, guest_boot_info_has_relay_measurement_tail, guest_boot_info_magic_matches,
    guest_boot_info_relay_frames_offset, guest_boot_info_relay_measurement_offset,
    guest_relay_measurement_elapsed_tsc, parse_guest_boot_info_relay_measurement,
    parse_relay_measurement_page_header, GuestBootInfoHeader, GuestBootInfoRelayMeasurement, GuestDeviceKind,
    GuestDeviceRegion, GuestIpcRegion, GuestIpcRole, GuestMemoryKind, GuestMemoryRegion, GUEST_ABI_VERSION,
    GUEST_BOOT_INFO_MAGIC, GUEST_BOOT_INFO_RELAY_MEASUREMENT_TAIL_BYTES, GUEST_REGION_DESCRIPTOR_BYTES,
    GUEST_RELAY_MEASUREMENT_MAGIC,
};
use aipervisor::guest_boot::boot_info::{serialize_guest_boot_info, GuestBootInfoPlan};

fn header(version: u32, size: u32) -> GuestBootInfoHeader {
    GuestBootInfoHeader {
        magic: GUEST_BOOT_INFO_MAGIC,
        version,
        size,
        vm_id: 0,
        vcpu_id: 0,
        memory_table_offset: 0,
        memory_region_count: 0,
        ipc_table_offset: 0,
        ipc_region_count: 0,
        device_table_offset: 0,
        device_region_count: 0,
    }
}

#[test]
fn guest_header_layout_is_stable() {
    assert_eq!(size_of::<GuestBootInfoHeader>(), 48);
    assert_eq!(align_of::<GuestBootInfoHeader>(), 4);
}

/// Descriptors are encoded field by field; each takes 24 bytes of its table.
#[test]
fn descriptor_sizes_are_stable() {
    assert_eq!(GUEST_REGION_DESCRIPTOR_BYTES, 24);
    let empty = GuestBootInfoPlan { vm_id: 0, memory_regions: vec![], ipc_regions: vec![], device_regions: vec![] };
    let base = serialize_guest_boot_info(&empty).expect("empty").len();
    let memory = GuestBootInfoPlan {
        memory_regions: vec![GuestMemoryRegion { kind: GuestMemoryKind::Ram, guest_phys: 0, size: 0x1000 }],
        ..empty.clone()
    };
    let ipc = GuestBootInfoPlan {
        ipc_regions: vec![GuestIpcRegion { channel_id: 0, role: GuestIpcRole::Producer, guest_phys: 0, size: 0x1000 }],
        ..empty.clone()
    };
    let device = GuestBootInfoPlan {
        device_regions: vec![GuestDeviceRegion { kind: GuestDeviceKind::NicE1000, mmio_guest_phys: 0, mmio_size: 0x1000 }],
        ..empty.clone()
    };
    assert_eq!(serialize_guest_boot_info(&memory).expect("memory").len(), base + 24);
    assert_eq!(serialize_guest_boot_info(&ipc).expect("ipc").len(), base + 24);
    assert_eq!(serialize_guest_boot_info(&device).expect("device").len(), base + 24);
}

#[test]
fn guest_abi_compatibility_checks() {
    let ok = header(GUEST_ABI_VERSION, size_of::<GuestBootInfoHeader>() as u32);
    assert!(guest_abi_is_compatible(&ok));

    let bad_version = GuestBootInfoHeader { version: GUEST_ABI_VERSION + 1, ..ok };
    assert!(!guest_abi_is_compatible(&bad_version));

    let v1 = GuestBootInfoHeader { version: 1, ..ok };
    assert!(guest_abi_is_compatible(&v1));
}

#[test]
fn guest_abi_rejects_version_zero_and_bad_magic() {
    let ok = header(GUEST_ABI_VERSION, 48);
    assert!(!guest_abi_is_compatible(&GuestBootInfoHeader { version: 0, ..ok }));
    assert!(!guest_abi_is_compatible(&GuestBootInfoHeader { magic: *b"BADVERS\0", ..ok }));
    assert!(guest_boot_info_magic_matches(b"HVGUEST\0"));
    assert!(!guest_boot_info_magic_matches(b"HVGUEST\x01"));
}

#[test]
fn guest_boot_info_relay_tail_requires_v2_size() {
    let mut h = header(2, (size_of::<GuestBootInfoHeader>() + GUEST_BOOT_INFO_RELAY_MEASUREMENT_TAIL_BYTES) as u32);
    h.memory_table_offset = size_of::<GuestBootInfoHeader>() as u32;
    h.ipc_table_offset = size_of::<GuestBootInfoHeader>() as u32;
    h.device_table_offset = size_of::<GuestBootInfoHeader>() as u32;
    assert!(guest_boot_info_has_relay_measurement_tail(&h));
    assert_eq!(size_of::<GuestBootInfoRelayMeasurement>(), 40);
}

#[test]
fn relay_tail_absent_for_v1_or_short_blob() {
    assert!(!guest_boot_info_has_relay_measurement_tail(&header(1, 88)));
    assert!(!guest_boot_info_has_relay_measurement_tail(&header(2, 87)));
}

#[test]
fn relay_offsets_exact_values() {
    assert_eq!(guest_boot_info_relay_measurement_offset(88), Some(48));
    assert_eq!(guest_boot_info_relay_measurement_offset(87), None);
    assert_eq!(guest_boot_info_relay_frames_offset(160), Some(128));
    assert_eq!(guest_boot_info_relay_frames_offset(10), None);
}

#[test]
fn parse_guest_boot_info_relay_measurement_validates_magic() {
    let mut blob = [0u8; 48 + 40];
    blob[0..8].copy_from_slice(&GUEST_BOOT_INFO_MAGIC);
    blob[8..12].copy_from_slice(&2u32.to_le_bytes());
    let total = blob.len() as u32;
    blob[12..16].copy_from_slice(&total.to_le_bytes());
    let offset = guest_boot_info_relay_measurement_offset(total).expect("offset");
    blob[offset..offset + 4].copy_from_slice(&GUEST_RELAY_MEASUREMENT_MAGIC.to_le_bytes());
    blob[offset + 4..offset + 8].copy_from_slice(&1u32.to_le_bytes());
    blob[offset + 8..offset + 16].copy_from_slice(&64u64.to_le_bytes());
    blob[offset + 16..offset + 24].copy_from_slice(&100u64.to_le_bytes());
    blob[offset + 24..offset + 32].copy_from_slice(&1_000_100u64.to_le_bytes());
    let extension = parse_guest_boot_info_relay_measurement(&blob).expect("parse");
    assert_eq!(extension.frames_completed, 64);
    assert_eq!(guest_relay_measurement_elapsed_tsc(&extension), 1_000_000);
}

#[test]
fn parse_guest_boot_info_relay_measurement_rejects_wrong_magic() {
    let mut blob = [0u8; 48 + 40];
    blob[0..8].copy_from_slice(&GUEST_BOOT_INFO_MAGIC);
    blob[8..12].copy_from_slice(&2u32.to_le_bytes());
    blob[12..16].copy_from_slice(&88u32.to_le_bytes());
    blob[48..52].copy_from_slice(&0xDEAD_BEEFu32.to_le_bytes());
    assert!(parse_guest_boot_info_relay_measurement(&blob).is_none());
}

#[test]
fn parse_relay_measurement_page_header_requires_v2_gpa() {
    let mut header = [0u8; 40];
    header[0..4].copy_from_slice(&GUEST_RELAY_MEASUREMENT_MAGIC.to_le_bytes());
    header[4..8].copy_from_slice(&2u32.to_le_bytes());
    header[8..16].copy_from_slice(&8u64.to_le_bytes());
    header[32..40].copy_from_slice(&0xFEB2_0000u64.to_le_bytes());
    let extension = parse_relay_measurement_page_header(&header).expect("parse");
    assert_eq!(extension.measurement_page_gpa, 0xFEB2_0000);
    assert_eq!(extension.frames_completed, 8);

    header[32..40].copy_from_slice(&0u64.to_le_bytes());
    assert!(parse_relay_measurement_page_header(&header).is_none());
}

#[test]
fn elapsed_tsc_saturates_at_zero() {
    let extension = GuestBootInfoRelayMeasurement {
        magic: GUEST_RELAY_MEASUREMENT_MAGIC,
        version: 2,
        frames_completed: 0,
        tsc_start: 500,
        tsc_end: 100,
        measurement_page_gpa: 0,
    };
    assert_eq!(guest_relay_measurement_elapsed_tsc(&extension), 0);
}

#[test]
fn descriptor_kind_encodings() {
    assert_eq!(GuestMemoryKind::Ram.raw(), 1);
    assert_eq!(GuestMemoryKind::Mmio.raw(), 2);
    assert_eq!(GuestIpcRole::Producer.raw(), 1);
    assert_eq!(GuestIpcRole::Consumer.raw(), 2);
    assert_eq!(GuestDeviceKind::NicE1000.raw(), 1);
}
