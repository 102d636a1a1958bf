//! Guest ELF loading, smoke image, and the boot info blob builder and parser.

use aipervisor::guest_abi::{
    guest_abi_is_compatible, parse_guest_boot_info_relay_measurement, GuestDeviceKind, GuestDeviceRegion,
    GuestIpcRegion, GuestIpcRole, GuestMemoryKind, GuestMemoryRegion, GUEST_ABI_VERSION, GUEST_BOOT_INFO_MAGIC,
    GUEST_RELAY_MEASUREMENT_MAGIC,
};
use aipervisor::guest_boot::boot_info::{serialize_guest_boot_info, GuestBootInfoPlan};
use aipervisor::guest_boot::elf::{guest_entry_phys_for_region, parse_elf64, GuestElfErrorKind};
use aipervisor::guest_boot::parse::{GuestBootInfoParseErrorKind, GuestBootInfoView};
use aipervisor::guest_boot::smoke::{GUEST_SMOKE_IMAGE, GUEST_SMOKE_RUNNING_MARKER};

/// A partition guest image: one PT_LOAD segment holding the smoke code,
/// linked at address zero.
fn partition_guest_elf() -> Vec<u8> {
    let mut elf = vec![0u8; 120];
    elf[0..4].copy_from_slice(&[0x7f, b'E', b'L', b'F']);
    elf[4] = 2;
    elf[5] = 1;
    elf[6] = 1;
    elf[0x10..0x12].copy_from_slice(&2u16.to_le_bytes());
    elf[0x12..0x14].copy_from_slice(&0x3Eu16.to_le_bytes());
    elf[0x14..0x18].copy_from_slice(&1u32.to_le_bytes());
    elf[0x18..0x20].copy_from_slice(&0u64.to_le_bytes());
    elf[0x20..0x28].copy_from_slice(&64u64.to_le_bytes());
    elf[0x34..0x36].copy_from_slice(&64u16.to_le_bytes());
    elf[0x36..0x38].copy_from_slice(&56u16.to_le_bytes());
    elf[0x38..0x3A].copy_from_slice(&1u16.to_le_bytes());
    elf[64..68].copy_from_slice(&1u32.to_le_bytes());
    elf[68..72].copy_from_slice(&5u32.to_le_bytes());
    elf[72..80].copy_from_slice(&120u64.to_le_bytes());
    elf[96..104].copy_from_slice(&24u64.to_le_bytes());
    elf[104..112].copy_from_slice(&24u64.to_le_bytes());
    elf.extend_from_slice(&GUEST_SMOKE_IMAGE);
    elf
}

fn in_partition_plan() -> GuestBootInfoPlan {
    GuestBootInfoPlan {
        vm_id: 0,
        memory_regions: vec![GuestMemoryRegion { kind: GuestMemoryKind::Ram, guest_phys: 0x100_0000, size: 0x40_0000 }],
        ipc_regions: vec![GuestIpcRegion {
            channel_id: 0,
            role: GuestIpcRole::Producer,
            guest_phys: 0x200_0000,
            size: 0x1_0000,
        }],
        device_regions: vec![GuestDeviceRegion {
            kind: GuestDeviceKind::NicE1000,
            mmio_guest_phys: 0xFEB0_0000,
            mmio_size: 0x2_0000,
        }],
    }
}

fn mid_partition_plan() -> GuestBootInfoPlan {
    GuestBootInfoPlan {
        vm_id: 1,
        memory_regions: vec![GuestMemoryRegion { kind: GuestMemoryKind::Ram, guest_phys: 0x140_0000, size: 0x40_0000 }],
        ipc_regions: vec![
            GuestIpcRegion { channel_id: 0, role: GuestIpcRole::Consumer, guest_phys: 0x200_0000, size: 0x1_0000 },
            GuestIpcRegion { channel_id: 1, role: GuestIpcRole::Producer, guest_phys: 0x201_0000, size: 0x1_0000 },
        ],
        device_regions: vec![],
    }
}

#[test]
fn parse_reference_in_elf() {
    let elf = partition_guest_elf();
    let image = parse_elf64(&elf).expect("parse");
    assert_eq!(image.entry_vaddr, 0);
    assert_eq!(image.load_segments.len(), 1);
    assert_eq!(image.load_segments.first().expect("segment").bytes.len(), 24);
}

#[test]
fn guest_entry_phys_matches_region_base_for_zero_linked_entry() {
    let elf = partition_guest_elf();
    let image = parse_elf64(&elf).expect("parse");
    assert_eq!(guest_entry_phys_for_region(&image, 0x1000).expect("entry"), 0x1000);
}

#[test]
fn parsed_segment_holds_the_image_bytes() {
    let elf = partition_guest_elf();
    let image = parse_elf64(&elf).expect("parse");
    let segment = &image.load_segments[0];
    assert_eq!(segment.file_offset, 120);
    assert_eq!(segment.vaddr, 0);
    assert_eq!(segment.bytes.as_slice(), &GUEST_SMOKE_IMAGE[..]);
}

#[test]
fn parse_elf64_rejects_short_and_foreign_images() {
    assert_eq!(parse_elf64(&[0u8; 16]).expect_err("short").kind, GuestElfErrorKind::InvalidInput);
    let mut elf = partition_guest_elf();
    elf[0] = 0;
    assert_eq!(parse_elf64(&elf).expect_err("magic").kind, GuestElfErrorKind::FormatViolation);
    let mut elf = partition_guest_elf();
    elf[0x12] = 0x28;
    assert_eq!(parse_elf64(&elf).expect_err("machine").kind, GuestElfErrorKind::FormatViolation);
    let mut elf = partition_guest_elf();
    elf[96..104].copy_from_slice(&1000u64.to_le_bytes());
    let err = parse_elf64(&elf).expect_err("past end");
    assert_eq!(err.kind, GuestElfErrorKind::FormatViolation);
    assert_eq!(err.message, "elf PT_LOAD segment extends past image end");
    let mut elf = partition_guest_elf();
    elf[64..68].copy_from_slice(&2u32.to_le_bytes());
    assert_eq!(parse_elf64(&elf).expect_err("no load").kind, GuestElfErrorKind::FormatViolation);
}

#[test]
fn guest_entry_phys_rejects_overflow() {
    let mut elf = partition_guest_elf();
    elf[0x18..0x20].copy_from_slice(&0x10u64.to_le_bytes());
    let image = parse_elf64(&elf).expect("parse");
    assert_eq!(guest_entry_phys_for_region(&image, 0x2000).expect("entry"), 0x2010);
    let err = guest_entry_phys_for_region(&image, u64::MAX - 4).expect_err("overflow");
    assert_eq!(err.kind, GuestElfErrorKind::FormatViolation);
}

#[test]
fn guest_smoke_image_is_small() {
    assert!(GUEST_SMOKE_IMAGE.len() <= 64);
}

#[test]
fn guest_smoke_image_ends_with_hlt() {
    assert_eq!(GUEST_SMOKE_IMAGE[23], 0xF4);
    assert!(GUEST_SMOKE_RUNNING_MARKER.starts_with("GUEST:"));
}

#[test]
fn build_guest_boot_info_for_reference_in_partition() {
    let blob = serialize_guest_boot_info(&in_partition_plan()).expect("build");
    let view = GuestBootInfoView::parse(&blob).expect("parse");
    let header = view.header();
    assert!(guest_abi_is_compatible(header));
    assert_eq!(header.memory_region_count, 1);
    assert_eq!(header.ipc_region_count, 1);
    assert_eq!(header.device_region_count, 1);
    assert_eq!(header.vm_id, 0);
}

#[test]
fn build_guest_boot_info_for_reference_mid_partition() {
    let blob = serialize_guest_boot_info(&mid_partition_plan()).expect("build");
    let view = GuestBootInfoView::parse(&blob).expect("parse");
    assert_eq!(view.header().ipc_region_count, 2);
    assert_eq!(view.header().device_region_count, 0);
}

#[test]
fn in_partition_ipc_role_is_producer() {
    let blob = serialize_guest_boot_info(&in_partition_plan()).expect("build");
    let view = GuestBootInfoView::parse(&blob).expect("parse");
    let ipc = view.ipc_region(0).expect("ipc");
    assert_eq!(ipc.role, GuestIpcRole::Producer);
}

#[test]
fn parse_round_trips_reference_in_partition_blob() {
    let plan = in_partition_plan();
    let blob = serialize_guest_boot_info(&plan).expect("build");
    let view = GuestBootInfoView::parse(&blob).expect("parse");
    assert_eq!(view.header().ipc_region_count, 1);
    assert_eq!(view.header().device_region_count, 1);
    assert_eq!(view.memory_region(0).expect("memory"), plan.memory_regions[0]);
    assert_eq!(view.ipc_region(0).expect("ipc"), plan.ipc_regions[0]);
    assert_eq!(view.device_region(0).expect("device"), plan.device_regions[0]);
    let err = view.memory_region(1).expect_err("index");
    assert_eq!(err.kind, GuestBootInfoParseErrorKind::Bounds);
    assert_eq!(err.message, "memory region index out of range");
}

#[test]
fn built_blob_layout_exact_values() {
    let blob = serialize_guest_boot_info(&mid_partition_plan()).expect("build");
    assert_eq!(blob.len(), 48 + 24 * 3 + 40);
    assert_eq!(&blob[0..8], &GUEST_BOOT_INFO_MAGIC);
    assert_eq!(u32::from_le_bytes(blob[8..12].try_into().unwrap()), GUEST_ABI_VERSION);
    assert_eq!(u32::from_le_bytes(blob[12..16].try_into().unwrap()), 160);
    assert_eq!(u32::from_le_bytes(blob[16..20].try_into().unwrap()), 1);
    assert_eq!(u32::from_le_bytes(blob[32..36].try_into().unwrap()), 72);
    assert_eq!(u32::from_le_bytes(blob[40..44].try_into().unwrap()), 120);
    let relay = parse_guest_boot_info_relay_measurement(&blob).expect("relay");
    assert_eq!(relay.magic, GUEST_RELAY_MEASUREMENT_MAGIC);
    assert_eq!(relay.frames_completed, 0);
}

#[test]
fn parse_rejects_truncated_blob() {
    let blob = [0u8; 8];
    assert!(GuestBootInfoView::parse(&blob).is_err());
}

#[test]
fn parse_rejects_bad_magic() {
    let mut bytes = vec![0u8; 48];
    bytes[0..8].copy_from_slice(b"BADVERS\0");
    bytes[8..12].copy_from_slice(&GUEST_ABI_VERSION.to_le_bytes());
    bytes[12..16].copy_from_slice(&48u32.to_le_bytes());
    for offset in [24usize, 32, 40] {
        bytes[offset..offset + 4].copy_from_slice(&48u32.to_le_bytes());
    }
    let err = GuestBootInfoView::parse(&bytes).expect_err("bad magic");
    assert_eq!(err.kind, GuestBootInfoParseErrorKind::Incompatible);
    assert_eq!(err.message, "unsupported guest boot info header");
}

#[test]
fn parse_rejects_size_past_buffer() {
    let mut blob = serialize_guest_boot_info(&in_partition_plan()).expect("build");
    blob.truncate(100);
    let err = GuestBootInfoView::parse(&blob).expect_err("short");
    assert_eq!(err.kind, GuestBootInfoParseErrorKind::Bounds);
    assert_eq!(err.message, "declared guest boot info size exceeds buffer");
}
