//! EPT table programming, materialization, resolution and planning.

use aipervisor::ept::backend::{EptBackend, FailingEptBackend, MockEptBackend, ProgrammingEptBackend};
use aipervisor::ept::constants::{EPT_PAGE_SIZE_BYTES, EPT_ROOT_TABLE_BYTES};
use aipervisor::ept::error::{EptError, EptErrorKind};
use aipervisor::ept::init::{ept_init_required, init_ept, FeatureRequirement};
use aipervisor::ept::paging::{
    ept_maps_guest_page, ept_resolve_guest_page, materialize_ept_paging, patch_ept_table_host_phys,
    EPT_ENTRY_ADDRESS_MASK, EPT_SYNTHETIC_TABLE_FLAG, EPT_TABLE_BYTES,
};
use aipervisor::ept::plan::{plan_ept_init, EptPlanningLayout, VmxRegionPlan};
use aipervisor::ept::program::{
    append_ept_guest_mapping, append_ept_guest_read_only_mapping, encode_ept_leaf_entry,
    encode_identity_ept_entry, ept_leaf_entry_guest_writable, program_ept_tables, EptIdentityMapping,
    EptInitPlan, EptProgrammedMapping, EptProgrammedTables, EPT_ENTRY_READ, EPT_ENTRY_WRITE,
};
use aipervisor::ept::resolve::{resolve_guest_phys_range_to_host, resolve_guest_phys_to_host};

/// Guest physical page of the hypervisor-owned relay measurement page.
const RELAY_MEASUREMENT_PAGE_GUEST_PHYS: u64 = 0xFEB2_0000;

fn empty_tables() -> EptProgrammedTables {
    EptProgrammedTables {
        root_table_phys: 0,
        root_table: vec![0u8; EPT_TABLE_BYTES],
        mappings: Vec::new(),
        paging_tables: Vec::new(),
    }
}

fn sample_tables() -> EptProgrammedTables {
    EptProgrammedTables {
        root_table_phys: 0x2000,
        root_table: vec![0u8; 4096],
        mappings: vec![EptProgrammedMapping {
            guest_phys: 0x1_0000,
            host_phys: 0x10_0000,
            size_bytes: 0x20_0000,
            guest_writable: true,
            encoded_entry: encode_identity_ept_entry(0x10_0000),
        }],
        paging_tables: Vec::new(),
    }
}

fn reference_layout() -> EptPlanningLayout {
    EptPlanningLayout {
        guest_memory: vec![(0x100_0000, 0x40_0000), (0x140_0000, 0x40_0000), (0x180_0000, 0x40_0000)],
        ipc_memory: vec![(0x200_0000, 0x1_0000), (0x201_0000, 0x1_0000)],
        e1000_mmio: vec![Some(0xFEB0_0000)],
        e1000_mmio_size_bytes: 0x2_0000,
    }
}

fn reference_vmx_plan() -> VmxRegionPlan {
    VmxRegionPlan { vmxon_region_phys: 0x400_0000, vmxon_region_bytes: 0x10_0000, vmxon_region_min_bytes: 4096 }
}

#[test]
fn resolve_guest_phys_to_host_maps_within_identity_region() {
    let tables = sample_tables();
    let host = resolve_guest_phys_to_host(&tables, 0x1_2000).expect("resolve");
    assert_eq!(host, 0x10_2000);
}

#[test]
fn resolve_guest_phys_range_to_host_rejects_partially_mapped_range() {
    let tables = sample_tables();
    assert!(resolve_guest_phys_range_to_host(&tables, 0x1_0000, 0x20_0001).is_err());
}

#[test]
fn resolve_reports_why_a_range_fails() {
    let tables = sample_tables();
    let err = resolve_guest_phys_range_to_host(&tables, 0x1_0000, 0x20_0001).expect_err("partial");
    assert_eq!(err.message, "guest physical range not fully covered by programmed EPT mappings");
    let err = resolve_guest_phys_range_to_host(&tables, 0x1_0000, 0).expect_err("empty");
    assert_eq!(err.message, "guest physical read length must be non-zero");
    let err = resolve_guest_phys_range_to_host(&tables, u64::MAX, 2).expect_err("wraps");
    assert_eq!(err.message, "guest physical read end overflow");
}

#[test]
fn resolve_guest_phys_range_to_host_accepts_in_range_read() {
    let tables = sample_tables();
    let host = resolve_guest_phys_range_to_host(&tables, 0x1_2000, 80).expect("resolve");
    assert_eq!(host, 0x10_2000);
}

#[test]
fn ept_error_display_includes_kind_and_message() {
    let err = EptError::new(EptErrorKind::Backend, "mock failure");
    assert!(err.to_string().contains("ept backend error"));
    assert!(err.to_string().contains("mock failure"));
    assert!(EptErrorKind::Planning.to_string().contains("planning"));
    assert!(EptErrorKind::Requirements.to_string().contains("requirements"));
}

#[test]
fn ept_error_text_is_kind_then_message() {
    let err = EptError::new(EptErrorKind::Planning, "bad layout");
    assert_eq!(err.to_string(), "ept planning error: bad layout");
}

#[test]
fn encode_identity_ept_entry_sets_read_bit() {
    let entry = encode_identity_ept_entry(0x10_0000);
    assert_ne!(entry & EPT_ENTRY_READ, 0);
}

#[test]
fn encode_ept_leaf_entry_exact_values() {
    assert_eq!(encode_ept_leaf_entry(0x10_0000, true), 0x10_0000 | 0x37);
    assert_eq!(encode_ept_leaf_entry(0x10_0FFF, false), 0x10_0000 | 0x35);
    assert!(ept_leaf_entry_guest_writable(encode_ept_leaf_entry(0x5000, true)));
    assert!(!ept_leaf_entry_guest_writable(encode_ept_leaf_entry(0x5000, false)));
    assert_eq!(encode_identity_ept_entry(0x3000) & EPT_ENTRY_WRITE, EPT_ENTRY_WRITE);
}

#[test]
fn program_ept_tables_accepts_empty_identity_mappings() {
    let plan = EptInitPlan { identity_mappings: vec![], root_table_phys: 0x2000, root_table_bytes: 4096 };
    let tables = program_ept_tables(&plan).expect("program");
    assert!(tables.mappings.is_empty());
    assert_eq!(tables.root_table.len(), 4096);
}

#[test]
fn program_ept_tables_rejects_zero_sized_mapping() {
    let plan = EptInitPlan {
        identity_mappings: vec![EptIdentityMapping { guest_phys: 0x1000, host_phys: 0x1000, size_bytes: 0 }],
        root_table_phys: 0x2000,
        root_table_bytes: 4096,
    };
    let err = program_ept_tables(&plan).expect_err("must fail");
    assert_eq!(err.kind, EptErrorKind::Planning);
}

#[test]
fn program_ept_tables_rejects_unaligned_guest_base() {
    let plan = EptInitPlan {
        identity_mappings: vec![EptIdentityMapping {
            guest_phys: 0x1001,
            host_phys: 0x1000,
            size_bytes: EPT_PAGE_SIZE_BYTES,
        }],
        root_table_phys: 0x2000,
        root_table_bytes: 4096,
    };
    let err = program_ept_tables(&plan).expect_err("must fail");
    assert_eq!(err.kind, EptErrorKind::Planning);
}

#[test]
fn program_ept_tables_rejects_short_root_table() {
    let plan = EptInitPlan { identity_mappings: vec![], root_table_phys: 0x2000, root_table_bytes: 4095 };
    let err = program_ept_tables(&plan).expect_err("must fail");
    assert_eq!(err.kind, EptErrorKind::Planning);
    assert_eq!(err.message, "EPT root table size below minimum page");
}

#[test]
fn program_ept_tables_accepts_reference_layout() {
    let plan = plan_ept_init(&reference_layout(), &reference_vmx_plan()).expect("ept");
    let tables = program_ept_tables(&plan).expect("program");
    assert!(!tables.mappings.is_empty());
}

#[test]
fn program_ept_tables_builds_root_and_mappings_for_reference_plan() {
    let plan = plan_ept_init(&reference_layout(), &reference_vmx_plan()).expect("ept");
    let tables = program_ept_tables(&plan).expect("program");
    assert_eq!(tables.root_table.len(), EPT_ROOT_TABLE_BYTES as usize);
    assert_eq!(tables.mappings.len(), plan.identity_mappings.len());
    assert!(tables.mappings.iter().all(|entry| entry.encoded_entry & EPT_ENTRY_READ != 0));
}

#[test]
fn programmed_reference_plan_translates_every_planned_page() {
    let plan = plan_ept_init(&reference_layout(), &reference_vmx_plan()).expect("ept");
    let tables = program_ept_tables(&plan).expect("program");
    for mapping in &plan.identity_mappings {
        let mut page = mapping.guest_phys;
        while page < mapping.guest_phys + mapping.size_bytes {
            assert_eq!(ept_resolve_guest_page(&tables, page), Some(page));
            page += 0x10_0000;
        }
    }
    assert_eq!(ept_resolve_guest_page(&tables, 0x300_0000), None);
}

#[test]
fn materialize_maps_high_guest_physical_page() {
    let mut tables = empty_tables();
    append_ept_guest_mapping(&mut tables, RELAY_MEASUREMENT_PAGE_GUEST_PHYS, 0x3000, EPT_PAGE_SIZE_BYTES)
        .expect("append");
    assert!(ept_maps_guest_page(&tables, RELAY_MEASUREMENT_PAGE_GUEST_PHYS));
    assert_eq!(ept_resolve_guest_page(&tables, RELAY_MEASUREMENT_PAGE_GUEST_PHYS), Some(0x3000));
}

#[test]
fn materialize_maps_low_identity_and_high_guest_pages() {
    let mut tables = empty_tables();
    append_ept_guest_mapping(&mut tables, 0, 0, 0x10_0000).expect("low");
    append_ept_guest_mapping(&mut tables, RELAY_MEASUREMENT_PAGE_GUEST_PHYS, 0x4000, EPT_PAGE_SIZE_BYTES)
        .expect("high");
    assert!(ept_maps_guest_page(&tables, 0x1000));
    assert!(ept_maps_guest_page(&tables, RELAY_MEASUREMENT_PAGE_GUEST_PHYS));
}

#[test]
fn patch_ept_table_host_phys_replaces_synthetic_child_pointers() {
    let mut tables = empty_tables();
    append_ept_guest_mapping(&mut tables, RELAY_MEASUREMENT_PAGE_GUEST_PHYS, 0x5000, EPT_PAGE_SIZE_BYTES)
        .expect("append");
    let nested_count = tables.paging_tables.len();
    assert!(nested_count >= 3);
    let nested_phys: Vec<u64> = (0..nested_count).map(|index| 0x10_0000 + index as u64 * 4096).collect();
    patch_ept_table_host_phys(&mut tables, &nested_phys);
    assert!(tables.root_table.iter().any(|&byte| byte != 0));
    assert!(tables.root_table.chunks(8).any(|chunk| {
        u64::from_le_bytes(chunk.try_into().expect("entry")) & EPT_SYNTHETIC_TABLE_FLAG == 0
    }));
}

#[test]
fn patched_root_entry_points_at_first_nested_table() {
    let mut tables = empty_tables();
    append_ept_guest_mapping(&mut tables, 0x20_0000, 0x5000, EPT_PAGE_SIZE_BYTES).expect("append");
    assert_eq!(tables.paging_tables.len(), 3);
    patch_ept_table_host_phys(&mut tables, &[0x10_0000, 0x10_1000, 0x10_2000]);
    let root0 = u64::from_le_bytes(tables.root_table[0..8].try_into().expect("entry"));
    assert_eq!(root0 & EPT_ENTRY_ADDRESS_MASK, 0x10_0000);
    assert_eq!(root0 & EPT_SYNTHETIC_TABLE_FLAG, 0);
}

#[test]
fn disjoint_mappings_resolve_the_same_both_ways() {
    let mut tables = empty_tables();
    append_ept_guest_mapping(&mut tables, 0x40_0000, 0x80_0000, 0x2000).expect("first");
    append_ept_guest_read_only_mapping(&mut tables, 0x60_0000, 0x90_0000, 0x1000).expect("second");
    for page in [0x40_0000u64, 0x40_1000, 0x60_0000] {
        let walked = ept_resolve_guest_page(&tables, page);
        let scanned = resolve_guest_phys_to_host(&tables, page).ok();
        assert_eq!(walked, scanned);
    }
    assert_eq!(ept_resolve_guest_page(&tables, 0x40_1000), Some(0x80_1000));
    assert_eq!(ept_resolve_guest_page(&tables, 0x60_1000), None);
    assert!(resolve_guest_phys_to_host(&tables, 0x60_1000).is_err());
    assert_eq!(tables.mappings.len(), 2);
    assert!(!tables.mappings[1].guest_writable);
}

#[test]
fn append_rejects_overlapping_mapping() {
    let mut tables = empty_tables();
    append_ept_guest_mapping(&mut tables, 0x40_0000, 0x80_0000, 0x2000).expect("first");
    let err = append_ept_guest_mapping(&mut tables, 0x40_1000, 0x90_0000, 0x1000).expect_err("overlap");
    assert_eq!(err.kind, EptErrorKind::Planning);
    assert_eq!(tables.mappings.len(), 1);
    assert_eq!(ept_resolve_guest_page(&tables, 0x40_1000), Some(0x80_1000));
}

#[test]
fn append_reports_why_it_refuses() {
    let mut tables = empty_tables();
    append_ept_guest_mapping(&mut tables, 0x40_0000, 0x80_0000, 0x2000).expect("first");
    let err = append_ept_guest_mapping(&mut tables, 0x40_1000, 0x90_0000, 0x1000).expect_err("overlap");
    assert_eq!(err.message, "EPT guest mapping overlaps an existing mapping");
    let err = append_ept_guest_mapping(&mut tables, 0x1000, 0x1001, 0x1000).expect_err("unaligned");
    assert_eq!(err.message, "EPT mapping bases must be page aligned");
    let err = append_ept_guest_mapping(&mut tables, 0x1000, 0x1000, 0x10).expect_err("size");
    assert_eq!(err.message, "EPT mapping size must be a non-zero page multiple");
    let err = append_ept_guest_mapping(&mut tables, 0xFFFF_FFFF_FFFF_F000, 0x1000, 0x1000).expect_err("end");
    assert_eq!(err.message, "EPT mapping guest end overflow");
}

#[test]
fn append_rejects_unaligned_or_empty_mapping() {
    let mut tables = empty_tables();
    assert!(append_ept_guest_mapping(&mut tables, 0x1001, 0x1000, 0x1000).is_err());
    assert!(append_ept_guest_mapping(&mut tables, 0x1000, 0x1000, 0).is_err());
    assert!(tables.mappings.is_empty());
}

#[test]
fn materialize_rebuilds_hierarchy_from_records() {
    let mut tables = sample_tables();
    materialize_ept_paging(&mut tables).expect("materialize");
    assert_eq!(ept_resolve_guest_page(&tables, 0x2_0000), Some(0x11_0000));
    assert_eq!(resolve_guest_phys_to_host(&tables, 0x2_0000).expect("resolve"), 0x11_0000);
    assert!(!ept_maps_guest_page(&tables, 0x21_0000));
}

#[test]
fn init_ept_invokes_mock_backend_for_reference_platform() {
    let plan = plan_ept_init(&reference_layout(), &reference_vmx_plan()).expect("ept plan");
    let mut backend = MockEptBackend::default();
    init_ept(&mut backend, &plan, true).expect("init");
    assert_eq!(backend.install_calls, 1);
    assert_eq!(backend.last_plan.as_ref().map(|p| p.identity_mappings.len()), Some(6));
}

#[test]
fn init_ept_rejects_missing_ept_capability() {
    let plan = plan_ept_init(&reference_layout(), &reference_vmx_plan()).expect("ept plan");
    let mut backend = MockEptBackend::default();
    let err = init_ept(&mut backend, &plan, false).expect_err("must fail");
    assert_eq!(err.kind, EptErrorKind::Requirements);
    assert_eq!(backend.install_calls, 0);
}

#[test]
fn init_ept_propagates_backend_failure() {
    let plan = plan_ept_init(&reference_layout(), &reference_vmx_plan()).expect("ept plan");
    let mut backend = FailingEptBackend;
    assert!(init_ept(&mut backend, &plan, true).is_err());
}

#[test]
fn programming_backend_keeps_programmed_tables() {
    let plan = plan_ept_init(&reference_layout(), &reference_vmx_plan()).expect("ept plan");
    let mut backend = ProgrammingEptBackend::default();
    backend.install_ept(&plan).expect("program");
    assert_eq!(backend.program_calls, 1);
    let tables = backend.last_tables.expect("tables");
    assert_eq!(tables.root_table_phys, plan.root_table_phys);
}

#[test]
fn ept_init_required_matches_feature_requirement() {
    assert!(ept_init_required(FeatureRequirement::Required));
    assert!(ept_init_required(FeatureRequirement::Preferred));
    assert!(!ept_init_required(FeatureRequirement::Optional));
    assert!(!ept_init_required(FeatureRequirement::Disabled));
}

#[test]
fn plan_ept_init_builds_identity_mappings_for_reference_layout() {
    let layout = reference_layout();
    let ept_plan = plan_ept_init(&layout, &reference_vmx_plan()).expect("ept plan");
    assert_eq!(
        ept_plan.identity_mappings.len(),
        layout.guest_memory.len() + layout.ipc_memory.len() + layout.e1000_mmio.len()
    );
    assert!(ept_plan.root_table_bytes >= EPT_ROOT_TABLE_BYTES);
    assert_eq!(ept_plan.root_table_phys, 0x400_1000);
    assert_eq!(
        ept_plan.identity_mappings[5],
        EptIdentityMapping { guest_phys: 0xFEB0_0000, host_phys: 0xFEB0_0000, size_bytes: 0x2_0000 }
    );
}

#[test]
fn plan_ept_init_rejects_reserve_too_small_for_tables() {
    let mut vmx_plan = reference_vmx_plan();
    vmx_plan.vmxon_region_bytes = vmx_plan.vmxon_region_min_bytes;
    assert!(plan_ept_init(&reference_layout(), &vmx_plan).is_err());
}

#[test]
fn plan_ept_init_rejects_unaligned_guest_mapping() {
    let mut layout = reference_layout();
    layout.guest_memory[0].0 = 0x1001;
    let err = plan_ept_init(&layout, &reference_vmx_plan()).expect_err("must fail");
    assert_eq!(err.kind, EptErrorKind::Planning);
}

#[test]
fn plan_ept_init_rejects_zero_sized_mapping() {
    let mut layout = reference_layout();
    layout.guest_memory[0].1 = 0;
    let err = plan_ept_init(&layout, &reference_vmx_plan()).expect_err("must fail");
    assert_eq!(err.kind, EptErrorKind::Planning);
}

#[test]
fn plan_ept_init_rejects_undersized_hypervisor_reserve() {
    let mut vmx_plan = reference_vmx_plan();
    vmx_plan.vmxon_region_bytes = 4096;
    let err = plan_ept_init(&reference_layout(), &vmx_plan).expect_err("must fail");
    assert_eq!(err.kind, EptErrorKind::Planning);
    assert_eq!(err.message, "hypervisor reserve too small for VMXON and EPT root table");
}

#[test]
fn plan_ept_init_rejects_unaligned_host_mapping() {
    let mut layout = reference_layout();
    layout.ipc_memory[1].0 = 0x201_0800;
    let err = plan_ept_init(&layout, &reference_vmx_plan()).expect_err("must fail");
    assert_eq!(err.kind, EptErrorKind::Planning);
}

#[test]
fn plan_ept_init_rejects_unplanned_e1000_window() {
    let mut layout = reference_layout();
    layout.e1000_mmio.push(None);
    let err = plan_ept_init(&layout, &reference_vmx_plan()).expect_err("must fail");
    assert_eq!(err.kind, EptErrorKind::Planning);
    assert_eq!(err.message, "failed to plan e1000 mmio guest mapping");
}

#[test]
fn read_only_append_writes_leaf_without_write_permission() {
    let mut tables = empty_tables();
    append_ept_guest_read_only_mapping(&mut tables, 0x1000, 0x3000, 0x1000).expect("append");
    assert_eq!(tables.paging_tables.len(), 3);
    let leaf = u64::from_le_bytes(tables.paging_tables[2][8..16].try_into().expect("entry"));
    assert_eq!(leaf, 0x3035);
    assert!(!ept_leaf_entry_guest_writable(leaf));
    assert_eq!(tables.mappings[0].encoded_entry, encode_ept_leaf_entry(0x3000, false));
    let mut writable = empty_tables();
    append_ept_guest_mapping(&mut writable, 0x1000, 0x3000, 0x1000).expect("append");
    let leaf = u64::from_le_bytes(writable.paging_tables[2][8..16].try_into().expect("entry"));
    assert_eq!(leaf, 0x3037);
}

#[test]
fn second_materialize_leaves_tables_unchanged() {
    let mut tables = empty_tables();
    append_ept_guest_mapping(&mut tables, 0x40_0000, 0x80_0000, 0x2000).expect("first");
    append_ept_guest_read_only_mapping(&mut tables, 0x8000_0000, 0x90_0000, 0x1000).expect("second");
    let before = tables.clone();
    materialize_ept_paging(&mut tables).expect("rebuild");
    assert_eq!(tables, before);
    let mut stale = before.clone();
    stale.root_table = vec![0xAAu8; EPT_TABLE_BYTES];
    stale.paging_tables.push(vec![0x55u8; EPT_TABLE_BYTES]);
    materialize_ept_paging(&mut stale).expect("rebuild stale");
    assert_eq!(stale, before);
}

#[test]
fn patch_leaves_no_synthetic_pointer_anywhere() {
    let mut tables = empty_tables();
    append_ept_guest_mapping(&mut tables, RELAY_MEASUREMENT_PAGE_GUEST_PHYS, 0x5000, EPT_PAGE_SIZE_BYTES)
        .expect("append");
    append_ept_guest_read_only_mapping(&mut tables, 0x1000, 0x3000, 0x2000).expect("append");
    let nested_count = tables.paging_tables.len();
    assert!(nested_count >= 3);
    let nested_phys: Vec<u64> = (0..nested_count).map(|index| 0x10_0000 + index as u64 * 4096).collect();
    patch_ept_table_host_phys(&mut tables, &nested_phys);
    let mut all_tables = vec![tables.root_table.clone()];
    all_tables.extend(tables.paging_tables.iter().cloned());
    for table in &all_tables {
        for chunk in table.chunks(8) {
            let entry = u64::from_le_bytes(chunk.try_into().expect("entry"));
            assert_eq!(entry & EPT_SYNTHETIC_TABLE_FLAG, 0);
        }
    }
}
