//! Layout snapshot conversion and restoration.

use aipervisor::boot_check::BootCheckErrorKind;
use aipervisor::snapshot::convert::{layout_snapshot_from_platform_ir, static_platform_ir_from_layout_snapshot};
use aipervisor::snapshot::types::{
    DatapathRole, HostNetworkInterface, HostNetworkPlan, LayoutSnapshot, PciBdf, PlannedGuestMemory,
    PlannedIpcMemory, PlannedPciDevice, PlatformLayout, RequirementsSnapshot, LAYOUT_DEVICE_KIND_NIC_E1000,
    LAYOUT_DEVICE_ROLE_DATAPATH_IN, LAYOUT_DEVICE_ROLE_DATAPATH_OUT, LAYOUT_DEVICE_ROLE_NONE,
    LAYOUT_HOST_NETWORK_BACKEND_TAP,
};

type Snapshot = LayoutSnapshot<32, 16, 32>;

fn bdf(device: u8) -> PciBdf {
    PciBdf { segment: 0, bus: 0, device, function: 0 }
}

fn sample_layout() -> PlatformLayout {
    PlatformLayout {
        platform_name: "qemu".to_string(),
        guest_memory: vec![
            PlannedGuestMemory { partition_id: "ingress".to_string(), vm_id: 0, host_phys: 0x4000_0000, size_bytes: 0x100_0000 },
            PlannedGuestMemory { partition_id: "egress".to_string(), vm_id: 1, host_phys: 0x4100_0000, size_bytes: 0x100_0000 },
        ],
        ipc_memory: vec![PlannedIpcMemory {
            channel_name: "relay".to_string(),
            channel_id: 7,
            producer_vm_id: 0,
            consumer_vm_id: 1,
            host_phys: 0x4200_0000,
            size_bytes: 0x1_0000,
        }],
        hypervisor_reserve_phys: 0x3000_0000,
        hypervisor_reserve_bytes: 0x400_0000,
        pci_devices: vec![
            PlannedPciDevice { bdf: bdf(3), vm_id: 0, kind: "nic_e1000".to_string(), role: Some(DatapathRole::In) },
            PlannedPciDevice { bdf: bdf(4), vm_id: 1, kind: "nic_e1000".to_string(), role: Some(DatapathRole::Out) },
            PlannedPciDevice { bdf: bdf(5), vm_id: 1, kind: "storage".to_string(), role: None },
        ],
        host_network: HostNetworkPlan {
            enabled: true,
            backend: "tap".to_string(),
            interfaces: vec![
                HostNetworkInterface {
                    partition_id: "ingress".to_string(),
                    vm_id: 0,
                    bdf: bdf(3),
                    pci_addr: "00:03.0".to_string(),
                    netdev_id: "net0".to_string(),
                    tap_ifname: Some("tap0".to_string()),
                },
                HostNetworkInterface {
                    partition_id: "egress".to_string(),
                    vm_id: 1,
                    bdf: bdf(4),
                    pci_addr: "00:04.0".to_string(),
                    netdev_id: "net1".to_string(),
                    tap_ifname: None,
                },
            ],
        },
    }
}

fn requirements_for(layout: &PlatformLayout) -> RequirementsSnapshot {
    RequirementsSnapshot {
        arch: 0,
        vmx: 0,
        ept: 0,
        vtd: 0,
        min_physical_cores: 1,
        smt_policy: 0,
        min_ram_bytes: 1,
        interrupt_remapping: 0,
        x2apic: 0,
        invariant_tsc: 0,
        vpid: 0,
        vmx_preemption_timer: 0,
        nx: 0,
        page_size_count: 1,
        page_sizes: vec![4096, 0, 0, 0],
        expected_pci_count: 0,
        expected_pci: Vec::new(),
        hypervisor_reserve_phys: layout.hypervisor_reserve_phys,
        hypervisor_reserve_bytes: layout.hypervisor_reserve_bytes,
        config_digest: [0; 32],
    }
}

fn snapshot_of(layout: &PlatformLayout) -> Snapshot {
    layout_snapshot_from_platform_ir::<4, 4, 8, 4, 32, 16, 32>(layout).expect("layout snapshot")
}

#[test]
fn layout_snapshot_roundtrip_preserves_gate_c_planning_fields() {
    let layout = sample_layout();
    let requirements = requirements_for(&layout);
    let layout_snapshot = snapshot_of(&layout);
    let restored = static_platform_ir_from_layout_snapshot::<4, 4, 8, 4, 32, 16, 32>(&layout_snapshot, &requirements)
        .expect("restore");
    assert_eq!(restored.guest_memory.len(), layout.guest_memory.len());
    assert_eq!(restored.ipc_memory.len(), layout.ipc_memory.len());
    assert_eq!(restored.pci_devices.len(), layout.pci_devices.len());
    assert_eq!(
        restored.guest_memory.iter().map(|region| region.vm_id).collect::<Vec<_>>(),
        layout.guest_memory.iter().map(|region| region.vm_id).collect::<Vec<_>>()
    );
    assert_eq!(
        restored
            .ipc_memory
            .iter()
            .map(|region| (region.channel_id, region.producer_vm_id, region.consumer_vm_id))
            .collect::<Vec<_>>(),
        layout
            .ipc_memory
            .iter()
            .map(|region| (region.channel_id, region.producer_vm_id, region.consumer_vm_id))
            .collect::<Vec<_>>()
    );
    assert_eq!(
        restored.pci_devices.iter().map(|device| (device.vm_id, device.kind.as_str())).collect::<Vec<_>>(),
        vec![(0, "nic_e1000"), (1, "nic_e1000"), (1, "")]
    );
}

#[test]
fn static_platform_ir_from_layout_snapshot_rejects_reserve_mismatch() {
    let layout = sample_layout();
    let requirements = requirements_for(&layout);
    let mut layout_snapshot = snapshot_of(&layout);
    layout_snapshot.hypervisor_reserve_bytes ^= 1;
    let err = static_platform_ir_from_layout_snapshot::<4, 4, 8, 4, 32, 16, 32>(&layout_snapshot, &requirements)
        .expect_err("mismatch");
    assert_eq!(err.kind, BootCheckErrorKind::Platform);
    assert_eq!(err.message, "layout snapshot reserve bytes mismatch with requirements snapshot");
}

#[test]
fn layout_snapshot_holds_counts_codes_and_zeroed_spare_entries() {
    let layout = sample_layout();
    let snapshot = snapshot_of(&layout);
    assert_eq!(snapshot.guest_region_count, 2);
    assert_eq!(snapshot.guest_regions.len(), 4);
    assert_eq!(snapshot.guest_regions[0].partition_id_len, 7);
    assert_eq!(&snapshot.guest_regions[0].partition_id[..7], b"ingress");
    assert_eq!(snapshot.guest_regions[2].vm_id, 0);
    assert_eq!(snapshot.guest_regions[2].partition_id, [0u8; 32]);
    assert_eq!(snapshot.pci_devices.len(), 8);
    assert_eq!(snapshot.pci_devices[0].device_role, LAYOUT_DEVICE_ROLE_DATAPATH_IN);
    assert_eq!(snapshot.pci_devices[1].device_role, LAYOUT_DEVICE_ROLE_DATAPATH_OUT);
    assert_eq!(snapshot.pci_devices[2].device_role, LAYOUT_DEVICE_ROLE_NONE);
    assert_eq!(snapshot.pci_devices[0].device_kind, LAYOUT_DEVICE_KIND_NIC_E1000);
    assert_eq!(snapshot.pci_devices[2].device_kind, 0);
    assert_eq!(snapshot.host_network_enabled, 1);
    assert_eq!(snapshot.host_network_backend, LAYOUT_HOST_NETWORK_BACKEND_TAP);
    assert_eq!(snapshot.host_network_interface_count, 2);
    assert_eq!(snapshot.host_network_interfaces[0].tap_ifname_len, 4);
    assert_eq!(snapshot.host_network_interfaces[1].tap_ifname_len, 0);
    assert_eq!(snapshot.hypervisor_reserve_phys, 0x3000_0000);
}

#[test]
fn restored_layout_keeps_partitions_roles_and_host_network() {
    let layout = sample_layout();
    let requirements = requirements_for(&layout);
    let snapshot = snapshot_of(&layout);
    let restored = static_platform_ir_from_layout_snapshot::<4, 4, 8, 4, 32, 16, 32>(&snapshot, &requirements)
        .expect("restore");
    assert_eq!(restored.platform_name, "");
    assert_eq!(restored.guest_memory, layout.guest_memory);
    assert_eq!(restored.ipc_memory[0].channel_name, "");
    assert_eq!(restored.pci_devices[0].role, Some(DatapathRole::In));
    assert_eq!(restored.pci_devices[1].role, Some(DatapathRole::Out));
    assert_eq!(restored.pci_devices[2].role, None);
    assert!(restored.host_network.enabled);
    assert_eq!(restored.host_network.backend, "tap");
    let ifaces = &restored.host_network.interfaces;
    assert_eq!(ifaces[0].partition_id, "ingress");
    assert_eq!(ifaces[1].partition_id, "egress");
    assert_eq!(ifaces[0].tap_ifname.as_deref(), Some("tap0"));
    assert_eq!(ifaces[1].tap_ifname, None);
    assert_eq!(ifaces[1].netdev_id, "net1");
    assert_eq!(ifaces[0].pci_addr, "");
    assert_eq!(restored.hypervisor_reserve_bytes, layout.hypervisor_reserve_bytes);
}

#[test]
fn layout_snapshot_rejects_counts_over_capacity_and_long_text() {
    let layout = sample_layout();
    let err = layout_snapshot_from_platform_ir::<1, 4, 8, 4, 32, 16, 32>(&layout).expect_err("guests");
    assert_eq!(err.message, "guest region count exceeds layout snapshot capacity");
    let err = layout_snapshot_from_platform_ir::<4, 0, 8, 4, 32, 16, 32>(&layout).expect_err("ipc");
    assert_eq!(err.message, "ipc region count exceeds layout snapshot capacity");
    let err = layout_snapshot_from_platform_ir::<4, 4, 2, 4, 32, 16, 32>(&layout).expect_err("pci");
    assert_eq!(err.message, "pci device count exceeds layout snapshot capacity");
    let err = layout_snapshot_from_platform_ir::<4, 4, 8, 1, 32, 16, 32>(&layout).expect_err("host");
    assert_eq!(err.message, "host network interface count exceeds layout snapshot capacity");
    let err = layout_snapshot_from_platform_ir::<4, 4, 8, 4, 6, 16, 32>(&layout).expect_err("partition");
    assert_eq!(err.message, "layout snapshot string exceeds fixed capacity");
    let err = layout_snapshot_from_platform_ir::<4, 4, 8, 4, 32, 3, 32>(&layout).expect_err("tap");
    assert_eq!(err.message, "layout snapshot string exceeds fixed capacity");
    assert_eq!(err.kind, BootCheckErrorKind::Platform);
}

#[test]
fn restore_rejects_bad_counts_tables_and_text() {
    let layout = sample_layout();
    let requirements = requirements_for(&layout);
    let restore = |s: &Snapshot| static_platform_ir_from_layout_snapshot::<4, 4, 8, 4, 32, 16, 32>(s, &requirements);

    let mut s = snapshot_of(&layout);
    s.guest_region_count = 5;
    assert_eq!(restore(&s).expect_err("count").message, "layout snapshot guest region count exceeds maximum");

    let mut s = snapshot_of(&layout);
    s.host_network_interface_count = 5;
    assert_eq!(restore(&s).expect_err("count").message, "layout snapshot host network interface count exceeds maximum");

    let mut s = snapshot_of(&layout);
    s.hypervisor_reserve_phys += 0x1000;
    assert_eq!(restore(&s).expect_err("phys").message, "layout snapshot reserve phys mismatch with requirements snapshot");

    let mut s = snapshot_of(&layout);
    s.pci_devices.truncate(2);
    assert_eq!(restore(&s).expect_err("table").message, "layout snapshot pci devices out of bounds");

    let mut s = snapshot_of(&layout);
    s.guest_regions[1].partition_id_len = 40;
    assert_eq!(restore(&s).expect_err("len").message, "layout snapshot string length out of bounds");

    let mut s = snapshot_of(&layout);
    s.host_network_interfaces[0].netdev_id[0] = 0xFF;
    assert_eq!(restore(&s).expect_err("utf8").message, "layout snapshot string is not valid UTF-8");
}
