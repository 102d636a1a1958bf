//! The planned platform layout the hypervisor boots with, and the
//! fixed-capacity snapshot of it embedded in the hypervisor image.

use vstd::prelude::*;

verus! {

/// Snapshot code of a PCI device with no datapath role.
pub const LAYOUT_DEVICE_ROLE_NONE: u8 = 0;
/// Snapshot code of the datapath ingress NIC.
pub const LAYOUT_DEVICE_ROLE_DATAPATH_IN: u8 = 1;
/// Snapshot code of the datapath egress NIC.
pub const LAYOUT_DEVICE_ROLE_DATAPATH_OUT: u8 = 2;
/// Snapshot code of an emulated e1000 NIC.
pub const LAYOUT_DEVICE_KIND_NIC_E1000: u32 = 1;
/// Snapshot code of the user-mode host network backend.
pub const LAYOUT_HOST_NETWORK_BACKEND_USER: u8 = 0;
/// Snapshot code of the TAP host network backend.
pub const LAYOUT_HOST_NETWORK_BACKEND_TAP: u8 = 1;

/// A PCI segment/bus/device/function address.
#[derive(Debug, Clone, Copy, PartialEq, Eq, Structural)]
pub struct PciBdf {
    /// PCI segment group.
    pub segment: u16,
    /// Bus number.
    pub bus: u8,
    /// Device number.
    pub device: u8,
    /// Function number.
    pub function: u8,
}

/// The datapath role of a planned NIC.
#[derive(Debug, Clone, Copy, PartialEq, Eq, Structural)]
pub enum DatapathRole {
    /// Receives datapath traffic.
    In,
    /// Sends datapath traffic.
    Out,
}

/// Private memory planned for one guest.
#[derive(Debug, Clone, PartialEq, Eq)]
pub struct PlannedGuestMemory {
    /// Partition the guest belongs to.
    pub partition_id: String,
    /// Guest VM id.
    pub vm_id: u32,
    /// Host physical base.
    pub host_phys: u64,
    /// Size in bytes.
    pub size_bytes: u64,
}

/// Shared memory planned for one IPC channel.
#[derive(Debug, Clone, PartialEq, Eq)]
pub struct PlannedIpcMemory {
    /// Channel name.
    pub channel_name: String,
    /// Channel id.
    pub channel_id: u32,
    /// VM that writes the channel.
    pub producer_vm_id: u32,
    /// VM that reads the channel.
    pub consumer_vm_id: u32,
    /// Host physical base.
    pub host_phys: u64,
    /// Size in bytes.
    pub size_bytes: u64,
}

/// A PCI device assigned to a guest.
#[derive(Debug, Clone, PartialEq, Eq)]
pub struct PlannedPciDevice {
    /// Device address.
    pub bdf: PciBdf,
    /// Owning VM id.
    pub vm_id: u32,
    /// Device kind (`nic_e1000` for an emulated e1000 NIC).
    pub kind: String,
    /// Datapath role, if any.
    pub role: Option<DatapathRole>,
}

/// One host network interface backing a guest NIC.
#[derive(Debug, Clone, PartialEq, Eq)]
pub struct HostNetworkInterface {
    /// Partition of the guest the NIC belongs to.
    pub partition_id: String,
    /// VM id of that guest.
    pub vm_id: u32,
    /// PCI address of the NIC.
    pub bdf: PciBdf,
    /// Host-side PCI address text.
    pub pci_addr: String,
    /// Host network device id.
    pub netdev_id: String,
    /// TAP interface name, for the TAP backend.
    pub tap_ifname: Option<String>,
}

/// How guest NICs reach the host network.
#[derive(Debug, Clone, PartialEq, Eq)]
pub struct HostNetworkPlan {
    /// Whether host networking is enabled.
    pub enabled: bool,
    /// Backend name (`tap` or `user`).
    pub backend: String,
    /// Interfaces, in plan order.
    pub interfaces: Vec<HostNetworkInterface>,
}

/// The planned static platform: guest and IPC memory, the hypervisor
/// reserve, assigned PCI devices and host networking.
#[derive(Debug, Clone, PartialEq, Eq)]
pub struct PlatformLayout {
    /// Platform name.
    pub platform_name: String,
    /// Guest private memory, in plan order.
    pub guest_memory: Vec<PlannedGuestMemory>,
    /// IPC shared memory, in plan order.
    pub ipc_memory: Vec<PlannedIpcMemory>,
    /// Host physical base of the hypervisor reserve.
    pub hypervisor_reserve_phys: u64,
    /// Size in bytes of the hypervisor reserve.
    pub hypervisor_reserve_bytes: u64,
    /// Assigned PCI devices, in plan order.
    pub pci_devices: Vec<PlannedPciDevice>,
    /// Host networking.
    pub host_network: HostNetworkPlan,
}

/// Snapshot entry of one guest region; the partition id is a field of
/// `PID` bytes with a length byte.
#[derive(Debug, Clone, Copy, PartialEq, Eq)]
pub struct LayoutGuestRegionSnapshot<const PID: usize> {
    /// Guest VM id.
    pub vm_id: u32,
    /// Host physical base.
    pub host_phys: u64,
    /// Size in bytes.
    pub size_bytes: u64,
    /// Bytes of the partition id in use.
    pub partition_id_len: u8,
    /// Partition id bytes, zero padded.
    pub partition_id: [u8; PID],
}

/// Snapshot entry of one IPC region.
#[derive(Debug, Clone, Copy, PartialEq, Eq, Structural)]
pub struct LayoutIpcRegionSnapshot {
    /// Channel id.
    pub channel_id: u32,
    /// Producer VM id.
    pub producer_vm_id: u32,
    /// Consumer VM id.
    pub consumer_vm_id: u32,
    /// Host physical base.
    pub host_phys: u64,
    /// Size in bytes.
    pub size_bytes: u64,
}

/// Snapshot entry of one assigned PCI device.
#[derive(Debug, Clone, Copy, PartialEq, Eq, Structural)]
pub struct LayoutPciSnapshot {
    /// Owning VM id.
    pub vm_id: u32,
    /// PCI segment group.
    pub segment: u16,
    /// Bus number.
    pub bus: u8,
    /// Device number.
    pub device: u8,
    /// Function number.
    pub function: u8,
    /// Datapath role code.
    pub device_role: u8,
    /// Always zero.
    pub reserved: u8,
    /// Device kind code.
    pub device_kind: u32,
}

/// Snapshot entry of one host network interface; the TAP name and the
/// netdev id are fields of `IFN` and `NDV` bytes with length bytes.
#[derive(Debug, Clone, Copy, PartialEq, Eq)]
pub struct LayoutHostNetworkSnapshot<const IFN: usize, const NDV: usize> {
    /// VM id of the guest.
    pub vm_id: u32,
    /// PCI segment group.
    pub segment: u16,
    /// Bus number.
    pub bus: u8,
    /// Device number.
    pub device: u8,
    /// Function number.
    pub function: u8,
    /// Backend code.
    pub backend: u8,
    /// Bytes of the TAP name in use.
    pub tap_ifname_len: u8,
    /// TAP name bytes, zero padded.
    pub tap_ifname: [u8; IFN],
    /// Bytes of the netdev id in use.
    pub netdev_id_len: u8,
    /// Always zero.
    pub reserved: u8,
    /// Netdev id bytes, zero padded.
    pub netdev_id: [u8; NDV],
}

/// The layout snapshot embedded in the hypervisor image: for each kind of
/// entry, a count and a table of fixed capacity whose first `count`
/// entries are in use.
#[derive(Debug, Clone, PartialEq, Eq)]
pub struct LayoutSnapshot<const PID: usize, const IFN: usize, const NDV: usize> {
    /// Guest regions in use.
    pub guest_region_count: u32,
    /// Guest region table.
    pub guest_regions: Vec<LayoutGuestRegionSnapshot<PID>>,
    /// IPC regions in use.
    pub ipc_region_count: u32,
    /// IPC region table.
    pub ipc_regions: Vec<LayoutIpcRegionSnapshot>,
    /// PCI devices in use.
    pub pci_device_count: u32,
    /// PCI device table.
    pub pci_devices: Vec<LayoutPciSnapshot>,
    /// Host physical base of the hypervisor reserve.
    pub hypervisor_reserve_phys: u64,
    /// Size in bytes of the hypervisor reserve.
    pub hypervisor_reserve_bytes: u64,
    /// 1 when host networking is enabled, else 0.
    pub host_network_enabled: u8,
    /// Host network backend code.
    pub host_network_backend: u8,
    /// Always zero.
    pub host_network_reserved: [u8; 2],
    /// Host network interfaces in use.
    pub host_network_interface_count: u32,
    /// Host network interface table.
    pub host_network_interfaces: Vec<LayoutHostNetworkSnapshot<IFN, NDV>>,
}

/// Snapshot entry of one PCI device the configuration expects.
#[derive(Debug, Clone, Copy, PartialEq, Eq)]
pub struct ExpectedPciSnapshot {
    /// Owning VM id.
    pub vm_id: u32,
    /// PCI segment group.
    pub segment: u16,
    /// Bus number.
    pub bus: u8,
    /// Device number.
    pub device: u8,
    /// Function number.
    pub function: u8,
    /// Always zero.
    pub reserved: [u8; 3],
}

/// The platform requirements snapshot embedded in the hypervisor image:
/// feature and policy codes, and tables of fixed capacity whose first
/// `count` entries are in use.
#[derive(Debug, Clone, PartialEq, Eq)]
pub struct RequirementsSnapshot {
    /// Architecture code.
    pub arch: u32,
    /// VMX requirement code.
    pub vmx: u32,
    /// EPT requirement code.
    pub ept: u32,
    /// VT-d requirement code.
    pub vtd: u32,
    /// Minimum physical cores.
    pub min_physical_cores: u32,
    /// SMT policy code.
    pub smt_policy: u32,
    /// Minimum RAM in bytes.
    pub min_ram_bytes: u64,
    /// Interrupt remapping requirement code.
    pub interrupt_remapping: u32,
    /// x2APIC requirement code.
    pub x2apic: u32,
    /// Invariant TSC requirement code.
    pub invariant_tsc: u32,
    /// VPID requirement code.
    pub vpid: u32,
    /// VMX preemption timer requirement code.
    pub vmx_preemption_timer: u32,
    /// NX requirement code.
    pub nx: u32,
    /// Page sizes in use.
    pub page_size_count: u32,
    /// Page size table.
    pub page_sizes: Vec<u64>,
    /// Expected PCI devices in use.
    pub expected_pci_count: u32,
    /// Expected PCI device table.
    pub expected_pci: Vec<ExpectedPciSnapshot>,
    /// Host physical base of the hypervisor reserve.
    pub hypervisor_reserve_phys: u64,
    /// Size in bytes of the hypervisor reserve.
    pub hypervisor_reserve_bytes: u64,
    /// SHA-256 digest of the configuration.
    pub config_digest: [u8; 32],
}

} // verus!
