//! Converting the planned platform layout into its fixed-capacity snapshot
//! and back.
//!
//! `G`, `I`, `P` and `H` are the capacities of the guest region, IPC
//! region, PCI device and host network interface tables; `PID`, `IFN` and
//! `NDV` those of the partition id, TAP name and netdev id fields.

use vstd::prelude::*;
use vstd::string::{StringExecFns, StringSliceAdditionalSpecFns};
use vstd::utf8::{decode_utf8, encode_utf8, valid_utf8};
use crate::boot_check::{
    decode_fixed_string, encode_fixed_string, fixed_string_decoding, fixed_string_encoding,
    lemma_fixed_string_round_trip, BootCheckError, BootCheckErrorKind,
};
use crate::snapshot::types::{
    DatapathRole, HostNetworkInterface, HostNetworkPlan, LayoutGuestRegionSnapshot,
    LayoutHostNetworkSnapshot, LayoutIpcRegionSnapshot, LayoutPciSnapshot, LayoutSnapshot, PciBdf,
    PlannedGuestMemory, PlannedIpcMemory, PlannedPciDevice, PlatformLayout, RequirementsSnapshot,
    LAYOUT_DEVICE_KIND_NIC_E1000, LAYOUT_DEVICE_ROLE_DATAPATH_IN, LAYOUT_DEVICE_ROLE_DATAPATH_OUT,
    LAYOUT_DEVICE_ROLE_NONE, LAYOUT_HOST_NETWORK_BACKEND_TAP, LAYOUT_HOST_NETWORK_BACKEND_USER,
};

verus! {

// ---------------------------------------------------------------------------
// Codes.
// ---------------------------------------------------------------------------

/// Snapshot code of a datapath role.
pub open spec fn role_code(role: Option<DatapathRole>) -> u8 {
    match role {
        Some(DatapathRole::In) => LAYOUT_DEVICE_ROLE_DATAPATH_IN,
        Some(DatapathRole::Out) => LAYOUT_DEVICE_ROLE_DATAPATH_OUT,
        None => LAYOUT_DEVICE_ROLE_NONE,
    }
}

/// Datapath role of a snapshot code; unknown codes mean no role.
pub open spec fn role_of_code(code: u8) -> Option<DatapathRole> {
    if code == LAYOUT_DEVICE_ROLE_DATAPATH_IN {
        Some(DatapathRole::In)
    } else if code == LAYOUT_DEVICE_ROLE_DATAPATH_OUT {
        Some(DatapathRole::Out)
    } else {
        None
    }
}

/// Snapshot code of a device kind: the e1000 code for `nic_e1000`, else 0.
pub open spec fn kind_code(kind: Seq<char>) -> u32 {
    if kind == "nic_e1000"@ {
        LAYOUT_DEVICE_KIND_NIC_E1000
    } else {
        0
    }
}

/// Device kind of a snapshot code: `nic_e1000` for the e1000 code, else empty.
pub open spec fn kind_of_code(code: u32) -> Seq<char> {
    if code == LAYOUT_DEVICE_KIND_NIC_E1000 {
        "nic_e1000"@
    } else {
        Seq::empty()
    }
}

/// Snapshot code of a host network backend: TAP for `tap`, else user.
pub open spec fn backend_code(backend: Seq<char>) -> u8 {
    if backend == "tap"@ {
        LAYOUT_HOST_NETWORK_BACKEND_TAP
    } else {
        LAYOUT_HOST_NETWORK_BACKEND_USER
    }
}

/// Backend name of a snapshot code: `tap` for the TAP code, else `user`.
pub open spec fn backend_of_code(code: u8) -> Seq<char> {
    if code == LAYOUT_HOST_NETWORK_BACKEND_TAP {
        "tap"@
    } else {
        "user"@
    }
}

/// The TAP name text of an interface; empty when it has none.
pub open spec fn tap_text(iface: HostNetworkInterface) -> Seq<char> {
    match iface.tap_ifname {
        Some(s) => s@,
        None => Seq::empty(),
    }
}

/// The zero-filled field of `n` bytes.
pub open spec fn zero_field(n: nat) -> Seq<u8> {
    Seq::new(n, |_i: int| 0u8)
}

// ---------------------------------------------------------------------------
// Layout to snapshot.
// ---------------------------------------------------------------------------

/// Entry `e` stores guest region `g`.
pub open spec fn guest_entry_of<const PID: usize>(e: LayoutGuestRegionSnapshot<PID>, g: PlannedGuestMemory) -> bool {
    &&& e.vm_id == g.vm_id
    &&& e.host_phys == g.host_phys
    &&& e.size_bytes == g.size_bytes
    &&& fixed_string_encoding(encode_utf8(g.partition_id@), PID as nat) == Some((e.partition_id_len, e.partition_id@))
}

/// Entry `e` is an unused, all-zero guest region entry.
pub open spec fn guest_entry_empty<const PID: usize>(e: LayoutGuestRegionSnapshot<PID>) -> bool {
    e.vm_id == 0 && e.host_phys == 0 && e.size_bytes == 0 && e.partition_id_len == 0
        && e.partition_id@ == zero_field(PID as nat)
}

/// Entry `e` stores IPC region `r`.
pub open spec fn ipc_entry_of(e: LayoutIpcRegionSnapshot, r: PlannedIpcMemory) -> bool {
    e == LayoutIpcRegionSnapshot {
        channel_id: r.channel_id,
        producer_vm_id: r.producer_vm_id,
        consumer_vm_id: r.consumer_vm_id,
        host_phys: r.host_phys,
        size_bytes: r.size_bytes,
    }
}

/// The unused IPC region entry.
pub open spec fn ipc_entry_empty() -> LayoutIpcRegionSnapshot {
    LayoutIpcRegionSnapshot { channel_id: 0, producer_vm_id: 0, consumer_vm_id: 0, host_phys: 0, size_bytes: 0 }
}

/// The snapshot entry of PCI device `d`.
pub open spec fn pci_entry_of(d: PlannedPciDevice) -> LayoutPciSnapshot {
    LayoutPciSnapshot {
        vm_id: d.vm_id,
        segment: d.bdf.segment,
        bus: d.bdf.bus,
        device: d.bdf.device,
        function: d.bdf.function,
        device_role: role_code(d.role),
        reserved: 0,
        device_kind: kind_code(d.kind@),
    }
}

/// The unused PCI device entry.
pub open spec fn pci_entry_empty() -> LayoutPciSnapshot {
    LayoutPciSnapshot {
        vm_id: 0,
        segment: 0,
        bus: 0,
        device: 0,
        function: 0,
        device_role: LAYOUT_DEVICE_ROLE_NONE,
        reserved: 0,
        device_kind: 0,
    }
}

/// Entry `e` stores interface `iface` of a plan with backend `backend`.
pub open spec fn host_entry_of<const IFN: usize, const NDV: usize>(
    e: LayoutHostNetworkSnapshot<IFN, NDV>,
    iface: HostNetworkInterface,
    backend: Seq<char>,
) -> bool {
    &&& e.vm_id == iface.vm_id
    &&& e.segment == iface.bdf.segment
    &&& e.bus == iface.bdf.bus
    &&& e.device == iface.bdf.device
    &&& e.function == iface.bdf.function
    &&& e.backend == backend_code(backend)
    &&& e.reserved == 0
    &&& fixed_string_encoding(encode_utf8(tap_text(iface)), IFN as nat) == Some((e.tap_ifname_len, e.tap_ifname@))
    &&& fixed_string_encoding(encode_utf8(iface.netdev_id@), NDV as nat) == Some((e.netdev_id_len, e.netdev_id@))
}

/// Entry `e` is an unused host network interface entry.
pub open spec fn host_entry_empty<const IFN: usize, const NDV: usize>(e: LayoutHostNetworkSnapshot<IFN, NDV>) -> bool {
    &&& e.vm_id == 0 && e.segment == 0 && e.bus == 0 && e.device == 0 && e.function == 0
    &&& e.backend == LAYOUT_HOST_NETWORK_BACKEND_USER
    &&& e.tap_ifname_len == 0 && e.tap_ifname@ == zero_field(IFN as nat)
    &&& e.netdev_id_len == 0 && e.reserved == 0 && e.netdev_id@ == zero_field(NDV as nat)
}

/// Guest region `g`'s partition id does not fit its field.
pub open spec fn guest_string_overflows<const PID: usize>(g: PlannedGuestMemory) -> bool {
    fixed_string_encoding(encode_utf8(g.partition_id@), PID as nat) is None
}

/// Interface `iface`'s TAP name or netdev id does not fit its field.
pub open spec fn host_string_overflows<const IFN: usize, const NDV: usize>(iface: HostNetworkInterface) -> bool {
    ||| fixed_string_encoding(encode_utf8(tap_text(iface)), IFN as nat) is None
    ||| fixed_string_encoding(encode_utf8(iface.netdev_id@), NDV as nat) is None
}

/// Why a layout has no snapshot, checked in order: the four entry counts
/// against the table capacities, then any text too long for its field.
pub open spec fn snapshot_failure<
    const G: usize,
    const I: usize,
    const P: usize,
    const H: usize,
    const PID: usize,
    const IFN: usize,
    const NDV: usize,
>(l: PlatformLayout) -> Option<Seq<char>> {
    if l.guest_memory@.len() > G {
        Some("guest region count exceeds layout snapshot capacity"@)
    } else if l.ipc_memory@.len() > I {
        Some("ipc region count exceeds layout snapshot capacity"@)
    } else if l.pci_devices@.len() > P {
        Some("pci device count exceeds layout snapshot capacity"@)
    } else if l.host_network.interfaces@.len() > H {
        Some("host network interface count exceeds layout snapshot capacity"@)
    } else if (exists|i: int| 0 <= i < l.guest_memory@.len() && #[trigger] guest_string_overflows::<PID>(l.guest_memory@[i]))
        || (exists|i: int| 0 <= i < l.host_network.interfaces@.len()
            && #[trigger] host_string_overflows::<IFN, NDV>(l.host_network.interfaces@[i])) {
        Some("layout snapshot string exceeds fixed capacity"@)
    } else {
        None
    }
}

/// `s` is the snapshot of layout `l`: counts and the entries in use
/// describe `l`, every unused entry is zero, and the tables have their
/// capacities.
pub open spec fn snapshot_of<
    const G: usize,
    const I: usize,
    const P: usize,
    const H: usize,
    const PID: usize,
    const IFN: usize,
    const NDV: usize,
>(s: LayoutSnapshot<PID, IFN, NDV>, l: PlatformLayout) -> bool {
    let guests = l.guest_memory@;
    let ipcs = l.ipc_memory@;
    let pcis = l.pci_devices@;
    let ifaces = l.host_network.interfaces@;
    &&& s.guest_region_count == guests.len() as u32
    &&& s.guest_regions@.len() == G
    &&& forall|i: int| 0 <= i < G ==> if i < guests.len() {
        guest_entry_of(#[trigger] s.guest_regions@[i], guests[i])
    } else {
        guest_entry_empty(s.guest_regions@[i])
    }
    &&& s.ipc_region_count == ipcs.len() as u32
    &&& s.ipc_regions@.len() == I
    &&& forall|i: int| 0 <= i < I ==> if i < ipcs.len() {
        ipc_entry_of(#[trigger] s.ipc_regions@[i], ipcs[i])
    } else {
        s.ipc_regions@[i] == ipc_entry_empty()
    }
    &&& s.pci_device_count == pcis.len() as u32
    &&& s.pci_devices@.len() == P
    &&& forall|i: int| 0 <= i < P ==> #[trigger] s.pci_devices@[i] == if i < pcis.len() {
        pci_entry_of(pcis[i])
    } else {
        pci_entry_empty()
    }
    &&& s.hypervisor_reserve_phys == l.hypervisor_reserve_phys
    &&& s.hypervisor_reserve_bytes == l.hypervisor_reserve_bytes
    &&& s.host_network_enabled == if l.host_network.enabled { 1u8 } else { 0u8 }
    &&& s.host_network_backend == backend_code(l.host_network.backend@)
    &&& s.host_network_reserved@ == seq![0u8, 0u8]
    &&& s.host_network_interface_count == ifaces.len() as u32
    &&& s.host_network_interfaces@.len() == H
    &&& forall|i: int| 0 <= i < H ==> if i < ifaces.len() {
        host_entry_of(#[trigger] s.host_network_interfaces@[i], ifaces[i], l.host_network.backend@)
    } else {
        host_entry_empty(s.host_network_interfaces@[i])
    }
}

fn capacity_error(message: &str) -> (e: BootCheckError)
    ensures
        e.kind == BootCheckErrorKind::Platform,
        e.message@ == message@,
{
    BootCheckError::new(BootCheckErrorKind::Platform, message)
}

fn empty_guest_entry<const PID: usize>() -> (e: LayoutGuestRegionSnapshot<PID>)
    ensures
        guest_entry_empty(e),
{
    let e = LayoutGuestRegionSnapshot { vm_id: 0, host_phys: 0, size_bytes: 0, partition_id_len: 0, partition_id: [0u8; PID] };
    assert(e.partition_id@ =~= zero_field(PID as nat));
    e
}

fn empty_host_entry<const IFN: usize, const NDV: usize>() -> (e: LayoutHostNetworkSnapshot<IFN, NDV>)
    ensures
        host_entry_empty(e),
{
    let e = LayoutHostNetworkSnapshot {
        vm_id: 0,
        segment: 0,
        bus: 0,
        device: 0,
        function: 0,
        backend: LAYOUT_HOST_NETWORK_BACKEND_USER,
        tap_ifname_len: 0,
        tap_ifname: [0u8; IFN],
        netdev_id_len: 0,
        reserved: 0,
        netdev_id: [0u8; NDV],
    };
    assert(e.tap_ifname@ =~= zero_field(IFN as nat));
    assert(e.netdev_id@ =~= zero_field(NDV as nat));
    e
}

fn role_to_snapshot(role: Option<DatapathRole>) -> (code: u8)
    ensures
        code == role_code(role),
{
    match role {
        Some(DatapathRole::In) => LAYOUT_DEVICE_ROLE_DATAPATH_IN,
        Some(DatapathRole::Out) => LAYOUT_DEVICE_ROLE_DATAPATH_OUT,
        None => LAYOUT_DEVICE_ROLE_NONE,
    }
}

fn kind_to_snapshot(kind: &String) -> (code: u32)
    ensures
        code == kind_code(kind@),
{
    let e1000 = String::from_str("nic_e1000");
    if *kind == e1000 {
        LAYOUT_DEVICE_KIND_NIC_E1000
    } else {
        0
    }
}

fn backend_to_snapshot(backend: &String) -> (code: u8)
    ensures
        code == backend_code(backend@),
{
    let tap = String::from_str("tap");
    if *backend == tap {
        LAYOUT_HOST_NETWORK_BACKEND_TAP
    } else {
        LAYOUT_HOST_NETWORK_BACKEND_USER
    }
}

fn guest_region_to_snapshot<const PID: usize>(g: &PlannedGuestMemory) -> (r: Result<LayoutGuestRegionSnapshot<PID>, BootCheckError>)
    ensures
        match r {
            Ok(e) => guest_entry_of(e, *g),
            Err(e) => guest_string_overflows::<PID>(*g) && e.kind == BootCheckErrorKind::Platform
                && e.message@ == "layout snapshot string exceeds fixed capacity"@,
        },
{
    let (len, field) = match encode_fixed_string::<PID>(g.partition_id.as_str()) {
        Ok(x) => x,
        Err(e) => return Err(e),
    };
    Ok(LayoutGuestRegionSnapshot {
        vm_id: g.vm_id,
        host_phys: g.host_phys,
        size_bytes: g.size_bytes,
        partition_id_len: len,
        partition_id: field,
    })
}

fn host_interface_to_snapshot<const IFN: usize, const NDV: usize>(
    iface: &HostNetworkInterface,
    backend: &String,
) -> (r: Result<LayoutHostNetworkSnapshot<IFN, NDV>, BootCheckError>)
    ensures
        match r {
            Ok(e) => host_entry_of(e, *iface, backend@),
            Err(e) => host_string_overflows::<IFN, NDV>(*iface) && e.kind == BootCheckErrorKind::Platform
                && e.message@ == "layout snapshot string exceeds fixed capacity"@,
        },
{
    let empty = String::new();
    let tap: &String = match &iface.tap_ifname {
        Some(name) => name,
        None => &empty,
    };
    let (tap_ifname_len, tap_ifname) = match encode_fixed_string::<IFN>(tap.as_str()) {
        Ok(x) => x,
        Err(e) => return Err(e),
    };
    let (netdev_id_len, netdev_id) = match encode_fixed_string::<NDV>(iface.netdev_id.as_str()) {
        Ok(x) => x,
        Err(e) => return Err(e),
    };
    Ok(LayoutHostNetworkSnapshot {
        vm_id: iface.vm_id,
        segment: iface.bdf.segment,
        bus: iface.bdf.bus,
        device: iface.bdf.device,
        function: iface.bdf.function,
        backend: backend_to_snapshot(backend),
        tap_ifname_len,
        tap_ifname,
        netdev_id_len,
        reserved: 0,
        netdev_id,
    })
}

/// Builds the layout snapshot of a planned platform layout.
///
/// Fails, with a platform error, when an entry count exceeds its table's
/// capacity or a text exceeds its field (see `snapshot_failure`);
/// otherwise returns exactly the snapshot of the layout.
pub fn layout_snapshot_from_platform_ir<
    const G: usize,
    const I: usize,
    const P: usize,
    const H: usize,
    const PID: usize,
    const IFN: usize,
    const NDV: usize,
>(layout: &PlatformLayout) -> (r: Result<LayoutSnapshot<PID, IFN, NDV>, BootCheckError>)
    ensures
        match r {
            Ok(s) => snapshot_failure::<G, I, P, H, PID, IFN, NDV>(*layout) is None
                && snapshot_of::<G, I, P, H, PID, IFN, NDV>(s, *layout),
            Err(e) => e.kind == BootCheckErrorKind::Platform
                && snapshot_failure::<G, I, P, H, PID, IFN, NDV>(*layout) == Some(e.message@),
        },
{
    let guests = &layout.guest_memory;
    let ipcs = &layout.ipc_memory;
    let pcis = &layout.pci_devices;
    let ifaces = &layout.host_network.interfaces;
    if guests.len() > G {
        return Err(capacity_error("guest region count exceeds layout snapshot capacity"));
    }
    if ipcs.len() > I {
        return Err(capacity_error("ipc region count exceeds layout snapshot capacity"));
    }
    if pcis.len() > P {
        return Err(capacity_error("pci device count exceeds layout snapshot capacity"));
    }
    if ifaces.len() > H {
        return Err(capacity_error("host network interface count exceeds layout snapshot capacity"));
    }

    let mut guest_regions: Vec<LayoutGuestRegionSnapshot<PID>> = Vec::new();
    let mut k: usize = 0;
    while k < G
        invariant
            guests@ == layout.guest_memory@,
            ipcs@ == layout.ipc_memory@,
            pcis@ == layout.pci_devices@,
            ifaces@ == layout.host_network.interfaces@,
            guests.len() <= G && ipcs.len() <= I && pcis.len() <= P && ifaces.len() <= H,
            guests.len() <= G,
            k <= G,
            guest_regions@.len() == k,
            forall|i: int| 0 <= i < k ==> if i < guests@.len() {
                guest_entry_of(#[trigger] guest_regions@[i], guests@[i])
            } else {
                guest_entry_empty(guest_regions@[i])
            },
            forall|i: int| 0 <= i < k && i < guests@.len() ==> !#[trigger] guest_string_overflows::<PID>(guests@[i]),
        decreases G - k,
    {
        if k < guests.len() {
            match guest_region_to_snapshot::<PID>(&guests[k]) {
                Ok(e) => guest_regions.push(e),
                Err(e) => return Err(e),
            }
        } else {
            guest_regions.push(empty_guest_entry::<PID>());
        }
        k = k + 1;
    }

    let mut ipc_regions: Vec<LayoutIpcRegionSnapshot> = Vec::new();
    let mut k: usize = 0;
    while k < I
        invariant
            guests@ == layout.guest_memory@,
            ipcs@ == layout.ipc_memory@,
            pcis@ == layout.pci_devices@,
            ifaces@ == layout.host_network.interfaces@,
            guests.len() <= G && ipcs.len() <= I && pcis.len() <= P && ifaces.len() <= H,
            ipcs.len() <= I,
            k <= I,
            ipc_regions@.len() == k,
            forall|i: int| 0 <= i < k ==> if i < ipcs@.len() {
                ipc_entry_of(#[trigger] ipc_regions@[i], ipcs@[i])
            } else {
                ipc_regions@[i] == ipc_entry_empty()
            },
        decreases I - k,
    {
        if k < ipcs.len() {
            let r = &ipcs[k];
            ipc_regions.push(LayoutIpcRegionSnapshot {
                channel_id: r.channel_id,
                producer_vm_id: r.producer_vm_id,
                consumer_vm_id: r.consumer_vm_id,
                host_phys: r.host_phys,
                size_bytes: r.size_bytes,
            });
        } else {
            ipc_regions.push(LayoutIpcRegionSnapshot {
                channel_id: 0,
                producer_vm_id: 0,
                consumer_vm_id: 0,
                host_phys: 0,
                size_bytes: 0,
            });
        }
        k = k + 1;
    }

    let mut pci_devices: Vec<LayoutPciSnapshot> = Vec::new();
    let mut k: usize = 0;
    while k < P
        invariant
            guests@ == layout.guest_memory@,
            ipcs@ == layout.ipc_memory@,
            pcis@ == layout.pci_devices@,
            ifaces@ == layout.host_network.interfaces@,
            guests.len() <= G && ipcs.len() <= I && pcis.len() <= P && ifaces.len() <= H,
            pcis.len() <= P,
            k <= P,
            pci_devices@.len() == k,
            forall|i: int| 0 <= i < k ==> #[trigger] pci_devices@[i] == if i < pcis@.len() {
                pci_entry_of(pcis@[i])
            } else {
                pci_entry_empty()
            },
        decreases P - k,
    {
        if k < pcis.len() {
            let d = &pcis[k];
            pci_devices.push(LayoutPciSnapshot {
                vm_id: d.vm_id,
                segment: d.bdf.segment,
                bus: d.bdf.bus,
                device: d.bdf.device,
                function: d.bdf.function,
                device_role: role_to_snapshot(d.role),
                reserved: 0,
                device_kind: kind_to_snapshot(&d.kind),
            });
        } else {
            pci_devices.push(LayoutPciSnapshot {
                vm_id: 0,
                segment: 0,
                bus: 0,
                device: 0,
                function: 0,
                device_role: LAYOUT_DEVICE_ROLE_NONE,
                reserved: 0,
                device_kind: 0,
            });
        }
        k = k + 1;
    }

    let mut host_network_interfaces: Vec<LayoutHostNetworkSnapshot<IFN, NDV>> = Vec::new();
    let mut k: usize = 0;
    while k < H
        invariant
            guests@ == layout.guest_memory@,
            ipcs@ == layout.ipc_memory@,
            pcis@ == layout.pci_devices@,
            ifaces@ == layout.host_network.interfaces@,
            guests.len() <= G && ipcs.len() <= I && pcis.len() <= P && ifaces.len() <= H,
            ifaces.len() <= H,
            guests.len() <= G,
            k <= H,
            host_network_interfaces@.len() == k,
            forall|i: int| 0 <= i < k ==> if i < ifaces@.len() {
                host_entry_of(#[trigger] host_network_interfaces@[i], ifaces@[i], layout.host_network.backend@)
            } else {
                host_entry_empty(host_network_interfaces@[i])
            },
            forall|i: int| 0 <= i < guests@.len() ==> !#[trigger] guest_string_overflows::<PID>(guests@[i]),
            forall|i: int| 0 <= i < k && i < ifaces@.len() ==> !#[trigger] host_string_overflows::<IFN, NDV>(ifaces@[i]),
        decreases H - k,
    {
        if k < ifaces.len() {
            match host_interface_to_snapshot::<IFN, NDV>(&ifaces[k], &layout.host_network.backend) {
                Ok(e) => host_network_interfaces.push(e),
                Err(e) => return Err(e),
            }
        } else {
            host_network_interfaces.push(empty_host_entry::<IFN, NDV>());
        }
        k = k + 1;
    }

    let s = LayoutSnapshot {
        guest_region_count: guests.len() as u32,
        guest_regions,
        ipc_region_count: ipcs.len() as u32,
        ipc_regions,
        pci_device_count: pcis.len() as u32,
        pci_devices,
        hypervisor_reserve_phys: layout.hypervisor_reserve_phys,
        hypervisor_reserve_bytes: layout.hypervisor_reserve_bytes,
        host_network_enabled: if layout.host_network.enabled { 1 } else { 0 },
        host_network_backend: backend_to_snapshot(&layout.host_network.backend),
        host_network_reserved: [0u8; 2],
        host_network_interface_count: ifaces.len() as u32,
        host_network_interfaces,
    };
    assert(s.host_network_reserved@ =~= seq![0u8, 0u8]);
    Ok(s)
}

// ---------------------------------------------------------------------------
// Snapshot to layout.
// ---------------------------------------------------------------------------

/// Why a fixed-capacity field with length byte `len` holds no text.
pub open spec fn decode_failure(len: u8, field: Seq<u8>) -> Option<Seq<char>> {
    if len > field.len() {
        Some("layout snapshot string length out of bounds"@)
    } else if !valid_utf8(field.subrange(0, len as int)) {
        Some("layout snapshot string is not valid UTF-8"@)
    } else {
        None
    }
}

/// Why the first guest region entry from `k` on (below `count`) whose
/// partition id is unreadable is so.
pub open spec fn first_guest_failure<const PID: usize>(es: Seq<LayoutGuestRegionSnapshot<PID>>, count: int, k: int) -> Option<Seq<char>>
    decreases count - k,
{
    if k < 0 || k >= count {
        None
    } else {
        match decode_failure(es[k].partition_id_len, es[k].partition_id@) {
            Some(m) => Some(m),
            None => first_guest_failure(es, count, k + 1),
        }
    }
}

/// Why an interface entry's TAP name, or else its netdev id, is unreadable.
pub open spec fn host_decode_failure<const IFN: usize, const NDV: usize>(e: LayoutHostNetworkSnapshot<IFN, NDV>) -> Option<Seq<char>> {
    match decode_failure(e.tap_ifname_len, e.tap_ifname@) {
        Some(m) => Some(m),
        None => decode_failure(e.netdev_id_len, e.netdev_id@),
    }
}

/// Why the first interface entry from `k` on (below `count`) with an
/// unreadable text is so.
pub open spec fn first_host_failure<const IFN: usize, const NDV: usize>(es: Seq<LayoutHostNetworkSnapshot<IFN, NDV>>, count: int, k: int) -> Option<Seq<char>>
    decreases count - k,
{
    if k < 0 || k >= count {
        None
    } else {
        match host_decode_failure(es[k]) {
            Some(m) => Some(m),
            None => first_host_failure(es, count, k + 1),
        }
    }
}

/// The entry counts fit the table capacities.
pub open spec fn snapshot_counts_valid<const G: usize, const I: usize, const P: usize, const H: usize, const PID: usize, const IFN: usize, const NDV: usize>(
    l: LayoutSnapshot<PID, IFN, NDV>,
) -> bool {
    l.guest_region_count <= G && l.ipc_region_count <= I && l.pci_device_count <= P && l.host_network_interface_count <= H
}

/// Why a snapshot cannot be restored, checked in order: the counts against
/// the capacities, the reserve against the requirements snapshot, then the
/// tables and texts in table order (guests, IPC, PCI, host network).
pub open spec fn restore_failure<
    const G: usize,
    const I: usize,
    const P: usize,
    const H: usize,
    const PID: usize,
    const IFN: usize,
    const NDV: usize,
>(l: LayoutSnapshot<PID, IFN, NDV>, r: RequirementsSnapshot) -> Option<Seq<char>> {
    if l.guest_region_count > G {
        Some("layout snapshot guest region count exceeds maximum"@)
    } else if l.ipc_region_count > I {
        Some("layout snapshot ipc region count exceeds maximum"@)
    } else if l.pci_device_count > P {
        Some("layout snapshot pci device count exceeds maximum"@)
    } else if l.host_network_interface_count > H {
        Some("layout snapshot host network interface count exceeds maximum"@)
    } else if l.hypervisor_reserve_phys != r.hypervisor_reserve_phys {
        Some("layout snapshot reserve phys mismatch with requirements snapshot"@)
    } else if l.hypervisor_reserve_bytes != r.hypervisor_reserve_bytes {
        Some("layout snapshot reserve bytes mismatch with requirements snapshot"@)
    } else if l.guest_regions@.len() < l.guest_region_count {
        Some("layout snapshot guest regions out of bounds"@)
    } else if first_guest_failure(l.guest_regions@, l.guest_region_count as int, 0) is Some {
        first_guest_failure(l.guest_regions@, l.guest_region_count as int, 0)
    } else if l.ipc_regions@.len() < l.ipc_region_count {
        Some("layout snapshot ipc regions out of bounds"@)
    } else if l.pci_devices@.len() < l.pci_device_count {
        Some("layout snapshot pci devices out of bounds"@)
    } else if l.host_network_interfaces@.len() < l.host_network_interface_count {
        Some("layout snapshot host network interfaces out of bounds"@)
    } else {
        first_host_failure(l.host_network_interfaces@, l.host_network_interface_count as int, 0)
    }
}

/// The text a readable fixed-capacity field holds.
pub open spec fn field_text(len: u8, field: Seq<u8>) -> Seq<char> {
    decode_utf8(field.subrange(0, len as int))
}

/// The partition id of the first guest of `gs` from `k` on with VM id
/// `vm`; empty when there is none.
pub open spec fn partition_for(gs: Seq<PlannedGuestMemory>, vm: u32, k: int) -> Seq<char>
    decreases gs.len() - k,
{
    if k < 0 || k >= gs.len() {
        Seq::empty()
    } else if gs[k].vm_id == vm {
        gs[k].partition_id@
    } else {
        partition_for(gs, vm, k + 1)
    }
}

/// Guest region `g` is restored from entry `e`.
pub open spec fn guest_restored<const PID: usize>(g: PlannedGuestMemory, e: LayoutGuestRegionSnapshot<PID>) -> bool {
    g.vm_id == e.vm_id && g.host_phys == e.host_phys && g.size_bytes == e.size_bytes
        && g.partition_id@ == field_text(e.partition_id_len, e.partition_id@)
}

/// IPC region `r` is restored from entry `e` (its name is not kept).
pub open spec fn ipc_restored(r: PlannedIpcMemory, e: LayoutIpcRegionSnapshot) -> bool {
    r.channel_name@ == Seq::<char>::empty() && r.channel_id == e.channel_id && r.producer_vm_id == e.producer_vm_id
        && r.consumer_vm_id == e.consumer_vm_id && r.host_phys == e.host_phys && r.size_bytes == e.size_bytes
}

/// PCI device `d` is restored from entry `e`.
pub open spec fn pci_restored(d: PlannedPciDevice, e: LayoutPciSnapshot) -> bool {
    &&& d.bdf == PciBdf { segment: e.segment, bus: e.bus, device: e.device, function: e.function }
    &&& d.vm_id == e.vm_id
    &&& d.kind@ == kind_of_code(e.device_kind)
    &&& d.role == role_of_code(e.device_role)
}

/// Interface `x` is restored from entry `e`, its partition taken from the
/// restored guests `gs`.
pub open spec fn host_restored<const IFN: usize, const NDV: usize>(
    x: HostNetworkInterface,
    e: LayoutHostNetworkSnapshot<IFN, NDV>,
    gs: Seq<PlannedGuestMemory>,
) -> bool {
    let tap = field_text(e.tap_ifname_len, e.tap_ifname@);
    &&& x.partition_id@ == partition_for(gs, e.vm_id, 0)
    &&& x.vm_id == e.vm_id
    &&& x.bdf == PciBdf { segment: e.segment, bus: e.bus, device: e.device, function: e.function }
    &&& x.pci_addr@ == Seq::<char>::empty()
    &&& x.netdev_id@ == field_text(e.netdev_id_len, e.netdev_id@)
    &&& match x.tap_ifname {
        Some(name) => tap.len() > 0 && name@ == tap,
        None => tap.len() == 0,
    }
}

/// `p` is the layout restored from snapshot `l`: one entry per entry in
/// use, in order, with the reserve, host networking flags and no platform
/// name.
pub open spec fn restored_from<const PID: usize, const IFN: usize, const NDV: usize>(
    p: PlatformLayout,
    l: LayoutSnapshot<PID, IFN, NDV>,
) -> bool {
    &&& p.platform_name@ == Seq::<char>::empty()
    &&& p.guest_memory@.len() == l.guest_region_count
    &&& forall|i: int| 0 <= i < p.guest_memory@.len() ==> guest_restored(#[trigger] p.guest_memory@[i], l.guest_regions@[i])
    &&& p.ipc_memory@.len() == l.ipc_region_count
    &&& forall|i: int| 0 <= i < p.ipc_memory@.len() ==> ipc_restored(#[trigger] p.ipc_memory@[i], l.ipc_regions@[i])
    &&& p.hypervisor_reserve_phys == l.hypervisor_reserve_phys
    &&& p.hypervisor_reserve_bytes == l.hypervisor_reserve_bytes
    &&& p.pci_devices@.len() == l.pci_device_count
    &&& forall|i: int| 0 <= i < p.pci_devices@.len() ==> pci_restored(#[trigger] p.pci_devices@[i], l.pci_devices@[i])
    &&& p.host_network.enabled == (l.host_network_enabled != 0)
    &&& p.host_network.backend@ == backend_of_code(l.host_network_backend)
    &&& p.host_network.interfaces@.len() == l.host_network_interface_count
    &&& forall|i: int| 0 <= i < p.host_network.interfaces@.len() ==> host_restored(
        #[trigger] p.host_network.interfaces@[i],
        l.host_network_interfaces@[i],
        p.guest_memory@,
    )
}

fn role_from_snapshot(code: u8) -> (role: Option<DatapathRole>)
    ensures
        role == role_of_code(code),
{
    if code == LAYOUT_DEVICE_ROLE_DATAPATH_IN {
        Some(DatapathRole::In)
    } else if code == LAYOUT_DEVICE_ROLE_DATAPATH_OUT {
        Some(DatapathRole::Out)
    } else {
        None
    }
}

fn kind_from_snapshot(code: u32) -> (kind: String)
    ensures
        kind@ == kind_of_code(code),
{
    if code == LAYOUT_DEVICE_KIND_NIC_E1000 {
        String::from_str("nic_e1000")
    } else {
        String::new()
    }
}

fn backend_from_snapshot(code: u8) -> (backend: String)
    ensures
        backend@ == backend_of_code(code),
{
    if code == LAYOUT_HOST_NETWORK_BACKEND_TAP {
        String::from_str("tap")
    } else {
        String::from_str("user")
    }
}

fn partition_for_vm(gs: &Vec<PlannedGuestMemory>, vm: u32) -> (id: String)
    ensures
        id@ == partition_for(gs@, vm, 0),
{
    let mut k: usize = 0;
    while k < gs.len()
        invariant
            k <= gs@.len(),
            partition_for(gs@, vm, 0) == partition_for(gs@, vm, k as int),
        decreases gs.len() - k,
    {
        if gs[k].vm_id == vm {
            return gs[k].partition_id.clone();
        }
        k = k + 1;
    }
    String::new()
}

proof fn lemma_decode_agrees(len: u8, field: Seq<u8>)
    ensures
        fixed_string_decoding(len, field) is None <==> decode_failure(len, field) is Some,
        fixed_string_decoding(len, field) matches Some(t) ==> t == field_text(len, field),
{
}

fn decode_field<const N: usize>(len: u8, field: &[u8; N]) -> (r: Result<String, BootCheckError>)
    ensures
        match r {
            Ok(s) => decode_failure(len, field@) is None && s@ == field_text(len, field@),
            Err(e) => e.kind == BootCheckErrorKind::Platform && decode_failure(len, field@) == Some(e.message@),
        },
{
    let r = decode_fixed_string::<N>(len, field);
    proof {
        lemma_decode_agrees(len, field@);
    }
    r
}

/// Restores the planned platform layout from an embedded layout snapshot,
/// after checking its counts against the table capacities and its reserve
/// against the requirements snapshot.
///
/// Fails, with a platform error, exactly as `restore_failure` says;
/// otherwise returns the layout restored from the snapshot's entries in use.
pub fn static_platform_ir_from_layout_snapshot<
    const G: usize,
    const I: usize,
    const P: usize,
    const H: usize,
    const PID: usize,
    const IFN: usize,
    const NDV: usize,
>(layout: &LayoutSnapshot<PID, IFN, NDV>, requirements: &RequirementsSnapshot) -> (r: Result<PlatformLayout, BootCheckError>)
    ensures
        match r {
            Ok(p) => {
                &&& restore_failure::<G, I, P, H, PID, IFN, NDV>(*layout, *requirements) is None
                &&& snapshot_counts_valid::<G, I, P, H, PID, IFN, NDV>(*layout)
                &&& layout.hypervisor_reserve_phys == requirements.hypervisor_reserve_phys
                &&& layout.hypervisor_reserve_bytes == requirements.hypervisor_reserve_bytes
                &&& restored_from(p, *layout)
            },
            Err(e) => e.kind == BootCheckErrorKind::Platform
                && restore_failure::<G, I, P, H, PID, IFN, NDV>(*layout, *requirements) == Some(e.message@),
        },
{
    if layout.guest_region_count as usize > G {
        return Err(capacity_error("layout snapshot guest region count exceeds maximum"));
    }
    if layout.ipc_region_count as usize > I {
        return Err(capacity_error("layout snapshot ipc region count exceeds maximum"));
    }
    if layout.pci_device_count as usize > P {
        return Err(capacity_error("layout snapshot pci device count exceeds maximum"));
    }
    if layout.host_network_interface_count as usize > H {
        return Err(capacity_error("layout snapshot host network interface count exceeds maximum"));
    }
    if layout.hypervisor_reserve_phys != requirements.hypervisor_reserve_phys {
        return Err(capacity_error("layout snapshot reserve phys mismatch with requirements snapshot"));
    }
    if layout.hypervisor_reserve_bytes != requirements.hypervisor_reserve_bytes {
        return Err(capacity_error("layout snapshot reserve bytes mismatch with requirements snapshot"));
    }

    let guest_count = layout.guest_region_count as usize;
    if layout.guest_regions.len() < guest_count {
        return Err(capacity_error("layout snapshot guest regions out of bounds"));
    }
    let mut guest_memory: Vec<PlannedGuestMemory> = Vec::new();
    let mut k: usize = 0;
    while k < guest_count
        invariant
            snapshot_counts_valid::<G, I, P, H, PID, IFN, NDV>(*layout),
            layout.hypervisor_reserve_phys == requirements.hypervisor_reserve_phys,
            layout.hypervisor_reserve_bytes == requirements.hypervisor_reserve_bytes,
            guest_count == layout.guest_region_count,
            guest_count <= layout.guest_regions@.len(),
            k <= guest_count,
            guest_memory@.len() == k,
            forall|i: int| 0 <= i < k ==> guest_restored(#[trigger] guest_memory@[i], layout.guest_regions@[i]),
            first_guest_failure(layout.guest_regions@, guest_count as int, 0)
                == first_guest_failure(layout.guest_regions@, guest_count as int, k as int),
        decreases guest_count - k,
    {
        let e = &layout.guest_regions[k];
        let partition_id = match decode_field::<PID>(e.partition_id_len, &e.partition_id) {
            Ok(text) => text,
            Err(err) => return Err(err),
        };
        guest_memory.push(PlannedGuestMemory {
            partition_id,
            vm_id: e.vm_id,
            host_phys: e.host_phys,
            size_bytes: e.size_bytes,
        });
        k = k + 1;
    }

    let ipc_count = layout.ipc_region_count as usize;
    if layout.ipc_regions.len() < ipc_count {
        return Err(capacity_error("layout snapshot ipc regions out of bounds"));
    }
    let mut ipc_memory: Vec<PlannedIpcMemory> = Vec::new();
    let mut k: usize = 0;
    while k < ipc_count
        invariant
            snapshot_counts_valid::<G, I, P, H, PID, IFN, NDV>(*layout),
            layout.hypervisor_reserve_phys == requirements.hypervisor_reserve_phys,
            layout.hypervisor_reserve_bytes == requirements.hypervisor_reserve_bytes,
            layout.guest_region_count <= layout.guest_regions@.len(),
            first_guest_failure(layout.guest_regions@, layout.guest_region_count as int, 0) is None,
            guest_memory@.len() == layout.guest_region_count,
            forall|i: int| 0 <= i < guest_memory@.len() ==> guest_restored(#[trigger] guest_memory@[i], layout.guest_regions@[i]),
            ipc_count == layout.ipc_region_count,
            ipc_count <= layout.ipc_regions@.len(),
            k <= ipc_count,
            ipc_memory@.len() == k,
            forall|i: int| 0 <= i < k ==> ipc_restored(#[trigger] ipc_memory@[i], layout.ipc_regions@[i]),
        decreases ipc_count - k,
    {
        let e = &layout.ipc_regions[k];
        ipc_memory.push(PlannedIpcMemory {
            channel_name: String::new(),
            channel_id: e.channel_id,
            producer_vm_id: e.producer_vm_id,
            consumer_vm_id: e.consumer_vm_id,
            host_phys: e.host_phys,
            size_bytes: e.size_bytes,
        });
        k = k + 1;
    }

    let pci_count = layout.pci_device_count as usize;
    if layout.pci_devices.len() < pci_count {
        return Err(capacity_error("layout snapshot pci devices out of bounds"));
    }
    let mut pci_devices: Vec<PlannedPciDevice> = Vec::new();
    let mut k: usize = 0;
    while k < pci_count
        invariant
            snapshot_counts_valid::<G, I, P, H, PID, IFN, NDV>(*layout),
            layout.hypervisor_reserve_phys == requirements.hypervisor_reserve_phys,
            layout.hypervisor_reserve_bytes == requirements.hypervisor_reserve_bytes,
            layout.guest_region_count <= layout.guest_regions@.len(),
            first_guest_failure(layout.guest_regions@, layout.guest_region_count as int, 0) is None,
            guest_memory@.len() == layout.guest_region_count,
            forall|i: int| 0 <= i < guest_memory@.len() ==> guest_restored(#[trigger] guest_memory@[i], layout.guest_regions@[i]),
            layout.ipc_region_count <= layout.ipc_regions@.len(),
            ipc_memory@.len() == layout.ipc_region_count,
            forall|i: int| 0 <= i < ipc_memory@.len() ==> ipc_restored(#[trigger] ipc_memory@[i], layout.ipc_regions@[i]),
            pci_count == layout.pci_device_count,
            pci_count <= layout.pci_devices@.len(),
            k <= pci_count,
            pci_devices@.len() == k,
            forall|i: int| 0 <= i < k ==> pci_restored(#[trigger] pci_devices@[i], layout.pci_devices@[i]),
        decreases pci_count - k,
    {
        let e = &layout.pci_devices[k];
        pci_devices.push(PlannedPciDevice {
            bdf: PciBdf { segment: e.segment, bus: e.bus, device: e.device, function: e.function },
            vm_id: e.vm_id,
            kind: kind_from_snapshot(e.device_kind),
            role: role_from_snapshot(e.device_role),
        });
        k = k + 1;
    }

    let host_count = layout.host_network_interface_count as usize;
    if layout.host_network_interfaces.len() < host_count {
        return Err(capacity_error("layout snapshot host network interfaces out of bounds"));
    }
    let mut interfaces: Vec<HostNetworkInterface> = Vec::new();
    let mut k: usize = 0;
    while k < host_count
        invariant
            snapshot_counts_valid::<G, I, P, H, PID, IFN, NDV>(*layout),
            layout.hypervisor_reserve_phys == requirements.hypervisor_reserve_phys,
            layout.hypervisor_reserve_bytes == requirements.hypervisor_reserve_bytes,
            layout.guest_region_count <= layout.guest_regions@.len(),
            first_guest_failure(layout.guest_regions@, layout.guest_region_count as int, 0) is None,
            guest_memory@.len() == layout.guest_region_count,
            forall|i: int| 0 <= i < guest_memory@.len() ==> guest_restored(#[trigger] guest_memory@[i], layout.guest_regions@[i]),
            layout.ipc_region_count <= layout.ipc_regions@.len(),
            ipc_memory@.len() == layout.ipc_region_count,
            forall|i: int| 0 <= i < ipc_memory@.len() ==> ipc_restored(#[trigger] ipc_memory@[i], layout.ipc_regions@[i]),
            layout.pci_device_count <= layout.pci_devices@.len(),
            pci_devices@.len() == layout.pci_device_count,
            forall|i: int| 0 <= i < pci_devices@.len() ==> pci_restored(#[trigger] pci_devices@[i], layout.pci_devices@[i]),
            host_count == layout.host_network_interface_count,
            host_count <= layout.host_network_interfaces@.len(),
            k <= host_count,
            interfaces@.len() == k,
            forall|i: int| 0 <= i < k ==> host_restored(#[trigger] interfaces@[i], layout.host_network_interfaces@[i], guest_memory@),
            first_host_failure(layout.host_network_interfaces@, host_count as int, 0)
                == first_host_failure(layout.host_network_interfaces@, host_count as int, k as int),
        decreases host_count - k,
    {
        let e = &layout.host_network_interfaces[k];
        let tap = match decode_field::<IFN>(e.tap_ifname_len, &e.tap_ifname) {
            Ok(text) => text,
            Err(err) => return Err(err),
        };
        let netdev_id = match decode_field::<NDV>(e.netdev_id_len, &e.netdev_id) {
            Ok(text) => text,
            Err(err) => return Err(err),
        };
        let tap_ifname = if tap.as_str().is_empty() { None } else { Some(tap) };
        interfaces.push(HostNetworkInterface {
            partition_id: partition_for_vm(&guest_memory, e.vm_id),
            vm_id: e.vm_id,
            bdf: PciBdf { segment: e.segment, bus: e.bus, device: e.device, function: e.function },
            pci_addr: String::new(),
            netdev_id,
            tap_ifname,
        });
        k = k + 1;
    }

    Ok(PlatformLayout {
        platform_name: String::new(),
        guest_memory,
        ipc_memory,
        hypervisor_reserve_phys: layout.hypervisor_reserve_phys,
        hypervisor_reserve_bytes: layout.hypervisor_reserve_bytes,
        pci_devices,
        host_network: HostNetworkPlan {
            enabled: layout.host_network_enabled != 0,
            backend: backend_from_snapshot(layout.host_network_backend),
            interfaces,
        },
    })
}

// ---------------------------------------------------------------------------
// Round trip.
// ---------------------------------------------------------------------------

proof fn lemma_first_guest_none<const PID: usize>(es: Seq<LayoutGuestRegionSnapshot<PID>>, count: int, k: int)
    requires
        forall|i: int| k <= i < count ==> #[trigger] decode_failure(es[i].partition_id_len, es[i].partition_id@) is None,
    ensures
        first_guest_failure(es, count, k) is None,
    decreases count - k,
{
    if 0 <= k < count {
        assert(decode_failure(es[k].partition_id_len, es[k].partition_id@) is None);
        lemma_first_guest_none(es, count, k + 1);
    } else if k < 0 {
    }
}

proof fn lemma_first_host_none<const IFN: usize, const NDV: usize>(es: Seq<LayoutHostNetworkSnapshot<IFN, NDV>>, count: int, k: int)
    requires
        forall|i: int| k <= i < count ==> #[trigger] host_decode_failure(es[i]) is None,
    ensures
        first_host_failure(es, count, k) is None,
    decreases count - k,
{
    if 0 <= k < count {
        assert(host_decode_failure(es[k]) is None);
        lemma_first_host_none(es, count, k + 1);
    }
}

/// A text stored in a field of fewer than 256 bytes reads back as itself.
proof fn lemma_field_reads_back(text: Seq<char>, n: nat, len: u8, field: Seq<u8>)
    requires
        n < 256,
        fixed_string_encoding(encode_utf8(text), n) == Some((len, field)),
    ensures
        decode_failure(len, field) is None,
        field_text(len, field) == text,
{
    lemma_fixed_string_round_trip(text, n);
    lemma_decode_agrees(len, field);
}

/// Layout snapshot round-trip law: the snapshot of a layout, restored
/// against a requirements snapshot with the same reserve, is restored
/// without failure, and the layout restored from it has the original's
/// guest regions (VM id, base, size, partition id), IPC regions (ids, base,
/// size), PCI devices (address, VM id, role, and kind, which is kept when it
/// is `nic_e1000` and otherwise comes back empty), reserve, host network
/// flag, backend (`tap`, else `user`) and interfaces (VM id, address,
/// netdev id, TAP name). Fields of 256 bytes or more are left out: their
/// length byte cannot hold every length.
pub proof fn lemma_layout_snapshot_round_trip<
    const G: usize,
    const I: usize,
    const P: usize,
    const H: usize,
    const PID: usize,
    const IFN: usize,
    const NDV: usize,
>(l: PlatformLayout, s: LayoutSnapshot<PID, IFN, NDV>, r: RequirementsSnapshot)
    requires
        snapshot_failure::<G, I, P, H, PID, IFN, NDV>(l) is None,
        snapshot_of::<G, I, P, H, PID, IFN, NDV>(s, l),
        r.hypervisor_reserve_phys == l.hypervisor_reserve_phys,
        r.hypervisor_reserve_bytes == l.hypervisor_reserve_bytes,
        PID < 256,
        IFN < 256,
        NDV < 256,
        G <= u32::MAX,
        I <= u32::MAX,
        P <= u32::MAX,
        H <= u32::MAX,
    ensures
        restore_failure::<G, I, P, H, PID, IFN, NDV>(s, r) is None,
        forall|p: PlatformLayout| #[trigger] restored_from(p, s) ==> {
            &&& p.guest_memory@.len() == l.guest_memory@.len()
            &&& forall|i: int| 0 <= i < l.guest_memory@.len() ==> {
                let (a, b) = (#[trigger] p.guest_memory@[i], l.guest_memory@[i]);
                a.vm_id == b.vm_id && a.host_phys == b.host_phys && a.size_bytes == b.size_bytes
                    && a.partition_id@ == b.partition_id@
            }
            &&& p.ipc_memory@.len() == l.ipc_memory@.len()
            &&& forall|i: int| 0 <= i < l.ipc_memory@.len() ==> {
                let (a, b) = (#[trigger] p.ipc_memory@[i], l.ipc_memory@[i]);
                a.channel_id == b.channel_id && a.producer_vm_id == b.producer_vm_id
                    && a.consumer_vm_id == b.consumer_vm_id && a.host_phys == b.host_phys
                    && a.size_bytes == b.size_bytes
            }
            &&& p.pci_devices@.len() == l.pci_devices@.len()
            &&& forall|i: int| 0 <= i < l.pci_devices@.len() ==> {
                let (a, b) = (#[trigger] p.pci_devices@[i], l.pci_devices@[i]);
                a.bdf == b.bdf && a.vm_id == b.vm_id && a.role == b.role
                    && a.kind@ == (if b.kind@ == "nic_e1000"@ { b.kind@ } else { Seq::<char>::empty() })
            }
            &&& p.hypervisor_reserve_phys == l.hypervisor_reserve_phys
            &&& p.hypervisor_reserve_bytes == l.hypervisor_reserve_bytes
            &&& p.host_network.enabled == l.host_network.enabled
            &&& p.host_network.backend@ == backend_of_code(backend_code(l.host_network.backend@))
            &&& p.host_network.interfaces@.len() == l.host_network.interfaces@.len()
            &&& forall|i: int| 0 <= i < l.host_network.interfaces@.len() ==> {
                let (a, b) = (#[trigger] p.host_network.interfaces@[i], l.host_network.interfaces@[i]);
                a.vm_id == b.vm_id && a.bdf == b.bdf && a.netdev_id@ == b.netdev_id@
                    && tap_text(a) == tap_text(b)
            }
        },
{
    let guests = l.guest_memory@;
    let ifaces = l.host_network.interfaces@;
    assert forall|i: int| 0 <= i < guests.len() implies
        #[trigger] decode_failure(s.guest_regions@[i].partition_id_len, s.guest_regions@[i].partition_id@) is None
        && field_text(s.guest_regions@[i].partition_id_len, s.guest_regions@[i].partition_id@) == guests[i].partition_id@ by {
        assert(guest_entry_of(s.guest_regions@[i], guests[i]));
        lemma_field_reads_back(guests[i].partition_id@, PID as nat, s.guest_regions@[i].partition_id_len, s.guest_regions@[i].partition_id@);
    }
    assert forall|i: int| 0 <= i < ifaces.len() implies {
        let e = s.host_network_interfaces@[i];
        &&& #[trigger] host_decode_failure(s.host_network_interfaces@[i]) is None
        &&& field_text(e.tap_ifname_len, e.tap_ifname@) == tap_text(ifaces[i])
        &&& field_text(e.netdev_id_len, e.netdev_id@) == ifaces[i].netdev_id@
    } by {
        let e = s.host_network_interfaces@[i];
        assert(host_entry_of(e, ifaces[i], l.host_network.backend@));
        lemma_field_reads_back(tap_text(ifaces[i]), IFN as nat, e.tap_ifname_len, e.tap_ifname@);
        lemma_field_reads_back(ifaces[i].netdev_id@, NDV as nat, e.netdev_id_len, e.netdev_id@);
    }
    lemma_first_guest_none(s.guest_regions@, s.guest_region_count as int, 0);
    lemma_first_host_none(s.host_network_interfaces@, s.host_network_interface_count as int, 0);
    assert forall|p: PlatformLayout| #[trigger] restored_from(p, s) implies {
        &&& p.guest_memory@.len() == l.guest_memory@.len()
        &&& forall|i: int| 0 <= i < l.guest_memory@.len() ==> {
            let (a, b) = (#[trigger] p.guest_memory@[i], l.guest_memory@[i]);
            a.vm_id == b.vm_id && a.host_phys == b.host_phys && a.size_bytes == b.size_bytes
                && a.partition_id@ == b.partition_id@
        }
        &&& p.ipc_memory@.len() == l.ipc_memory@.len()
        &&& forall|i: int| 0 <= i < l.ipc_memory@.len() ==> {
            let (a, b) = (#[trigger] p.ipc_memory@[i], l.ipc_memory@[i]);
            a.channel_id == b.channel_id && a.producer_vm_id == b.producer_vm_id
                && a.consumer_vm_id == b.consumer_vm_id && a.host_phys == b.host_phys
                && a.size_bytes == b.size_bytes
        }
        &&& p.pci_devices@.len() == l.pci_devices@.len()
        &&& forall|i: int| 0 <= i < l.pci_devices@.len() ==> {
            let (a, b) = (#[trigger] p.pci_devices@[i], l.pci_devices@[i]);
            a.bdf == b.bdf && a.vm_id == b.vm_id && a.role == b.role
                && a.kind@ == (if b.kind@ == "nic_e1000"@ { b.kind@ } else { Seq::<char>::empty() })
        }
        &&& p.hypervisor_reserve_phys == l.hypervisor_reserve_phys
        &&& p.hypervisor_reserve_bytes == l.hypervisor_reserve_bytes
        &&& p.host_network.enabled == l.host_network.enabled
        &&& p.host_network.backend@ == backend_of_code(backend_code(l.host_network.backend@))
        &&& p.host_network.interfaces@.len() == l.host_network.interfaces@.len()
        &&& forall|i: int| 0 <= i < l.host_network.interfaces@.len() ==> {
            let (a, b) = (#[trigger] p.host_network.interfaces@[i], l.host_network.interfaces@[i]);
            a.vm_id == b.vm_id && a.bdf == b.bdf && a.netdev_id@ == b.netdev_id@
                && tap_text(a) == tap_text(b)
        }
    } by {
        assert forall|i: int| 0 <= i < l.guest_memory@.len() implies {
            let (a, b) = (#[trigger] p.guest_memory@[i], l.guest_memory@[i]);
            a.vm_id == b.vm_id && a.host_phys == b.host_phys && a.size_bytes == b.size_bytes
                && a.partition_id@ == b.partition_id@
        } by {
            assert(guest_restored(p.guest_memory@[i], s.guest_regions@[i]));
            assert(guest_entry_of(s.guest_regions@[i], guests[i]));
            assert(decode_failure(s.guest_regions@[i].partition_id_len, s.guest_regions@[i].partition_id@) is None);
        }
        assert forall|i: int| 0 <= i < l.ipc_memory@.len() implies {
            let (a, b) = (#[trigger] p.ipc_memory@[i], l.ipc_memory@[i]);
            a.channel_id == b.channel_id && a.producer_vm_id == b.producer_vm_id
                && a.consumer_vm_id == b.consumer_vm_id && a.host_phys == b.host_phys
                && a.size_bytes == b.size_bytes
        } by {
            assert(ipc_restored(p.ipc_memory@[i], s.ipc_regions@[i]));
            assert(ipc_entry_of(s.ipc_regions@[i], l.ipc_memory@[i]));
        }
        assert forall|i: int| 0 <= i < l.pci_devices@.len() implies {
            let (a, b) = (#[trigger] p.pci_devices@[i], l.pci_devices@[i]);
            a.bdf == b.bdf && a.vm_id == b.vm_id && a.role == b.role
                && a.kind@ == (if b.kind@ == "nic_e1000"@ { b.kind@ } else { Seq::<char>::empty() })
        } by {
            assert(pci_restored(p.pci_devices@[i], s.pci_devices@[i]));
            assert(s.pci_devices@[i] == pci_entry_of(l.pci_devices@[i]));
        }
        assert forall|i: int| 0 <= i < l.host_network.interfaces@.len() implies {
            let (a, b) = (#[trigger] p.host_network.interfaces@[i], l.host_network.interfaces@[i]);
            a.vm_id == b.vm_id && a.bdf == b.bdf && a.netdev_id@ == b.netdev_id@
                && tap_text(a) == tap_text(b)
        } by {
            let e = s.host_network_interfaces@[i];
            assert(host_restored(p.host_network.interfaces@[i], e, p.guest_memory@));
            assert(host_entry_of(e, ifaces[i], l.host_network.backend@));
            assert(host_decode_failure(e) is None);
            let t = field_text(e.tap_ifname_len, e.tap_ifname@);
            if t.len() == 0 {
                assert(t =~= Seq::<char>::empty());
            }
        }
    }
}

} // verus!
