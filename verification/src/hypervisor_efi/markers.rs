//! Boot outcome markers the hypervisor reports on the serial log, one
//! record per bring-up stage, each extending the one before it.

use vstd::prelude::*;

verus! {

/// REAL_HW boot outcome markers for serial-log verification.
#[derive(Debug, Clone, Copy, PartialEq, Eq, Structural)]
pub struct RealHwBootMarkers {
    /// Whether VMXON was executed live.
    pub vmxon_executed: bool,
    /// Whether the EPT pointer was loaded live.
    pub ept_executed: bool,
}

/// VMX launch boot outcome markers for serial-log verification.
#[derive(Debug, Clone, Copy, PartialEq, Eq, Structural)]
pub struct VmxLaunchBootMarkers {
    /// REAL_HW boot markers from Gate C init.
    pub real_hw: RealHwBootMarkers,
    /// Whether VMLAUNCH was executed live.
    pub vmlaunch_executed: bool,
}

/// Gate D datapath foundation boot outcome markers for serial-log verification.
#[derive(Debug, Clone, Copy, PartialEq, Eq, Structural)]
pub struct DatapathFoundationBootMarkers {
    /// VMX launch boot markers from Gate C init.
    pub vmx_launch: VmxLaunchBootMarkers,
    /// Whether guest boot info was built for all partitions.
    pub datapath_boot_infos_built: bool,
}

/// Gate D datapath live boot outcome markers for serial-log verification.
#[derive(Debug, Clone, Copy, PartialEq, Eq, Structural)]
pub struct DatapathLiveBootMarkers {
    /// Datapath foundation boot markers.
    pub foundation: DatapathFoundationBootMarkers,
    /// Whether a synthetic IPC frame was forwarded in→mid→out.
    pub ipc_forward_executed: bool,
    /// Whether e1000 MMIO was handled on the live datapath path.
    pub e1000_mmio_handled: bool,
}

/// Gate D datapath malicious boot outcome markers for serial-log verification.
#[derive(Debug, Clone, Copy, PartialEq, Eq, Structural)]
pub struct DatapathMaliciousBootMarkers {
    /// Datapath live boot markers.
    pub live: DatapathLiveBootMarkers,
    /// Whether clean IPC queues passed integrity scans.
    pub integrity_checks_passed: bool,
    /// Number of reference compromised-guest scenarios blocked.
    pub compromised_scenarios_blocked: u32,
}

/// Gate D datapath guests boot outcome markers for serial-log verification.
#[derive(Debug, Clone, Copy, PartialEq, Eq, Structural)]
pub struct DatapathGuestsBootMarkers {
    /// Datapath malicious boot markers.
    pub malicious: DatapathMaliciousBootMarkers,
    /// Number of reference guest ELF images installed.
    pub elf_images_installed: u32,
    /// Whether multi-partition VMLAUNCH seams completed for all reference partitions.
    pub multi_partition_vmlaunch: bool,
}

/// Gate D datapath benchmark boot outcome markers for serial-log verification.
#[derive(Debug, Clone, Copy, PartialEq, Eq, Structural)]
pub struct DatapathBenchmarkBootMarkers {
    /// Datapath guests boot markers.
    pub guests: DatapathGuestsBootMarkers,
    /// Whether the official 200 Mbit/s benchmark target was met.
    pub benchmark_target_met: bool,
    /// Minimum observed throughput across benchmark runs (Mbit/s).
    pub benchmark_min_mbit_per_sec: u64,
}

/// Gate D datapath runtime boot outcome markers for serial-log verification.
#[derive(Debug, Clone, Copy, PartialEq, Eq, Structural)]
pub struct DatapathRuntimeBootMarkers {
    /// Datapath benchmark boot markers.
    pub benchmark: DatapathBenchmarkBootMarkers,
    /// Whether a guest-driven frame was forwarded in→mid→out.
    pub guest_datapath_frame_forwarded: bool,
    /// Number of datapath-capable guest ELF images installed.
    pub datapath_elf_images_installed: u32,
    /// Whether VM-exit dispatch was validated for all partitions.
    pub vmexit_dispatch_validated: bool,
}

/// Gate D datapath guest-sources boot outcome markers for serial-log verification.
#[derive(Debug, Clone, Copy, PartialEq, Eq, Structural)]
pub struct DatapathGuestSourcesBootMarkers {
    /// Datapath runtime boot markers using built `guests/` source-tree ELFs.
    pub runtime: DatapathRuntimeBootMarkers,
    /// Number of source-tree guest ELF images installed.
    pub guest_source_elfs_installed: u32,
}

/// Gate D datapath guest-live boot outcome markers for serial-log verification.
#[derive(Debug, Clone, Copy, PartialEq, Eq, Structural)]
pub struct DatapathGuestLiveBootMarkers {
    /// Datapath guest-sources boot markers.
    pub sources: DatapathGuestSourcesBootMarkers,
    /// Number of guest boot-info blobs installed and wired to VMCS RDI.
    pub guest_boot_infos_installed: u32,
}

} // verus!
