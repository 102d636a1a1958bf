//! Converting the platform requirements into their fixed-capacity snapshot
//! and back.
//!
//! `S` and `E` are the capacities of the page size and expected PCI device
//! tables.

use vstd::prelude::*;
use crate::boot_check::{BootCheckError, BootCheckErrorKind};
use crate::ept::init::FeatureRequirement;
use crate::snapshot::types::{ExpectedPciSnapshot, PciBdf, RequirementsSnapshot};

verus! {

/// Snapshot code of the x86-64 architecture.
pub const REQUIREMENTS_ARCH_X86_64: u32 = 1;
/// Snapshot code of a required feature.
pub const FEATURE_REQUIRED: u32 = 0;
/// Snapshot code of a preferred feature.
pub const FEATURE_PREFERRED: u32 = 1;
/// Snapshot code of an optional feature.
pub const FEATURE_OPTIONAL: u32 = 2;
/// Snapshot code of a disabled feature.
pub const FEATURE_DISABLED: u32 = 3;
/// Snapshot code of SMT disabled.
pub const SMT_POLICY_DISABLED: u32 = 0;
/// Snapshot code of one partition per core.
pub const SMT_POLICY_EXCLUSIVE_CORE: u32 = 1;
/// Snapshot code of siblings shared within a partition.
pub const SMT_POLICY_SAME_PARTITION_SIBLINGS: u32 = 2;
/// Snapshot code of siblings shared across partitions.
pub const SMT_POLICY_ALLOW_CROSS_PARTITION: u32 = 3;

/// Architecture the configuration targets.
#[derive(Debug, Clone, Copy, PartialEq, Eq, Structural)]
pub enum ArchRequirement {
    /// 64-bit x86.
    X86_64,
}

/// How SMT siblings may be shared.
#[derive(Debug, Clone, Copy, PartialEq, Eq, Structural)]
pub enum SmtPolicy {
    /// SMT must be off.
    Disabled,
    /// Each partition gets whole cores.
    ExclusiveCore,
    /// Siblings may be shared within a partition.
    SamePartitionSiblings,
    /// Siblings may be shared across partitions.
    AllowCrossPartition,
}

/// A PCI device the configuration expects a guest to own.
#[derive(Debug, Clone, PartialEq, Eq)]
pub struct ExpectedPciDevice {
    /// Owning VM id.
    pub vm_id: u32,
    /// Owning partition.
    pub partition_id: String,
    /// Device address.
    pub bdf: PciBdf,
    /// Device kind.
    pub kind: String,
}

/// Platform requirements compiled from the configuration.
#[derive(Debug, Clone, PartialEq, Eq)]
pub struct PlatformRequirements {
    /// Architecture.
    pub arch: ArchRequirement,
    /// VMX.
    pub vmx: FeatureRequirement,
    /// EPT.
    pub ept: FeatureRequirement,
    /// VT-d.
    pub vtd: FeatureRequirement,
    /// Minimum physical cores.
    pub min_physical_cores: u32,
    /// SMT policy.
    pub smt_policy: SmtPolicy,
    /// Minimum RAM in bytes.
    pub min_ram_bytes: u64,
    /// Interrupt remapping.
    pub interrupt_remapping: FeatureRequirement,
    /// x2APIC.
    pub x2apic: FeatureRequirement,
    /// Invariant TSC.
    pub invariant_tsc: FeatureRequirement,
    /// VPID.
    pub vpid: FeatureRequirement,
    /// VMX preemption timer.
    pub vmx_preemption_timer: FeatureRequirement,
    /// NX.
    pub nx: FeatureRequirement,
    /// Page sizes the guests use.
    pub page_sizes: Vec<u64>,
    /// PCI devices the guests own.
    pub expected_pci_devices: Vec<ExpectedPciDevice>,
}

/// Feature requirement of a snapshot code.
pub open spec fn feature_of_code(code: u32) -> Option<FeatureRequirement> {
    if code == FEATURE_REQUIRED {
        Some(FeatureRequirement::Required)
    } else if code == FEATURE_PREFERRED {
        Some(FeatureRequirement::Preferred)
    } else if code == FEATURE_OPTIONAL {
        Some(FeatureRequirement::Optional)
    } else if code == FEATURE_DISABLED {
        Some(FeatureRequirement::Disabled)
    } else {
        None
    }
}

/// Snapshot code of a feature requirement.
pub open spec fn feature_code(f: FeatureRequirement) -> u32 {
    match f {
        FeatureRequirement::Required => FEATURE_REQUIRED,
        FeatureRequirement::Preferred => FEATURE_PREFERRED,
        FeatureRequirement::Optional => FEATURE_OPTIONAL,
        FeatureRequirement::Disabled => FEATURE_DISABLED,
    }
}

/// SMT policy of a snapshot code.
pub open spec fn smt_of_code(code: u32) -> Option<SmtPolicy> {
    if code == SMT_POLICY_DISABLED {
        Some(SmtPolicy::Disabled)
    } else if code == SMT_POLICY_EXCLUSIVE_CORE {
        Some(SmtPolicy::ExclusiveCore)
    } else if code == SMT_POLICY_SAME_PARTITION_SIBLINGS {
        Some(SmtPolicy::SamePartitionSiblings)
    } else if code == SMT_POLICY_ALLOW_CROSS_PARTITION {
        Some(SmtPolicy::AllowCrossPartition)
    } else {
        None
    }
}

/// Snapshot code of an SMT policy.
pub open spec fn smt_code(p: SmtPolicy) -> u32 {
    match p {
        SmtPolicy::Disabled => SMT_POLICY_DISABLED,
        SmtPolicy::ExclusiveCore => SMT_POLICY_EXCLUSIVE_CORE,
        SmtPolicy::SamePartitionSiblings => SMT_POLICY_SAME_PARTITION_SIBLINGS,
        SmtPolicy::AllowCrossPartition => SMT_POLICY_ALLOW_CROSS_PARTITION,
    }
}

/// The feature codes of a snapshot, in the order they are decoded; the SMT
/// policy code is decoded after the third.
pub open spec fn feature_codes(s: RequirementsSnapshot) -> Seq<u32> {
    seq![s.vmx, s.ept, s.vtd, s.interrupt_remapping, s.x2apic, s.invariant_tsc, s.vpid, s.vmx_preemption_timer, s.nx]
}

/// Why a requirements snapshot cannot be restored, checked in order.
pub open spec fn requirements_failure<const S: usize, const E: usize>(s: RequirementsSnapshot) -> Option<Seq<char>> {
    let bad_feature = |c: u32| feature_of_code(c) is None;
    if s.arch != REQUIREMENTS_ARCH_X86_64 {
        Some("unsupported requirements snapshot architecture"@)
    } else if s.page_size_count > S {
        Some("requirements snapshot page size count exceeds maximum"@)
    } else if s.expected_pci_count > E {
        Some("requirements snapshot pci device count exceeds maximum"@)
    } else if s.page_sizes@.len() < s.page_size_count {
        Some("requirements snapshot page sizes out of bounds"@)
    } else if s.expected_pci@.len() < s.expected_pci_count {
        Some("requirements snapshot pci devices out of bounds"@)
    } else if bad_feature(s.vmx) || bad_feature(s.ept) || bad_feature(s.vtd) {
        Some("invalid feature requirement discriminator"@)
    } else if smt_of_code(s.smt_policy) is None {
        Some("invalid smt policy discriminator"@)
    } else if bad_feature(s.interrupt_remapping) || bad_feature(s.x2apic) || bad_feature(s.invariant_tsc)
        || bad_feature(s.vpid) || bad_feature(s.vmx_preemption_timer) || bad_feature(s.nx) {
        Some("invalid feature requirement discriminator"@)
    } else {
        None
    }
}

/// Expected device `d` is restored from entry `e` (no partition or kind).
pub open spec fn expected_restored(d: ExpectedPciDevice, e: ExpectedPciSnapshot) -> bool {
    &&& d.vm_id == e.vm_id
    &&& d.partition_id@ == Seq::<char>::empty()
    &&& d.bdf == PciBdf { segment: e.segment, bus: e.bus, device: e.device, function: e.function }
    &&& d.kind@ == Seq::<char>::empty()
}

/// `p` holds the requirements restored from snapshot `s`.
pub open spec fn requirements_restored(p: PlatformRequirements, s: RequirementsSnapshot) -> bool {
    &&& p.arch == ArchRequirement::X86_64
    &&& Some(p.vmx) == feature_of_code(s.vmx)
    &&& Some(p.ept) == feature_of_code(s.ept)
    &&& Some(p.vtd) == feature_of_code(s.vtd)
    &&& p.min_physical_cores == s.min_physical_cores
    &&& Some(p.smt_policy) == smt_of_code(s.smt_policy)
    &&& p.min_ram_bytes == s.min_ram_bytes
    &&& Some(p.interrupt_remapping) == feature_of_code(s.interrupt_remapping)
    &&& Some(p.x2apic) == feature_of_code(s.x2apic)
    &&& Some(p.invariant_tsc) == feature_of_code(s.invariant_tsc)
    &&& Some(p.vpid) == feature_of_code(s.vpid)
    &&& Some(p.vmx_preemption_timer) == feature_of_code(s.vmx_preemption_timer)
    &&& Some(p.nx) == feature_of_code(s.nx)
    &&& p.page_sizes@ == s.page_sizes@.subrange(0, s.page_size_count as int)
    &&& p.expected_pci_devices@.len() == s.expected_pci_count
    &&& forall|i: int| 0 <= i < p.expected_pci_devices@.len()
        ==> expected_restored(#[trigger] p.expected_pci_devices@[i], s.expected_pci@[i])
}

fn platform_error(message: &str) -> (e: BootCheckError)
    ensures
        e.kind == BootCheckErrorKind::Platform,
        e.message@ == message@,
{
    BootCheckError::new(BootCheckErrorKind::Platform, message)
}

fn feature_from_snapshot(code: u32) -> (r: Result<FeatureRequirement, BootCheckError>)
    ensures
        match r {
            Ok(f) => feature_of_code(code) == Some(f),
            Err(e) => feature_of_code(code) is None && e.kind == BootCheckErrorKind::Platform
                && e.message@ == "invalid feature requirement discriminator"@,
        },
{
    if code == FEATURE_REQUIRED {
        Ok(FeatureRequirement::Required)
    } else if code == FEATURE_PREFERRED {
        Ok(FeatureRequirement::Preferred)
    } else if code == FEATURE_OPTIONAL {
        Ok(FeatureRequirement::Optional)
    } else if code == FEATURE_DISABLED {
        Ok(FeatureRequirement::Disabled)
    } else {
        Err(platform_error("invalid feature requirement discriminator"))
    }
}

fn smt_policy_from_snapshot(code: u32) -> (r: Result<SmtPolicy, BootCheckError>)
    ensures
        match r {
            Ok(p) => smt_of_code(code) == Some(p),
            Err(e) => smt_of_code(code) is None && e.kind == BootCheckErrorKind::Platform
                && e.message@ == "invalid smt policy discriminator"@,
        },
{
    if code == SMT_POLICY_DISABLED {
        Ok(SmtPolicy::Disabled)
    } else if code == SMT_POLICY_EXCLUSIVE_CORE {
        Ok(SmtPolicy::ExclusiveCore)
    } else if code == SMT_POLICY_SAME_PARTITION_SIBLINGS {
        Ok(SmtPolicy::SamePartitionSiblings)
    } else if code == SMT_POLICY_ALLOW_CROSS_PARTITION {
        Ok(SmtPolicy::AllowCrossPartition)
    } else {
        Err(platform_error("invalid smt policy discriminator"))
    }
}

/// Restores the platform requirements from an embedded requirements
/// snapshot: fails exactly as `requirements_failure` says, and otherwise
/// returns the requirements its codes and tables in use describe.
pub fn platform_requirements_from_snapshot<const S: usize, const E: usize>(snapshot: &RequirementsSnapshot) -> (r: Result<PlatformRequirements, BootCheckError>)
    ensures
        match r {
            Ok(p) => requirements_failure::<S, E>(*snapshot) is None && requirements_restored(p, *snapshot),
            Err(e) => e.kind == BootCheckErrorKind::Platform && requirements_failure::<S, E>(*snapshot) == Some(e.message@),
        },
{
    if snapshot.arch != REQUIREMENTS_ARCH_X86_64 {
        return Err(platform_error("unsupported requirements snapshot architecture"));
    }
    if snapshot.page_size_count as usize > S {
        return Err(platform_error("requirements snapshot page size count exceeds maximum"));
    }
    if snapshot.expected_pci_count as usize > E {
        return Err(platform_error("requirements snapshot pci device count exceeds maximum"));
    }
    let page_count = snapshot.page_size_count as usize;
    if snapshot.page_sizes.len() < page_count {
        return Err(platform_error("requirements snapshot page sizes out of bounds"));
    }
    let mut page_sizes: Vec<u64> = Vec::new();
    let mut k: usize = 0;
    while k < page_count
        invariant
            page_count <= snapshot.page_sizes@.len(),
            k <= page_count,
            page_sizes@ == snapshot.page_sizes@.subrange(0, k as int),
        decreases page_count - k,
    {
        page_sizes.push(snapshot.page_sizes[k]);
        proof {
            assert(page_sizes@ =~= snapshot.page_sizes@.subrange(0, k as int + 1));
        }
        k = k + 1;
    }
    let pci_count = snapshot.expected_pci_count as usize;
    if snapshot.expected_pci.len() < pci_count {
        return Err(platform_error("requirements snapshot pci devices out of bounds"));
    }
    let mut expected_pci_devices: Vec<ExpectedPciDevice> = Vec::new();
    let mut k: usize = 0;
    while k < pci_count
        invariant
            pci_count == snapshot.expected_pci_count,
            pci_count <= snapshot.expected_pci@.len(),
            k <= pci_count,
            expected_pci_devices@.len() == k,
            forall|i: int| 0 <= i < k ==> expected_restored(#[trigger] expected_pci_devices@[i], snapshot.expected_pci@[i]),
        decreases pci_count - k,
    {
        let e = &snapshot.expected_pci[k];
        expected_pci_devices.push(ExpectedPciDevice {
            vm_id: e.vm_id,
            partition_id: String::new(),
            bdf: PciBdf { segment: e.segment, bus: e.bus, device: e.device, function: e.function },
            kind: String::new(),
        });
        k = k + 1;
    }
    let vmx = match feature_from_snapshot(snapshot.vmx) { Ok(f) => f, Err(e) => return Err(e) };
    let ept = match feature_from_snapshot(snapshot.ept) { Ok(f) => f, Err(e) => return Err(e) };
    let vtd = match feature_from_snapshot(snapshot.vtd) { Ok(f) => f, Err(e) => return Err(e) };
    let smt_policy = match smt_policy_from_snapshot(snapshot.smt_policy) { Ok(p) => p, Err(e) => return Err(e) };
    let interrupt_remapping = match feature_from_snapshot(snapshot.interrupt_remapping) { Ok(f) => f, Err(e) => return Err(e) };
    let x2apic = match feature_from_snapshot(snapshot.x2apic) { Ok(f) => f, Err(e) => return Err(e) };
    let invariant_tsc = match feature_from_snapshot(snapshot.invariant_tsc) { Ok(f) => f, Err(e) => return Err(e) };
    let vpid = match feature_from_snapshot(snapshot.vpid) { Ok(f) => f, Err(e) => return Err(e) };
    let vmx_preemption_timer = match feature_from_snapshot(snapshot.vmx_preemption_timer) { Ok(f) => f, Err(e) => return Err(e) };
    let nx = match feature_from_snapshot(snapshot.nx) { Ok(f) => f, Err(e) => return Err(e) };
    Ok(PlatformRequirements {
        arch: ArchRequirement::X86_64,
        vmx,
        ept,
        vtd,
        min_physical_cores: snapshot.min_physical_cores,
        smt_policy,
        min_ram_bytes: snapshot.min_ram_bytes,
        interrupt_remapping,
        x2apic,
        invariant_tsc,
        vpid,
        vmx_preemption_timer,
        nx,
        page_sizes,
        expected_pci_devices,
    })
}

/// `s` is the snapshot of requirements `p` with digest `digest` and the
/// given reserve: the codes of `p`, its tables padded with zero entries to
/// their capacities, and its counts.
pub open spec fn requirements_snapshot_of<const S: usize, const E: usize>(
    s: RequirementsSnapshot,
    p: PlatformRequirements,
    digest: Seq<u8>,
    reserve_phys: u64,
    reserve_bytes: u64,
) -> bool {
    &&& s.arch == REQUIREMENTS_ARCH_X86_64
    &&& s.vmx == feature_code(p.vmx) && s.ept == feature_code(p.ept) && s.vtd == feature_code(p.vtd)
    &&& s.min_physical_cores == p.min_physical_cores
    &&& s.smt_policy == smt_code(p.smt_policy)
    &&& s.min_ram_bytes == p.min_ram_bytes
    &&& s.interrupt_remapping == feature_code(p.interrupt_remapping)
    &&& s.x2apic == feature_code(p.x2apic)
    &&& s.invariant_tsc == feature_code(p.invariant_tsc)
    &&& s.vpid == feature_code(p.vpid)
    &&& s.vmx_preemption_timer == feature_code(p.vmx_preemption_timer)
    &&& s.nx == feature_code(p.nx)
    &&& s.page_size_count == p.page_sizes@.len() as u32
    &&& s.page_sizes@ == p.page_sizes@ + Seq::new((S - p.page_sizes@.len()) as nat, |_i: int| 0u64)
    &&& s.expected_pci_count == p.expected_pci_devices@.len() as u32
    &&& s.expected_pci@.len() == E
    &&& forall|i: int| 0 <= i < E ==> if i < p.expected_pci_devices@.len() {
        expected_entry_of(#[trigger] s.expected_pci@[i], p.expected_pci_devices@[i])
    } else {
        expected_entry_empty(s.expected_pci@[i])
    }
    &&& s.hypervisor_reserve_phys == reserve_phys
    &&& s.hypervisor_reserve_bytes == reserve_bytes
    &&& s.config_digest@ == digest
}

/// Entry `e` stores expected device `d`.
pub open spec fn expected_entry_of(e: ExpectedPciSnapshot, d: ExpectedPciDevice) -> bool {
    e.vm_id == d.vm_id && e.segment == d.bdf.segment && e.bus == d.bdf.bus && e.device == d.bdf.device
        && e.function == d.bdf.function && e.reserved@ == seq![0u8, 0u8, 0u8]
}

/// Entry `e` is an unused, all-zero expected device entry.
pub open spec fn expected_entry_empty(e: ExpectedPciSnapshot) -> bool {
    e.vm_id == 0 && e.segment == 0 && e.bus == 0 && e.device == 0 && e.function == 0
        && e.reserved@ == seq![0u8, 0u8, 0u8]
}

fn feature_to_snapshot(f: FeatureRequirement) -> (code: u32)
    ensures
        code == feature_code(f),
{
    match f {
        FeatureRequirement::Required => FEATURE_REQUIRED,
        FeatureRequirement::Preferred => FEATURE_PREFERRED,
        FeatureRequirement::Optional => FEATURE_OPTIONAL,
        FeatureRequirement::Disabled => FEATURE_DISABLED,
    }
}

fn smt_policy_to_snapshot(p: SmtPolicy) -> (code: u32)
    ensures
        code == smt_code(p),
{
    match p {
        SmtPolicy::Disabled => SMT_POLICY_DISABLED,
        SmtPolicy::ExclusiveCore => SMT_POLICY_EXCLUSIVE_CORE,
        SmtPolicy::SamePartitionSiblings => SMT_POLICY_SAME_PARTITION_SIBLINGS,
        SmtPolicy::AllowCrossPartition => SMT_POLICY_ALLOW_CROSS_PARTITION,
    }
}

/// Builds the requirements snapshot of compiled requirements, the
/// configuration digest and the hypervisor reserve; fails when a table
/// does not fit its capacity.
pub fn requirements_snapshot_from_platform<const S: usize, const E: usize>(
    requirements: &PlatformRequirements,
    config_digest: [u8; 32],
    hypervisor_reserve_phys: u64,
    hypervisor_reserve_bytes: u64,
) -> (r: Result<RequirementsSnapshot, BootCheckError>)
    ensures
        match r {
            Ok(s) => requirements.page_sizes@.len() <= S && requirements.expected_pci_devices@.len() <= E
                && requirements_snapshot_of::<S, E>(s, *requirements, config_digest@, hypervisor_reserve_phys, hypervisor_reserve_bytes),
            Err(e) => e.kind == BootCheckErrorKind::Platform && if requirements.page_sizes@.len() > S {
                e.message@ == "page size count exceeds snapshot capacity"@
            } else {
                requirements.expected_pci_devices@.len() > E
                    && e.message@ == "expected pci device count exceeds snapshot capacity"@
            },
        },
{
    if requirements.page_sizes.len() > S {
        return Err(platform_error("page size count exceeds snapshot capacity"));
    }
    if requirements.expected_pci_devices.len() > E {
        return Err(platform_error("expected pci device count exceeds snapshot capacity"));
    }
    let sizes = &requirements.page_sizes;
    let mut page_sizes: Vec<u64> = Vec::new();
    let mut k: usize = 0;
    while k < S
        invariant
            sizes.len() <= S,
            k <= S,
            page_sizes@.len() == k,
            forall|i: int| 0 <= i < k ==> #[trigger] page_sizes@[i] == if i < sizes@.len() { sizes@[i] } else { 0u64 },
        decreases S - k,
    {
        if k < sizes.len() {
            page_sizes.push(sizes[k]);
        } else {
            page_sizes.push(0);
        }
        k = k + 1;
    }
    proof {
        assert(page_sizes@ =~= sizes@ + Seq::new((S - sizes@.len()) as nat, |_i: int| 0u64));
    }
    let devices = &requirements.expected_pci_devices;
    let mut expected_pci: Vec<ExpectedPciSnapshot> = Vec::new();
    let mut k: usize = 0;
    while k < E
        invariant
            devices.len() <= E,
            k <= E,
            expected_pci@.len() == k,
            forall|i: int| 0 <= i < k ==> if i < devices@.len() {
                expected_entry_of(#[trigger] expected_pci@[i], devices@[i])
            } else {
                expected_entry_empty(expected_pci@[i])
            },
        decreases E - k,
    {
        let reserved = [0u8; 3];
        assert(reserved@ =~= seq![0u8, 0u8, 0u8]);
        if k < devices.len() {
            let d = &devices[k];
            expected_pci.push(ExpectedPciSnapshot {
                vm_id: d.vm_id,
                segment: d.bdf.segment,
                bus: d.bdf.bus,
                device: d.bdf.device,
                function: d.bdf.function,
                reserved,
            });
        } else {
            expected_pci.push(ExpectedPciSnapshot { vm_id: 0, segment: 0, bus: 0, device: 0, function: 0, reserved });
        }
        k = k + 1;
    }
    Ok(RequirementsSnapshot {
        arch: REQUIREMENTS_ARCH_X86_64,
        vmx: feature_to_snapshot(requirements.vmx),
        ept: feature_to_snapshot(requirements.ept),
        vtd: feature_to_snapshot(requirements.vtd),
        min_physical_cores: requirements.min_physical_cores,
        smt_policy: smt_policy_to_snapshot(requirements.smt_policy),
        min_ram_bytes: requirements.min_ram_bytes,
        interrupt_remapping: feature_to_snapshot(requirements.interrupt_remapping),
        x2apic: feature_to_snapshot(requirements.x2apic),
        invariant_tsc: feature_to_snapshot(requirements.invariant_tsc),
        vpid: feature_to_snapshot(requirements.vpid),
        vmx_preemption_timer: feature_to_snapshot(requirements.vmx_preemption_timer),
        nx: feature_to_snapshot(requirements.nx),
        page_size_count: requirements.page_sizes.len() as u32,
        page_sizes,
        expected_pci_count: requirements.expected_pci_devices.len() as u32,
        expected_pci,
        hypervisor_reserve_phys,
        hypervisor_reserve_bytes,
        config_digest,
    })
}

/// Requirements snapshot round-trip law: the snapshot of requirements
/// whose tables fit is restored without failure, to requirements with the
/// same features, cores, SMT policy, RAM, page sizes and expected devices
/// (VM id and address).
pub proof fn lemma_requirements_snapshot_round_trip<const S: usize, const E: usize>(
    p: PlatformRequirements,
    s: RequirementsSnapshot,
    digest: Seq<u8>,
    reserve_phys: u64,
    reserve_bytes: u64,
)
    requires
        p.page_sizes@.len() <= S,
        p.expected_pci_devices@.len() <= E,
        S <= u32::MAX,
        E <= u32::MAX,
        requirements_snapshot_of::<S, E>(s, p, digest, reserve_phys, reserve_bytes),
    ensures
        requirements_failure::<S, E>(s) is None,
        forall|q: PlatformRequirements| #[trigger] requirements_restored(q, s) ==> {
            &&& q.vmx == p.vmx && q.ept == p.ept && q.vtd == p.vtd
            &&& q.min_physical_cores == p.min_physical_cores
            &&& q.smt_policy == p.smt_policy
            &&& q.min_ram_bytes == p.min_ram_bytes
            &&& q.interrupt_remapping == p.interrupt_remapping && q.x2apic == p.x2apic
            &&& q.invariant_tsc == p.invariant_tsc && q.vpid == p.vpid
            &&& q.vmx_preemption_timer == p.vmx_preemption_timer && q.nx == p.nx
            &&& q.page_sizes@ == p.page_sizes@
            &&& q.expected_pci_devices@.len() == p.expected_pci_devices@.len()
            &&& forall|i: int| 0 <= i < p.expected_pci_devices@.len() ==>
                (#[trigger] q.expected_pci_devices@[i]).vm_id == p.expected_pci_devices@[i].vm_id
                    && q.expected_pci_devices@[i].bdf == p.expected_pci_devices@[i].bdf
        },
{
    assert(s.page_sizes@.subrange(0, s.page_size_count as int) =~= p.page_sizes@);
    assert forall|q: PlatformRequirements| #[trigger] requirements_restored(q, s) implies {
        &&& q.vmx == p.vmx && q.ept == p.ept && q.vtd == p.vtd
        &&& q.min_physical_cores == p.min_physical_cores
        &&& q.smt_policy == p.smt_policy
        &&& q.min_ram_bytes == p.min_ram_bytes
        &&& q.interrupt_remapping == p.interrupt_remapping && q.x2apic == p.x2apic
        &&& q.invariant_tsc == p.invariant_tsc && q.vpid == p.vpid
        &&& q.vmx_preemption_timer == p.vmx_preemption_timer && q.nx == p.nx
        &&& q.page_sizes@ == p.page_sizes@
        &&& q.expected_pci_devices@.len() == p.expected_pci_devices@.len()
        &&& forall|i: int| 0 <= i < p.expected_pci_devices@.len() ==>
            (#[trigger] q.expected_pci_devices@[i]).vm_id == p.expected_pci_devices@[i].vm_id
                && q.expected_pci_devices@[i].bdf == p.expected_pci_devices@[i].bdf
    } by {
        assert forall|i: int| 0 <= i < p.expected_pci_devices@.len() implies
            (#[trigger] q.expected_pci_devices@[i]).vm_id == p.expected_pci_devices@[i].vm_id
                && q.expected_pci_devices@[i].bdf == p.expected_pci_devices@[i].bdf by {
            assert(expected_restored(q.expected_pci_devices@[i], s.expected_pci@[i]));
            assert(expected_entry_of(s.expected_pci@[i], p.expected_pci_devices@[i]));
        }
    }
}

} // verus!
