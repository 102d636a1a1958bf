//! Requirements snapshot conversion and restoration.

use aipervisor::ept::init::FeatureRequirement;
use aipervisor::snapshot::requirements::{
    platform_requirements_from_snapshot, requirements_snapshot_from_platform, ArchRequirement, ExpectedPciDevice,
    PlatformRequirements, SmtPolicy, FEATURE_OPTIONAL, FEATURE_REQUIRED, REQUIREMENTS_ARCH_X86_64,
    SMT_POLICY_DISABLED,
};
use aipervisor::snapshot::types::{ExpectedPciSnapshot, PciBdf, RequirementsSnapshot};

const MAX_REQUIREMENTS_PAGE_SIZES: usize = 4;
const MAX_REQUIREMENTS_PCI_DEVICES: usize = 8;
const SHA256_DIGEST_BYTES: usize = 32;

fn restore(snapshot: &RequirementsSnapshot) -> Result<PlatformRequirements, aipervisor::boot_check::BootCheckError> {
    platform_requirements_from_snapshot::<MAX_REQUIREMENTS_PAGE_SIZES, MAX_REQUIREMENTS_PCI_DEVICES>(snapshot)
}

fn empty_expected() -> ExpectedPciSnapshot {
    ExpectedPciSnapshot { vm_id: 0, segment: 0, bus: 0, device: 0, function: 0, reserved: [0; 3] }
}

fn sample_requirements() -> PlatformRequirements {
    PlatformRequirements {
        arch: ArchRequirement::X86_64,
        vmx: FeatureRequirement::Required,
        ept: FeatureRequirement::Required,
        vtd: FeatureRequirement::Preferred,
        min_physical_cores: 2,
        smt_policy: SmtPolicy::ExclusiveCore,
        min_ram_bytes: 1 << 30,
        interrupt_remapping: FeatureRequirement::Optional,
        x2apic: FeatureRequirement::Preferred,
        invariant_tsc: FeatureRequirement::Required,
        vpid: FeatureRequirement::Optional,
        vmx_preemption_timer: FeatureRequirement::Disabled,
        nx: FeatureRequirement::Required,
        page_sizes: vec![4096, 2 * 1024 * 1024],
        expected_pci_devices: vec![ExpectedPciDevice {
            vm_id: 1,
            partition_id: "egress".to_string(),
            bdf: PciBdf { segment: 0, bus: 0, device: 4, function: 0 },
            kind: "nic_e1000".to_string(),
        }],
    }
}

fn snapshot_of(requirements: &PlatformRequirements) -> RequirementsSnapshot {
    requirements_snapshot_from_platform::<MAX_REQUIREMENTS_PAGE_SIZES, MAX_REQUIREMENTS_PCI_DEVICES>(
        requirements,
        [7; SHA256_DIGEST_BYTES],
        0x3000_0000,
        0x400_0000,
    )
    .expect("snapshot")
}

#[test]
fn platform_requirements_from_snapshot_rejects_invalid_metadata() {
    let mut snapshot = RequirementsSnapshot {
        arch: REQUIREMENTS_ARCH_X86_64,
        vmx: FEATURE_REQUIRED,
        ept: FEATURE_REQUIRED,
        vtd: FEATURE_REQUIRED,
        min_physical_cores: 1,
        smt_policy: SMT_POLICY_DISABLED,
        min_ram_bytes: 1,
        interrupt_remapping: FEATURE_REQUIRED,
        x2apic: FEATURE_REQUIRED,
        invariant_tsc: FEATURE_REQUIRED,
        vpid: FEATURE_REQUIRED,
        vmx_preemption_timer: FEATURE_REQUIRED,
        nx: FEATURE_REQUIRED,
        page_size_count: 1,
        page_sizes: vec![4096, 0, 0, 0],
        expected_pci_count: 0,
        expected_pci: vec![empty_expected(); MAX_REQUIREMENTS_PCI_DEVICES],
        hypervisor_reserve_phys: 0,
        hypervisor_reserve_bytes: 4096,
        config_digest: [0; SHA256_DIGEST_BYTES],
    };
    snapshot.arch = 99;
    assert!(restore(&snapshot).is_err());

    snapshot.arch = REQUIREMENTS_ARCH_X86_64;
    snapshot.page_size_count = MAX_REQUIREMENTS_PAGE_SIZES as u32 + 1;
    assert!(restore(&snapshot).is_err());

    snapshot.page_size_count = 1;
    snapshot.expected_pci_count = MAX_REQUIREMENTS_PCI_DEVICES as u32 + 1;
    assert!(restore(&snapshot).is_err());

    snapshot.expected_pci_count = 0;
    snapshot.vmx = 99;
    assert!(restore(&snapshot).is_err());

    snapshot.vmx = FEATURE_REQUIRED;
    snapshot.smt_policy = 99;
    assert!(restore(&snapshot).is_err());
}

#[test]
fn platform_requirements_from_snapshot_rejects_invalid_arch() {
    let mut snapshot = snapshot_of(&sample_requirements());
    snapshot.arch = 99;
    assert!(restore(&snapshot).is_err());
}

#[test]
fn platform_requirements_from_snapshot_rejects_oversized_page_and_pci_counts() {
    let mut snapshot = snapshot_of(&sample_requirements());
    snapshot.page_size_count = MAX_REQUIREMENTS_PAGE_SIZES as u32 + 1;
    assert!(restore(&snapshot).is_err());
    snapshot.page_size_count = 1;
    snapshot.expected_pci_count = MAX_REQUIREMENTS_PCI_DEVICES as u32 + 1;
    assert!(restore(&snapshot).is_err());
}

#[test]
fn platform_requirements_from_snapshot_rejects_invalid_feature_and_smt_fields() {
    let mut snapshot = snapshot_of(&sample_requirements());
    snapshot.vmx = 99;
    assert!(restore(&snapshot).is_err());
    snapshot.vmx = FEATURE_REQUIRED;
    snapshot.smt_policy = 99;
    assert!(restore(&snapshot).is_err());
}

#[test]
fn requirements_restore_reports_why_it_refuses() {
    let mut snapshot = snapshot_of(&sample_requirements());
    snapshot.nx = 42;
    assert_eq!(restore(&snapshot).expect_err("nx").message, "invalid feature requirement discriminator");
    snapshot.smt_policy = 42;
    assert_eq!(restore(&snapshot).expect_err("smt").message, "invalid smt policy discriminator");
    snapshot.vtd = 42;
    assert_eq!(restore(&snapshot).expect_err("vtd").message, "invalid feature requirement discriminator");
    snapshot.page_sizes.truncate(1);
    assert_eq!(restore(&snapshot).expect_err("pages").message, "requirements snapshot page sizes out of bounds");
    snapshot.arch = 0;
    assert_eq!(restore(&snapshot).expect_err("arch").message, "unsupported requirements snapshot architecture");
}

#[test]
fn requirements_snapshot_round_trip_keeps_requirements() {
    let requirements = sample_requirements();
    let snapshot = snapshot_of(&requirements);
    assert_eq!(snapshot.page_sizes, vec![4096, 2 * 1024 * 1024, 0, 0]);
    assert_eq!(snapshot.expected_pci.len(), MAX_REQUIREMENTS_PCI_DEVICES);
    assert_eq!(snapshot.config_digest, [7; SHA256_DIGEST_BYTES]);
    assert_eq!(snapshot.vpid, FEATURE_OPTIONAL);
    let restored = restore(&snapshot).expect("restore");
    assert_eq!(restored.arch, requirements.arch);
    assert_eq!(restored.vmx, requirements.vmx);
    assert_eq!(restored.vmx_preemption_timer, requirements.vmx_preemption_timer);
    assert_eq!(restored.smt_policy, requirements.smt_policy);
    assert_eq!(restored.min_physical_cores, requirements.min_physical_cores);
    assert_eq!(restored.page_sizes, requirements.page_sizes);
    assert_eq!(
        restored.expected_pci_devices.iter().map(|d| (d.vm_id, d.bdf)).collect::<Vec<_>>(),
        requirements.expected_pci_devices.iter().map(|d| (d.vm_id, d.bdf)).collect::<Vec<_>>()
    );
    assert_eq!(restored.expected_pci_devices[0].kind, "");
}

#[test]
fn snapshot_requirements_snapshot_from_platform_rejects_oversized_inputs() {
    let mut requirements = sample_requirements();
    requirements.page_sizes = vec![4096; MAX_REQUIREMENTS_PAGE_SIZES + 1];
    let err = requirements_snapshot_from_platform::<MAX_REQUIREMENTS_PAGE_SIZES, MAX_REQUIREMENTS_PCI_DEVICES>(
        &requirements,
        [0; SHA256_DIGEST_BYTES],
        0,
        4096,
    )
    .expect_err("pages");
    assert_eq!(err.message, "page size count exceeds snapshot capacity");

    let mut requirements = sample_requirements();
    let device = requirements.expected_pci_devices.first().expect("device").clone();
    requirements.expected_pci_devices = (0..=MAX_REQUIREMENTS_PCI_DEVICES).map(|_| device.clone()).collect();
    assert!(requirements_snapshot_from_platform::<MAX_REQUIREMENTS_PAGE_SIZES, MAX_REQUIREMENTS_PCI_DEVICES>(
        &requirements,
        [0; SHA256_DIGEST_BYTES],
        0,
        4096,
    )
    .is_err());
}

#[test]
fn coverage_requirements_snapshot_from_platform_rejects_oversized_inputs() {
    let mut oversized = sample_requirements();
    oversized.page_sizes = vec![4096; MAX_REQUIREMENTS_PAGE_SIZES + 1];
    assert!(requirements_snapshot_from_platform::<MAX_REQUIREMENTS_PAGE_SIZES, MAX_REQUIREMENTS_PCI_DEVICES>(
        &oversized,
        [0; SHA256_DIGEST_BYTES],
        0x3000_0000,
        0x400_0000,
    )
    .is_err());
}

#[test]
fn requirements_snapshot_from_platform_rejects_oversized_pci_list() {
    let requirements = sample_requirements();
    let device = requirements.expected_pci_devices.first().expect("device").clone();
    let mut oversized = requirements.clone();
    oversized.expected_pci_devices = (0..=MAX_REQUIREMENTS_PCI_DEVICES).map(|_| device.clone()).collect();
    let err = requirements_snapshot_from_platform::<MAX_REQUIREMENTS_PAGE_SIZES, MAX_REQUIREMENTS_PCI_DEVICES>(
        &oversized,
        [0; SHA256_DIGEST_BYTES],
        0,
        4096,
    )
    .expect_err("pci");
    assert_eq!(err.message, "expected pci device count exceeds snapshot capacity");
}
