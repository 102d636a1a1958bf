//! CPUID snapshot capability decoding.

use aipervisor::observation::{
    cpuid_snapshot_from_leaves, CpuidSnapshot, CPUID_1_ECX_VMX_BIT, CPUID_1_ECX_X2APIC_BIT, CPUID_1_EDX_NX_BIT,
    CPUID_480_EBX_PREEMPTION_TIMER_BIT, CPUID_480_ECX_EPT_BIT, CPUID_480_ECX_VPID_BIT,
    CPUID_80000007_EDX_INVARIANT_TSC_BIT,
};

#[test]
fn cpuid_snapshot_reports_reference_capabilities() {
    let snapshot = CpuidSnapshot {
        leaf1_ecx: (1 << CPUID_1_ECX_VMX_BIT) | (1 << CPUID_1_ECX_X2APIC_BIT),
        leaf1_edx: 1 << CPUID_1_EDX_NX_BIT,
        leaf1_ebx: (4 << 16) | 4,
        leaf80000007_edx: Some(1 << CPUID_80000007_EDX_INVARIANT_TSC_BIT),
        leaf80000008_ecx: Some(3),
        leaf480_ecx: Some((1 << CPUID_480_ECX_EPT_BIT) | (1 << CPUID_480_ECX_VPID_BIT)),
        leaf480_ebx: Some(1 << CPUID_480_EBX_PREEMPTION_TIMER_BIT),
    };

    assert!(snapshot.vmx());
    assert!(snapshot.nx());
    assert!(snapshot.x2apic());
    assert!(snapshot.invariant_tsc());
    assert!(snapshot.ept());
    assert!(snapshot.vpid());
    assert!(snapshot.vmx_preemption_timer());
    assert_eq!(snapshot.physical_cores(), 4);
    assert!(!snapshot.smt_enabled());
}

#[test]
fn cpuid_snapshot_without_optional_leaves() {
    let snapshot = CpuidSnapshot {
        leaf1_ecx: 0,
        leaf1_edx: 0,
        leaf1_ebx: 8 << 16,
        leaf80000007_edx: None,
        leaf80000008_ecx: None,
        leaf480_ecx: None,
        leaf480_ebx: None,
    };
    assert!(!snapshot.vmx());
    assert!(!snapshot.invariant_tsc());
    assert!(!snapshot.ept());
    assert_eq!(snapshot.logical_processors(), 8);
    assert_eq!(snapshot.cores_per_package(), None);
    assert_eq!(snapshot.physical_cores(), 8);
    assert!(!snapshot.smt_enabled());
}

#[test]
fn cpuid_snapshot_smt_and_single_core() {
    let smt = CpuidSnapshot {
        leaf1_ecx: 0,
        leaf1_edx: 0,
        leaf1_ebx: 8 << 16,
        leaf80000007_edx: None,
        leaf80000008_ecx: Some(3),
        leaf480_ecx: None,
        leaf480_ebx: None,
    };
    assert_eq!(smt.cores_per_package(), Some(4));
    assert!(smt.smt_enabled());
    let single = CpuidSnapshot { leaf1_ebx: 0, leaf80000008_ecx: None, ..smt };
    assert_eq!(single.physical_cores(), 1);
}

#[test]
fn snapshot_from_leaves_keeps_reported_leaves_only() {
    let vmx_ecx = 1 << CPUID_1_ECX_VMX_BIT;
    let full = cpuid_snapshot_from_leaves(0x0004_0000, vmx_ecx, 0, 0x8000_0008, 0x100, 3, 1, 0x21);
    assert_eq!(full.leaf80000007_edx, Some(0x100));
    assert_eq!(full.leaf80000008_ecx, Some(3));
    assert_eq!(full.leaf480_ecx, Some(0x21));
    assert_eq!(full.leaf480_ebx, Some(1));
    let bare = cpuid_snapshot_from_leaves(0, 0, 0, 0x8000_0006, 0x100, 3, 1, 0x21);
    assert_eq!(bare.leaf80000007_edx, None);
    assert_eq!(bare.leaf80000008_ecx, None);
    assert_eq!(bare.leaf480_ecx, None);
    assert_eq!(bare.leaf480_ebx, None);
}
