//! CPUID snapshot collected by the loader before hypervisor entry.

use vstd::prelude::*;

verus! {

/// CPUID leaf 1 ECX VMX bit.
pub const CPUID_1_ECX_VMX_BIT: u32 = 5;
/// CPUID leaf 1 ECX x2APIC bit.
pub const CPUID_1_ECX_X2APIC_BIT: u32 = 21;
/// CPUID leaf 1 EDX NX bit.
pub const CPUID_1_EDX_NX_BIT: u32 = 20;
/// CPUID leaf 0x8000_0007 EDX invariant TSC bit.
pub const CPUID_80000007_EDX_INVARIANT_TSC_BIT: u32 = 8;
/// CPUID leaf 0x480 ECX EPT bit.
pub const CPUID_480_ECX_EPT_BIT: u32 = 0;
/// CPUID leaf 0x480 ECX VPID bit.
pub const CPUID_480_ECX_VPID_BIT: u32 = 5;
/// CPUID leaf 0x480 EBX VMX preemption timer bit.
pub const CPUID_480_EBX_PREEMPTION_TIMER_BIT: u32 = 0;

/// Raw CPUID leaves collected by the loader before hypervisor entry.
#[derive(Debug, Clone, Copy, PartialEq, Eq, Structural)]
pub struct CpuidSnapshot {
    /// CPUID leaf 1 ECX register value.
    pub leaf1_ecx: u32,
    /// CPUID leaf 1 EDX register value.
    pub leaf1_edx: u32,
    /// CPUID leaf 1 EBX register value.
    pub leaf1_ebx: u32,
    /// CPUID leaf 0x8000_0007 EDX register value when available.
    pub leaf80000007_edx: Option<u32>,
    /// CPUID leaf 0x8000_0008 ECX register value when available.
    pub leaf80000008_ecx: Option<u32>,
    /// CPUID leaf 0x480 ECX register value when VMX is enabled.
    pub leaf480_ecx: Option<u32>,
    /// CPUID leaf 0x480 EBX register value when VMX is enabled.
    pub leaf480_ebx: Option<u32>,
}

/// Whether bit `bit` of `value` is set.
pub open spec fn bit_of(value: u32, bit: u32) -> bool {
    (value >> bit) & 1 == 1
}

/// Whether an optional register is present with bit `bit` set.
pub open spec fn optional_bit(value: Option<u32>, bit: u32) -> bool {
    match value {
        Some(v) => bit_of(v, bit),
        None => false,
    }
}

fn bit_set(value: u32, bit: u32) -> (r: bool)
    requires
        bit < 32,
    ensures
        r == bit_of(value, bit),
{
    assert(bit < 32 ==> ((value & (1u32 << bit)) != 0) == ((value >> bit) & 1u32 == 1u32)) by (bit_vector);
    (value & (1u32 << bit)) != 0
}

fn optional_bit_set(value: Option<u32>, bit: u32) -> (r: bool)
    requires
        bit < 32,
    ensures
        r == optional_bit(value, bit),
{
    match value {
        Some(v) => bit_set(v, bit),
        None => false,
    }
}

impl CpuidSnapshot {
    /// The logical processor count field of leaf 1 EBX (bits 23:16).
    pub open spec fn spec_logical_processors(self) -> u32 {
        (self.leaf1_ebx >> 16u32) & 0xFFu32
    }

    /// Physical cores per package from leaf 0x8000_0008 ECX (bits 7:0, plus one).
    pub open spec fn spec_cores_per_package(self) -> Option<u32> {
        match self.leaf80000008_ecx {
            Some(ecx) => Some(((ecx & 0xFFu32) + 1) as u32),
            None => None,
        }
    }

    /// Returns whether VMX is supported (leaf 1 ECX bit 5).
    pub fn vmx(&self) -> (r: bool)
        ensures
            r == bit_of(self.leaf1_ecx, CPUID_1_ECX_VMX_BIT),
            r == ((self.leaf1_ecx / 32) % 2 == 1),
    {
        proof {
            lemma_cpuid_fields(*self);
        }
        bit_set(self.leaf1_ecx, CPUID_1_ECX_VMX_BIT)
    }

    /// Returns whether NX is supported (leaf 1 EDX bit 20).
    pub fn nx(&self) -> (r: bool)
        ensures
            r == bit_of(self.leaf1_edx, CPUID_1_EDX_NX_BIT),
            r == ((self.leaf1_edx / 0x10_0000) % 2 == 1),
    {
        proof {
            lemma_cpuid_fields(*self);
        }
        bit_set(self.leaf1_edx, CPUID_1_EDX_NX_BIT)
    }

    /// Returns whether x2APIC is supported (leaf 1 ECX bit 21).
    pub fn x2apic(&self) -> (r: bool)
        ensures
            r == bit_of(self.leaf1_ecx, CPUID_1_ECX_X2APIC_BIT),
            r == ((self.leaf1_ecx / 0x20_0000) % 2 == 1),
    {
        proof {
            lemma_cpuid_fields(*self);
        }
        bit_set(self.leaf1_ecx, CPUID_1_ECX_X2APIC_BIT)
    }

    /// Returns whether invariant TSC is supported (leaf 0x8000_0007 EDX bit 8, when collected).
    pub fn invariant_tsc(&self) -> (r: bool)
        ensures
            r == optional_bit(self.leaf80000007_edx, CPUID_80000007_EDX_INVARIANT_TSC_BIT),
            r == (self.leaf80000007_edx matches Some(v) && (v / 0x100) % 2 == 1),
    {
        proof {
            lemma_cpuid_fields(*self);
        }
        optional_bit_set(self.leaf80000007_edx, CPUID_80000007_EDX_INVARIANT_TSC_BIT)
    }

    /// Returns whether EPT is supported (leaf 0x480 ECX bit 0, when collected).
    pub fn ept(&self) -> (r: bool)
        ensures
            r == optional_bit(self.leaf480_ecx, CPUID_480_ECX_EPT_BIT),
            r == (self.leaf480_ecx matches Some(v) && v % 2 == 1),
    {
        proof {
            lemma_cpuid_fields(*self);
        }
        optional_bit_set(self.leaf480_ecx, CPUID_480_ECX_EPT_BIT)
    }

    /// Returns whether VPID is supported (leaf 0x480 ECX bit 5, when collected).
    pub fn vpid(&self) -> (r: bool)
        ensures
            r == optional_bit(self.leaf480_ecx, CPUID_480_ECX_VPID_BIT),
            r == (self.leaf480_ecx matches Some(v) && (v / 32) % 2 == 1),
    {
        proof {
            lemma_cpuid_fields(*self);
        }
        optional_bit_set(self.leaf480_ecx, CPUID_480_ECX_VPID_BIT)
    }

    /// Returns whether the VMX preemption timer is supported (leaf 0x480 EBX bit 0, when collected).
    pub fn vmx_preemption_timer(&self) -> (r: bool)
        ensures
            r == optional_bit(self.leaf480_ebx, CPUID_480_EBX_PREEMPTION_TIMER_BIT),
            r == (self.leaf480_ebx matches Some(v) && v % 2 == 1),
    {
        proof {
            lemma_cpuid_fields(*self);
        }
        optional_bit_set(self.leaf480_ebx, CPUID_480_EBX_PREEMPTION_TIMER_BIT)
    }

    /// Returns the number of logical processors reported in leaf 1 EBX.
    pub fn logical_processors(&self) -> (r: u32)
        ensures
            r == self.spec_logical_processors(),
            r == (self.leaf1_ebx / 0x1_0000) % 0x100,
    {
        proof {
            lemma_cpuid_fields(*self);
        }
        (self.leaf1_ebx >> 16u32) & 0xFF
    }

    /// Returns the number of physical cores per package when leaf 0x8000_0008 is available.
    pub fn cores_per_package(&self) -> (r: Option<u32>)
        ensures
            r == self.spec_cores_per_package(),
            r == match self.leaf80000008_ecx {
                Some(ecx) => Some((ecx % 0x100 + 1) as u32),
                None => None,
            },
    {
        proof {
            lemma_cpuid_fields(*self);
        }
        match self.leaf80000008_ecx {
            Some(ecx) => {
                assert(ecx & 0xFFu32 <= 0xFFu32) by (bit_vector);
                Some((ecx & 0xFF) + 1)
            },
            None => None,
        }
    }

    /// Returns whether SMT appears enabled: more logical processors than
    /// physical cores per package, when the core count is known.
    pub fn smt_enabled(&self) -> (r: bool)
        ensures
            r == match self.spec_cores_per_package() {
                Some(cores) => self.spec_logical_processors() > cores,
                None => false,
            },
            r == match self.leaf80000008_ecx {
                Some(ecx) => (self.leaf1_ebx / 0x1_0000) % 0x100 > ecx % 0x100 + 1,
                None => false,
            },
    {
        proof {
            lemma_cpuid_fields(*self);
        }
        match self.cores_per_package() {
            Some(cores) => self.logical_processors() > cores,
            None => false,
        }
    }

    /// Returns the estimated physical core count: the per-package core
    /// count when known, else the logical processor count (at least one).
    pub fn physical_cores(&self) -> (r: u32)
        ensures
            r == match self.spec_cores_per_package() {
                Some(cores) => cores,
                None => if self.spec_logical_processors() > 1 { self.spec_logical_processors() } else { 1 },
            },
            r as int == match self.leaf80000008_ecx {
                Some(ecx) => ecx % 0x100 + 1,
                None => if (self.leaf1_ebx / 0x1_0000) % 0x100 > 1 { ((self.leaf1_ebx / 0x1_0000) % 0x100) as int } else { 1int },
            },
    {
        proof {
            lemma_cpuid_fields(*self);
        }
        match self.cores_per_package() {
            Some(cores) => cores,
            None => {
                let logical = self.logical_processors();
                if logical > 1 {
                    logical
                } else {
                    1
                }
            },
        }
    }
}

/// CPUID field law: every capability is the named bit of its register and
/// every count the named bit field, read as quotient and remainder: VMX is
/// leaf 1 ECX bit 5, x2APIC bit 21, NX leaf 1 EDX bit 20, invariant TSC leaf
/// 0x8000_0007 EDX bit 8, EPT leaf 0x480 ECX bit 0, VPID bit 5, the
/// preemption timer leaf 0x480 EBX bit 0; the logical processor count is
/// leaf 1 EBX bits 23:16 and the cores per package leaf 0x8000_0008 ECX
/// bits 7:0 plus one.
pub proof fn lemma_cpuid_fields(s: CpuidSnapshot)
    ensures
        bit_of(s.leaf1_ecx, CPUID_1_ECX_VMX_BIT) == ((s.leaf1_ecx / 32) % 2 == 1),
        bit_of(s.leaf1_ecx, CPUID_1_ECX_X2APIC_BIT) == ((s.leaf1_ecx / 0x20_0000) % 2 == 1),
        bit_of(s.leaf1_edx, CPUID_1_EDX_NX_BIT) == ((s.leaf1_edx / 0x10_0000) % 2 == 1),
        optional_bit(s.leaf80000007_edx, CPUID_80000007_EDX_INVARIANT_TSC_BIT)
            == (s.leaf80000007_edx matches Some(v) && (v / 0x100) % 2 == 1),
        optional_bit(s.leaf480_ecx, CPUID_480_ECX_EPT_BIT) == (s.leaf480_ecx matches Some(v) && v % 2 == 1),
        optional_bit(s.leaf480_ecx, CPUID_480_ECX_VPID_BIT) == (s.leaf480_ecx matches Some(v) && (v / 32) % 2 == 1),
        optional_bit(s.leaf480_ebx, CPUID_480_EBX_PREEMPTION_TIMER_BIT) == (s.leaf480_ebx matches Some(v) && v % 2 == 1),
        s.spec_logical_processors() == (s.leaf1_ebx / 0x1_0000) % 0x100,
        s.spec_cores_per_package() == match s.leaf80000008_ecx {
            Some(ecx) => Some((ecx % 0x100 + 1) as u32),
            None => None,
        },
{
    let (a, b, c) = (s.leaf1_ecx, s.leaf1_edx, s.leaf1_ebx);
    assert(((a >> 5u32) & 1u32 == 1u32) == ((a / 32u32) % 2u32 == 1u32)) by (bit_vector);
    assert(((a >> 21u32) & 1u32 == 1u32) == ((a / 0x20_0000u32) % 2u32 == 1u32)) by (bit_vector);
    assert(((b >> 20u32) & 1u32 == 1u32) == ((b / 0x10_0000u32) % 2u32 == 1u32)) by (bit_vector);
    assert((c >> 16u32) & 0xFFu32 == (c / 0x1_0000u32) % 0x100u32) by (bit_vector);
    if let Some(v) = s.leaf80000007_edx {
        assert(((v >> 8u32) & 1u32 == 1u32) == ((v / 0x100u32) % 2u32 == 1u32)) by (bit_vector);
    }
    if let Some(v) = s.leaf480_ecx {
        assert(((v >> 0u32) & 1u32 == 1u32) == (v % 2u32 == 1u32)) by (bit_vector);
        assert(((v >> 5u32) & 1u32 == 1u32) == ((v / 32u32) % 2u32 == 1u32)) by (bit_vector);
    }
    if let Some(v) = s.leaf480_ebx {
        assert(((v >> 0u32) & 1u32 == 1u32) == (v % 2u32 == 1u32)) by (bit_vector);
    }
    if let Some(e) = s.leaf80000008_ecx {
        assert(e & 0xFFu32 == e % 0x100u32) by (bit_vector);
    }
}

/// SMT law: SMT counts as enabled exactly when leaf 0x8000_0008 was
/// collected and the logical processor count of leaf 1 EBX bits 23:16
/// exceeds the cores per package (leaf 0x8000_0008 ECX bits 7:0 plus one).
pub proof fn lemma_smt_enabled_compares_counts(s: CpuidSnapshot)
    ensures
        (match s.spec_cores_per_package() {
            Some(cores) => s.spec_logical_processors() > cores,
            None => false,
        }) == (match s.leaf80000008_ecx {
            Some(ecx) => (s.leaf1_ebx / 0x1_0000) % 0x100 > ecx % 0x100 + 1,
            None => false,
        }),
{
    lemma_cpuid_fields(s);
}

/// Assembles a snapshot from raw CPUID register values: leaves 0x8000_0007
/// and 0x8000_0008 are kept when the maximum extended leaf reports them,
/// and leaf 0x480 when leaf 1 reports VMX.
pub fn cpuid_snapshot_from_leaves(
    leaf1_ebx: u32,
    leaf1_ecx: u32,
    leaf1_edx: u32,
    max_extended_leaf: u32,
    leaf80000007_edx: u32,
    leaf80000008_ecx: u32,
    leaf480_ebx: u32,
    leaf480_ecx: u32,
) -> (s: CpuidSnapshot)
    ensures
        s.leaf1_ebx == leaf1_ebx && s.leaf1_ecx == leaf1_ecx && s.leaf1_edx == leaf1_edx,
        s.leaf80000007_edx == if max_extended_leaf >= 0x8000_0007 { Some(leaf80000007_edx) } else { None },
        s.leaf80000008_ecx == if max_extended_leaf >= 0x8000_0008 { Some(leaf80000008_ecx) } else { None },
        s.leaf480_ecx == if bit_of(leaf1_ecx, CPUID_1_ECX_VMX_BIT) { Some(leaf480_ecx) } else { None },
        s.leaf480_ebx == if bit_of(leaf1_ecx, CPUID_1_ECX_VMX_BIT) { Some(leaf480_ebx) } else { None },
{
    let vmx = bit_set(leaf1_ecx, CPUID_1_ECX_VMX_BIT);
    CpuidSnapshot {
        leaf1_ecx,
        leaf1_edx,
        leaf1_ebx,
        leaf80000007_edx: if max_extended_leaf >= 0x8000_0007 { Some(leaf80000007_edx) } else { None },
        leaf80000008_ecx: if max_extended_leaf >= 0x8000_0008 { Some(leaf80000008_ecx) } else { None },
        leaf480_ecx: if vmx { Some(leaf480_ecx) } else { None },
        leaf480_ebx: if vmx { Some(leaf480_ebx) } else { None },
    }
}

} // verus!
