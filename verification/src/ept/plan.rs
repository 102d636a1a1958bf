//! EPT init plan derived from the static platform layout.

use vstd::prelude::*;
use crate::ept::constants::{EPT_PAGE_SIZE_BYTES, EPT_ROOT_TABLE_BYTES};
use crate::ept::error::{EptError, EptErrorKind};
use crate::ept::paging::{mapping_valid, mappings_valid};
use crate::ept::program::{
    identity_mapping_accepted, plan_accepted, programmed_identity, programmed_mappings, EptIdentityMapping,
    EptInitPlan,
};

verus! {

/// What EPT planning reads of the static platform layout.
#[derive(Debug, Clone, PartialEq, Eq)]
pub struct EptPlanningLayout {
    /// Host physical base and size of each guest private memory region, in layout order.
    pub guest_memory: Vec<(u64, u64)>,
    /// Host physical base and size of each IPC shared region, in layout order.
    pub ipc_memory: Vec<(u64, u64)>,
    /// For each e1000 NIC of the layout, in order, the guest physical base
    /// planned for its MMIO window, or `None` when that planning failed.
    pub e1000_mmio: Vec<Option<u64>>,
    /// Size in bytes of one e1000 MMIO window.
    pub e1000_mmio_size_bytes: u64,
}

/// Where the VMX init plan placed the VMXON region in the hypervisor reserve.
#[derive(Debug, Clone, Copy, PartialEq, Eq, Structural)]
pub struct VmxRegionPlan {
    /// Host physical base of the VMXON region.
    pub vmxon_region_phys: u64,
    /// Bytes reserved for the VMXON region and the tables that follow it.
    pub vmxon_region_bytes: u64,
    /// Minimum size of the VMXON region itself.
    pub vmxon_region_min_bytes: u64,
}

/// A region EPT can identity-map: a non-zero, page-aligned size at a
/// page-aligned base.
pub open spec fn region_accepted(r: (u64, u64)) -> bool {
    r.1 != 0 && r.0 % 4096 == 0 && r.1 % 4096 == 0
}

/// The identity mapping of a (base, size) region.
pub open spec fn identity_for(r: (u64, u64)) -> EptIdentityMapping {
    EptIdentityMapping { guest_phys: r.0, host_phys: r.0, size_bytes: r.1 }
}

/// Every e1000 MMIO window was planned.
pub open spec fn e1000_planned(layout: EptPlanningLayout) -> bool {
    forall|i: int| 0 <= i < layout.e1000_mmio@.len() ==> #[trigger] layout.e1000_mmio@[i] is Some
}

/// The e1000 MMIO windows as (base, size) regions.
pub open spec fn e1000_regions(layout: EptPlanningLayout) -> Seq<(u64, u64)> {
    layout.e1000_mmio@.map_values(|b: Option<u64>| (
        match b {
            Some(base) => base,
            None => 0u64,
        },
        layout.e1000_mmio_size_bytes,
    ))
}

/// The regions a plan maps: guest memory, then IPC memory, then e1000 MMIO.
pub open spec fn layout_regions(layout: EptPlanningLayout) -> Seq<(u64, u64)> {
    layout.guest_memory@ + layout.ipc_memory@ + e1000_regions(layout)
}

/// The VMXON region leaves room for the EPT root table right after it.
pub open spec fn reserve_fits_root_table(vmx: VmxRegionPlan) -> bool {
    &&& vmx.vmxon_region_min_bytes + EPT_ROOT_TABLE_BYTES <= vmx.vmxon_region_bytes
    &&& vmx.vmxon_region_phys + vmx.vmxon_region_min_bytes <= u64::MAX
}

/// The layout can be planned: every e1000 window was planned, every region
/// is accepted and the reserve holds the root table.
pub open spec fn layout_plannable(layout: EptPlanningLayout, vmx: VmxRegionPlan) -> bool {
    &&& e1000_planned(layout)
    &&& forall|i: int| 0 <= i < layout_regions(layout).len() ==> #[trigger] region_accepted(layout_regions(layout)[i])
    &&& reserve_fits_root_table(vmx)
}

/// The plan built from a layout: its identity mappings in region order,
/// the root table right after the VMXON region, one page long.
pub open spec fn plan_of(plan: EptInitPlan, layout: EptPlanningLayout, vmx: VmxRegionPlan) -> bool {
    &&& plan.identity_mappings@ == layout_regions(layout).map_values(|r: (u64, u64)| identity_for(r))
    &&& plan.root_table_phys == vmx.vmxon_region_phys + vmx.vmxon_region_min_bytes
    &&& plan.root_table_bytes == EPT_ROOT_TABLE_BYTES
}

/// Why EPT cannot identity-map a (base, size) region, checked in order:
/// a zero size, an unaligned base, an unaligned size.
pub open spec fn region_failure(r: (u64, u64)) -> Option<Seq<char>> {
    if r.1 == 0 {
        Some("EPT mapping size must not be zero"@)
    } else if r.0 % 4096 != 0 {
        Some("EPT guest mapping base is not page aligned"@)
    } else if r.1 % 4096 != 0 {
        Some("EPT mapping size is not page aligned"@)
    } else {
        None
    }
}

/// The regions in planning order, an e1000 window whose planning failed
/// standing as `None`.
pub open spec fn planned_entries(layout: EptPlanningLayout) -> Seq<Option<(u64, u64)>> {
    layout.guest_memory@.map_values(|r: (u64, u64)| Some(r)) + layout.ipc_memory@.map_values(|r: (u64, u64)| Some(r))
        + layout.e1000_mmio@.map_values(|b: Option<u64>| match b {
            Some(base) => Some((base, layout.e1000_mmio_size_bytes)),
            None => None,
        })
}

/// Why one planned entry cannot be mapped, if it cannot.
pub open spec fn entry_failure(e: Option<(u64, u64)>) -> Option<Seq<char>> {
    match e {
        Some(r) => region_failure(r),
        None => Some("failed to plan e1000 mmio guest mapping"@),
    }
}

/// Why the first entry of `es[from..]` that cannot be mapped fails.
pub open spec fn first_entry_failure(es: Seq<Option<(u64, u64)>>, from: int) -> Option<Seq<char>>
    decreases es.len() - from,
{
    if from < 0 || from >= es.len() {
        None
    } else {
        match entry_failure(es[from]) {
            Some(m) => Some(m),
            None => first_entry_failure(es, from + 1),
        }
    }
}

/// Why the reserve cannot hold the root table after the VMXON region.
pub open spec fn reserve_failure(vmx: VmxRegionPlan) -> Option<Seq<char>> {
    if vmx.vmxon_region_min_bytes + EPT_ROOT_TABLE_BYTES > u64::MAX {
        Some("EPT root table end offset overflow"@)
    } else if vmx.vmxon_region_min_bytes + EPT_ROOT_TABLE_BYTES > vmx.vmxon_region_bytes {
        Some("hypervisor reserve too small for VMXON and EPT root table"@)
    } else if vmx.vmxon_region_phys + vmx.vmxon_region_min_bytes > u64::MAX {
        Some("EPT root table address overflow"@)
    } else {
        None
    }
}

/// Why planning fails: the first entry that cannot be mapped, else the reserve.
pub open spec fn plan_failure(layout: EptPlanningLayout, vmx: VmxRegionPlan) -> Option<Seq<char>> {
    match first_entry_failure(planned_entries(layout), 0) {
        Some(m) => Some(m),
        None => reserve_failure(vmx),
    }
}

/// The first failure is that of entry `k` when every entry before it maps.
proof fn lemma_first_failure_at(es: Seq<Option<(u64, u64)>>, from: int, k: int)
    requires
        0 <= from <= k <= es.len(),
        forall|j: int| from <= j < k ==> #[trigger] entry_failure(es[j]) is None,
    ensures
        first_entry_failure(es, from) == first_entry_failure(es, k),
    decreases k - from,
{
    if from < k {
        lemma_first_failure_at(es, from + 1, k);
    }
}

/// Entry `j` of the planned entries: a guest region, an IPC region, or an
/// e1000 window.
proof fn lemma_planned_entry(layout: EptPlanningLayout, j: int)
    requires
        0 <= j < planned_entries(layout).len(),
    ensures
        planned_entries(layout).len() == layout.guest_memory@.len() + layout.ipc_memory@.len() + layout.e1000_mmio@.len(),
        j < layout.guest_memory@.len() ==> planned_entries(layout)[j] == Some(layout.guest_memory@[j]),
        layout.guest_memory@.len() <= j < layout.guest_memory@.len() + layout.ipc_memory@.len()
            ==> planned_entries(layout)[j] == Some(layout.ipc_memory@[j - layout.guest_memory@.len()]),
        layout.guest_memory@.len() + layout.ipc_memory@.len() <= j ==> {
            let n = j - layout.guest_memory@.len() - layout.ipc_memory@.len();
            planned_entries(layout)[j] == match layout.e1000_mmio@[n] {
                Some(base) => Some((base, layout.e1000_mmio_size_bytes)),
                None => None,
            }
        },
{
}

/// When every entry before `idx` maps, the first failure is at `idx` or later.
proof fn lemma_entries_prefix_map(layout: EptPlanningLayout, idx: int)
    requires
        0 <= idx <= planned_entries(layout).len(),
        forall|j: int| 0 <= j < layout.guest_memory@.len() && j < idx ==> #[trigger] region_accepted(layout.guest_memory@[j]),
        forall|j: int| 0 <= j < layout.ipc_memory@.len() && layout.guest_memory@.len() + j < idx
            ==> #[trigger] region_accepted(layout.ipc_memory@[j]),
        forall|j: int| 0 <= j < layout.e1000_mmio@.len() && layout.guest_memory@.len() + layout.ipc_memory@.len() + j < idx
            ==> #[trigger] layout.e1000_mmio@[j] is Some && region_accepted(e1000_regions(layout)[j]),
    ensures
        first_entry_failure(planned_entries(layout), 0) == first_entry_failure(planned_entries(layout), idx),
{
    let es = planned_entries(layout);
    assert forall|j: int| 0 <= j < idx implies #[trigger] entry_failure(es[j]) is None by {
        lemma_planned_entry(layout, j);
        let g = layout.guest_memory@.len();
        let i = layout.ipc_memory@.len();
        if j < g {
            assert(region_accepted(layout.guest_memory@[j]));
        } else if j < g + i {
            assert(region_accepted(layout.ipc_memory@[j - g]));
        } else {
            assert(layout.e1000_mmio@[j - g - i] is Some && region_accepted(e1000_regions(layout)[j - g - i]));
        }
    }
    lemma_first_failure_at(es, 0, idx);
}

fn planning_error(message: &str) -> (e: EptError)
    ensures
        e.kind == EptErrorKind::Planning,
        e.message@ == message@,
{
    EptError::new(EptErrorKind::Planning, message)
}

fn push_identity_mapping(mappings: &mut Vec<EptIdentityMapping>, guest_phys: u64, host_phys: u64, size: u64) -> (r: Result<(), EptError>)
    ensures
        r is Ok <==> size != 0 && guest_phys % 4096 == 0 && host_phys % 4096 == 0 && size % 4096 == 0,
        r is Ok ==> final(mappings)@ == old(mappings)@.push(
            EptIdentityMapping { guest_phys, host_phys, size_bytes: size },
        ),
        r matches Err(e) ==> e.kind == EptErrorKind::Planning && e.message@ == if size == 0 {
            "EPT mapping size must not be zero"@
        } else if guest_phys % 4096 != 0 {
            "EPT guest mapping base is not page aligned"@
        } else if host_phys % 4096 != 0 {
            "EPT host mapping base is not page aligned"@
        } else {
            "EPT mapping size is not page aligned"@
        },
{
    if size == 0 {
        return Err(planning_error("EPT mapping size must not be zero"));
    }
    if guest_phys % EPT_PAGE_SIZE_BYTES != 0 {
        return Err(planning_error("EPT guest mapping base is not page aligned"));
    }
    if host_phys % EPT_PAGE_SIZE_BYTES != 0 {
        return Err(planning_error("EPT host mapping base is not page aligned"));
    }
    if size % EPT_PAGE_SIZE_BYTES != 0 {
        return Err(planning_error("EPT mapping size is not page aligned"));
    }
    mappings.push(EptIdentityMapping { guest_phys, host_phys, size_bytes: size });
    Ok(())
}

/// Appends the identity mappings of `regions` in order, stopping at the
/// first region that is not accepted.
fn push_identity_regions(mappings: &mut Vec<EptIdentityMapping>, regions: &Vec<(u64, u64)>) -> (r: Result<(), EptError>)
    ensures
        r is Ok <==> forall|i: int| 0 <= i < regions@.len() ==> #[trigger] region_accepted(regions@[i]),
        r is Ok ==> final(mappings)@ == old(mappings)@ + regions@.map_values(|r: (u64, u64)| identity_for(r)),
        r matches Err(e) ==> e.kind == EptErrorKind::Planning && exists|k: int| #![trigger regions@[k]]
            0 <= k < regions@.len() && region_failure(regions@[k]) == Some(e.message@)
            && forall|j: int| 0 <= j < k ==> #[trigger] region_accepted(regions@[j]),
{
    let ghost start = mappings@;
    let mut i: usize = 0;
    while i < regions.len()
        invariant
            i <= regions@.len(),
            forall|j: int| 0 <= j < i ==> #[trigger] region_accepted(regions@[j]),
            mappings@ == start + regions@.subrange(0, i as int).map_values(|r: (u64, u64)| identity_for(r)),
        decreases regions@.len() - i,
    {
        let (base, size) = regions[i];
        match push_identity_mapping(mappings, base, base, size) {
            Ok(()) => {},
            Err(e) => {
                assert(!region_accepted(regions@[i as int]));
                assert(region_failure(regions@[i as int]) == Some(e.message@));
                return Err(e);
            },
        }
        proof {
            assert(regions@.subrange(0, i as int + 1).map_values(|r: (u64, u64)| identity_for(r))
                =~= regions@.subrange(0, i as int).map_values(|r: (u64, u64)| identity_for(r)).push(identity_for(regions@[i as int])));
        }
        i = i + 1;
    }
    proof {
        assert(regions@.subrange(0, i as int) =~= regions@);
    }
    Ok(())
}

/// Builds an EPT init plan from the static platform layout and the VMX
/// init plan: one identity mapping per guest memory region, IPC region and
/// e1000 MMIO window, and the root table placed right after the VMXON
/// region.
pub fn plan_ept_init(layout: &EptPlanningLayout, vmx_plan: &VmxRegionPlan) -> (r: Result<EptInitPlan, EptError>)
    ensures
        r is Ok <==> layout_plannable(*layout, *vmx_plan),
        r matches Ok(plan) ==> plan_of(plan, *layout, *vmx_plan),
        r matches Err(e) ==> e.kind == EptErrorKind::Planning && plan_failure(*layout, *vmx_plan) == Some(e.message@),
{
    let mut identity_mappings: Vec<EptIdentityMapping> = Vec::new();
    let guest = push_identity_regions(&mut identity_mappings, &layout.guest_memory);
    if let Err(e) = guest {
        proof {
            let regions = layout_regions(*layout);
            let k = choose|k: int| #![trigger layout.guest_memory@[k]] 0 <= k < layout.guest_memory@.len()
                && region_failure(layout.guest_memory@[k]) == Some(e.message@)
                && forall|j: int| 0 <= j < k ==> #[trigger] region_accepted(layout.guest_memory@[j]);
            assert(!region_accepted(layout.guest_memory@[k]));
            assert(regions[k] == layout.guest_memory@[k]);
            lemma_planned_entry(*layout, k);
            lemma_entries_prefix_map(*layout, k);
        }
        return Err(e);
    }
    let ipc = push_identity_regions(&mut identity_mappings, &layout.ipc_memory);
    if let Err(e) = ipc {
        proof {
            let regions = layout_regions(*layout);
            let k = choose|k: int| #![trigger layout.ipc_memory@[k]] 0 <= k < layout.ipc_memory@.len()
                && region_failure(layout.ipc_memory@[k]) == Some(e.message@)
                && forall|j: int| 0 <= j < k ==> #[trigger] region_accepted(layout.ipc_memory@[j]);
            let at = layout.guest_memory@.len() + k;
            assert(!region_accepted(layout.ipc_memory@[k]));
            assert(regions[at] == layout.ipc_memory@[k]);
            lemma_planned_entry(*layout, at);
            lemma_entries_prefix_map(*layout, at);
        }
        return Err(e);
    }
    let mut n: usize = 0;
    while n < layout.e1000_mmio.len()
        invariant
            n <= layout.e1000_mmio@.len(),
            forall|j: int| 0 <= j < layout.guest_memory@.len() ==> #[trigger] region_accepted(layout.guest_memory@[j]),
            forall|j: int| 0 <= j < layout.ipc_memory@.len() ==> #[trigger] region_accepted(layout.ipc_memory@[j]),
            forall|j: int| 0 <= j < n ==> #[trigger] layout.e1000_mmio@[j] is Some,
            forall|j: int| 0 <= j < n ==> #[trigger] region_accepted(e1000_regions(*layout)[j]),
            identity_mappings@ == (layout.guest_memory@ + layout.ipc_memory@ + e1000_regions(*layout).subrange(0, n as int))
                .map_values(|r: (u64, u64)| identity_for(r)),
        decreases layout.e1000_mmio@.len() - n,
    {
        let base = match layout.e1000_mmio[n] {
            Some(base) => base,
            None => {
                proof {
                    assert(!e1000_planned(*layout));
                    let at = layout.guest_memory@.len() + layout.ipc_memory@.len() + n;
                    lemma_planned_entry(*layout, at);
                    lemma_entries_prefix_map(*layout, at);
                }
                return Err(planning_error("failed to plan e1000 mmio guest mapping"));
            },
        };
        let pushed = push_identity_mapping(&mut identity_mappings, base, base, layout.e1000_mmio_size_bytes);
        if let Err(e) = pushed {
            proof {
                let regions = layout_regions(*layout);
                let at = layout.guest_memory@.len() + layout.ipc_memory@.len() + n;
                assert(e1000_regions(*layout)[n as int] == (base, layout.e1000_mmio_size_bytes));
                assert(!region_accepted(e1000_regions(*layout)[n as int]));
                assert(regions[at] == e1000_regions(*layout)[n as int]);
                lemma_planned_entry(*layout, at);
                lemma_entries_prefix_map(*layout, at);
            }
            return Err(e);
        }
        proof {
            let before = layout.guest_memory@ + layout.ipc_memory@ + e1000_regions(*layout).subrange(0, n as int);
            let after = layout.guest_memory@ + layout.ipc_memory@ + e1000_regions(*layout).subrange(0, n as int + 1);
            assert(after =~= before.push(e1000_regions(*layout)[n as int]));
            assert(after.map_values(|r: (u64, u64)| identity_for(r))
                =~= before.map_values(|r: (u64, u64)| identity_for(r)).push(identity_for(e1000_regions(*layout)[n as int])));
        }
        n = n + 1;
    }
    proof {
        assert(e1000_regions(*layout).subrange(0, n as int) =~= e1000_regions(*layout));
        assert(identity_mappings@ =~= layout_regions(*layout).map_values(|r: (u64, u64)| identity_for(r)));
        let regions = layout_regions(*layout);
        assert forall|i: int| 0 <= i < regions.len() implies #[trigger] region_accepted(regions[i]) by {
            if i < layout.guest_memory@.len() {
                assert(regions[i] == layout.guest_memory@[i]);
            } else if i < layout.guest_memory@.len() + layout.ipc_memory@.len() {
                assert(regions[i] == layout.ipc_memory@[i - layout.guest_memory@.len()]);
            } else {
                assert(regions[i] == e1000_regions(*layout)[i - layout.guest_memory@.len() - layout.ipc_memory@.len()]);
            }
        }
        lemma_entries_prefix_map(*layout, planned_entries(*layout).len() as int);
    }
    let table_end = match vmx_plan.vmxon_region_min_bytes.checked_add(EPT_ROOT_TABLE_BYTES) {
        Some(end) => end,
        None => return Err(planning_error("EPT root table end offset overflow")),
    };
    if table_end > vmx_plan.vmxon_region_bytes {
        return Err(planning_error("hypervisor reserve too small for VMXON and EPT root table"));
    }
    let root_table_phys = match vmx_plan.vmxon_region_phys.checked_add(vmx_plan.vmxon_region_min_bytes) {
        Some(phys) => phys,
        None => return Err(planning_error("EPT root table address overflow")),
    };
    Ok(EptInitPlan { identity_mappings, root_table_phys, root_table_bytes: EPT_ROOT_TABLE_BYTES })
}

/// Planning law: a plan maps, in order, every guest memory region, every
/// IPC region and every e1000 MMIO window of the layout, each identically
/// (guest address equal to host address) with the region's base and size;
/// its root table is one 4096-byte page right after the VMXON region's
/// minimum size.
pub proof fn lemma_plan_maps_regions_identically(plan: EptInitPlan, layout: EptPlanningLayout, vmx: VmxRegionPlan)
    requires
        plan_of(plan, layout, vmx),
    ensures
        plan.identity_mappings@.len() == layout.guest_memory@.len() + layout.ipc_memory@.len() + layout.e1000_mmio@.len(),
        forall|i: int| 0 <= i < plan.identity_mappings@.len()
            ==> (#[trigger] plan.identity_mappings@[i]).guest_phys == plan.identity_mappings@[i].host_phys,
        forall|i: int| 0 <= i < layout.guest_memory@.len() ==> (#[trigger] layout.guest_memory@[i]).0
            == plan.identity_mappings@[i].guest_phys && layout.guest_memory@[i].1 == plan.identity_mappings@[i].size_bytes,
        forall|i: int| 0 <= i < layout.ipc_memory@.len() ==> {
            let m = plan.identity_mappings@[layout.guest_memory@.len() + i];
            (#[trigger] layout.ipc_memory@[i]).0 == m.guest_phys && layout.ipc_memory@[i].1 == m.size_bytes
        },
        forall|i: int| 0 <= i < layout.e1000_mmio@.len() ==> {
            let m = plan.identity_mappings@[layout.guest_memory@.len() + layout.ipc_memory@.len() + i];
            &&& m.size_bytes == layout.e1000_mmio_size_bytes
            &&& (#[trigger] layout.e1000_mmio@[i]) matches Some(base) ==> m.guest_phys == base
        },
        plan.root_table_phys == vmx.vmxon_region_phys + vmx.vmxon_region_min_bytes,
        plan.root_table_bytes == 4096,
{
    let regions = layout_regions(layout);
    let g = layout.guest_memory@.len() as int;
    let c = layout.ipc_memory@.len() as int;
    assert forall|i: int| 0 <= i < layout.guest_memory@.len() implies (#[trigger] layout.guest_memory@[i]).0
        == plan.identity_mappings@[i].guest_phys && layout.guest_memory@[i].1 == plan.identity_mappings@[i].size_bytes by {
        assert(regions[i] == layout.guest_memory@[i]);
    }
    assert forall|i: int| 0 <= i < layout.ipc_memory@.len() implies {
        let m = plan.identity_mappings@[layout.guest_memory@.len() + i];
        (#[trigger] layout.ipc_memory@[i]).0 == m.guest_phys && layout.ipc_memory@[i].1 == m.size_bytes
    } by {
        assert(regions[g + i] == layout.ipc_memory@[i]);
    }
    assert forall|i: int| 0 <= i < layout.e1000_mmio@.len() implies {
        let m = plan.identity_mappings@[layout.guest_memory@.len() + layout.ipc_memory@.len() + i];
        &&& m.size_bytes == layout.e1000_mmio_size_bytes
        &&& (#[trigger] layout.e1000_mmio@[i]) matches Some(base) ==> m.guest_phys == base
    } by {
        assert(regions[g + c + i] == e1000_regions(layout)[i]);
    }
}

/// A plan built from a layout is accepted by table programming, and each
/// of its mappings can be materialized when no region runs past the top of
/// the 64-bit address space.
pub proof fn lemma_planned_layout_programs(layout: EptPlanningLayout, vmx: VmxRegionPlan, plan: EptInitPlan)
    requires
        layout_plannable(layout, vmx),
        plan_of(plan, layout, vmx),
    ensures
        plan_accepted(plan),
        (forall|i: int| 0 <= i < layout_regions(layout).len()
            ==> #[trigger] layout_regions(layout)[i].0 + layout_regions(layout)[i].1 <= u64::MAX + 1)
            ==> mappings_valid(programmed_mappings(plan)),
{
    let regions = layout_regions(layout);
    assert forall|i: int| 0 <= i < plan.identity_mappings@.len() implies #[trigger] identity_mapping_accepted(plan.identity_mappings@[i]) by {
        assert(region_accepted(regions[i]));
    }
    if forall|i: int| 0 <= i < regions.len() ==> #[trigger] regions[i].0 + regions[i].1 <= u64::MAX + 1 {
        assert forall|i: int| 0 <= i < programmed_mappings(plan).len() implies #[trigger] mapping_valid(programmed_mappings(plan)[i]) by {
            assert(region_accepted(regions[i]));
            assert(regions[i].0 + regions[i].1 <= u64::MAX + 1);
            assert(programmed_mappings(plan)[i] == programmed_identity(identity_for(regions[i])));
        }
    }
}

} // verus!
