//! EPT table programming: mapping records and leaf entry encoding.

use vstd::prelude::*;
use crate::ept::constants::{EPT_PAGE_SIZE_BYTES, EPT_ROOT_TABLE_BYTES};
use crate::ept::error::{EptError, EptErrorKind};
use crate::ept::paging::{built_from, materialize_ept_paging, mappings_valid};

verus! {

/// EPT entry read permission bit.
pub const EPT_ENTRY_READ: u64 = 1;
/// EPT entry write permission bit.
pub const EPT_ENTRY_WRITE: u64 = 2;
/// EPT entry execute permission bit.
pub const EPT_ENTRY_EXECUTE: u64 = 4;
/// EPT entry write-back memory type field (memory type 6 in bits 5:3).
pub const EPT_ENTRY_MEMORY_TYPE_WB: u64 = 0x30;

/// One encoded EPT leaf mapping record.
#[derive(Debug, Clone, PartialEq, Eq)]
pub struct EptProgrammedMapping {
    /// Guest physical base.
    pub guest_phys: u64,
    /// Host physical base.
    pub host_phys: u64,
    /// Mapping size in bytes.
    pub size_bytes: u64,
    /// Whether the guest may write through this mapping.
    pub guest_writable: bool,
    /// Encoded 64-bit EPT entry value.
    pub encoded_entry: u64,
}

/// Encoded EPT hierarchy bytes ready for host physical installation.
#[derive(Debug, Clone, PartialEq, Eq)]
pub struct EptProgrammedTables {
    /// Host physical base of the EPT root table.
    pub root_table_phys: u64,
    /// Root table bytes (one page).
    pub root_table: Vec<u8>,
    /// Encoded mappings backing the hierarchy.
    pub mappings: Vec<EptProgrammedMapping>,
    /// Additional paging levels materialized for the guest mappings.
    pub paging_tables: Vec<Vec<u8>>,
}

/// The leaf entry for a page at `host_phys`: read, execute and write-back
/// memory type always, write when `guest_writable`, and the page frame
/// bits of `host_phys` (bits 12 and up).
pub open spec fn leaf_entry(host_phys: u64, guest_writable: bool) -> u64 {
    let base = EPT_ENTRY_READ | EPT_ENTRY_EXECUTE | EPT_ENTRY_MEMORY_TYPE_WB | ((host_phys >> 12u64) << 12u64);
    if guest_writable { base | EPT_ENTRY_WRITE } else { base }
}

/// Leaf entry law: the leaf entry for a page is its 4 KiB frame address
/// (the host address rounded down to a multiple of 4096) plus 0x35 (read,
/// execute, write-back memory type) plus 2 (write) when the guest may write.
pub proof fn lemma_leaf_entry_value(host_phys: u64, guest_writable: bool)
    ensures
        leaf_entry(host_phys, guest_writable) as int == (host_phys / 4096) * 4096 + 0x35 + if guest_writable { 2int } else { 0int },
{
    let h = host_phys;
    assert((1u64 | 4u64 | 0x30u64 | ((h >> 12u64) << 12u64)) == (h / 4096u64) * 4096u64 + 0x35u64) by (bit_vector);
    assert(((1u64 | 4u64 | 0x30u64 | ((h >> 12u64) << 12u64)) | 2u64) == (h / 4096u64) * 4096u64 + 0x37u64) by (bit_vector);
}

/// Encodes a leaf EPT entry with optional guest write permission.
pub fn encode_ept_leaf_entry(host_phys: u64, guest_writable: bool) -> (entry: u64)
    ensures
        entry == leaf_entry(host_phys, guest_writable),
{
    let page_frame = host_phys >> 12u64;
    let mut entry = EPT_ENTRY_READ | EPT_ENTRY_EXECUTE | EPT_ENTRY_MEMORY_TYPE_WB | (page_frame << 12u64);
    if guest_writable {
        entry = entry | EPT_ENTRY_WRITE;
    }
    entry
}

/// Encodes a leaf EPT entry for an identity mapping (guest writable).
pub fn encode_identity_ept_entry(host_phys: u64) -> (entry: u64)
    ensures
        entry == leaf_entry(host_phys, true),
{
    encode_ept_leaf_entry(host_phys, true)
}

/// Returns whether an encoded leaf entry grants guest write permission.
pub fn ept_leaf_entry_guest_writable(entry: u64) -> (writable: bool)
    ensures
        writable == (entry & EPT_ENTRY_WRITE != 0),
{
    entry & EPT_ENTRY_WRITE != 0
}

/// A leaf entry grants write exactly when it was encoded writable, always
/// grants read, and is never zero.
pub proof fn lemma_leaf_entry_bits(host_phys: u64, guest_writable: bool)
    ensures
        (leaf_entry(host_phys, guest_writable) & EPT_ENTRY_WRITE != 0) == guest_writable,
        leaf_entry(host_phys, guest_writable) & EPT_ENTRY_READ != 0,
        leaf_entry(host_phys, guest_writable) != 0,
        leaf_entry(host_phys, guest_writable) & 0x000F_FFFF_FFFF_F000 == host_phys & 0x000F_FFFF_FFFF_F000,
        (leaf_entry(host_phys, guest_writable) & 0x8000_0000_0000_0000 == 0) == (host_phys & 0x8000_0000_0000_0000 == 0),
{
    assert((1u64 | 4u64 | 0x30u64 | ((host_phys >> 12u64) << 12u64)) != 0) by (bit_vector);
    assert(((1u64 | 4u64 | 0x30u64 | ((host_phys >> 12u64) << 12u64)) | 2u64) != 0) by (bit_vector);
    if guest_writable {
        assert(((1u64 | 4u64 | 0x30u64 | ((host_phys >> 12u64) << 12u64)) | 2u64) & 2u64 != 0) by (bit_vector);
        assert(((1u64 | 4u64 | 0x30u64 | ((host_phys >> 12u64) << 12u64)) | 2u64) & 1u64 != 0) by (bit_vector);
        assert(((1u64 | 4u64 | 0x30u64 | ((host_phys >> 12u64) << 12u64)) | 2u64) & 0x000F_FFFF_FFFF_F000u64
            == host_phys & 0x000F_FFFF_FFFF_F000u64) by (bit_vector);
        assert((((1u64 | 4u64 | 0x30u64 | ((host_phys >> 12u64) << 12u64)) | 2u64) & 0x8000_0000_0000_0000u64 == 0)
            == (host_phys & 0x8000_0000_0000_0000u64 == 0)) by (bit_vector);
    } else {
        assert(((1u64 | 4u64 | 0x30u64 | ((host_phys >> 12u64) << 12u64))) & 2u64 == 0) by (bit_vector);
        assert(((1u64 | 4u64 | 0x30u64 | ((host_phys >> 12u64) << 12u64))) & 1u64 != 0) by (bit_vector);
        assert(((1u64 | 4u64 | 0x30u64 | ((host_phys >> 12u64) << 12u64))) & 0x000F_FFFF_FFFF_F000u64
            == host_phys & 0x000F_FFFF_FFFF_F000u64) by (bit_vector);
        assert((((1u64 | 4u64 | 0x30u64 | ((host_phys >> 12u64) << 12u64))) & 0x8000_0000_0000_0000u64 == 0)
            == (host_phys & 0x8000_0000_0000_0000u64 == 0)) by (bit_vector);
    }
}


/// One identity-mapped guest/host region of an EPT init plan.
#[derive(Debug, Clone, Copy, PartialEq, Eq)]
pub struct EptIdentityMapping {
    /// Guest physical base address.
    pub guest_phys: u64,
    /// Host physical base address.
    pub host_phys: u64,
    /// Mapping size in bytes.
    pub size_bytes: u64,
}

/// Planned EPT hierarchy metadata for backend initialization.
#[derive(Debug, Clone, PartialEq, Eq)]
pub struct EptInitPlan {
    /// Identity mappings covering guest private and IPC shared regions.
    pub identity_mappings: Vec<EptIdentityMapping>,
    /// Host physical base of the EPT root table inside the hypervisor reserve.
    pub root_table_phys: u64,
    /// EPT root table size in bytes.
    pub root_table_bytes: u64,
}

/// The mapping record appended for a guest/host range.
pub open spec fn new_mapping(guest_phys: u64, host_phys: u64, size_bytes: u64, guest_writable: bool) -> EptProgrammedMapping {
    EptProgrammedMapping {
        guest_phys,
        host_phys,
        size_bytes,
        guest_writable,
        encoded_entry: leaf_entry(host_phys, guest_writable),
    }
}

/// Existing mapping `m` rules out a new guest range `[guest_phys, guest_end)`:
/// its own end does not fit in 64 bits, or the two ranges overlap.
pub open spec fn conflicts(m: EptProgrammedMapping, guest_phys: u64, guest_end: int) -> bool {
    m.guest_phys + m.size_bytes > u64::MAX || (guest_phys < m.guest_phys + m.size_bytes && m.guest_phys < guest_end)
}

/// A new guest mapping is accepted: a non-zero whole number of pages,
/// page-aligned bases, a guest end that fits in 64 bits, and no conflict
/// with any existing mapping.
pub open spec fn append_accepted(ms: Seq<EptProgrammedMapping>, guest_phys: u64, host_phys: u64, size_bytes: u64) -> bool {
    &&& size_bytes > 0
    &&& size_bytes % 4096 == 0
    &&& guest_phys % 4096 == 0
    &&& host_phys % 4096 == 0
    &&& guest_phys + size_bytes <= u64::MAX
    &&& forall|j: int| 0 <= j < ms.len() ==> !#[trigger] conflicts(ms[j], guest_phys, guest_phys + size_bytes)
}

/// Why the first existing mapping of `ms[from..]` that rules out the new
/// guest range does so: its own end does not fit, or the ranges overlap.
pub open spec fn first_conflict(ms: Seq<EptProgrammedMapping>, guest_phys: u64, guest_end: int, from: int) -> Option<Seq<char>>
    decreases ms.len() - from,
{
    if from < 0 || from >= ms.len() {
        None
    } else if ms[from].guest_phys + ms[from].size_bytes > u64::MAX {
        Some("EPT mapping guest end overflow"@)
    } else if conflicts(ms[from], guest_phys, guest_end) {
        Some("EPT guest mapping overlaps an existing mapping"@)
    } else {
        first_conflict(ms, guest_phys, guest_end, from + 1)
    }
}

/// Why an append is refused, checked in order: the size, the bases, the
/// guest end, then the first existing mapping in the way.
pub open spec fn append_failure(ms: Seq<EptProgrammedMapping>, guest_phys: u64, host_phys: u64, size_bytes: u64) -> Option<Seq<char>> {
    if size_bytes == 0 || size_bytes % 4096 != 0 {
        Some("EPT mapping size must be a non-zero page multiple"@)
    } else if guest_phys % 4096 != 0 || host_phys % 4096 != 0 {
        Some("EPT mapping bases must be page aligned"@)
    } else if guest_phys + size_bytes > u64::MAX {
        Some("EPT mapping guest end overflow"@)
    } else {
        first_conflict(ms, guest_phys, guest_phys + size_bytes, 0)
    }
}

proof fn lemma_first_conflict_at(ms: Seq<EptProgrammedMapping>, guest_phys: u64, guest_end: int, from: int, k: int)
    requires
        0 <= from <= k <= ms.len(),
        forall|j: int| from <= j < k ==> !#[trigger] conflicts(ms[j], guest_phys, guest_end),
    ensures
        first_conflict(ms, guest_phys, guest_end, from) == first_conflict(ms, guest_phys, guest_end, k),
    decreases k - from,
{
    if from < k {
        assert(!conflicts(ms[from], guest_phys, guest_end));
        lemma_first_conflict_at(ms, guest_phys, guest_end, from + 1, k);
    }
}

fn append_ept_guest_mapping_with_permissions(
    tables: &mut EptProgrammedTables,
    guest_phys: u64,
    host_phys: u64,
    size_bytes: u64,
    guest_writable: bool,
) -> (r: Result<(), EptError>)
    ensures
        r matches Err(e) ==> e.kind == EptErrorKind::Planning,
        !append_accepted(old(tables).mappings@, guest_phys, host_phys, size_bytes) ==> (r matches Err(e)
            && append_failure(old(tables).mappings@, guest_phys, host_phys, size_bytes) == Some(e.message@))
            && *final(tables) == *old(tables),
        append_accepted(old(tables).mappings@, guest_phys, host_phys, size_bytes) ==> {
            let ms = old(tables).mappings@.push(new_mapping(guest_phys, host_phys, size_bytes, guest_writable));
            &&& final(tables).mappings@ == ms
            &&& final(tables).root_table_phys == old(tables).root_table_phys
            &&& (r is Ok ==> mappings_valid(ms) && built_from(*final(tables), ms))
            &&& (r is Ok <==> mappings_valid(ms))
        },
{
    if size_bytes == 0 || size_bytes % EPT_PAGE_SIZE_BYTES != 0 {
        return Err(EptError::new(EptErrorKind::Planning, "EPT mapping size must be a non-zero page multiple"));
    }
    if guest_phys % EPT_PAGE_SIZE_BYTES != 0 || host_phys % EPT_PAGE_SIZE_BYTES != 0 {
        return Err(EptError::new(EptErrorKind::Planning, "EPT mapping bases must be page aligned"));
    }
    let guest_end = match guest_phys.checked_add(size_bytes) {
        Some(end) => end,
        None => return Err(EptError::new(EptErrorKind::Planning, "EPT mapping guest end overflow")),
    };
    let count = tables.mappings.len();
    let mut i: usize = 0;
    while i < count
        invariant
            count == tables.mappings@.len(),
            i <= count,
            *tables == *old(tables),
            guest_end == guest_phys + size_bytes,
            size_bytes > 0 && size_bytes % 4096 == 0,
            guest_phys % 4096 == 0 && host_phys % 4096 == 0,
            forall|j: int| 0 <= j < i ==> !#[trigger] conflicts(tables.mappings@[j], guest_phys, guest_end as int),
        decreases count - i,
    {
        let existing_guest = tables.mappings[i].guest_phys;
        let existing_size = tables.mappings[i].size_bytes;
        let existing_end = match existing_guest.checked_add(existing_size) {
            Some(end) => end,
            None => {
                proof {
                    assert(conflicts(tables.mappings@[i as int], guest_phys, guest_end as int));
                    lemma_first_conflict_at(tables.mappings@, guest_phys, guest_end as int, 0, i as int);
                }
                return Err(EptError::new(EptErrorKind::Planning, "EPT mapping guest end overflow"));
            },
        };
        if guest_phys < existing_end && existing_guest < guest_end {
            proof {
                assert(conflicts(tables.mappings@[i as int], guest_phys, guest_end as int));
                lemma_first_conflict_at(tables.mappings@, guest_phys, guest_end as int, 0, i as int);
            }
            return Err(EptError::new(EptErrorKind::Planning, "EPT guest mapping overlaps an existing mapping"));
        }
        i = i + 1;
    }
    let encoded_entry = encode_ept_leaf_entry(host_phys, guest_writable);
    tables.mappings.push(
        EptProgrammedMapping { guest_phys, host_phys, size_bytes, guest_writable, encoded_entry },
    );
    materialize_ept_paging(tables)
}

/// Appends one guest/host EPT mapping record for runtime-installed pages
/// (guest writable) and rebuilds the hierarchy.
pub fn append_ept_guest_mapping(
    tables: &mut EptProgrammedTables,
    guest_phys: u64,
    host_phys: u64,
    size_bytes: u64,
) -> (r: Result<(), EptError>)
    ensures
        r matches Err(e) ==> e.kind == EptErrorKind::Planning,
        !append_accepted(old(tables).mappings@, guest_phys, host_phys, size_bytes) ==> (r matches Err(e)
            && append_failure(old(tables).mappings@, guest_phys, host_phys, size_bytes) == Some(e.message@))
            && *final(tables) == *old(tables),
        append_accepted(old(tables).mappings@, guest_phys, host_phys, size_bytes) ==> {
            let ms = old(tables).mappings@.push(new_mapping(guest_phys, host_phys, size_bytes, true));
            &&& final(tables).mappings@ == ms
            &&& final(tables).root_table_phys == old(tables).root_table_phys
            &&& (r is Ok ==> mappings_valid(ms) && built_from(*final(tables), ms))
            &&& (r is Ok <==> mappings_valid(ms))
        },
{
    append_ept_guest_mapping_with_permissions(tables, guest_phys, host_phys, size_bytes, true)
}

/// Appends a guest read-only EPT mapping record (the hypervisor writes the
/// pages through their host physical address) and rebuilds the hierarchy.
pub fn append_ept_guest_read_only_mapping(
    tables: &mut EptProgrammedTables,
    guest_phys: u64,
    host_phys: u64,
    size_bytes: u64,
) -> (r: Result<(), EptError>)
    ensures
        r matches Err(e) ==> e.kind == EptErrorKind::Planning,
        !append_accepted(old(tables).mappings@, guest_phys, host_phys, size_bytes) ==> (r matches Err(e)
            && append_failure(old(tables).mappings@, guest_phys, host_phys, size_bytes) == Some(e.message@))
            && *final(tables) == *old(tables),
        append_accepted(old(tables).mappings@, guest_phys, host_phys, size_bytes) ==> {
            let ms = old(tables).mappings@.push(new_mapping(guest_phys, host_phys, size_bytes, false));
            &&& final(tables).mappings@ == ms
            &&& final(tables).root_table_phys == old(tables).root_table_phys
            &&& (r is Ok ==> mappings_valid(ms) && built_from(*final(tables), ms))
            &&& (r is Ok <==> mappings_valid(ms))
        },
{
    append_ept_guest_mapping_with_permissions(tables, guest_phys, host_phys, size_bytes, false)
}

/// An identity mapping of a plan is accepted: non-zero size, page-aligned guest base.
pub open spec fn identity_mapping_accepted(m: EptIdentityMapping) -> bool {
    m.size_bytes > 0 && m.guest_phys % 4096 == 0
}

/// The mapping record programmed for an identity mapping of a plan.
pub open spec fn programmed_identity(m: EptIdentityMapping) -> EptProgrammedMapping {
    new_mapping(m.guest_phys, m.host_phys, m.size_bytes, true)
}

/// Why programming refuses an identity mapping: a zero size, or an
/// unaligned guest base.
pub open spec fn identity_mapping_failure(m: EptIdentityMapping) -> Option<Seq<char>> {
    if m.size_bytes == 0 {
        Some("EPT mapping size must not be zero"@)
    } else if m.guest_phys % 4096 != 0 {
        Some("EPT guest mapping base is not page aligned"@)
    } else {
        None
    }
}

/// Why the first refused identity mapping of `ms[from..]` is refused.
pub open spec fn first_identity_failure(ms: Seq<EptIdentityMapping>, from: int) -> Option<Seq<char>>
    decreases ms.len() - from,
{
    if from < 0 || from >= ms.len() {
        None
    } else {
        match identity_mapping_failure(ms[from]) {
            Some(m) => Some(m),
            None => first_identity_failure(ms, from + 1),
        }
    }
}

proof fn lemma_first_identity_failure_at(ms: Seq<EptIdentityMapping>, from: int, k: int)
    requires
        0 <= from <= k <= ms.len(),
        forall|j: int| from <= j < k ==> #[trigger] identity_mapping_accepted(ms[j]),
    ensures
        first_identity_failure(ms, from) == first_identity_failure(ms, k),
    decreases k - from,
{
    if from < k {
        assert(identity_mapping_accepted(ms[from]));
        lemma_first_identity_failure_at(ms, from + 1, k);
    }
}

fn program_identity_mapping(mapping: &EptIdentityMapping) -> (r: Result<EptProgrammedMapping, EptError>)
    ensures
        match r {
            Ok(m) => identity_mapping_accepted(*mapping) && m == programmed_identity(*mapping),
            Err(e) => !identity_mapping_accepted(*mapping) && e.kind == EptErrorKind::Planning
                && identity_mapping_failure(*mapping) == Some(e.message@),
        },
{
    if mapping.size_bytes == 0 {
        return Err(EptError::new(EptErrorKind::Planning, "EPT mapping size must not be zero"));
    }
    if mapping.guest_phys % EPT_PAGE_SIZE_BYTES != 0 {
        return Err(EptError::new(EptErrorKind::Planning, "EPT guest mapping base is not page aligned"));
    }
    Ok(EptProgrammedMapping {
        guest_phys: mapping.guest_phys,
        host_phys: mapping.host_phys,
        size_bytes: mapping.size_bytes,
        guest_writable: true,
        encoded_entry: encode_identity_ept_entry(mapping.host_phys),
    })
}

/// The mapping records a plan programs, in plan order.
pub open spec fn programmed_mappings(plan: EptInitPlan) -> Seq<EptProgrammedMapping> {
    plan.identity_mappings@.map_values(|m: EptIdentityMapping| programmed_identity(m))
}

/// A plan can be programmed: a root table of at least one page and every
/// identity mapping accepted.
pub open spec fn plan_accepted(plan: EptInitPlan) -> bool {
    &&& plan.root_table_bytes >= EPT_ROOT_TABLE_BYTES
    &&& forall|i: int| 0 <= i < plan.identity_mappings@.len() ==> #[trigger] identity_mapping_accepted(plan.identity_mappings@[i])
}

/// Programs EPT root table bytes and mapping records from an init plan and
/// materializes the hierarchy they describe.
pub fn program_ept_tables(plan: &EptInitPlan) -> (r: Result<EptProgrammedTables, EptError>)
    ensures
        match r {
            Ok(tables) => {
                &&& plan_accepted(*plan)
                &&& tables.root_table_phys == plan.root_table_phys
                &&& tables.mappings@ == programmed_mappings(*plan)
                &&& mappings_valid(programmed_mappings(*plan))
                &&& built_from(tables, programmed_mappings(*plan))
            },
            Err(e) => {
                &&& e.kind == EptErrorKind::Planning
                &&& (plan_accepted(*plan) ==> !mappings_valid(programmed_mappings(*plan)))
                &&& (plan.root_table_bytes < EPT_ROOT_TABLE_BYTES ==> e.message@ == "EPT root table size below minimum page"@)
                &&& (plan.root_table_bytes >= EPT_ROOT_TABLE_BYTES && !plan_accepted(*plan)
                    ==> first_identity_failure(plan.identity_mappings@, 0) == Some(e.message@))
            },
        },
{
    if plan.root_table_bytes < EPT_ROOT_TABLE_BYTES {
        return Err(EptError::new(EptErrorKind::Planning, "EPT root table size below minimum page"));
    }
    let mut mappings: Vec<EptProgrammedMapping> = Vec::with_capacity(plan.identity_mappings.len());
    let count = plan.identity_mappings.len();
    let mut i: usize = 0;
    while i < count
        invariant
            count == plan.identity_mappings@.len(),
            i <= count,
            plan.root_table_bytes >= EPT_ROOT_TABLE_BYTES,
            mappings@ == programmed_mappings(*plan).subrange(0, i as int),
            forall|j: int| 0 <= j < i ==> #[trigger] identity_mapping_accepted(plan.identity_mappings@[j]),
        decreases count - i,
    {
        let programmed = match program_identity_mapping(&plan.identity_mappings[i]) {
            Ok(m) => m,
            Err(e) => {
                proof {
                    lemma_first_identity_failure_at(plan.identity_mappings@, 0, i as int);
                }
                return Err(e);
            },
        };
        mappings.push(programmed);
        proof {
            assert(programmed_mappings(*plan).subrange(0, i as int + 1)
                =~= programmed_mappings(*plan).subrange(0, i as int).push(programmed));
        }
        i = i + 1;
    }
    proof {
        assert(programmed_mappings(*plan).subrange(0, count as int) =~= programmed_mappings(*plan));
    }
    let root_table = vec![0u8; 4096];
    let mut tables = EptProgrammedTables {
        root_table_phys: plan.root_table_phys,
        root_table,
        mappings,
        paging_tables: Vec::new(),
    };
    match materialize_ept_paging(&mut tables) {
        Ok(()) => Ok(tables),
        Err(e) => Err(e),
    }
}

} // verus!
