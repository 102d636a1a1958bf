//! Guest boot info blob construction.

use vstd::prelude::*;
use vstd::bytes::{
    lemma_auto_spec_u32_to_from_le_bytes, lemma_auto_spec_u64_to_from_le_bytes, spec_u32_to_le_bytes,
    spec_u64_to_le_bytes, u32_to_le_bytes, u64_to_le_bytes,
};
use crate::bytes::{le_u32, le_u64};
use crate::guest_abi::{
    guest_abi_is_compatible, relay_measurement_at, relay_measurement_valid, GuestBootInfoHeader,
    GuestDeviceRegion, GuestIpcRegion, GuestMemoryRegion, GUEST_ABI_VERSION, GUEST_BOOT_INFO_MAGIC,
    GUEST_RELAY_MEASUREMENT_EXTENSION_VERSION, GUEST_RELAY_MEASUREMENT_MAGIC,
};
use crate::guest_boot::parse::{
    boot_info_validation, descriptor_offset, descriptor_read, device_region_at, header_matches,
    header_u32, ipc_region_at, lemma_descriptor_fields, memory_region_at, table_end,
};

verus! {

/// Category of guest boot info build failure.
#[derive(Debug, Clone, Copy, PartialEq, Eq, Structural)]
pub enum GuestBootInfoBuildErrorKind {
    /// Partition or layout input was invalid.
    InvalidInput,
}

/// Structured guest boot info build error.
#[derive(Debug, Clone, PartialEq, Eq)]
pub struct GuestBootInfoBuildError {
    /// Error category.
    pub kind: GuestBootInfoBuildErrorKind,
    /// Human-readable message.
    pub message: String,
}

impl GuestBootInfoBuildError {
    /// Creates a new guest boot info build error.
    pub fn new(kind: GuestBootInfoBuildErrorKind, message: &str) -> (e: Self)
        ensures
            e.kind == kind,
            e.message@ == message@,
    {
        GuestBootInfoBuildError { kind, message: String::from_str(message) }
    }
}

/// The resources one partition's boot info describes.
#[derive(Debug, Clone, PartialEq, Eq)]
pub struct GuestBootInfoPlan {
    /// VM identifier of the partition.
    pub vm_id: u32,
    /// Guest memory regions, in table order.
    pub memory_regions: Vec<GuestMemoryRegion>,
    /// IPC regions, in table order.
    pub ipc_regions: Vec<GuestIpcRegion>,
    /// Device regions, in table order.
    pub device_regions: Vec<GuestDeviceRegion>,
}

// ---------------------------------------------------------------------------
// The encoding.
// ---------------------------------------------------------------------------

/// A memory region descriptor: kind, four zero bytes, base, size.
pub open spec fn encode_memory_region(r: GuestMemoryRegion) -> Seq<u8> {
    spec_u32_to_le_bytes(r.kind.spec_raw()) + spec_u32_to_le_bytes(0) + spec_u64_to_le_bytes(r.guest_phys)
        + spec_u64_to_le_bytes(r.size)
}

/// An IPC region descriptor: channel, role, base, size.
pub open spec fn encode_ipc_region(r: GuestIpcRegion) -> Seq<u8> {
    spec_u32_to_le_bytes(r.channel_id) + spec_u32_to_le_bytes(r.role.spec_raw()) + spec_u64_to_le_bytes(r.guest_phys)
        + spec_u64_to_le_bytes(r.size)
}

/// A device region descriptor: kind, four zero bytes, MMIO base, MMIO size.
pub open spec fn encode_device_region(r: GuestDeviceRegion) -> Seq<u8> {
    spec_u32_to_le_bytes(r.kind.spec_raw()) + spec_u32_to_le_bytes(0) + spec_u64_to_le_bytes(r.mmio_guest_phys)
        + spec_u64_to_le_bytes(r.mmio_size)
}

/// The concatenated encodings of a table's descriptors.
pub open spec fn encode_table<T>(rs: Seq<T>, encode: spec_fn(T) -> Seq<u8>) -> Seq<u8>
    decreases rs.len(),
{
    if rs.len() == 0 {
        Seq::empty()
    } else {
        encode_table(rs.drop_last(), encode) + encode(rs.last())
    }
}

/// The encoded header.
pub open spec fn encode_header(h: GuestBootInfoHeader) -> Seq<u8> {
    h.magic@ + spec_u32_to_le_bytes(h.version) + spec_u32_to_le_bytes(h.size) + spec_u32_to_le_bytes(h.vm_id)
        + spec_u32_to_le_bytes(h.vcpu_id) + spec_u32_to_le_bytes(h.memory_table_offset)
        + spec_u32_to_le_bytes(h.memory_region_count) + spec_u32_to_le_bytes(h.ipc_table_offset)
        + spec_u32_to_le_bytes(h.ipc_region_count) + spec_u32_to_le_bytes(h.device_table_offset)
        + spec_u32_to_le_bytes(h.device_region_count)
}

/// The relay measurement extension a fresh blob ends with: the extension
/// magic and version with zero counters and no measurement page yet.
pub open spec fn initial_relay_tail() -> Seq<u8> {
    spec_u32_to_le_bytes(GUEST_RELAY_MEASUREMENT_MAGIC) + spec_u32_to_le_bytes(GUEST_RELAY_MEASUREMENT_EXTENSION_VERSION)
        + spec_u64_to_le_bytes(0) + spec_u64_to_le_bytes(0) + spec_u64_to_le_bytes(0) + spec_u64_to_le_bytes(0)
}

/// The plan's boot info fits the 32-bit size field.
pub open spec fn plan_fits(plan: GuestBootInfoPlan) -> bool {
    48 + 24 * (plan.memory_regions@.len() + plan.ipc_regions@.len() + plan.device_regions@.len()) + 40 <= u32::MAX
}

/// The header of the plan's boot info: current ABI, VM id, vCPU 0, and the
/// memory, IPC and device tables laid out back to back after the header,
/// followed by the relay measurement extension.
pub open spec fn plan_header(plan: GuestBootInfoPlan) -> GuestBootInfoHeader {
    let m = plan.memory_regions@.len();
    let i = plan.ipc_regions@.len();
    let d = plan.device_regions@.len();
    GuestBootInfoHeader {
        magic: GUEST_BOOT_INFO_MAGIC,
        version: GUEST_ABI_VERSION,
        size: (48 + 24 * (m + i + d) + 40) as u32,
        vm_id: plan.vm_id,
        vcpu_id: 0,
        memory_table_offset: 48,
        memory_region_count: m as u32,
        ipc_table_offset: (48 + 24 * m) as u32,
        ipc_region_count: i as u32,
        device_table_offset: (48 + 24 * (m + i)) as u32,
        device_region_count: d as u32,
    }
}

/// The boot info blob of a plan.
pub open spec fn encode_boot_info(plan: GuestBootInfoPlan) -> Seq<u8> {
    encode_header(plan_header(plan)) + encode_table(plan.memory_regions@, |r: GuestMemoryRegion| encode_memory_region(r))
        + encode_table(plan.ipc_regions@, |r: GuestIpcRegion| encode_ipc_region(r))
        + encode_table(plan.device_regions@, |r: GuestDeviceRegion| encode_device_region(r)) + initial_relay_tail()
}

// ---------------------------------------------------------------------------
// Building.
// ---------------------------------------------------------------------------

fn push_u32(bytes: &mut Vec<u8>, v: u32)
    ensures
        final(bytes)@ == old(bytes)@ + spec_u32_to_le_bytes(v),
{
    let mut encoded = u32_to_le_bytes(v);
    bytes.append(&mut encoded);
}

fn push_u64(bytes: &mut Vec<u8>, v: u64)
    ensures
        final(bytes)@ == old(bytes)@ + spec_u64_to_le_bytes(v),
{
    let mut encoded = u64_to_le_bytes(v);
    bytes.append(&mut encoded);
}

fn push_guest_boot_info_header(bytes: &mut Vec<u8>, header: &GuestBootInfoHeader)
    ensures
        final(bytes)@ == old(bytes)@ + encode_header(*header),
{
    let ghost start = bytes@;
    let mut k: usize = 0;
    while k < 8
        invariant
            k <= 8,
            bytes@ == start + header.magic@.subrange(0, k as int),
        decreases 8 - k,
    {
        bytes.push(header.magic[k]);
        proof {
            assert(header.magic@.subrange(0, k as int + 1) =~= header.magic@.subrange(0, k as int).push(header.magic@[k as int]));
        }
        k = k + 1;
    }
    proof {
        assert(header.magic@.subrange(0, 8) =~= header.magic@);
    }
    push_u32(bytes, header.version);
    push_u32(bytes, header.size);
    push_u32(bytes, header.vm_id);
    push_u32(bytes, header.vcpu_id);
    push_u32(bytes, header.memory_table_offset);
    push_u32(bytes, header.memory_region_count);
    push_u32(bytes, header.ipc_table_offset);
    push_u32(bytes, header.ipc_region_count);
    push_u32(bytes, header.device_table_offset);
    push_u32(bytes, header.device_region_count);
    proof {
        assert(bytes@ =~= start + encode_header(*header));
    }
}

/// Builds the guest boot info blob for a partition plan: the header, the
/// memory, IPC and device descriptor tables, and the relay measurement
/// extension the guest updates while it runs.
pub fn serialize_guest_boot_info(plan: &GuestBootInfoPlan) -> (r: Result<Vec<u8>, GuestBootInfoBuildError>)
    requires
        plan_fits(*plan),
    ensures
        r matches Ok(bytes) && bytes@ == encode_boot_info(*plan),
{
    let memory_count = plan.memory_regions.len();
    let ipc_count = plan.ipc_regions.len();
    let device_count = plan.device_regions.len();
    let memory_table_offset: u32 = 48;
    let ipc_table_offset = memory_table_offset + (24 * memory_count) as u32;
    let device_table_offset = ipc_table_offset + (24 * ipc_count) as u32;
    let tables_size = device_table_offset + (24 * device_count) as u32;
    let total_size = tables_size + 40;
    let header = GuestBootInfoHeader {
        magic: GUEST_BOOT_INFO_MAGIC,
        version: GUEST_ABI_VERSION,
        size: total_size,
        vm_id: plan.vm_id,
        vcpu_id: 0,
        memory_table_offset,
        memory_region_count: memory_count as u32,
        ipc_table_offset,
        ipc_region_count: ipc_count as u32,
        device_table_offset,
        device_region_count: device_count as u32,
    };
    proof {
        assert(header == plan_header(*plan));
    }
    if !guest_abi_is_compatible(&header) {
        return Err(GuestBootInfoBuildError::new(
            GuestBootInfoBuildErrorKind::InvalidInput,
            "constructed guest boot info header failed compatibility check",
        ));
    }
    let mut bytes: Vec<u8> = Vec::new();
    push_guest_boot_info_header(&mut bytes, &header);
    let ghost after_header = bytes@;
    let mut i: usize = 0;
    while i < memory_count
        invariant
            i <= memory_count,
            memory_count == plan.memory_regions@.len(),
            bytes@ == after_header + encode_table(plan.memory_regions@.subrange(0, i as int), |r: GuestMemoryRegion| encode_memory_region(r)),
        decreases memory_count - i,
    {
        let region = plan.memory_regions[i];
        push_u32(&mut bytes, region.kind.raw());
        push_u32(&mut bytes, 0);
        push_u64(&mut bytes, region.guest_phys);
        push_u64(&mut bytes, region.size);
        proof {
            assert(plan.memory_regions@.subrange(0, i as int + 1).drop_last() =~= plan.memory_regions@.subrange(0, i as int));
        }
        i = i + 1;
    }
    proof {
        assert(plan.memory_regions@.subrange(0, memory_count as int) =~= plan.memory_regions@);
    }
    let ghost after_memory = bytes@;
    let mut i: usize = 0;
    while i < ipc_count
        invariant
            i <= ipc_count,
            ipc_count == plan.ipc_regions@.len(),
            bytes@ == after_memory + encode_table(plan.ipc_regions@.subrange(0, i as int), |r: GuestIpcRegion| encode_ipc_region(r)),
        decreases ipc_count - i,
    {
        let region = plan.ipc_regions[i];
        push_u32(&mut bytes, region.channel_id);
        push_u32(&mut bytes, region.role.raw());
        push_u64(&mut bytes, region.guest_phys);
        push_u64(&mut bytes, region.size);
        proof {
            assert(plan.ipc_regions@.subrange(0, i as int + 1).drop_last() =~= plan.ipc_regions@.subrange(0, i as int));
        }
        i = i + 1;
    }
    proof {
        assert(plan.ipc_regions@.subrange(0, ipc_count as int) =~= plan.ipc_regions@);
    }
    let ghost after_ipc = bytes@;
    let mut i: usize = 0;
    while i < device_count
        invariant
            i <= device_count,
            device_count == plan.device_regions@.len(),
            bytes@ == after_ipc + encode_table(plan.device_regions@.subrange(0, i as int), |r: GuestDeviceRegion| encode_device_region(r)),
        decreases device_count - i,
    {
        let region = plan.device_regions[i];
        push_u32(&mut bytes, region.kind.raw());
        push_u32(&mut bytes, 0);
        push_u64(&mut bytes, region.mmio_guest_phys);
        push_u64(&mut bytes, region.mmio_size);
        proof {
            assert(plan.device_regions@.subrange(0, i as int + 1).drop_last() =~= plan.device_regions@.subrange(0, i as int));
        }
        i = i + 1;
    }
    proof {
        assert(plan.device_regions@.subrange(0, device_count as int) =~= plan.device_regions@);
    }
    let ghost after_device = bytes@;
    push_u32(&mut bytes, GUEST_RELAY_MEASUREMENT_MAGIC);
    push_u32(&mut bytes, GUEST_RELAY_MEASUREMENT_EXTENSION_VERSION);
    push_u64(&mut bytes, 0);
    push_u64(&mut bytes, 0);
    push_u64(&mut bytes, 0);
    push_u64(&mut bytes, 0);
    proof {
        assert(bytes@ =~= after_device + initial_relay_tail());
        assert(bytes@ =~= encode_boot_info(*plan));
    }
    Ok(bytes)
}


// ---------------------------------------------------------------------------
// Reading the encoding back.
// ---------------------------------------------------------------------------

proof fn lemma_encode_table<T>(rs: Seq<T>, encode: spec_fn(T) -> Seq<u8>)
    requires
        forall|x: T| #[trigger] encode(x).len() == 24,
    ensures
        encode_table(rs, encode).len() == 24 * rs.len(),
        forall|i: int| 0 <= i < rs.len() ==> #[trigger] encode_table(rs, encode).subrange(24 * i, 24 * i + 24) == encode(rs[i]),
    decreases rs.len(),
{
    if rs.len() > 0 {
        let prefix = rs.drop_last();
        lemma_encode_table(prefix, encode);
        let t = encode_table(rs, encode);
        assert forall|i: int| 0 <= i < rs.len() implies #[trigger] t.subrange(24 * i, 24 * i + 24) == encode(rs[i]) by {
            if i < rs.len() - 1 {
                assert(t.subrange(24 * i, 24 * i + 24) =~= encode_table(prefix, encode).subrange(24 * i, 24 * i + 24));
                assert(prefix[i] == rs[i]);
            } else {
                assert(t.subrange(24 * i, 24 * i + 24) =~= encode(rs.last()));
            }
        }
    }
}

proof fn lemma_u32_field(b: Seq<u8>, off: int, v: u32)
    requires
        0 <= off,
        off + 4 <= b.len(),
        b.subrange(off, off + 4) == spec_u32_to_le_bytes(v),
    ensures
        le_u32(b, off) == v,
{
    lemma_auto_spec_u32_to_from_le_bytes();
    assert(spec_u32_to_le_bytes(v).len() == 4);
}

proof fn lemma_u64_field(b: Seq<u8>, off: int, v: u64)
    requires
        0 <= off,
        off + 8 <= b.len(),
        b.subrange(off, off + 8) == spec_u64_to_le_bytes(v),
    ensures
        le_u64(b, off) == v,
{
    lemma_auto_spec_u64_to_from_le_bytes();
}

proof fn lemma_region_encodings()
    ensures
        forall|r: GuestMemoryRegion| #[trigger] encode_memory_region(r).len() == 24,
        forall|r: GuestIpcRegion| #[trigger] encode_ipc_region(r).len() == 24,
        forall|r: GuestDeviceRegion| #[trigger] encode_device_region(r).len() == 24,
        forall|r: GuestMemoryRegion| memory_region_at(#[trigger] encode_memory_region(r), 0)
            == Ok::<GuestMemoryRegion, crate::guest_boot::parse::GuestBootInfoParseErrorKind>(r),
        forall|r: GuestIpcRegion| ipc_region_at(#[trigger] encode_ipc_region(r), 0)
            == Ok::<GuestIpcRegion, crate::guest_boot::parse::GuestBootInfoParseErrorKind>(r),
        forall|r: GuestDeviceRegion| device_region_at(#[trigger] encode_device_region(r), 0)
            == Ok::<GuestDeviceRegion, crate::guest_boot::parse::GuestBootInfoParseErrorKind>(r),
{
    lemma_auto_spec_u32_to_from_le_bytes();
    lemma_auto_spec_u64_to_from_le_bytes();
    assert forall|r: GuestMemoryRegion| memory_region_at(#[trigger] encode_memory_region(r), 0)
        == Ok::<GuestMemoryRegion, crate::guest_boot::parse::GuestBootInfoParseErrorKind>(r) by {
        let e = encode_memory_region(r);
        assert(e.subrange(0, 4) =~= spec_u32_to_le_bytes(r.kind.spec_raw()));
        lemma_u32_field(e, 0, r.kind.spec_raw());
        assert(e.subrange(8, 16) =~= spec_u64_to_le_bytes(r.guest_phys));
        assert(e.subrange(16, 24) =~= spec_u64_to_le_bytes(r.size));
        lemma_u64_field(e, 8, r.guest_phys);
        lemma_u64_field(e, 16, r.size);
    }
    assert forall|r: GuestIpcRegion| ipc_region_at(#[trigger] encode_ipc_region(r), 0)
        == Ok::<GuestIpcRegion, crate::guest_boot::parse::GuestBootInfoParseErrorKind>(r) by {
        let e = encode_ipc_region(r);
        assert(e.subrange(0, 4) =~= spec_u32_to_le_bytes(r.channel_id));
        assert(e.subrange(4, 8) =~= spec_u32_to_le_bytes(r.role.spec_raw()));
        assert(e.subrange(8, 16) =~= spec_u64_to_le_bytes(r.guest_phys));
        assert(e.subrange(16, 24) =~= spec_u64_to_le_bytes(r.size));
        lemma_u32_field(e, 0, r.channel_id);
        lemma_u32_field(e, 4, r.role.spec_raw());
        lemma_u64_field(e, 8, r.guest_phys);
        lemma_u64_field(e, 16, r.size);
    }
    assert forall|r: GuestDeviceRegion| device_region_at(#[trigger] encode_device_region(r), 0)
        == Ok::<GuestDeviceRegion, crate::guest_boot::parse::GuestBootInfoParseErrorKind>(r) by {
        let e = encode_device_region(r);
        assert(e.subrange(0, 4) =~= spec_u32_to_le_bytes(r.kind.spec_raw()));
        assert(e.subrange(8, 16) =~= spec_u64_to_le_bytes(r.mmio_guest_phys));
        assert(e.subrange(16, 24) =~= spec_u64_to_le_bytes(r.mmio_size));
        lemma_u32_field(e, 0, r.kind.spec_raw());
        lemma_u64_field(e, 8, r.mmio_guest_phys);
        lemma_u64_field(e, 16, r.mmio_size);
    }
}

proof fn lemma_header_fields(h: GuestBootInfoHeader, b: Seq<u8>)
    requires
        b.len() >= 48,
        b.subrange(0, 48) == encode_header(h),
    ensures
        header_matches(h, b),
{
    lemma_auto_spec_u32_to_from_le_bytes();
    let e = encode_header(h);
    assert(e.len() == 48);
    assert(b.subrange(0, 8) =~= e.subrange(0, 8));
    assert(e.subrange(0, 8) =~= h.magic@);
    let fields = seq![h.version, h.size, h.vm_id, h.vcpu_id, h.memory_table_offset, h.memory_region_count,
        h.ipc_table_offset, h.ipc_region_count, h.device_table_offset, h.device_region_count];
    assert forall|k: int| 0 <= k < 10 implies #[trigger] header_u32(b, k) == fields[k] by {
        assert(b.subrange(8 + 4 * k, 12 + 4 * k) =~= e.subrange(8 + 4 * k, 12 + 4 * k));
        assert(e.subrange(8 + 4 * k, 12 + 4 * k) =~= spec_u32_to_le_bytes(fields[k]));
        lemma_u32_field(b, 8 + 4 * k, fields[k]);
    }
    assert(header_u32(b, 0) == fields[0]);
    assert(header_u32(b, 1) == fields[1]);
    assert(header_u32(b, 2) == fields[2]);
    assert(header_u32(b, 3) == fields[3]);
    assert(header_u32(b, 4) == fields[4]);
    assert(header_u32(b, 5) == fields[5]);
    assert(header_u32(b, 6) == fields[6]);
    assert(header_u32(b, 7) == fields[7]);
    assert(header_u32(b, 8) == fields[8]);
    assert(header_u32(b, 9) == fields[9]);
}

proof fn lemma_relay_tail(b: Seq<u8>, size: int)
    requires
        size >= 88,
        b.len() == size,
        b.subrange(size - 40, size) == initial_relay_tail(),
    ensures
        relay_measurement_at(b, size - 40) == (crate::guest_abi::GuestBootInfoRelayMeasurement {
            magic: GUEST_RELAY_MEASUREMENT_MAGIC,
            version: GUEST_RELAY_MEASUREMENT_EXTENSION_VERSION,
            frames_completed: 0,
            tsc_start: 0,
            tsc_end: 0,
            measurement_page_gpa: 0,
        }),
{
    lemma_auto_spec_u32_to_from_le_bytes();
    lemma_auto_spec_u64_to_from_le_bytes();
    let t0 = size - 40;
    let tb = initial_relay_tail();
    assert(spec_u32_to_le_bytes(GUEST_RELAY_MEASUREMENT_MAGIC).len() == 4);
    assert(spec_u32_to_le_bytes(GUEST_RELAY_MEASUREMENT_EXTENSION_VERSION).len() == 4);
    assert(spec_u64_to_le_bytes(0).len() == 8);
    assert(b.subrange(t0, t0 + 4) =~= tb.subrange(0, 4));
    assert(tb.subrange(0, 4) =~= spec_u32_to_le_bytes(GUEST_RELAY_MEASUREMENT_MAGIC));
    assert(b.subrange(t0 + 4, t0 + 8) =~= tb.subrange(4, 8));
    assert(tb.subrange(4, 8) =~= spec_u32_to_le_bytes(GUEST_RELAY_MEASUREMENT_EXTENSION_VERSION));
    assert(b.subrange(t0 + 8, t0 + 16) =~= tb.subrange(8, 16));
    assert(tb.subrange(8, 16) =~= spec_u64_to_le_bytes(0));
    assert(b.subrange(t0 + 16, t0 + 24) =~= tb.subrange(16, 24));
    assert(tb.subrange(16, 24) =~= spec_u64_to_le_bytes(0));
    assert(b.subrange(t0 + 24, t0 + 32) =~= tb.subrange(24, 32));
    assert(tb.subrange(24, 32) =~= spec_u64_to_le_bytes(0));
    assert(b.subrange(t0 + 32, t0 + 40) =~= tb.subrange(32, 40));
    assert(tb.subrange(32, 40) =~= spec_u64_to_le_bytes(0));
    lemma_u32_field(b, t0, GUEST_RELAY_MEASUREMENT_MAGIC);
    lemma_u32_field(b, t0 + 4, GUEST_RELAY_MEASUREMENT_EXTENSION_VERSION);
    lemma_u64_field(b, t0 + 8, 0);
    lemma_u64_field(b, t0 + 16, 0);
    lemma_u64_field(b, t0 + 24, 0);
    lemma_u64_field(b, t0 + 32, 0);
}

/// The blob of a plan, split into its parts.
proof fn lemma_blob_parts(plan: GuestBootInfoPlan)
    requires
        plan_fits(plan),
    ensures
        ({
            let b = encode_boot_info(plan);
            let m = plan.memory_regions@.len() as int;
            let i = plan.ipc_regions@.len() as int;
            let d = plan.device_regions@.len() as int;
            let size = 48 + 24 * (m + i + d) + 40;
            &&& b.len() == size
            &&& b.subrange(0, 48) == encode_header(plan_header(plan))
            &&& b.subrange(48, 48 + 24 * m) == encode_table(plan.memory_regions@, |r: GuestMemoryRegion| encode_memory_region(r))
            &&& b.subrange(48 + 24 * m, 48 + 24 * (m + i)) == encode_table(plan.ipc_regions@, |r: GuestIpcRegion| encode_ipc_region(r))
            &&& b.subrange(48 + 24 * (m + i), 48 + 24 * (m + i + d)) == encode_table(plan.device_regions@, |r: GuestDeviceRegion| encode_device_region(r))
            &&& b.subrange(size - 40, size) == initial_relay_tail()
        }),
{
    lemma_auto_spec_u32_to_from_le_bytes();
    lemma_auto_spec_u64_to_from_le_bytes();
    lemma_region_encodings();
    let h = plan_header(plan);
    let me = |r: GuestMemoryRegion| encode_memory_region(r);
    let ie = |r: GuestIpcRegion| encode_ipc_region(r);
    let de = |r: GuestDeviceRegion| encode_device_region(r);
    lemma_encode_table(plan.memory_regions@, me);
    lemma_encode_table(plan.ipc_regions@, ie);
    lemma_encode_table(plan.device_regions@, de);
    let hb = encode_header(h);
    let mb = encode_table(plan.memory_regions@, me);
    let ib = encode_table(plan.ipc_regions@, ie);
    let db = encode_table(plan.device_regions@, de);
    let tb = initial_relay_tail();
    assert(h.magic@.len() == 8);
    assert(hb.len() == 48);
    assert(tb.len() == 40);
    let b = encode_boot_info(plan);
    let m = plan.memory_regions@.len() as int;
    let i = plan.ipc_regions@.len() as int;
    let d = plan.device_regions@.len() as int;
    let size = 48 + 24 * (m + i + d) + 40;
    assert(b =~= hb + mb + ib + db + tb);
    assert(b.subrange(0, 48) =~= hb);
    assert(b.subrange(48, 48 + 24 * m) =~= mb);
    assert(b.subrange(48 + 24 * m, 48 + 24 * (m + i)) =~= ib);
    assert(b.subrange(48 + 24 * (m + i), 48 + 24 * (m + i + d)) =~= db);
    assert(b.subrange(size - 40, size) =~= tb);
}

/// Round trip of the guest boot ABI: the blob built for a plan passes
/// validation, its header is the plan's header, every descriptor reads
/// back as the region it was built from, and it ends with a valid relay
/// measurement extension with zero counters.
pub proof fn lemma_boot_info_round_trip(plan: GuestBootInfoPlan)
    requires
        plan_fits(plan),
    ensures
        boot_info_validation(encode_boot_info(plan)) is Ok,
        header_matches(plan_header(plan), encode_boot_info(plan)),
        forall|k: u32| #![trigger plan.memory_regions@[k as int]] (k as int) < plan.memory_regions@.len() ==> descriptor_read(
            encode_boot_info(plan), 48, plan.memory_regions@.len() as u32, k,
            |off: int| memory_region_at(encode_boot_info(plan), off),
        ) == Ok::<GuestMemoryRegion, crate::guest_boot::parse::GuestBootInfoParseErrorKind>(plan.memory_regions@[k as int]),
        forall|k: u32| #![trigger plan.ipc_regions@[k as int]] (k as int) < plan.ipc_regions@.len() ==> descriptor_read(
            encode_boot_info(plan), plan_header(plan).ipc_table_offset, plan.ipc_regions@.len() as u32, k,
            |off: int| ipc_region_at(encode_boot_info(plan), off),
        ) == Ok::<GuestIpcRegion, crate::guest_boot::parse::GuestBootInfoParseErrorKind>(plan.ipc_regions@[k as int]),
        forall|k: u32| #![trigger plan.device_regions@[k as int]] (k as int) < plan.device_regions@.len() ==> descriptor_read(
            encode_boot_info(plan), plan_header(plan).device_table_offset, plan.device_regions@.len() as u32, k,
            |off: int| device_region_at(encode_boot_info(plan), off),
        ) == Ok::<GuestDeviceRegion, crate::guest_boot::parse::GuestBootInfoParseErrorKind>(plan.device_regions@[k as int]),
        crate::guest_abi::blob_relay_measurement(encode_boot_info(plan)) == Some(crate::guest_abi::GuestBootInfoRelayMeasurement {
            magic: GUEST_RELAY_MEASUREMENT_MAGIC,
            version: GUEST_RELAY_MEASUREMENT_EXTENSION_VERSION,
            frames_completed: 0,
            tsc_start: 0,
            tsc_end: 0,
            measurement_page_gpa: 0,
        }),
{
    lemma_region_encodings();
    lemma_blob_parts(plan);
    let h = plan_header(plan);
    let ms = plan.memory_regions@;
    let is = plan.ipc_regions@;
    let ds = plan.device_regions@;
    let me = |r: GuestMemoryRegion| encode_memory_region(r);
    let ie = |r: GuestIpcRegion| encode_ipc_region(r);
    let de = |r: GuestDeviceRegion| encode_device_region(r);
    lemma_encode_table(ms, me);
    lemma_encode_table(is, ie);
    lemma_encode_table(ds, de);
    let b = encode_boot_info(plan);
    let m = ms.len() as int;
    let i = is.len() as int;
    let d = ds.len() as int;
    let size = 48 + 24 * (m + i + d) + 40;
    lemma_header_fields(h, b);
    lemma_relay_tail(b, size);
    assert(boot_info_validation(b) is Ok);
    assert forall|k: u32| #![trigger ms[k as int]] (k as int) < m implies descriptor_read(b, 48, m as u32, k,
        |off: int| memory_region_at(b, off)) == Ok::<GuestMemoryRegion, crate::guest_boot::parse::GuestBootInfoParseErrorKind>(ms[k as int]) by {
        let off = 48 + 24 * (k as int);
        assert(descriptor_offset(48, k) == off);
        assert(b.subrange(off, off + 24) =~= b.subrange(48, 48 + 24 * m).subrange(24 * (k as int), 24 * (k as int) + 24));
        lemma_descriptor_fields(b, off);
    }
    assert forall|k: u32| #![trigger is[k as int]] (k as int) < i implies descriptor_read(b, h.ipc_table_offset, i as u32, k,
        |off: int| ipc_region_at(b, off)) == Ok::<GuestIpcRegion, crate::guest_boot::parse::GuestBootInfoParseErrorKind>(is[k as int]) by {
        let off = 48 + 24 * m + 24 * (k as int);
        assert(descriptor_offset(h.ipc_table_offset, k) == off);
        assert(b.subrange(off, off + 24) =~= b.subrange(48 + 24 * m, 48 + 24 * (m + i)).subrange(24 * (k as int), 24 * (k as int) + 24));
        lemma_descriptor_fields(b, off);
    }
    assert forall|k: u32| #![trigger ds[k as int]] (k as int) < d implies descriptor_read(b, h.device_table_offset, d as u32, k,
        |off: int| device_region_at(b, off)) == Ok::<GuestDeviceRegion, crate::guest_boot::parse::GuestBootInfoParseErrorKind>(ds[k as int]) by {
        let off = 48 + 24 * (m + i) + 24 * (k as int);
        assert(descriptor_offset(h.device_table_offset, k) == off);
        assert(b.subrange(off, off + 24) =~= b.subrange(48 + 24 * (m + i), 48 + 24 * (m + i + d)).subrange(24 * (k as int), 24 * (k as int) + 24));
        lemma_descriptor_fields(b, off);
    }
}
} // verus!
