//! Versioned guest boot ABI shared by the hypervisor and guest partitions.
//!
//! Guests discover their resources exclusively through the boot info blob:
//! a 48-byte header, the memory, IPC and device descriptor tables (24 bytes
//! per descriptor), and, from ABI version 2 on, a 40-byte relay measurement
//! extension at the end of the blob. All integers are little-endian.

use vstd::prelude::*;
use crate::bytes::{le_u32, le_u64, read_u32_le, read_u64_le};

verus! {

/// Current guest ABI version.
pub const GUEST_ABI_VERSION: u32 = 2;

/// Minimum supported guest ABI version.
pub const GUEST_ABI_VERSION_MIN: u32 = 1;

/// Magic bytes for `GuestBootInfoHeader` (`HVGUEST\0`).
pub const GUEST_BOOT_INFO_MAGIC: [u8; 8] = [0x48, 0x56, 0x47, 0x55, 0x45, 0x53, 0x54, 0x00];

/// Size of the encoded `GuestBootInfoHeader`.
pub const GUEST_BOOT_INFO_HEADER_BYTES: usize = 48;

/// Size of one encoded memory, IPC or device region descriptor.
pub const GUEST_REGION_DESCRIPTOR_BYTES: usize = 24;

/// Magic identifying the relay measurement extension (`RLAY`).
pub const GUEST_RELAY_MEASUREMENT_MAGIC: u32 = 0x5941_4C52;

/// Relay measurement extension schema version.
pub const GUEST_RELAY_MEASUREMENT_EXTENSION_VERSION: u32 = 2;

/// Size of the relay measurement extension tail appended to guest boot info blobs.
pub const GUEST_BOOT_INFO_RELAY_MEASUREMENT_TAIL_BYTES: usize = 40;

/// Byte offset of `frames_completed` inside the relay measurement extension.
pub const GUEST_RELAY_FRAMES_COMPLETED_OFFSET: usize = 8;

/// Hypervisor to guest boot information header.
#[derive(Debug, Clone, Copy, PartialEq, Eq)]
pub struct GuestBootInfoHeader {
    /// Magic identifier (`HVGUEST\0`).
    pub magic: [u8; 8],
    /// ABI version number.
    pub version: u32,
    /// Total guest boot info size in bytes.
    pub size: u32,
    /// Assigned VM identifier.
    pub vm_id: u32,
    /// Initial vCPU identifier.
    pub vcpu_id: u32,
    /// Offset to memory region table.
    pub memory_table_offset: u32,
    /// Number of memory regions.
    pub memory_region_count: u32,
    /// Offset to IPC region table.
    pub ipc_table_offset: u32,
    /// Number of IPC regions.
    pub ipc_region_count: u32,
    /// Offset to device region table.
    pub device_table_offset: u32,
    /// Number of device regions.
    pub device_region_count: u32,
}

/// Guest memory region kind.
#[derive(Debug, Clone, Copy, PartialEq, Eq, Structural)]
pub enum GuestMemoryKind {
    /// Normal guest RAM (encoded as 1).
    Ram,
    /// MMIO region (encoded as 2).
    Mmio,
}

/// One guest memory region descriptor.
#[derive(Debug, Clone, Copy, PartialEq, Eq, Structural)]
pub struct GuestMemoryRegion {
    /// Region kind.
    pub kind: GuestMemoryKind,
    /// Guest physical base address.
    pub guest_phys: u64,
    /// Region size in bytes.
    pub size: u64,
}

/// IPC role for a guest mapping.
#[derive(Debug, Clone, Copy, PartialEq, Eq, Structural)]
pub enum GuestIpcRole {
    /// Producer side of an IPC channel (encoded as 1).
    Producer,
    /// Consumer side of an IPC channel (encoded as 2).
    Consumer,
}

/// One IPC region descriptor.
#[derive(Debug, Clone, Copy, PartialEq, Eq, Structural)]
pub struct GuestIpcRegion {
    /// IPC channel identifier.
    pub channel_id: u32,
    /// IPC role for this guest.
    pub role: GuestIpcRole,
    /// Guest physical base address.
    pub guest_phys: u64,
    /// Mapping size in bytes.
    pub size: u64,
}

/// Device kind exposed to a guest.
#[derive(Debug, Clone, Copy, PartialEq, Eq, Structural)]
pub enum GuestDeviceKind {
    /// Intel e1000 NIC MMIO and registers (encoded as 1).
    NicE1000,
}

/// One device MMIO region descriptor.
#[derive(Debug, Clone, Copy, PartialEq, Eq, Structural)]
pub struct GuestDeviceRegion {
    /// Device kind.
    pub kind: GuestDeviceKind,
    /// MMIO guest physical base.
    pub mmio_guest_phys: u64,
    /// MMIO region size.
    pub mmio_size: u64,
}

/// Relay measurement extension appended to guest boot info blobs (ABI v2).
#[derive(Debug, Clone, Copy, PartialEq, Eq, Structural)]
pub struct GuestBootInfoRelayMeasurement {
    /// Extension magic (`GUEST_RELAY_MEASUREMENT_MAGIC`).
    pub magic: u32,
    /// Extension schema version.
    pub version: u32,
    /// Out-partition end-to-end relay frames completed.
    pub frames_completed: u64,
    /// TSC value captured before the sustained relay loop.
    pub tsc_start: u64,
    /// TSC value captured after the sustained relay loop.
    pub tsc_end: u64,
    /// Guest physical base of the hypervisor-owned relay measurement page (extension v2+).
    pub measurement_page_gpa: u64,
}

impl GuestMemoryKind {
    /// The ABI encoding of the kind.
    pub open spec fn spec_raw(self) -> u32 {
        match self {
            GuestMemoryKind::Ram => 1,
            GuestMemoryKind::Mmio => 2,
        }
    }

    /// Encodes the kind for the ABI.
    pub fn raw(&self) -> (r: u32)
        ensures
            r == self.spec_raw(),
    {
        match self {
            GuestMemoryKind::Ram => 1,
            GuestMemoryKind::Mmio => 2,
        }
    }
}

impl GuestIpcRole {
    /// The ABI encoding of the role.
    pub open spec fn spec_raw(self) -> u32 {
        match self {
            GuestIpcRole::Producer => 1,
            GuestIpcRole::Consumer => 2,
        }
    }

    /// Encodes the role for the ABI.
    pub fn raw(&self) -> (r: u32)
        ensures
            r == self.spec_raw(),
    {
        match self {
            GuestIpcRole::Producer => 1,
            GuestIpcRole::Consumer => 2,
        }
    }
}

impl GuestDeviceKind {
    /// The ABI encoding of the kind.
    pub open spec fn spec_raw(self) -> u32 {
        match self {
            GuestDeviceKind::NicE1000 => 1,
        }
    }

    /// Encodes the kind for the ABI.
    pub fn raw(&self) -> (r: u32)
        ensures
            r == self.spec_raw(),
    {
        match self {
            GuestDeviceKind::NicE1000 => 1,
        }
    }
}

/// The byte offset of the relay measurement extension in a blob of
/// `total_size` bytes: the last 40 bytes, when the blob has room for the
/// header and the extension.
pub open spec fn relay_measurement_offset(total_size: u32) -> Option<usize> {
    if total_size < 48 + 40 {
        None
    } else {
        Some((total_size - 40) as usize)
    }
}

/// Returns the byte offset of the relay measurement extension in a boot info blob.
pub fn guest_boot_info_relay_measurement_offset(total_size: u32) -> (r: Option<usize>)
    ensures
        r == relay_measurement_offset(total_size),
{
    let total = total_size as usize;
    if total < GUEST_BOOT_INFO_HEADER_BYTES + GUEST_BOOT_INFO_RELAY_MEASUREMENT_TAIL_BYTES {
        return None;
    }
    Some(total - GUEST_BOOT_INFO_RELAY_MEASUREMENT_TAIL_BYTES)
}

/// Returns the byte offset of the relay frame counter in a boot info blob.
pub fn guest_boot_info_relay_frames_offset(total_size: u32) -> (r: Option<usize>)
    ensures
        r == match relay_measurement_offset(total_size) {
            Some(offset) => Some((offset + 8) as usize),
            None => None,
        },
{
    match guest_boot_info_relay_measurement_offset(total_size) {
        Some(offset) => Some(offset + GUEST_RELAY_FRAMES_COMPLETED_OFFSET),
        None => None,
    }
}

/// The relay measurement fields stored at `off` in `bytes`.
pub open spec fn relay_measurement_at(bytes: Seq<u8>, off: int) -> GuestBootInfoRelayMeasurement {
    GuestBootInfoRelayMeasurement {
        magic: le_u32(bytes, off),
        version: le_u32(bytes, off + 4),
        frames_completed: le_u64(bytes, off + 8),
        tsc_start: le_u64(bytes, off + 16),
        tsc_end: le_u64(bytes, off + 24),
        measurement_page_gpa: le_u64(bytes, off + 32),
    }
}

/// A relay measurement extension with the right magic and a supported version.
pub open spec fn relay_measurement_valid(m: GuestBootInfoRelayMeasurement) -> bool {
    m.magic == GUEST_RELAY_MEASUREMENT_MAGIC && 1 <= m.version <= GUEST_RELAY_MEASUREMENT_EXTENSION_VERSION
}

/// The relay measurement extension of a boot info blob: the blob holds a
/// header, the size it declares leaves room for the extension and lies
/// within the blob, and the extension is valid.
pub open spec fn blob_relay_measurement(bytes: Seq<u8>) -> Option<GuestBootInfoRelayMeasurement> {
    if bytes.len() < 48 {
        None
    } else {
        match relay_measurement_offset(le_u32(bytes, 12)) {
            None => None,
            Some(off) => if off + 40 > bytes.len() {
                None
            } else if relay_measurement_valid(relay_measurement_at(bytes, off as int)) {
                Some(relay_measurement_at(bytes, off as int))
            } else {
                None
            },
        }
    }
}

fn read_relay_measurement(bytes: &[u8], off: usize) -> (m: GuestBootInfoRelayMeasurement)
    requires
        off + 40 <= bytes.len(),
    ensures
        m == relay_measurement_at(bytes@, off as int),
{
    GuestBootInfoRelayMeasurement {
        magic: read_u32_le(bytes, off),
        version: read_u32_le(bytes, off + 4),
        frames_completed: read_u64_le(bytes, off + 8),
        tsc_start: read_u64_le(bytes, off + 16),
        tsc_end: read_u64_le(bytes, off + 24),
        measurement_page_gpa: read_u64_le(bytes, off + 32),
    }
}

/// Parses and validates the relay measurement extension from a boot info blob.
pub fn parse_guest_boot_info_relay_measurement(bytes: &[u8]) -> (r: Option<GuestBootInfoRelayMeasurement>)
    ensures
        r == blob_relay_measurement(bytes@),
{
    if bytes.len() < GUEST_BOOT_INFO_HEADER_BYTES {
        return None;
    }
    let total_size = read_u32_le(bytes, 12);
    let offset = match guest_boot_info_relay_measurement_offset(total_size) {
        Some(offset) => offset,
        None => return None,
    };
    if offset + GUEST_BOOT_INFO_RELAY_MEASUREMENT_TAIL_BYTES > bytes.len() {
        return None;
    }
    let extension = read_relay_measurement(bytes, offset);
    if extension.magic != GUEST_RELAY_MEASUREMENT_MAGIC {
        return None;
    }
    if extension.version == 0 || extension.version > GUEST_RELAY_MEASUREMENT_EXTENSION_VERSION {
        return None;
    }
    Some(extension)
}

/// The relay measurement page header at the start of `bytes`: present when
/// the page holds 40 bytes, the extension is valid, and a version 2 header
/// names a non-zero measurement page.
pub open spec fn page_relay_measurement(bytes: Seq<u8>) -> Option<GuestBootInfoRelayMeasurement> {
    if bytes.len() < 40 {
        None
    } else {
        let m = relay_measurement_at(bytes, 0);
        if !relay_measurement_valid(m) || (m.version >= 2 && m.measurement_page_gpa == 0) {
            None
        } else {
            Some(m)
        }
    }
}

/// Parses a relay measurement page header sample (first 40 bytes of the counter page).
pub fn parse_relay_measurement_page_header(bytes: &[u8]) -> (r: Option<GuestBootInfoRelayMeasurement>)
    ensures
        r == page_relay_measurement(bytes@),
{
    if bytes.len() < GUEST_BOOT_INFO_RELAY_MEASUREMENT_TAIL_BYTES {
        return None;
    }
    let extension = read_relay_measurement(bytes, 0);
    if extension.magic != GUEST_RELAY_MEASUREMENT_MAGIC {
        return None;
    }
    if extension.version == 0 || extension.version > GUEST_RELAY_MEASUREMENT_EXTENSION_VERSION {
        return None;
    }
    if extension.version >= 2 && extension.measurement_page_gpa == 0 {
        return None;
    }
    Some(extension)
}

/// The header carries the ABI magic and a supported version.
pub open spec fn abi_compatible(header: GuestBootInfoHeader) -> bool {
    &&& header.magic@ == GUEST_BOOT_INFO_MAGIC@
    &&& GUEST_ABI_VERSION_MIN <= header.version <= GUEST_ABI_VERSION
}

/// Returns whether `magic` is the guest boot info magic.
pub fn guest_boot_info_magic_matches(magic: &[u8; 8]) -> (r: bool)
    ensures
        r == (magic@ == GUEST_BOOT_INFO_MAGIC@),
{
    let expected = GUEST_BOOT_INFO_MAGIC;
    let mut k: usize = 0;
    while k < 8
        invariant
            k <= 8,
            expected@ == GUEST_BOOT_INFO_MAGIC@,
            forall|j: int| 0 <= j < k ==> magic@[j] == expected@[j],
        decreases 8 - k,
    {
        if magic[k] != expected[k] {
            return false;
        }
        k = k + 1;
    }
    assert(magic@ =~= expected@);
    true
}

/// Returns whether a guest boot info header matches the supported ABI.
pub fn guest_abi_is_compatible(header: &GuestBootInfoHeader) -> (r: bool)
    ensures
        r == abi_compatible(*header),
{
    guest_boot_info_magic_matches(&header.magic) && header.version >= GUEST_ABI_VERSION_MIN
        && header.version <= GUEST_ABI_VERSION
}

/// The header declares the relay measurement tail: ABI v2 or later and a
/// declared size with room for the header and the extension.
pub open spec fn declares_relay_tail(header: GuestBootInfoHeader) -> bool {
    header.version >= 2 && relay_measurement_offset(header.size) is Some
}

/// Returns whether the header declares the relay measurement tail (ABI v2+).
pub fn guest_boot_info_has_relay_measurement_tail(header: &GuestBootInfoHeader) -> (r: bool)
    ensures
        r == declares_relay_tail(*header),
{
    header.version >= 2 && guest_boot_info_relay_measurement_offset(header.size).is_some()
}

/// Returns elapsed TSC ticks: `tsc_end - tsc_start`, or 0 when the end is
/// before the start.
pub fn guest_relay_measurement_elapsed_tsc(extension: &GuestBootInfoRelayMeasurement) -> (r: u64)
    ensures
        r == if extension.tsc_end >= extension.tsc_start {
            (extension.tsc_end - extension.tsc_start) as u64
        } else {
            0
        },
{
    extension.tsc_end.saturating_sub(extension.tsc_start)
}

/// Relay measurement tail law: a boot info blob carries a relay
/// measurement exactly when it holds a 48-byte header whose declared total
/// size (the little-endian u32 at offset 12) is at least 88 and at most the
/// blob's length, and the last 40 bytes of the declared blob start with the
/// magic 0x5941_4C52 and a version of 1 or 2; the measurement's frame count,
/// TSC start, TSC end and measurement page are then the little-endian u64s
/// 32, 24, 16 and 8 bytes before the declared end.
pub proof fn lemma_relay_measurement_tail_layout(b: Seq<u8>)
    ensures
        blob_relay_measurement(b) is Some <==> {
            let total = le_u32(b, 12) as int;
            &&& b.len() >= 48
            &&& 88 <= total <= b.len()
            &&& le_u32(b, total - 40) == 0x5941_4C52
            &&& 1 <= le_u32(b, total - 36) <= 2
        },
        blob_relay_measurement(b) matches Some(m) ==> {
            let total = le_u32(b, 12) as int;
            &&& m.magic == 0x5941_4C52
            &&& m.version == le_u32(b, total - 36)
            &&& m.frames_completed == le_u64(b, total - 32)
            &&& m.tsc_start == le_u64(b, total - 24)
            &&& m.tsc_end == le_u64(b, total - 16)
            &&& m.measurement_page_gpa == le_u64(b, total - 8)
        },
{
}

/// Relay measurement page law: a measurement page header is accepted
/// exactly when the page holds 40 bytes starting with the magic
/// 0x5941_4C52 and a version of 1 or 2, and a version 2 header names a
/// non-zero measurement page (the u64 at offset 32); its frame count, TSC
/// start and TSC end are the little-endian u64s at offsets 8, 16 and 24.
pub proof fn lemma_relay_measurement_page_layout(b: Seq<u8>)
    ensures
        page_relay_measurement(b) is Some <==> {
            &&& b.len() >= 40
            &&& le_u32(b, 0) == 0x5941_4C52
            &&& 1 <= le_u32(b, 4) <= 2
            &&& (le_u32(b, 4) == 2 ==> le_u64(b, 32) != 0)
        },
        page_relay_measurement(b) matches Some(m) ==> m.frames_completed == le_u64(b, 8)
            && m.tsc_start == le_u64(b, 16) && m.tsc_end == le_u64(b, 24) && m.measurement_page_gpa == le_u64(b, 32),
{
}

/// Relay frame counter law: in a blob declaring `total_size` bytes (at
/// least 88), the frame counter sits 32 bytes before the declared end;
/// smaller declared sizes have no counter.
pub proof fn lemma_relay_frames_offset(total_size: u32)
    ensures
        relay_measurement_offset(total_size) == if total_size >= 88 {
            Some((total_size - 40) as usize)
        } else {
            None::<usize>
        },
        relay_measurement_offset(total_size) matches Some(o) ==> o + 8 == total_size - 32,
{
}

} // verus!
