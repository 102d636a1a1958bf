//! Guest boot info blob parsing and validation.

use vstd::prelude::*;
use vstd::slice::slice_subrange;
use vstd::string::StringExecFns;
use crate::bytes::{le_u32, le_u64, read_u32_le, read_u64_le};
use crate::guest_abi::{
    guest_abi_is_compatible, guest_boot_info_has_relay_measurement_tail,
    guest_boot_info_relay_frames_offset, parse_guest_boot_info_relay_measurement,
    relay_measurement_at, relay_measurement_valid, GuestBootInfoHeader, GuestDeviceKind,
    GuestDeviceRegion, GuestIpcRegion, GuestIpcRole, GuestMemoryKind, GuestMemoryRegion,
    GUEST_BOOT_INFO_HEADER_BYTES, GUEST_BOOT_INFO_MAGIC, GUEST_REGION_DESCRIPTOR_BYTES,
};

verus! {

/// Category of guest boot info parse failure.
#[derive(Debug, Clone, Copy, PartialEq, Eq, Structural)]
pub enum GuestBootInfoParseErrorKind {
    /// Buffer was too short or malformed.
    Parse,
    /// Declared offsets or counts were inconsistent.
    Bounds,
    /// Header version or magic was unsupported.
    Incompatible,
}

/// Structured guest boot info parse error.
#[derive(Debug, Clone, PartialEq, Eq)]
pub struct GuestBootInfoParseError {
    /// Error category.
    pub kind: GuestBootInfoParseErrorKind,
    /// Human-readable message.
    pub message: String,
}

impl GuestBootInfoParseError {
    /// Creates a new guest boot info parse error.
    pub fn new(kind: GuestBootInfoParseErrorKind, message: &str) -> (e: Self)
        ensures
            e.kind == kind,
            e.message@ == message@,
    {
        GuestBootInfoParseError { kind, message: String::from_str(message) }
    }
}

// ---------------------------------------------------------------------------
// The blob format.
// ---------------------------------------------------------------------------

/// Header field `index` (the tenth of the ten `u32` fields after the magic is index 9).
pub open spec fn header_u32(b: Seq<u8>, index: int) -> u32 {
    le_u32(b, 8 + 4 * index)
}

/// `h` is the header encoded at the start of `b`.
pub open spec fn header_matches(h: GuestBootInfoHeader, b: Seq<u8>) -> bool {
    &&& h.magic@ == b.subrange(0, 8)
    &&& h.version == header_u32(b, 0)
    &&& h.size == header_u32(b, 1)
    &&& h.vm_id == header_u32(b, 2)
    &&& h.vcpu_id == header_u32(b, 3)
    &&& h.memory_table_offset == header_u32(b, 4)
    &&& h.memory_region_count == header_u32(b, 5)
    &&& h.ipc_table_offset == header_u32(b, 6)
    &&& h.ipc_region_count == header_u32(b, 7)
    &&& h.device_table_offset == header_u32(b, 8)
    &&& h.device_region_count == header_u32(b, 9)
}

/// The end of a table of `count` descriptors at `offset`, with the byte
/// count saturating at `u32::MAX`.
pub open spec fn table_end(offset: u32, count: u32) -> int {
    offset + if count * 24 > u32::MAX { u32::MAX as int } else { count * 24 }
}

/// What validating a blob gives: acceptance, or the kind of the first
/// check that fails. A blob is accepted when it holds a header with the
/// ABI magic and a supported version, declares a size within the blob,
/// lays out the memory, IPC and device tables in that order without
/// overlap and within the declared size, and, from version 2 on, ends
/// with a valid relay measurement extension.
pub open spec fn boot_info_validation(b: Seq<u8>) -> Result<(), GuestBootInfoParseErrorKind> {
    let version = header_u32(b, 0);
    let size = header_u32(b, 1);
    let mto = header_u32(b, 4);
    let mrc = header_u32(b, 5);
    let ito = header_u32(b, 6);
    let irc = header_u32(b, 7);
    let dto = header_u32(b, 8);
    let drc = header_u32(b, 9);
    if b.len() < 48 {
        Err(GuestBootInfoParseErrorKind::Parse)
    } else if !(b.subrange(0, 8) == GUEST_BOOT_INFO_MAGIC@ && 1 <= version <= 2) {
        Err(GuestBootInfoParseErrorKind::Incompatible)
    } else if size > b.len() {
        Err(GuestBootInfoParseErrorKind::Bounds)
    } else if table_end(mto, mrc) > u32::MAX || table_end(mto, mrc) > ito {
        Err(GuestBootInfoParseErrorKind::Bounds)
    } else if table_end(ito, irc) > u32::MAX || table_end(ito, irc) > dto {
        Err(GuestBootInfoParseErrorKind::Bounds)
    } else if table_end(dto, drc) > u32::MAX || table_end(dto, drc) > size {
        Err(GuestBootInfoParseErrorKind::Bounds)
    } else if version >= 2 && size < 88 {
        Err(GuestBootInfoParseErrorKind::Bounds)
    } else if version >= 2 && !relay_measurement_valid(relay_measurement_at(b, size - 40)) {
        Err(GuestBootInfoParseErrorKind::Incompatible)
    } else {
        Ok(())
    }
}

/// The message of the first check `boot_info_validation` finds failing.
pub open spec fn boot_info_failure(b: Seq<u8>) -> Seq<char> {
    let version = header_u32(b, 0);
    let size = header_u32(b, 1);
    let mto = header_u32(b, 4);
    let mrc = header_u32(b, 5);
    let ito = header_u32(b, 6);
    let irc = header_u32(b, 7);
    let dto = header_u32(b, 8);
    let drc = header_u32(b, 9);
    if b.len() < 48 {
        "guest boot info shorter than header"@
    } else if !(b.subrange(0, 8) == GUEST_BOOT_INFO_MAGIC@ && 1 <= version <= 2) {
        "unsupported guest boot info header"@
    } else if size > b.len() {
        "declared guest boot info size exceeds buffer"@
    } else if table_end(mto, mrc) > u32::MAX {
        "memory table end overflow"@
    } else if table_end(mto, mrc) > ito {
        "memory table overlaps ipc table"@
    } else if table_end(ito, irc) > u32::MAX {
        "ipc table end overflow"@
    } else if table_end(ito, irc) > dto {
        "ipc table overlaps device table"@
    } else if table_end(dto, drc) > u32::MAX {
        "device table end overflow"@
    } else if table_end(dto, drc) > size {
        "device table exceeds declared guest boot info size"@
    } else if version >= 2 && size < 88 {
        "guest boot info ABI v2 requires relay measurement tail"@
    } else {
        "guest boot info relay measurement extension invalid"@
    }
}

/// The byte offset of descriptor `index` of a table at `offset`, with the
/// product saturating at `u32::MAX`.
pub open spec fn descriptor_offset(offset: u32, index: u32) -> int {
    offset + if index * 24 > u32::MAX { u32::MAX as int } else { index * 24 }
}

/// The memory region descriptor encoded at `off`.
pub open spec fn memory_region_at(b: Seq<u8>, off: int) -> Result<GuestMemoryRegion, GuestBootInfoParseErrorKind> {
    let raw = le_u32(b, off);
    if raw != 1 && raw != 2 {
        Err(GuestBootInfoParseErrorKind::Parse)
    } else {
        Ok(GuestMemoryRegion {
            kind: if raw == 1 { GuestMemoryKind::Ram } else { GuestMemoryKind::Mmio },
            guest_phys: le_u64(b, off + 8),
            size: le_u64(b, off + 16),
        })
    }
}

/// The IPC region descriptor encoded at `off`.
pub open spec fn ipc_region_at(b: Seq<u8>, off: int) -> Result<GuestIpcRegion, GuestBootInfoParseErrorKind> {
    let raw = le_u32(b, off + 4);
    if raw != 1 && raw != 2 {
        Err(GuestBootInfoParseErrorKind::Parse)
    } else {
        Ok(GuestIpcRegion {
            channel_id: le_u32(b, off),
            role: if raw == 1 { GuestIpcRole::Producer } else { GuestIpcRole::Consumer },
            guest_phys: le_u64(b, off + 8),
            size: le_u64(b, off + 16),
        })
    }
}

/// The device region descriptor encoded at `off`.
pub open spec fn device_region_at(b: Seq<u8>, off: int) -> Result<GuestDeviceRegion, GuestBootInfoParseErrorKind> {
    if le_u32(b, off) != 1 {
        Err(GuestBootInfoParseErrorKind::Parse)
    } else {
        Ok(GuestDeviceRegion {
            kind: GuestDeviceKind::NicE1000,
            mmio_guest_phys: le_u64(b, off + 8),
            mmio_size: le_u64(b, off + 16),
        })
    }
}

/// Reading descriptor `index` of a table with `count` descriptors at
/// `offset`: an out-of-range index or a descriptor beyond the blob is a
/// bounds error; otherwise `decode` says what the bytes hold.
pub open spec fn descriptor_read<T>(
    b: Seq<u8>,
    offset: u32,
    count: u32,
    index: u32,
    decode: spec_fn(int) -> Result<T, GuestBootInfoParseErrorKind>,
) -> Result<T, GuestBootInfoParseErrorKind> {
    let off = descriptor_offset(offset, index);
    if index >= count || off > u32::MAX || off + 24 > b.len() {
        Err(GuestBootInfoParseErrorKind::Bounds)
    } else {
        decode(off)
    }
}

/// The message of a failed descriptor read: the index is out of range, the
/// offset overflows, the slice cannot be taken, or the bytes do not decode.
pub open spec fn descriptor_failure(
    b: Seq<u8>,
    offset: u32,
    count: u32,
    index: u32,
    out_of_range: Seq<char>,
    offset_overflow: Seq<char>,
    undecodable: Seq<char>,
) -> Seq<char> {
    let off = descriptor_offset(offset, index);
    if index >= count {
        out_of_range
    } else if off > u32::MAX {
        offset_overflow
    } else if off + 24 > usize::MAX {
        "guest boot info slice overflow"@
    } else if off + 24 > b.len() {
        "guest boot info slice out of bounds"@
    } else {
        undecodable
    }
}

// ---------------------------------------------------------------------------
// The view.
// ---------------------------------------------------------------------------

/// Borrowed view over a validated guest boot info blob.
#[derive(Debug, Clone, Copy)]
pub struct GuestBootInfoView<'a> {
    bytes: &'a [u8],
    header: GuestBootInfoHeader,
}

impl<'a> GuestBootInfoView<'a> {
    /// The blob the view reads.
    pub closed spec fn blob(&self) -> Seq<u8> {
        self.bytes@
    }

    /// The parsed header.
    pub closed spec fn spec_header(&self) -> GuestBootInfoHeader {
        self.header
    }

    /// A view only exists over a validated blob whose header it holds.
    #[verifier::type_invariant]
    spec fn view_inv(&self) -> bool {
        &&& boot_info_validation(self.bytes@) is Ok
        &&& header_matches(self.header, self.bytes@)
    }

    /// Parses and validates a guest boot info blob.
    pub fn parse(bytes: &'a [u8]) -> (r: Result<Self, GuestBootInfoParseError>)
        ensures
            match r {
                Ok(view) => {
                    &&& boot_info_validation(bytes@) is Ok
                    &&& view.blob() == bytes@
                    &&& header_matches(view.spec_header(), bytes@)
                },
                Err(e) => boot_info_validation(bytes@) == Err::<(), GuestBootInfoParseErrorKind>(e.kind)
                    && e.message@ == boot_info_failure(bytes@),
            },
    {
        if bytes.len() < GUEST_BOOT_INFO_HEADER_BYTES {
            return Err(GuestBootInfoParseError::new(GuestBootInfoParseErrorKind::Parse, "guest boot info shorter than header"));
        }
        let header = read_header(bytes);
        if !guest_abi_is_compatible(&header) {
            return Err(GuestBootInfoParseError::new(GuestBootInfoParseErrorKind::Incompatible, "unsupported guest boot info header"));
        }
        if header.size as usize > bytes.len() {
            return Err(GuestBootInfoParseError::new(GuestBootInfoParseErrorKind::Bounds, "declared guest boot info size exceeds buffer"));
        }
        match validate_layout(bytes, &header) {
            Ok(()) => Ok(GuestBootInfoView { bytes, header }),
            Err(e) => Err(e),
        }
    }

    /// Returns the parsed header.
    pub fn header(&self) -> (h: &GuestBootInfoHeader)
        ensures
            *h == self.spec_header(),
            header_matches(*h, self.blob()),
            boot_info_validation(self.blob()) is Ok,
    {
        proof {
            use_type_invariant(self);
        }
        &self.header
    }

    /// Reads one memory region descriptor by index.
    pub fn memory_region(&self, index: u32) -> (r: Result<GuestMemoryRegion, GuestBootInfoParseError>)
        ensures
            match r {
                Ok(region) => descriptor_read(self.blob(), self.spec_header().memory_table_offset,
                    self.spec_header().memory_region_count, index, |off: int| memory_region_at(self.blob(), off))
                    == Ok::<GuestMemoryRegion, GuestBootInfoParseErrorKind>(region),
                Err(e) => descriptor_read(self.blob(), self.spec_header().memory_table_offset,
                    self.spec_header().memory_region_count, index, |off: int| memory_region_at(self.blob(), off))
                    == Err::<GuestMemoryRegion, GuestBootInfoParseErrorKind>(e.kind)
                    && e.message@ == descriptor_failure(self.blob(), self.spec_header().memory_table_offset,
                        self.spec_header().memory_region_count, index, "memory region index out of range"@,
                        "memory region offset overflow"@, "unknown guest memory kind"@),
            },
    {
        if index >= self.header.memory_region_count {
            return Err(GuestBootInfoParseError::new(GuestBootInfoParseErrorKind::Bounds, "memory region index out of range"));
        }
        let offset = match self.header.memory_table_offset.checked_add(table_bytes(index)) {
            Some(offset) => offset,
            None => return Err(GuestBootInfoParseError::new(GuestBootInfoParseErrorKind::Bounds, "memory region offset overflow")),
        };
        let slice = match self.slice_at(offset as usize, GUEST_REGION_DESCRIPTOR_BYTES) {
            Ok(slice) => slice,
            Err(e) => return Err(e),
        };
        proof {
            lemma_descriptor_fields(self.blob(), offset as int);
        }
        read_memory_region(slice)
    }

    /// Reads one IPC region descriptor by index.
    pub fn ipc_region(&self, index: u32) -> (r: Result<GuestIpcRegion, GuestBootInfoParseError>)
        ensures
            match r {
                Ok(region) => descriptor_read(self.blob(), self.spec_header().ipc_table_offset,
                    self.spec_header().ipc_region_count, index, |off: int| ipc_region_at(self.blob(), off))
                    == Ok::<GuestIpcRegion, GuestBootInfoParseErrorKind>(region),
                Err(e) => descriptor_read(self.blob(), self.spec_header().ipc_table_offset,
                    self.spec_header().ipc_region_count, index, |off: int| ipc_region_at(self.blob(), off))
                    == Err::<GuestIpcRegion, GuestBootInfoParseErrorKind>(e.kind)
                    && e.message@ == descriptor_failure(self.blob(), self.spec_header().ipc_table_offset,
                        self.spec_header().ipc_region_count, index, "ipc region index out of range"@,
                        "ipc region offset overflow"@, "unknown guest ipc role"@),
            },
    {
        if index >= self.header.ipc_region_count {
            return Err(GuestBootInfoParseError::new(GuestBootInfoParseErrorKind::Bounds, "ipc region index out of range"));
        }
        let offset = match self.header.ipc_table_offset.checked_add(table_bytes(index)) {
            Some(offset) => offset,
            None => return Err(GuestBootInfoParseError::new(GuestBootInfoParseErrorKind::Bounds, "ipc region offset overflow")),
        };
        let slice = match self.slice_at(offset as usize, GUEST_REGION_DESCRIPTOR_BYTES) {
            Ok(slice) => slice,
            Err(e) => return Err(e),
        };
        proof {
            lemma_descriptor_fields(self.blob(), offset as int);
        }
        read_ipc_region(slice)
    }

    /// Reads one device region descriptor by index.
    pub fn device_region(&self, index: u32) -> (r: Result<GuestDeviceRegion, GuestBootInfoParseError>)
        ensures
            match r {
                Ok(region) => descriptor_read(self.blob(), self.spec_header().device_table_offset,
                    self.spec_header().device_region_count, index, |off: int| device_region_at(self.blob(), off))
                    == Ok::<GuestDeviceRegion, GuestBootInfoParseErrorKind>(region),
                Err(e) => descriptor_read(self.blob(), self.spec_header().device_table_offset,
                    self.spec_header().device_region_count, index, |off: int| device_region_at(self.blob(), off))
                    == Err::<GuestDeviceRegion, GuestBootInfoParseErrorKind>(e.kind)
                    && e.message@ == descriptor_failure(self.blob(), self.spec_header().device_table_offset,
                        self.spec_header().device_region_count, index, "device region index out of range"@,
                        "device region offset overflow"@, "unknown guest device kind"@),
            },
    {
        if index >= self.header.device_region_count {
            return Err(GuestBootInfoParseError::new(GuestBootInfoParseErrorKind::Bounds, "device region index out of range"));
        }
        let offset = match self.header.device_table_offset.checked_add(table_bytes(index)) {
            Some(offset) => offset,
            None => return Err(GuestBootInfoParseError::new(GuestBootInfoParseErrorKind::Bounds, "device region offset overflow")),
        };
        let slice = match self.slice_at(offset as usize, GUEST_REGION_DESCRIPTOR_BYTES) {
            Ok(slice) => slice,
            Err(e) => return Err(e),
        };
        proof {
            lemma_descriptor_fields(self.blob(), offset as int);
        }
        read_device_region(slice)
    }

    fn slice_at(&self, offset: usize, len: usize) -> (r: Result<&'a [u8], GuestBootInfoParseError>)
        ensures
            match r {
                Ok(s) => offset + len <= self.blob().len() && offset + len <= usize::MAX
                    && s@ == self.blob().subrange(offset as int, offset + len),
                Err(e) => offset + len > self.blob().len() && e.kind == GuestBootInfoParseErrorKind::Bounds
                    && e.message@ == if offset + len > usize::MAX {
                        "guest boot info slice overflow"@
                    } else {
                        "guest boot info slice out of bounds"@
                    },
            },
    {
        let total = self.bytes.len();
        let end = match offset.checked_add(len) {
            Some(end) => end,
            None => return Err(GuestBootInfoParseError::new(GuestBootInfoParseErrorKind::Bounds, "guest boot info slice overflow")),
        };
        if end > total {
            return Err(GuestBootInfoParseError::new(GuestBootInfoParseErrorKind::Bounds, "guest boot info slice out of bounds"));
        }
        Ok(slice_subrange(self.bytes, offset, end))
    }
}

/// The table byte count of `count` descriptors, saturating at `u32::MAX`.
fn table_bytes(count: u32) -> (r: u32)
    ensures
        r == if count * 24 > u32::MAX { u32::MAX as int } else { count * 24 },
{
    let product = count as u64 * GUEST_REGION_DESCRIPTOR_BYTES as u64;
    if product > u32::MAX as u64 {
        u32::MAX
    } else {
        product as u32
    }
}

fn validate_layout(bytes: &[u8], header: &GuestBootInfoHeader) -> (r: Result<(), GuestBootInfoParseError>)
    requires
        bytes@.len() >= 48,
        header_matches(*header, bytes@),
        bytes@.subrange(0, 8) == GUEST_BOOT_INFO_MAGIC@,
        1 <= header.version <= 2,
        header.size <= bytes@.len(),
    ensures
        match r {
            Ok(_) => boot_info_validation(bytes@) is Ok,
            Err(e) => boot_info_validation(bytes@) == Err::<(), GuestBootInfoParseErrorKind>(e.kind)
                && e.message@ == boot_info_failure(bytes@),
        },
{
    let bounded = slice_subrange(bytes, 0, header.size as usize);
    let memory_end = match header.memory_table_offset.checked_add(table_bytes(header.memory_region_count)) {
        Some(end) => end,
        None => return Err(GuestBootInfoParseError::new(GuestBootInfoParseErrorKind::Bounds, "memory table end overflow")),
    };
    if memory_end > header.ipc_table_offset {
        return Err(GuestBootInfoParseError::new(GuestBootInfoParseErrorKind::Bounds, "memory table overlaps ipc table"));
    }
    let ipc_end = match header.ipc_table_offset.checked_add(table_bytes(header.ipc_region_count)) {
        Some(end) => end,
        None => return Err(GuestBootInfoParseError::new(GuestBootInfoParseErrorKind::Bounds, "ipc table end overflow")),
    };
    if ipc_end > header.device_table_offset {
        return Err(GuestBootInfoParseError::new(GuestBootInfoParseErrorKind::Bounds, "ipc table overlaps device table"));
    }
    let device_end = match header.device_table_offset.checked_add(table_bytes(header.device_region_count)) {
        Some(end) => end,
        None => return Err(GuestBootInfoParseError::new(GuestBootInfoParseErrorKind::Bounds, "device table end overflow")),
    };
    if device_end > header.size {
        return Err(GuestBootInfoParseError::new(GuestBootInfoParseErrorKind::Bounds, "device table exceeds declared guest boot info size"));
    }
    if header.version >= 2 && guest_boot_info_relay_frames_offset(header.size).is_none() {
        return Err(GuestBootInfoParseError::new(GuestBootInfoParseErrorKind::Bounds, "guest boot info ABI v2 requires relay measurement tail"));
    }
    if guest_boot_info_has_relay_measurement_tail(header) && parse_guest_boot_info_relay_measurement(bounded).is_none() {
        proof {
            lemma_bounded_relay(bytes@, header.size as int);
        }
        return Err(GuestBootInfoParseError::new(GuestBootInfoParseErrorKind::Incompatible, "guest boot info relay measurement extension invalid"));
    }
    proof {
        if header.version >= 2 {
            lemma_bounded_relay(bytes@, header.size as int);
        }
    }
    if bounded.len() < header.size as usize {
        return Err(GuestBootInfoParseError::new(GuestBootInfoParseErrorKind::Bounds, "guest boot info bounded slice unavailable"));
    }
    Ok(())
}

/// The relay extension of the blob prefix of `size` bytes is the extension
/// at `size - 40` of the whole blob.
proof fn lemma_bounded_relay(b: Seq<u8>, size: int)
    requires
        88 <= size <= b.len(),
        header_u32(b, 1) == size,
    ensures
        crate::guest_abi::blob_relay_measurement(b.subrange(0, size)) == if relay_measurement_valid(relay_measurement_at(b, size - 40)) {
            Some(relay_measurement_at(b, size - 40))
        } else {
            None
        },
{
    let p = b.subrange(0, size);
    crate::bytes::lemma_le_u32_frame(p, b, 12);
    assert forall|off: int| 0 <= off && off + 8 <= size implies le_u64(p, off) == le_u64(b, off) by {
        crate::bytes::lemma_le_u64_frame(p, b, off);
    }
    assert forall|off: int| 0 <= off && off + 4 <= size implies le_u32(p, off) == le_u32(b, off) by {
        crate::bytes::lemma_le_u32_frame(p, b, off);
    }
    assert(relay_measurement_at(p, size - 40) == relay_measurement_at(b, size - 40));
}

/// A descriptor read from its own 24-byte slice reads the same fields as
/// read in place.
pub proof fn lemma_descriptor_fields(b: Seq<u8>, off: int)
    requires
        0 <= off,
        off + 24 <= b.len(),
    ensures
        memory_region_at(b.subrange(off, off + 24), 0) == memory_region_at(b, off),
        ipc_region_at(b.subrange(off, off + 24), 0) == ipc_region_at(b, off),
        device_region_at(b.subrange(off, off + 24), 0) == device_region_at(b, off),
{
    let d = b.subrange(off, off + 24);
    assert(d.subrange(0, 4) =~= b.subrange(off, off + 4));
    assert(d.subrange(4, 8) =~= b.subrange(off + 4, off + 8));
    assert(d.subrange(8, 16) =~= b.subrange(off + 8, off + 16));
    assert(d.subrange(16, 24) =~= b.subrange(off + 16, off + 24));
}

fn read_header(bytes: &[u8]) -> (h: GuestBootInfoHeader)
    requires
        bytes@.len() >= 48,
    ensures
        header_matches(h, bytes@),
{
    let magic: [u8; 8] = [bytes[0], bytes[1], bytes[2], bytes[3], bytes[4], bytes[5], bytes[6], bytes[7]];
    let h = GuestBootInfoHeader {
        magic,
        version: read_u32_le(bytes, 8),
        size: read_u32_le(bytes, 12),
        vm_id: read_u32_le(bytes, 16),
        vcpu_id: read_u32_le(bytes, 20),
        memory_table_offset: read_u32_le(bytes, 24),
        memory_region_count: read_u32_le(bytes, 28),
        ipc_table_offset: read_u32_le(bytes, 32),
        ipc_region_count: read_u32_le(bytes, 36),
        device_table_offset: read_u32_le(bytes, 40),
        device_region_count: read_u32_le(bytes, 44),
    };
    assert(h.magic@ =~= bytes@.subrange(0, 8));
    h
}

fn read_memory_region(bytes: &[u8]) -> (r: Result<GuestMemoryRegion, GuestBootInfoParseError>)
    requires
        bytes@.len() == 24,
    ensures
        match r {
            Ok(region) => memory_region_at(bytes@, 0) == Ok::<GuestMemoryRegion, GuestBootInfoParseErrorKind>(region),
            Err(e) => memory_region_at(bytes@, 0) == Err::<GuestMemoryRegion, GuestBootInfoParseErrorKind>(e.kind)
                && e.message@ == "unknown guest memory kind"@,
        },
{
    let kind = match read_u32_le(bytes, 0) {
        1 => GuestMemoryKind::Ram,
        2 => GuestMemoryKind::Mmio,
        _ => return Err(GuestBootInfoParseError::new(GuestBootInfoParseErrorKind::Parse, "unknown guest memory kind")),
    };
    Ok(GuestMemoryRegion { kind, guest_phys: read_u64_le(bytes, 8), size: read_u64_le(bytes, 16) })
}

fn read_ipc_region(bytes: &[u8]) -> (r: Result<GuestIpcRegion, GuestBootInfoParseError>)
    requires
        bytes@.len() == 24,
    ensures
        match r {
            Ok(region) => ipc_region_at(bytes@, 0) == Ok::<GuestIpcRegion, GuestBootInfoParseErrorKind>(region),
            Err(e) => ipc_region_at(bytes@, 0) == Err::<GuestIpcRegion, GuestBootInfoParseErrorKind>(e.kind)
                && e.message@ == "unknown guest ipc role"@,
        },
{
    let role = match read_u32_le(bytes, 4) {
        1 => GuestIpcRole::Producer,
        2 => GuestIpcRole::Consumer,
        _ => return Err(GuestBootInfoParseError::new(GuestBootInfoParseErrorKind::Parse, "unknown guest ipc role")),
    };
    Ok(GuestIpcRegion {
        channel_id: read_u32_le(bytes, 0),
        role,
        guest_phys: read_u64_le(bytes, 8),
        size: read_u64_le(bytes, 16),
    })
}

fn read_device_region(bytes: &[u8]) -> (r: Result<GuestDeviceRegion, GuestBootInfoParseError>)
    requires
        bytes@.len() == 24,
    ensures
        match r {
            Ok(region) => device_region_at(bytes@, 0) == Ok::<GuestDeviceRegion, GuestBootInfoParseErrorKind>(region),
            Err(e) => device_region_at(bytes@, 0) == Err::<GuestDeviceRegion, GuestBootInfoParseErrorKind>(e.kind)
                && e.message@ == "unknown guest device kind"@,
        },
{
    let kind = match read_u32_le(bytes, 0) {
        1 => GuestDeviceKind::NicE1000,
        _ => return Err(GuestBootInfoParseError::new(GuestBootInfoParseErrorKind::Parse, "unknown guest device kind")),
    };
    Ok(GuestDeviceRegion { kind, mmio_guest_phys: read_u64_le(bytes, 8), mmio_size: read_u64_le(bytes, 16) })
}

} // verus!
