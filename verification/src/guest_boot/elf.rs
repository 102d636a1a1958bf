//! Minimal ELF64 parsing for reference guest images.

use vstd::prelude::*;
use vstd::slice::{slice_subrange, slice_to_vec};
use crate::bytes::{le_u16, le_u32, le_u64, read_u16_le, read_u32_le, read_u64_le};

verus! {

/// Category of guest ELF parse failure.
#[derive(Debug, Clone, Copy, PartialEq, Eq, Structural)]
pub enum GuestElfErrorKind {
    /// Image bytes were invalid or truncated.
    InvalidInput,
    /// ELF header or program header constraints were violated.
    FormatViolation,
}

/// Structured guest ELF parse error.
#[derive(Debug, Clone, PartialEq, Eq)]
pub struct GuestElfError {
    /// Error category.
    pub kind: GuestElfErrorKind,
    /// Human-readable message.
    pub message: String,
}

impl GuestElfError {
    /// Creates a new guest ELF parse error.
    pub fn new(kind: GuestElfErrorKind, message: &str) -> (e: Self)
        ensures
            e.kind == kind,
            e.message@ == message@,
    {
        GuestElfError { kind, message: String::from_str(message) }
    }
}

/// One PT_LOAD segment extracted from a guest ELF image.
#[derive(Debug, Clone, PartialEq, Eq)]
pub struct GuestElfLoadSegment {
    /// File offset of segment contents.
    pub file_offset: u64,
    /// Virtual address where the segment is linked.
    pub vaddr: u64,
    /// Bytes copied from the image for this segment.
    pub bytes: Vec<u8>,
}

/// Parsed guest ELF64 executable used for resident install.
#[derive(Debug, Clone, PartialEq, Eq)]
pub struct GuestElfImage {
    /// ELF entry virtual address.
    pub entry_vaddr: u64,
    /// Load segments to copy into guest physical memory.
    pub load_segments: Vec<GuestElfLoadSegment>,
}

const ELFCLASS64: u8 = 2;
const ET_EXEC: u16 = 2;
const EM_X86_64: u16 = 0x003E;
const PT_LOAD: u32 = 1;
const ELF64_HEADER_SIZE: usize = 64;
const ELF64_PHENT_SIZE: u64 = 56;

/// A load segment as (file offset, link address, contents).
pub open spec fn segment_view(s: GuestElfLoadSegment) -> (u64, u64, Seq<u8>) {
    (s.file_offset, s.vaddr, s.bytes@)
}

/// The load segments of a parsed image, each as (file offset, link address,
/// contents).
pub open spec fn image_segments(image: GuestElfImage) -> Seq<(u64, u64, Seq<u8>)> {
    image.load_segments@.map_values(|s: GuestElfLoadSegment| segment_view(s))
}

/// The load segments described by program headers `index..phnum` of the
/// table at `phoff`, or the kind of error the first bad header causes.
/// Headers other than PT_LOAD are skipped; a PT_LOAD header yields the
/// file bytes `[p_offset, p_offset + p_filesz)`.
pub open spec fn elf_load_segments(b: Seq<u8>, phoff: u64, index: int, phnum: int) -> Result<Seq<(u64, u64, Seq<u8>)>, GuestElfErrorKind>
    decreases phnum - index,
{
    if index >= phnum {
        Ok(Seq::empty())
    } else {
        let base = phoff + index * 56;
        if base > u64::MAX {
            Err(GuestElfErrorKind::FormatViolation)
        } else if base + 4 > b.len() {
            Err(GuestElfErrorKind::InvalidInput)
        } else if le_u32(b, base) != 1 {
            elf_load_segments(b, phoff, index + 1, phnum)
        } else if base + 40 > b.len() {
            Err(GuestElfErrorKind::InvalidInput)
        } else {
            let p_offset = le_u64(b, base + 8);
            let p_vaddr = le_u64(b, base + 16);
            let p_filesz = le_u64(b, base + 32);
            if p_offset + p_filesz > u64::MAX || p_offset + p_filesz > b.len() {
                Err(GuestElfErrorKind::FormatViolation)
            } else {
                match elf_load_segments(b, phoff, index + 1, phnum) {
                    Err(k) => Err(k),
                    Ok(rest) => Ok(seq![(p_offset, p_vaddr, b.subrange(p_offset as int, p_offset + p_filesz))] + rest),
                }
            }
        }
    }
}

/// What parsing `b` as an ELF64 x86-64 executable gives: its entry address
/// and load segments, or the kind of the first violation.
pub open spec fn elf_image(b: Seq<u8>) -> Result<(u64, Seq<(u64, u64, Seq<u8>)>), GuestElfErrorKind> {
    if b.len() < 64 {
        Err(GuestElfErrorKind::InvalidInput)
    } else if b[0] != 0x7f || b[1] != 0x45 || b[2] != 0x4c || b[3] != 0x46 {
        Err(GuestElfErrorKind::FormatViolation)
    } else if b[4] != 2 {
        Err(GuestElfErrorKind::FormatViolation)
    } else if le_u16(b, 0x10) != 2 || le_u16(b, 0x12) != 0x3E || le_u16(b, 0x36) != 56 {
        Err(GuestElfErrorKind::FormatViolation)
    } else {
        match elf_load_segments(b, le_u64(b, 0x20), 0, le_u16(b, 0x38) as int) {
            Err(k) => Err(k),
            Ok(segments) => if segments.len() == 0 {
                Err(GuestElfErrorKind::FormatViolation)
            } else {
                Ok((le_u64(b, 0x18), segments))
            },
        }
    }
}

/// The message of the first bad program header among `index..phnum`,
/// following the checks of `elf_load_segments`.
pub open spec fn elf_segments_failure(b: Seq<u8>, phoff: u64, index: int, phnum: int) -> Seq<char>
    decreases phnum - index,
{
    if index >= phnum {
        Seq::empty()
    } else {
        let base = phoff + index * 56;
        if base > u64::MAX {
            "elf offset overflow"@
        } else if base + 4 > b.len() {
            "elf read out of bounds"@
        } else if le_u32(b, base) != 1 {
            elf_segments_failure(b, phoff, index + 1, phnum)
        } else if base + 40 > b.len() {
            "elf read out of bounds"@
        } else {
            let p_offset = le_u64(b, base + 8);
            let p_filesz = le_u64(b, base + 32);
            if p_offset + p_filesz > u64::MAX {
                "elf offset overflow"@
            } else if p_offset + p_filesz > b.len() {
                "elf PT_LOAD segment extends past image end"@
            } else {
                elf_segments_failure(b, phoff, index + 1, phnum)
            }
        }
    }
}

/// The message of the first violation `elf_image` reports for `b`.
pub open spec fn elf_failure(b: Seq<u8>) -> Seq<char> {
    if b.len() < 64 {
        "elf image smaller than header"@
    } else if b[0] != 0x7f || b[1] != 0x45 || b[2] != 0x4c || b[3] != 0x46 {
        "elf magic mismatch"@
    } else if b[4] != 2 {
        "elf class must be 64-bit"@
    } else if le_u16(b, 0x10) != 2 {
        "elf type must be ET_EXEC"@
    } else if le_u16(b, 0x12) != 0x3E {
        "elf machine must be x86-64"@
    } else if le_u16(b, 0x36) != 56 {
        "unexpected elf program header size"@
    } else if elf_load_segments(b, le_u64(b, 0x20), 0, le_u16(b, 0x38) as int) is Err {
        elf_segments_failure(b, le_u64(b, 0x20), 0, le_u16(b, 0x38) as int)
    } else {
        "elf image has no PT_LOAD segments"@
    }
}

/// Program header `j` of the table at `phoff` has type PT_LOAD (the
/// little-endian u32 at its offset 0 is 1).
pub open spec fn is_load_header(b: Seq<u8>, phoff: u64, j: int) -> bool {
    le_u32(b, phoff + 56 * j) == 1
}

/// ELF64 program header `j` of the table at `phoff` (56-byte entries) is a
/// PT_LOAD header describing segment `seg` = (file offset, link address,
/// contents): `p_type` at offset 0 is PT_LOAD, the file offset is `p_offset`
/// at offset 8, the link address is `p_vaddr` at offset 16, and the
/// contents are the `p_filesz` (offset 32) file bytes from `p_offset`;
/// every field little endian.
pub open spec fn load_header_describes(b: Seq<u8>, phoff: u64, j: int, seg: (u64, u64, Seq<u8>)) -> bool {
    let h = phoff + 56 * j;
    &&& le_u32(b, h) == 1
    &&& seg.0 == le_u64(b, h + 8)
    &&& seg.1 == le_u64(b, h + 16)
    &&& seg.2 == b.subrange(seg.0 as int, seg.0 + le_u64(b, h + 32))
}

/// Every segment of `segs` is described by a PT_LOAD header among
/// `index..phnum`.
pub open spec fn segments_described(b: Seq<u8>, phoff: u64, index: int, phnum: int, segs: Seq<(u64, u64, Seq<u8>)>) -> bool {
    forall|k: int| 0 <= k < segs.len() ==> #[trigger] segment_described(b, phoff, index, phnum, segs[k])
}

/// Segment `seg` is described by a PT_LOAD header among `index..phnum`.
pub open spec fn segment_described(b: Seq<u8>, phoff: u64, index: int, phnum: int, seg: (u64, u64, Seq<u8>)) -> bool {
    exists|j: int| index <= j < phnum && #[trigger] load_header_describes(b, phoff, j, seg)
}

/// Every PT_LOAD header among `index..phnum` describes a segment of `segs`.
pub open spec fn headers_described(b: Seq<u8>, phoff: u64, index: int, phnum: int, segs: Seq<(u64, u64, Seq<u8>)>) -> bool {
    forall|j: int| index <= j < phnum && #[trigger] is_load_header(b, phoff, j)
        ==> exists|k: int| 0 <= k < segs.len() && #[trigger] load_header_describes(b, phoff, j, segs[k])
}

/// Every segment of `segs` is described by a PT_LOAD header among
/// `index..phnum`, and every PT_LOAD header there describes one of them.
pub open spec fn segments_follow_headers(b: Seq<u8>, phoff: u64, index: int, phnum: int, segs: Seq<(u64, u64, Seq<u8>)>) -> bool {
    segments_described(b, phoff, index, phnum, segs) && headers_described(b, phoff, index, phnum, segs)
}

/// The program headers `js` (indices into the table at `phoff`) describe
/// `segs` one for one and in table order: each lies among `index..phnum`,
/// header `js[k]` describes segment `k`, the indices increase strictly, and
/// every PT_LOAD header among `index..phnum` is one of them.
pub open spec fn segments_in_header_order(
    b: Seq<u8>,
    phoff: u64,
    index: int,
    phnum: int,
    segs: Seq<(u64, u64, Seq<u8>)>,
    js: Seq<int>,
) -> bool {
    &&& js.len() == segs.len()
    &&& forall|k: int| 0 <= k < js.len() ==> index <= #[trigger] js[k] < phnum
    &&& forall|k: int| 0 <= k < js.len() ==> #[trigger] load_header_describes(b, phoff, js[k], segs[k])
    &&& forall|k1: int, k2: int| 0 <= k1 < k2 < js.len() ==> #[trigger] js[k1] < #[trigger] js[k2]
    &&& forall|j: int| index <= j < phnum && #[trigger] is_load_header(b, phoff, j) ==> js.contains(j)
}

proof fn lemma_segments_in_header_order(b: Seq<u8>, phoff: u64, index: int, phnum: int) -> (js: Seq<int>)
    requires
        0 <= index,
    ensures
        elf_load_segments(b, phoff, index, phnum) matches Ok(segs) ==> segments_in_header_order(b, phoff, index, phnum, segs, js),
    decreases phnum - index,
{
    if index >= phnum {
        Seq::empty()
    } else {
        let js_rest = lemma_segments_in_header_order(b, phoff, index + 1, phnum);
        let base = phoff + index * 56;
        assert(base == phoff + 56 * index);
        if let Ok(segs) = elf_load_segments(b, phoff, index, phnum) {
            let rest = elf_load_segments(b, phoff, index + 1, phnum)->Ok_0;
            assert(elf_load_segments(b, phoff, index + 1, phnum) is Ok);
            if le_u32(b, base) != 1 {
                assert(segs == rest);
                assert(!is_load_header(b, phoff, index));
                assert forall|j: int| index <= j < phnum && #[trigger] is_load_header(b, phoff, j) implies js_rest.contains(j) by {
                    assert(j != index);
                }
                js_rest
            } else {
                let file_offset = le_u64(b, base + 8);
                let link_address = le_u64(b, base + 16);
                let file_size = le_u64(b, base + 32);
                let first = (file_offset, link_address, b.subrange(file_offset as int, file_offset + file_size));
                assert(segs == seq![first] + rest);
                let js = seq![index] + js_rest;
                assert(js[0] == index);
                assert forall|k: int| 1 <= k < js.len() implies #[trigger] js[k] == js_rest[k - 1] by {}
                assert forall|k: int| 0 <= k < js.len() implies index <= #[trigger] js[k] < phnum by {
                    if k > 0 {
                        assert(js[k] == js_rest[k - 1]);
                    }
                }
                assert forall|k: int| 0 <= k < js.len() implies #[trigger] load_header_describes(b, phoff, js[k], segs[k]) by {
                    if k == 0 {
                        assert(segs[0] == first);
                    } else {
                        assert(js[k] == js_rest[k - 1]);
                        assert(segs[k] == rest[k - 1]);
                        assert(load_header_describes(b, phoff, js_rest[k - 1], rest[k - 1]));
                    }
                }
                assert forall|k1: int, k2: int| 0 <= k1 < k2 < js.len() implies #[trigger] js[k1] < #[trigger] js[k2] by {
                    assert(js[k2] == js_rest[k2 - 1]);
                    if k1 > 0 {
                        assert(js[k1] == js_rest[k1 - 1]);
                    }
                }
                assert forall|j: int| index <= j < phnum && #[trigger] is_load_header(b, phoff, j) implies js.contains(j) by {
                    if j == index {
                        assert(js[0] == j);
                    } else {
                        assert(js_rest.contains(j));
                        let k0 = choose|k: int| 0 <= k < js_rest.len() && js_rest[k] == j;
                        assert(js[k0 + 1] == j);
                    }
                }
                js
            }
        } else {
            js_rest
        }
    }
}

proof fn lemma_segments_follow_headers(b: Seq<u8>, phoff: u64, index: int, phnum: int)
    requires
        0 <= index,
    ensures
        elf_load_segments(b, phoff, index, phnum) matches Ok(segs) ==> segments_follow_headers(b, phoff, index, phnum, segs),
    decreases phnum - index,
{
    if index >= phnum {
        assert(elf_load_segments(b, phoff, index, phnum) == Ok::<Seq<(u64, u64, Seq<u8>)>, GuestElfErrorKind>(Seq::empty()));
        assert(segments_follow_headers(b, phoff, index, phnum, Seq::empty()));
    } else {
        lemma_segments_follow_headers(b, phoff, index + 1, phnum);
        if let Ok(segs) = elf_load_segments(b, phoff, index, phnum) {
            let rest0 = elf_load_segments(b, phoff, index + 1, phnum)->Ok_0;
            assert(segments_follow_headers(b, phoff, index + 1, phnum, rest0));
            let base = phoff + index * 56;
            assert(base == phoff + 56 * index);
            let rest = elf_load_segments(b, phoff, index + 1, phnum)->Ok_0;
            assert(elf_load_segments(b, phoff, index + 1, phnum) is Ok);
            if le_u32(b, base) != 1 {
                assert(segs == rest);
                assert(!is_load_header(b, phoff, index));
                assert forall|j: int| index <= j < phnum && #[trigger] is_load_header(b, phoff, j)
                    implies exists|k: int| 0 <= k < segs.len() && #[trigger] load_header_describes(b, phoff, j, segs[k]) by {
                    assert(j != index);
                }
                assert forall|k: int| 0 <= k < segs.len() implies #[trigger] segment_described(b, phoff, index, phnum, segs[k]) by {
                    assert(segment_described(b, phoff, index + 1, phnum, rest[k]));
                    let j0 = choose|j: int| index + 1 <= j < phnum && #[trigger] load_header_describes(b, phoff, j, rest[k]);
                    assert(load_header_describes(b, phoff, j0, segs[k]));
                }
                assert(segments_described(b, phoff, index, phnum, segs));
                assert(headers_described(b, phoff, index, phnum, segs));
            } else {
                let file_offset = le_u64(b, base + 8);
                let link_address = le_u64(b, base + 16);
                let file_size = le_u64(b, base + 32);
                let first = (file_offset, link_address, b.subrange(file_offset as int, file_offset + file_size));
                assert(segs == seq![first] + rest);
                assert(segs[0] == first);
                assert(load_header_describes(b, phoff, index, first));
                assert forall|k: int| 0 <= k < segs.len() implies #[trigger] segment_described(b, phoff, index, phnum, segs[k]) by {
                    if k == 0 {
                        assert(load_header_describes(b, phoff, index, segs[0]));
                    } else {
                        assert(segs[k] == rest[k - 1]);
                        assert(segment_described(b, phoff, index + 1, phnum, rest[k - 1]));
                        let j0 = choose|j: int| index + 1 <= j < phnum && #[trigger] load_header_describes(b, phoff, j, rest[k - 1]);
                        assert(load_header_describes(b, phoff, j0, segs[k]));
                    }
                }
                assert forall|j: int| index <= j < phnum && #[trigger] is_load_header(b, phoff, j)
                    implies exists|k: int| 0 <= k < segs.len() && #[trigger] load_header_describes(b, phoff, j, segs[k]) by {
                    if j == index {
                        assert(load_header_describes(b, phoff, j, segs[0]));
                    } else {
                        let k0 = choose|k: int| 0 <= k < rest.len() && #[trigger] load_header_describes(b, phoff, j, rest[k]);
                        assert(segs[k0 + 1] == rest[k0]);
                        assert(load_header_describes(b, phoff, j, segs[k0 + 1]));
                    }
                }
                assert(segments_described(b, phoff, index, phnum, segs));
                assert(headers_described(b, phoff, index, phnum, segs));
            }
        }
    }
}

/// ELF64 program header law: a parsed image's entry address is `e_entry`
/// (the little-endian u64 at offset 0x18), every load segment is described
/// by one PT_LOAD header of the table at `e_phoff` (offset 0x20, `e_phnum`
/// headers at offset 0x38) through that header's `p_offset`, `p_vaddr` and
/// `p_filesz` fields, and every PT_LOAD header describes a load segment;
/// more precisely, the load segments are the PT_LOAD headers one for one,
/// in the order of the table.
pub proof fn lemma_elf_segments_follow_program_headers(b: Seq<u8>)
    ensures
        elf_image(b) matches Ok((entry, segs)) ==> entry == le_u64(b, 0x18)
            && segments_follow_headers(b, le_u64(b, 0x20), 0, le_u16(b, 0x38) as int, segs),
        elf_image(b) matches Ok((entry, segs)) ==> exists|js: Seq<int>|
            segments_in_header_order(b, le_u64(b, 0x20), 0, le_u16(b, 0x38) as int, segs, js),
{
    lemma_segments_follow_headers(b, le_u64(b, 0x20), 0, le_u16(b, 0x38) as int);
    let js = lemma_segments_in_header_order(b, le_u64(b, 0x20), 0, le_u16(b, 0x38) as int);
    if let Ok((entry, segs)) = elf_image(b) {
        assert(segments_in_header_order(b, le_u64(b, 0x20), 0, le_u16(b, 0x38) as int, segs, js));
    }
}

/// Parses a minimal ELF64 ET_EXEC image containing PT_LOAD segments.
pub fn parse_elf64(bytes: &[u8]) -> (r: Result<GuestElfImage, GuestElfError>)
    ensures
        match r {
            Ok(image) => elf_image(bytes@) == Ok::<(u64, Seq<(u64, u64, Seq<u8>)>), GuestElfErrorKind>(
                (image.entry_vaddr, image.load_segments@.map_values(|s: GuestElfLoadSegment| segment_view(s)))),
            Err(e) => elf_image(bytes@) == Err::<(u64, Seq<(u64, u64, Seq<u8>)>), GuestElfErrorKind>(e.kind)
                && e.message@ == elf_failure(bytes@),
        },
        r matches Ok(image) ==> image.entry_vaddr == le_u64(bytes@, 0x18) && segments_follow_headers(
            bytes@,
            le_u64(bytes@, 0x20),
            0,
            le_u16(bytes@, 0x38) as int,
            image.load_segments@.map_values(|s: GuestElfLoadSegment| segment_view(s)),
        ),
        r matches Ok(image) ==> exists|js: Seq<int>| #[trigger] segments_in_header_order(
            bytes@,
            le_u64(bytes@, 0x20),
            0,
            le_u16(bytes@, 0x38) as int,
            image_segments(image),
            js,
        ),
{
    proof {
        lemma_elf_segments_follow_program_headers(bytes@);
    }
    if bytes.len() < ELF64_HEADER_SIZE {
        return Err(GuestElfError::new(GuestElfErrorKind::InvalidInput, "elf image smaller than header"));
    }
    if bytes[0] != 0x7f || bytes[1] != 0x45 || bytes[2] != 0x4c || bytes[3] != 0x46 {
        return Err(GuestElfError::new(GuestElfErrorKind::FormatViolation, "elf magic mismatch"));
    }
    if bytes[4] != ELFCLASS64 {
        return Err(GuestElfError::new(GuestElfErrorKind::FormatViolation, "elf class must be 64-bit"));
    }
    let elf_type = read_u16_le(bytes, 0x10);
    if elf_type != ET_EXEC {
        return Err(GuestElfError::new(GuestElfErrorKind::FormatViolation, "elf type must be ET_EXEC"));
    }
    let machine = read_u16_le(bytes, 0x12);
    if machine != EM_X86_64 {
        return Err(GuestElfError::new(GuestElfErrorKind::FormatViolation, "elf machine must be x86-64"));
    }
    let entry_vaddr = read_u64_le(bytes, 0x18);
    let phoff = read_u64_le(bytes, 0x20);
    let phentsize = read_u16_le(bytes, 0x36);
    let phnum = read_u16_le(bytes, 0x38);
    if phentsize as u64 != ELF64_PHENT_SIZE {
        return Err(GuestElfError::new(GuestElfErrorKind::FormatViolation, "unexpected elf program header size"));
    }
    let ghost b = bytes@;
    let ghost total = elf_load_segments(b, phoff, 0, phnum as int);
    let len = bytes.len() as u64;
    let mut load_segments: Vec<GuestElfLoadSegment> = Vec::new();
    let mut index: u16 = 0;
    proof {
        assert(load_segments@.map_values(|s: GuestElfLoadSegment| segment_view(s)) =~= Seq::<(u64, u64, Seq<u8>)>::empty());
        assert(Seq::<(u64, u64, Seq<u8>)>::empty() + Seq::<(u64, u64, Seq<u8>)>::empty() =~= Seq::<(u64, u64, Seq<u8>)>::empty());
    }
    while index < phnum
        invariant
            b == bytes@,
            len == b.len(),
            b.len() <= usize::MAX,
            len >= 64,
            index <= phnum,
            total == elf_load_segments(b, phoff, 0, phnum as int),
            elf_segments_failure(b, phoff, 0, phnum as int) == elf_segments_failure(b, phoff, index as int, phnum as int),
            elf_failure(b) == if total is Err {
                elf_segments_failure(b, phoff, 0, phnum as int)
            } else {
                "elf image has no PT_LOAD segments"@
            },
            elf_image(b) == match total {
                Err(k) => Err(k),
                Ok(segments) => if segments.len() == 0 {
                    Err(GuestElfErrorKind::FormatViolation)
                } else {
                    Ok((entry_vaddr, segments))
                },
            },
            total == match elf_load_segments(b, phoff, index as int, phnum as int) {
                Err(k) => Err(k),
                Ok(rest) => Ok::<Seq<(u64, u64, Seq<u8>)>, GuestElfErrorKind>(
                    load_segments@.map_values(|s: GuestElfLoadSegment| segment_view(s)) + rest),
            },
        decreases phnum - index,
    {
        let ghost acc = load_segments@.map_values(|s: GuestElfLoadSegment| segment_view(s));
        let base = match phoff.checked_add(index as u64 * ELF64_PHENT_SIZE) {
            Some(base) => base,
            None => {
                proof {
                    assert(elf_load_segments(b, phoff, index as int, phnum as int)
                        == Err::<Seq<(u64, u64, Seq<u8>)>, GuestElfErrorKind>(GuestElfErrorKind::FormatViolation));
                }
                return Err(GuestElfError::new(GuestElfErrorKind::FormatViolation, "elf offset overflow"));
            },
        };
        if base > len - 4 {
            proof {
                assert(elf_load_segments(b, phoff, index as int, phnum as int)
                    == Err::<Seq<(u64, u64, Seq<u8>)>, GuestElfErrorKind>(GuestElfErrorKind::InvalidInput));
            }
            return Err(GuestElfError::new(GuestElfErrorKind::InvalidInput, "elf read out of bounds"));
        }
        let base_index = base as usize;
        assert(base_index as int == base as int);
        let p_type = read_u32_le(bytes, base_index);
        if p_type != PT_LOAD {
            index = index + 1;
            continue;
        }
        if base > len - 40 {
            proof {
                assert(elf_load_segments(b, phoff, index as int, phnum as int)
                    == Err::<Seq<(u64, u64, Seq<u8>)>, GuestElfErrorKind>(GuestElfErrorKind::InvalidInput));
            }
            return Err(GuestElfError::new(GuestElfErrorKind::InvalidInput, "elf read out of bounds"));
        }
        let p_offset = read_u64_le(bytes, base_index + 0x08);
        let p_vaddr = read_u64_le(bytes, base_index + 0x10);
        let p_filesz = read_u64_le(bytes, base_index + 0x20);
        let end = match p_offset.checked_add(p_filesz) {
            Some(end) => end,
            None => {
                proof {
                    assert(elf_load_segments(b, phoff, index as int, phnum as int)
                        == Err::<Seq<(u64, u64, Seq<u8>)>, GuestElfErrorKind>(GuestElfErrorKind::FormatViolation));
                }
                return Err(GuestElfError::new(GuestElfErrorKind::FormatViolation, "elf offset overflow"));
            },
        };
        if end > len {
            proof {
                assert(elf_load_segments(b, phoff, index as int, phnum as int)
                    == Err::<Seq<(u64, u64, Seq<u8>)>, GuestElfErrorKind>(GuestElfErrorKind::FormatViolation));
            }
            return Err(GuestElfError::new(GuestElfErrorKind::FormatViolation, "elf PT_LOAD segment extends past image end"));
        }
        let segment_bytes = slice_to_vec(slice_subrange(bytes, p_offset as usize, end as usize));
        let segment = GuestElfLoadSegment { file_offset: p_offset, vaddr: p_vaddr, bytes: segment_bytes };
        load_segments.push(segment);
        proof {
            let sv = (p_offset, p_vaddr, b.subrange(p_offset as int, p_offset + p_filesz));
            assert(segment_view(segment) == sv);
            assert(load_segments@.map_values(|s: GuestElfLoadSegment| segment_view(s)) =~= acc.push(sv));
            match elf_load_segments(b, phoff, index as int + 1, phnum as int) {
                Err(k) => {},
                Ok(rest) => {
                    assert(acc + (seq![sv] + rest) =~= acc.push(sv) + rest);
                },
            }
        }
        index = index + 1;
    }
    proof {
        assert(load_segments@.map_values(|s: GuestElfLoadSegment| segment_view(s)) + Seq::<(u64, u64, Seq<u8>)>::empty()
            =~= load_segments@.map_values(|s: GuestElfLoadSegment| segment_view(s)));
    }
    if load_segments.len() == 0 {
        return Err(GuestElfError::new(GuestElfErrorKind::FormatViolation, "elf image has no PT_LOAD segments"));
    }
    let image = GuestElfImage { entry_vaddr, load_segments };
    proof {
        let segs = image_segments(image);
        assert(elf_image(b) == Ok::<(u64, Seq<(u64, u64, Seq<u8>)>), GuestElfErrorKind>((entry_vaddr, segs)));
        let js = choose|js: Seq<int>| segments_in_header_order(b, le_u64(b, 0x20), 0, le_u16(b, 0x38) as int, segs, js);
        assert(segments_in_header_order(b, le_u64(b, 0x20), 0, le_u16(b, 0x38) as int, segs, js));
    }
    Ok(image)
}

/// Returns the guest physical entry address after loading at `region_base`:
/// the base plus the linked entry address, when that fits in 64 bits.
pub fn guest_entry_phys_for_region(image: &GuestElfImage, region_base: u64) -> (r: Result<u64, GuestElfError>)
    ensures
        match r {
            Ok(entry) => entry == region_base + image.entry_vaddr,
            Err(e) => region_base + image.entry_vaddr > u64::MAX && e.kind == GuestElfErrorKind::FormatViolation,
        },
{
    match region_base.checked_add(image.entry_vaddr) {
        Some(entry) => Ok(entry),
        None => Err(GuestElfError::new(GuestElfErrorKind::FormatViolation, "guest entry overflow")),
    }
}

} // verus!
