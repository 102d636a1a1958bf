//! UEFI page allocation bookkeeping for REAL_HW Gate C resident installs.
//!
//! The allocator records each block the firmware hands out with the number
//! of bytes it can hold, and admits a copy only into a recorded block and
//! only up to that capacity.

use vstd::prelude::*;
use vstd::string::StringExecFns;

verus! {

/// Size in bytes of one UEFI page.
pub const UEFI_PAGE_SIZE: usize = 4096;

/// Kind of resident install error.
#[derive(Debug, Clone, Copy, PartialEq, Eq, Structural)]
pub enum CpuSeamErrorKind {
    /// The request itself was invalid.
    InvalidInput,
    /// The firmware could not provide what was asked.
    Unavailable,
}

/// Structured resident install error.
#[derive(Debug, Clone, PartialEq, Eq)]
pub struct CpuSeamError {
    /// Error category.
    pub kind: CpuSeamErrorKind,
    /// Human-readable message.
    pub message: String,
}

impl CpuSeamError {
    /// Creates a new resident install error.
    pub fn new(kind: CpuSeamErrorKind, message: &str) -> (e: Self)
        ensures
            e.kind == kind,
            e.message@ == message@,
    {
        CpuSeamError { kind, message: String::from_str(message) }
    }
}

/// Whether `align` is a power of two.
pub open spec fn is_power_of_two(align: u64) -> bool {
    align != 0 && align & ((align - 1) as u64) == 0
}

/// The number of UEFI pages that hold `len` bytes, or `None` when the
/// rounding overflows `usize`.
pub open spec fn page_count_for(len: usize) -> Option<usize> {
    if len + (UEFI_PAGE_SIZE - 1) <= usize::MAX {
        Some(((len + (UEFI_PAGE_SIZE - 1)) / (UEFI_PAGE_SIZE as int)) as usize)
    } else {
        None
    }
}

/// The byte capacity recorded for `page_count` pages.
pub open spec fn capacity_for(page_count: usize) -> usize {
    if page_count * UEFI_PAGE_SIZE <= usize::MAX {
        (page_count * UEFI_PAGE_SIZE) as usize
    } else {
        usize::MAX
    }
}

/// The capacity of the first block of `pages[from..]` at `host_phys`.
pub open spec fn block_capacity_from(pages: Seq<(u64, usize)>, host_phys: u64, from: int) -> Option<usize>
    decreases pages.len() - from,
{
    if from < 0 || from >= pages.len() {
        None
    } else if pages[from].0 == host_phys {
        Some(pages[from].1)
    } else {
        block_capacity_from(pages, host_phys, from + 1)
    }
}

/// The capacity of the first recorded block at `host_phys`.
pub open spec fn block_capacity(pages: Seq<(u64, usize)>, host_phys: u64) -> Option<usize> {
    block_capacity_from(pages, host_phys, 0)
}

/// Checks an allocation request: a non-zero size and a power-of-two alignment.
pub fn validate_allocation_request(size: usize, align: u64) -> (r: Result<(), CpuSeamError>)
    ensures
        r is Ok <==> size != 0 && is_power_of_two(align),
        r matches Err(e) ==> e.kind == CpuSeamErrorKind::InvalidInput && e.message@ == if size == 0 {
            "UEFI allocation size must be non-zero"@
        } else {
            "UEFI allocation alignment must be a power of two"@
        },
{
    if size == 0 {
        return Err(CpuSeamError::new(
            CpuSeamErrorKind::InvalidInput,
            "UEFI allocation size must be non-zero",
        ));
    }
    if align == 0 || align & (align - 1) != 0 {
        return Err(CpuSeamError::new(
            CpuSeamErrorKind::InvalidInput,
            "UEFI allocation alignment must be a power of two",
        ));
    }
    Ok(())
}

/// The number of UEFI pages needed for `len` bytes (rounded up).
pub fn pages_for_bytes(len: usize) -> (r: Result<usize, CpuSeamError>)
    ensures
        match r {
            Ok(count) => page_count_for(len) == Some(count),
            Err(e) => page_count_for(len) is None && e.kind == CpuSeamErrorKind::InvalidInput
                && e.message@ == "allocation size overflow"@,
        },
{
    match len.checked_add(UEFI_PAGE_SIZE - 1) {
        Some(rounded) => Ok(rounded / UEFI_PAGE_SIZE),
        None => Err(CpuSeamError::new(CpuSeamErrorKind::InvalidInput, "allocation size overflow")),
    }
}

/// Rounding up to whole pages leaves room for every requested byte.
pub proof fn lemma_page_count_covers_request(len: usize)
    requires
        page_count_for(len) is Some,
    ensures
        page_count_for(len) matches Some(count) && len <= capacity_for(count),
{
    let count = ((len + 4095) / 4096) as usize;
    assert(count * 4096 >= len && count * 4096 <= len + 4095) by (nonlinear_arith)
        requires
            count == (len + 4095) / 4096,
            len >= 0;
}

/// Page rounding law: `len` bytes need the least whole number of 4096-byte
/// pages that holds them, unless rounding up overflows `usize`.
pub proof fn lemma_page_count_is_rounded_up(len: usize)
    ensures
        page_count_for(len) is None <==> len + 4095 > usize::MAX,
        page_count_for(len) matches Some(count) ==> count * 4096 >= len && count * 4096 < len + 4096,
{
    if len + 4095 <= usize::MAX {
        let count = ((len + 4095) / 4096) as usize;
        assert(count * 4096 >= len && count * 4096 <= len + 4095) by (nonlinear_arith)
            requires
                count == (len + 4095) / 4096,
                len >= 0;
    }
}

/// How the allocator answers the firmware's reply `outcome` to a request for
/// `page_count` pages aligned to `align`: a block at an aligned address is
/// recorded with its capacity and its address returned; a firmware error or
/// a misaligned block is reported as unavailable and nothing is recorded.
pub open spec fn firmware_reply_recorded(
    before: Seq<(u64, usize)>,
    after: Seq<(u64, usize)>,
    outcome: Result<u64, String>,
    page_count: usize,
    align: u64,
    r: Result<u64, CpuSeamError>,
) -> bool {
    match outcome {
        Ok(host_phys) => if host_phys & ((align - 1) as u64) == 0 {
            r == Ok::<u64, CpuSeamError>(host_phys) && after == before.push((host_phys, capacity_for(page_count)))
        } else {
            r matches Err(e) && e.kind == CpuSeamErrorKind::Unavailable
                && e.message@ == "UEFI page allocation did not satisfy alignment"@
                && after == before
        },
        Err(text) => r matches Err(e) && e.kind == CpuSeamErrorKind::Unavailable
            && e.message@ == "UEFI AllocatePages failed: "@ + text@
            && after == before,
    }
}

/// Allocates conventional UEFI pages and admits copies of programmed Gate C
/// structures into them.
#[derive(Debug)]
pub struct UefiPageAllocator {
    pages: Vec<(u64, usize)>,
}

impl View for UefiPageAllocator {
    type V = Seq<(u64, usize)>;

    /// The recorded blocks as (physical address, byte capacity), oldest first.
    closed spec fn view(&self) -> Seq<(u64, usize)> {
        self.pages@
    }
}

impl Default for UefiPageAllocator {
    fn default() -> (a: Self)
        ensures
            a@ == Seq::<(u64, usize)>::empty(),
    {
        UefiPageAllocator { pages: Vec::new() }
    }
}

impl UefiPageAllocator {
    /// Creates an empty UEFI page allocator.
    pub fn new() -> (a: Self)
        ensures
            a@ == Seq::<(u64, usize)>::empty(),
    {
        UefiPageAllocator { pages: Vec::new() }
    }

    /// Records the firmware's answer to a request for `page_count` pages
    /// aligned to `align`: a block at an aligned address is recorded with
    /// its capacity and its address returned; a firmware error or a
    /// misaligned block is reported as unavailable and nothing is recorded.
    pub fn accept_firmware_pages(
        &mut self,
        outcome: Result<u64, String>,
        page_count: usize,
        align: u64,
    ) -> (r: Result<u64, CpuSeamError>)
        requires
            is_power_of_two(align),
        ensures
            firmware_reply_recorded(old(self)@, final(self)@, outcome, page_count, align, r),
    {
        match outcome {
            Ok(host_phys) => {
                if host_phys & (align - 1) != 0 {
                    return Err(CpuSeamError::new(
                        CpuSeamErrorKind::Unavailable,
                        "UEFI page allocation did not satisfy alignment",
                    ));
                }
                let capacity: usize = match page_count.checked_mul(UEFI_PAGE_SIZE) {
                    Some(bytes) => bytes,
                    None => usize::MAX,
                };
                self.pages.push((host_phys, capacity));
                Ok(host_phys)
            },
            Err(text) => {
                let mut message = String::from_str("UEFI AllocatePages failed: ");
                message.append(text.as_str());
                Err(CpuSeamError { kind: CpuSeamErrorKind::Unavailable, message })
            },
        }
    }

    /// Allocates pages for `size` bytes aligned to `align`. Invalid
    /// requests are refused before the firmware is asked; otherwise
    /// `firmware` is asked once for the number of whole pages that hold
    /// `size` bytes, and its reply is recorded as `accept_firmware_pages`
    /// describes; a recorded block holds at least `size` bytes.
    pub fn allocate_pages<F: FnOnce(usize) -> Result<u64, String>>(
        &mut self,
        size: usize,
        align: u64,
        firmware: F,
    ) -> (r: Result<u64, CpuSeamError>)
        requires
            forall|count: usize| call_requires(firmware, (count,)),
        ensures
            !(size != 0 && is_power_of_two(align)) ==> (r matches Err(e)
                && e.kind == CpuSeamErrorKind::InvalidInput && e.message@ == if size == 0 {
                    "UEFI allocation size must be non-zero"@
                } else {
                    "UEFI allocation alignment must be a power of two"@
                }) && final(self)@ == old(self)@,
            size != 0 && is_power_of_two(align) && page_count_for(size) is None ==> (r matches Err(e)
                && e.kind == CpuSeamErrorKind::InvalidInput && e.message@ == "allocation size overflow"@)
                && final(self)@ == old(self)@,
            size != 0 && is_power_of_two(align) && page_count_for(size) is Some ==> {
                let count = page_count_for(size)->0;
                &&& size <= capacity_for(count)
                &&& exists|outcome: Result<u64, String>| call_ensures(firmware, (count,), outcome)
                    && #[trigger] firmware_reply_recorded(old(self)@, final(self)@, outcome, count, align, r)
            },
    {
        if let Err(e) = validate_allocation_request(size, align) {
            return Err(e);
        }
        let page_count = match pages_for_bytes(size) {
            Ok(count) => count,
            Err(e) => return Err(e),
        };
        proof {
            lemma_page_count_covers_request(size);
        }
        let outcome = firmware(page_count);
        let ghost reply = outcome;
        let ghost before = self@;
        let r = self.accept_firmware_pages(outcome, page_count, align);
        assert(firmware_reply_recorded(before, self@, reply, page_count, align, r));
        r
    }

    /// Admits a copy of `len` bytes into the block recorded at `host_phys`:
    /// the first recorded block at that address must hold them.
    pub fn check_copy_to_pages(&self, host_phys: u64, len: usize) -> (r: Result<(), CpuSeamError>)
        ensures
            match block_capacity(self@, host_phys) {
                None => r matches Err(e) && e.kind == CpuSeamErrorKind::InvalidInput
                    && e.message@ == "copy target was not allocated by this allocator"@,
                Some(capacity) => if len <= capacity {
                    r is Ok
                } else {
                    r matches Err(e) && e.kind == CpuSeamErrorKind::InvalidInput
                        && e.message@ == "copy exceeds allocated page capacity"@
                },
            },
    {
        let mut i: usize = 0;
        while i < self.pages.len()
            invariant
                i <= self.pages@.len(),
                block_capacity(self.pages@, host_phys) == block_capacity_from(self.pages@, host_phys, i as int),
            decreases self.pages@.len() - i,
        {
            let (phys, capacity) = self.pages[i];
            if phys == host_phys {
                if len > capacity {
                    return Err(CpuSeamError::new(
                        CpuSeamErrorKind::InvalidInput,
                        "copy exceeds allocated page capacity",
                    ));
                }
                return Ok(());
            }
            i = i + 1;
        }
        Err(CpuSeamError::new(
            CpuSeamErrorKind::InvalidInput,
            "copy target was not allocated by this allocator",
        ))
    }
}

/// Block lookup law: the capacity found for `host_phys` is that of a
/// recorded block at that address with no earlier block at it; nothing is
/// found exactly when no block is recorded at that address.
pub proof fn lemma_block_capacity_is_first_match(pages: Seq<(u64, usize)>, host_phys: u64)
    ensures
        block_capacity(pages, host_phys) is None <==> forall|i: int| 0 <= i < pages.len() ==> #[trigger] pages[i].0 != host_phys,
        block_capacity(pages, host_phys) matches Some(c) ==> exists|i: int| 0 <= i < pages.len()
            && #[trigger] pages[i] == (host_phys, c) && forall|j: int| 0 <= j < i ==> #[trigger] pages[j].0 != host_phys,
{
    lemma_block_capacity_search(pages, host_phys, 0);
}

proof fn lemma_block_capacity_search(pages: Seq<(u64, usize)>, host_phys: u64, from: int)
    requires
        0 <= from,
    ensures
        block_capacity_from(pages, host_phys, from) is None <==> forall|i: int| from <= i < pages.len() ==> #[trigger] pages[i].0 != host_phys,
        block_capacity_from(pages, host_phys, from) matches Some(c) ==> exists|i: int| from <= i < pages.len()
            && #[trigger] pages[i] == (host_phys, c) && forall|j: int| from <= j < i ==> #[trigger] pages[j].0 != host_phys,
    decreases pages.len() - from,
{
    if from < pages.len() {
        lemma_block_capacity_search(pages, host_phys, from + 1);
        if pages[from].0 == host_phys {
            assert(pages[from] == (host_phys, pages[from].1));
        }
    }
}

/// A copy that fits a newly recorded block is admitted, whatever was
/// recorded before, as long as no earlier block shares its address.
pub proof fn lemma_new_block_admits_copy(pages: Seq<(u64, usize)>, host_phys: u64, capacity: usize, len: usize)
    requires
        forall|i: int| 0 <= i < pages.len() ==> pages[i].0 != host_phys,
        len <= capacity,
    ensures
        block_capacity(pages.push((host_phys, capacity)), host_phys) matches Some(c) && len <= c,
{
    let all = pages.push((host_phys, capacity));
    lemma_block_capacity_skips(all, host_phys, 0, pages.len() as int);
}

proof fn lemma_block_capacity_skips(pages: Seq<(u64, usize)>, host_phys: u64, from: int, to: int)
    requires
        0 <= from <= to < pages.len(),
        forall|i: int| from <= i < to ==> pages[i].0 != host_phys,
    ensures
        block_capacity_from(pages, host_phys, from) == block_capacity_from(pages, host_phys, to),
    decreases to - from,
{
    if from < to {
        lemma_block_capacity_skips(pages, host_phys, from + 1, to);
    }
}

} // verus!
