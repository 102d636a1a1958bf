//! Guest physical to host physical resolution via programmed EPT mapping records.

use vstd::prelude::*;
use crate::ept::error::{EptError, EptErrorKind};
use crate::ept::program::{EptProgrammedMapping, EptProgrammedTables};

verus! {

/// Scans the mapping records in order for the first one that covers the
/// guest range `[guest_phys, guest_end)`. The scan fails at the first
/// record whose own end does not fit in 64 bits, and when the covering
/// record's host address for `guest_phys` does not fit in 64 bits.
pub open spec fn range_resolution(ms: Seq<EptProgrammedMapping>, guest_phys: u64, guest_end: int) -> Option<u64>
    decreases ms.len(),
{
    if ms.len() == 0 {
        None
    } else {
        let m = ms[0];
        if m.guest_phys + m.size_bytes > u64::MAX {
            None
        } else if guest_phys >= m.guest_phys && guest_end <= m.guest_phys + m.size_bytes {
            if m.host_phys + (guest_phys - m.guest_phys) > u64::MAX {
                None
            } else {
                Some((m.host_phys + (guest_phys - m.guest_phys)) as u64)
            }
        } else {
            range_resolution(ms.skip(1), guest_phys, guest_end)
        }
    }
}

/// Why the scan of `range_resolution` fails: the first record whose end
/// does not fit in 64 bits, a covering record whose host address does not
/// fit, or no covering record at all.
pub open spec fn range_failure(ms: Seq<EptProgrammedMapping>, guest_phys: u64, guest_end: int) -> Seq<char>
    decreases ms.len(),
{
    if ms.len() == 0 {
        "guest physical range not fully covered by programmed EPT mappings"@
    } else {
        let m = ms[0];
        if m.guest_phys + m.size_bytes > u64::MAX {
            "EPT mapping end overflow"@
        } else if guest_phys >= m.guest_phys && guest_end <= m.guest_phys + m.size_bytes {
            "resolved host phys overflow"@
        } else {
            range_failure(ms.skip(1), guest_phys, guest_end)
        }
    }
}

/// The message of a failed range resolution.
pub open spec fn guest_range_failure(ms: Seq<EptProgrammedMapping>, guest_phys: u64, len: int) -> Seq<char> {
    if len == 0 {
        "guest physical read length must be non-zero"@
    } else if guest_phys + len > u64::MAX {
        "guest physical read end overflow"@
    } else {
        range_failure(ms, guest_phys, guest_phys + len)
    }
}

/// What resolving `len` guest bytes at `guest_phys` gives: nothing for an
/// empty range or one whose end does not fit in 64 bits, else the scan.
pub open spec fn guest_range_host(ms: Seq<EptProgrammedMapping>, guest_phys: u64, len: int) -> Option<u64> {
    if len == 0 || guest_phys + len > u64::MAX {
        None
    } else {
        range_resolution(ms, guest_phys, guest_phys + len)
    }
}

/// Record `m` covers the guest range `[guest_phys, guest_end)`.
pub open spec fn mapping_covers(m: EptProgrammedMapping, guest_phys: int, guest_end: int) -> bool {
    m.guest_phys <= guest_phys && guest_end <= m.guest_phys + m.size_bytes
}

proof fn lemma_range_resolution_covering(ms: Seq<EptProgrammedMapping>, guest_phys: u64, guest_end: int)
    ensures
        range_resolution(ms, guest_phys, guest_end) matches Some(h) ==> exists|i: int| 0 <= i < ms.len()
            && #[trigger] mapping_covers(ms[i], guest_phys as int, guest_end)
            && h == ms[i].host_phys + (guest_phys - ms[i].guest_phys)
            && forall|j: int| 0 <= j < i ==> !#[trigger] mapping_covers(ms[j], guest_phys as int, guest_end),
        guest_phys < guest_end
            && (forall|i: int| 0 <= i < ms.len() ==> (#[trigger] ms[i]).guest_phys + ms[i].size_bytes <= u64::MAX
            && ms[i].host_phys + ms[i].size_bytes <= u64::MAX)
            && (exists|i: int| 0 <= i < ms.len() && #[trigger] mapping_covers(ms[i], guest_phys as int, guest_end))
            ==> range_resolution(ms, guest_phys, guest_end) is Some,
    decreases ms.len(),
{
    if ms.len() > 0 {
        let rest = ms.skip(1);
        lemma_range_resolution_covering(rest, guest_phys, guest_end);
        assert forall|i: int| 0 <= i < rest.len() implies #[trigger] rest[i] == ms[i + 1] by {}
        if let Some(h) = range_resolution(ms, guest_phys, guest_end) {
            if !mapping_covers(ms[0], guest_phys as int, guest_end) {
                let k = choose|i: int| 0 <= i < rest.len() && #[trigger] mapping_covers(rest[i], guest_phys as int, guest_end)
                    && h == rest[i].host_phys + (guest_phys - rest[i].guest_phys)
                    && forall|j: int| 0 <= j < i ==> !#[trigger] mapping_covers(rest[j], guest_phys as int, guest_end);
                assert(mapping_covers(ms[k + 1], guest_phys as int, guest_end));
                assert forall|j: int| 0 <= j < k + 1 implies !#[trigger] mapping_covers(ms[j], guest_phys as int, guest_end) by {
                    if j > 0 {
                        assert(ms[j] == rest[j - 1]);
                    }
                }
            } else {
                assert(mapping_covers(ms[0], guest_phys as int, guest_end));
            }
        }
        if guest_phys < guest_end && (forall|i: int| 0 <= i < ms.len() ==> (#[trigger] ms[i]).guest_phys + ms[i].size_bytes <= u64::MAX
            && ms[i].host_phys + ms[i].size_bytes <= u64::MAX)
            && (exists|i: int| 0 <= i < ms.len() && #[trigger] mapping_covers(ms[i], guest_phys as int, guest_end)) {
            assert(ms[0].guest_phys + ms[0].size_bytes <= u64::MAX);
            if !mapping_covers(ms[0], guest_phys as int, guest_end) {
                let k = choose|i: int| 0 <= i < ms.len() && #[trigger] mapping_covers(ms[i], guest_phys as int, guest_end);
                assert(k > 0);
                assert(mapping_covers(rest[k - 1], guest_phys as int, guest_end));
                assert forall|i: int| 0 <= i < rest.len() implies (#[trigger] rest[i]).guest_phys + rest[i].size_bytes <= u64::MAX
                    && rest[i].host_phys + rest[i].size_bytes <= u64::MAX by {
                    assert(rest[i] == ms[i + 1]);
                }
            }
        }
    }
}

/// Resolution law: a guest byte range resolves to host address `h` only
/// when the range is non-empty and some mapping record covers it, the
/// first such record in list order giving `h` = its host base plus the
/// range's offset into it; and when no record's end or host end overflows
/// and some record covers a non-empty range that fits in 64 bits, the range
/// resolves.
pub proof fn lemma_guest_range_resolves_through_covering_mapping(ms: Seq<EptProgrammedMapping>, guest_phys: u64, len: nat)
    ensures
        guest_range_host(ms, guest_phys, len as int) matches Some(h) ==> len > 0 && exists|i: int| 0 <= i < ms.len()
            && #[trigger] mapping_covers(ms[i], guest_phys as int, guest_phys + len)
            && h == ms[i].host_phys + (guest_phys - ms[i].guest_phys)
            && forall|j: int| 0 <= j < i ==> !#[trigger] mapping_covers(ms[j], guest_phys as int, guest_phys + len),
        len > 0 && guest_phys + len <= u64::MAX
            && (forall|i: int| 0 <= i < ms.len() ==> (#[trigger] ms[i]).guest_phys + ms[i].size_bytes <= u64::MAX
                && ms[i].host_phys + ms[i].size_bytes <= u64::MAX)
            && (exists|i: int| 0 <= i < ms.len() && #[trigger] mapping_covers(ms[i], guest_phys as int, guest_phys + len))
            ==> guest_range_host(ms, guest_phys, len as int) is Some,
{
    lemma_range_resolution_covering(ms, guest_phys, guest_phys + len);
}

/// Resolves the host physical base for a guest physical byte range.
pub fn resolve_guest_phys_range_to_host(
    tables: &EptProgrammedTables,
    guest_phys: u64,
    len: usize,
) -> (r: Result<u64, EptError>)
    ensures
        match r {
            Ok(host) => guest_range_host(tables.mappings@, guest_phys, len as int) == Some(host),
            Err(e) => guest_range_host(tables.mappings@, guest_phys, len as int) is None
                && e.kind == EptErrorKind::Planning
                && e.message@ == guest_range_failure(tables.mappings@, guest_phys, len as int),
        },
{
    if len == 0 {
        return Err(EptError::new(EptErrorKind::Planning, "guest physical read length must be non-zero"));
    }
    let guest_end = match guest_phys.checked_add(len as u64) {
        Some(end) => end,
        None => return Err(EptError::new(EptErrorKind::Planning, "guest physical read end overflow")),
    };
    let ghost ms = tables.mappings@;
    let count = tables.mappings.len();
    proof {
        assert(ms.skip(0) =~= ms);
    }
    let mut i: usize = 0;
    while i < count
        invariant
            count == ms.len(),
            ms == tables.mappings@,
            i <= count,
            guest_end == guest_phys + len,
            len > 0,
            guest_range_host(ms, guest_phys, len as int) == range_resolution(ms.skip(i as int), guest_phys, guest_end as int),
            guest_range_failure(ms, guest_phys, len as int) == range_failure(ms.skip(i as int), guest_phys, guest_end as int),
        decreases count - i,
    {
        proof {
            assert(ms.skip(i as int)[0] == ms[i as int]);
            assert(ms.skip(i as int).skip(1) =~= ms.skip(i as int + 1));
        }
        let start = tables.mappings[i].guest_phys;
        let end = match start.checked_add(tables.mappings[i].size_bytes) {
            Some(end) => end,
            None => return Err(EptError::new(EptErrorKind::Planning, "EPT mapping end overflow")),
        };
        if guest_phys >= start && guest_end <= end {
            let offset = guest_phys - start;
            return match tables.mappings[i].host_phys.checked_add(offset) {
                Some(host) => Ok(host),
                None => Err(EptError::new(EptErrorKind::Planning, "resolved host phys overflow")),
            };
        }
        i = i + 1;
    }
    proof {
        assert(ms.skip(count as int).len() == 0);
    }
    Err(EptError::new(EptErrorKind::Planning, "guest physical range not fully covered by programmed EPT mappings"))
}

/// Resolves a guest physical address to host physical using programmed mapping records.
pub fn resolve_guest_phys_to_host(tables: &EptProgrammedTables, guest_phys: u64) -> (r: Result<u64, EptError>)
    ensures
        match r {
            Ok(host) => guest_range_host(tables.mappings@, guest_phys, 1) == Some(host),
            Err(e) => guest_range_host(tables.mappings@, guest_phys, 1) is None && e.kind == EptErrorKind::Planning
                && e.message@ == guest_range_failure(tables.mappings@, guest_phys, 1),
        },
{
    resolve_guest_phys_range_to_host(tables, guest_phys, 1)
}

} // verus!
