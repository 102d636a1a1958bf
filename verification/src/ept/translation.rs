//! What a materialized hierarchy translates: each guest page to the host
//! page of the last mapping record that covers it.

use vstd::prelude::*;
use crate::ept::paging::{
    built_from, decode_leaf, expected_walk, in_slot, last_slot_write, last_write, mapping_pages, mapping_valid,
    page_writes, pd_index, pdpt_index, pml4_index, pt_index, resolve_page, slot_in_range, walk,
    EPT_ENTRY_ADDRESS_MASK, EPT_SYNTHETIC_TABLE_FLAG,
};
use crate::ept::program::{append_accepted, conflicts, leaf_entry, lemma_leaf_entry_bits, new_mapping, EptProgrammedMapping};
use crate::ept::resolve::{guest_range_host, range_resolution};

verus! {

/// Size of the guest physical space a four-level walk distinguishes (256 TiB).
pub open spec fn guest_space_limit() -> int {
    0x1_0000_0000_0000
}

/// Host addresses whose leaf entries the hierarchy can decode (below bit 63).
pub open spec fn host_space_limit() -> int {
    0x8000_0000_0000_0000
}

/// The host address mapping `m` gives guest address `a`, if it covers it.
pub open spec fn mapping_host_at(m: EptProgrammedMapping, a: int) -> Option<u64> {
    if m.guest_phys <= a < m.guest_phys + m.size_bytes {
        Some((m.host_phys + (a - m.guest_phys)) as u64)
    } else {
        None
    }
}

/// The host address the last mapping covering guest address `a` gives it.
pub open spec fn host_at(ms: Seq<EptProgrammedMapping>, a: int) -> Option<u64>
    decreases ms.len(),
{
    if ms.len() == 0 {
        None
    } else {
        match mapping_host_at(ms.last(), a) {
            Some(h) => Some(h),
            None => host_at(ms.drop_last(), a),
        }
    }
}

/// A mapping the hierarchy translates faithfully: valid, page-aligned,
/// inside the guest space a walk distinguishes, and with host pages it can
/// encode.
pub open spec fn mapping_translatable(m: EptProgrammedMapping) -> bool {
    &&& mapping_valid(m)
    &&& m.guest_phys % 4096 == 0
    &&& m.host_phys % 4096 == 0
    &&& m.guest_phys + m.size_bytes <= guest_space_limit()
    &&& m.host_phys + m.size_bytes <= host_space_limit()
}

/// The guest address of a slot.
pub open spec fn slot_addr(i0: int, i1: int, i2: int, i3: int) -> int {
    i0 * 0x80_0000_0000 + i1 * 0x4000_0000 + i2 * 0x20_0000 + i3 * 0x1000
}

proof fn lemma_slot_decompose(a: u64)
    requires
        a < 0x1_0000_0000_0000,
        a % 4096 == 0,
    ensures
        a == slot_addr(pml4_index(a), pdpt_index(a), pd_index(a), pt_index(a)),
        slot_in_range(pml4_index(a), pdpt_index(a), pd_index(a), pt_index(a)),
{
    assert(a < 0x1_0000_0000_0000u64 && a % 4096u64 == 0u64 ==> a == ((a >> 39u64) & 0x1FFu64) * 0x80_0000_0000u64
        + ((a >> 30u64) & 0x1FFu64) * 0x4000_0000u64 + ((a >> 21u64) & 0x1FFu64) * 0x20_0000u64
        + ((a >> 12u64) & 0x1FFu64) * 0x1000u64) by (bit_vector);
    assert((a >> 39u64) & 0x1FFu64 < 512u64 && (a >> 30u64) & 0x1FFu64 < 512u64
        && (a >> 21u64) & 0x1FFu64 < 512u64 && (a >> 12u64) & 0x1FFu64 < 512u64) by (bit_vector);
}

proof fn lemma_slot_compose(i0: u64, i1: u64, i2: u64, i3: u64)
    requires
        i0 < 512, i1 < 512, i2 < 512, i3 < 512,
    ensures
        slot_addr(i0 as int, i1 as int, i2 as int, i3 as int) < 0x1_0000_0000_0000,
        slot_addr(i0 as int, i1 as int, i2 as int, i3 as int) % 4096 == 0,
        in_slot(slot_addr(i0 as int, i1 as int, i2 as int, i3 as int) as u64, i0 as int, i1 as int, i2 as int, i3 as int),
{
    assert(i0 < 512u64 && i1 < 512u64 && i2 < 512u64 && i3 < 512u64 ==> {
        let x = (i0 * 0x80_0000_0000u64 + i1 * 0x4000_0000u64 + i2 * 0x20_0000u64 + i3 * 0x1000u64) as u64;
        &&& i0 * 0x80_0000_0000u64 + i1 * 0x4000_0000u64 + i2 * 0x20_0000u64 + i3 * 0x1000u64 < 0x1_0000_0000_0000u64
        &&& x % 4096u64 == 0u64
        &&& (x >> 39u64) & 0x1FFu64 == i0
        &&& (x >> 30u64) & 0x1FFu64 == i1
        &&& (x >> 21u64) & 0x1FFu64 == i2
        &&& (x >> 12u64) & 0x1FFu64 == i3
    }) by (bit_vector);
}

/// Inside the guest space a walk distinguishes, an aligned address is in
/// a slot exactly when it is that slot's address.
proof fn lemma_in_slot_iff(a: u64, i0: int, i1: int, i2: int, i3: int)
    requires
        a < 0x1_0000_0000_0000,
        a % 4096 == 0,
        slot_in_range(i0, i1, i2, i3),
    ensures
        in_slot(a, i0, i1, i2, i3) <==> a == slot_addr(i0, i1, i2, i3),
{
    lemma_slot_decompose(a);
    lemma_slot_compose(i0 as u64, i1 as u64, i2 as u64, i3 as u64);
}

proof fn lemma_last_write_append(ws1: Seq<(u64, u64, bool)>, ws2: Seq<(u64, u64, bool)>, i0: int, i1: int, i2: int, i3: int)
    ensures
        last_slot_write(ws1 + ws2, i0, i1, i2, i3) == match last_slot_write(ws2, i0, i1, i2, i3) {
            Some(w) => Some(w),
            None => last_slot_write(ws1, i0, i1, i2, i3),
        },
    decreases ws2.len(),
{
    if ws2.len() == 0 {
        assert(ws1 + ws2 =~= ws1);
    } else {
        assert((ws1 + ws2).drop_last() =~= ws1 + ws2.drop_last());
        assert((ws1 + ws2).last() == ws2.last());
        lemma_last_write_append(ws1, ws2.drop_last(), i0, i1, i2, i3);
    }
}

/// The pages of one mapping land in distinct slots, so the last write a
/// slot receives from the mapping is the mapping's page at that address.
proof fn lemma_mapping_pages_last_write(m: EptProgrammedMapping, n: int, i0: int, i1: int, i2: int, i3: int)
    requires
        mapping_translatable(m),
        0 <= n <= m.size_bytes / 4096,
        slot_in_range(i0, i1, i2, i3),
    ensures
        last_write(mapping_pages(m).subrange(0, n), i0, i1, i2, i3) == if m.guest_phys <= slot_addr(i0, i1, i2, i3)
            < m.guest_phys + n * 4096 {
            mapping_host_at(m, slot_addr(i0, i1, i2, i3))
        } else {
            None
        },
    decreases n,
{
    let ps = mapping_pages(m).subrange(0, n);
    if n > 0 {
        assert(ps.drop_last() =~= mapping_pages(m).subrange(0, n - 1));
        lemma_mapping_pages_last_write(m, n - 1, i0, i1, i2, i3);
        let g = m.guest_phys + (n - 1) * 4096;
        assert(ps.last() == ((m.guest_phys + (n - 1) * 4096) as u64, (m.host_phys + (n - 1) * 4096) as u64, m.guest_writable));
        assert(g + 4096 <= m.guest_phys + m.size_bytes) by (nonlinear_arith)
            requires n <= m.size_bytes / 4096, g == m.guest_phys + (n - 1) * 4096, m.size_bytes % 4096 == 0;
        lemma_in_slot_iff(g as u64, i0, i1, i2, i3);
    }
}

/// Materialized writes resolve every slot to the last mapping covering its address.
proof fn lemma_page_writes_last_write(ms: Seq<EptProgrammedMapping>, i0: int, i1: int, i2: int, i3: int)
    requires
        forall|j: int| 0 <= j < ms.len() ==> #[trigger] mapping_translatable(ms[j]),
        slot_in_range(i0, i1, i2, i3),
    ensures
        last_write(page_writes(ms), i0, i1, i2, i3) == host_at(ms, slot_addr(i0, i1, i2, i3)),
    decreases ms.len(),
{
    if ms.len() > 0 {
        let m = ms.last();
        assert(mapping_translatable(ms[ms.len() - 1]));
        assert(forall|j: int| 0 <= j < ms.drop_last().len() ==> ms.drop_last()[j] == ms[j]);
        lemma_page_writes_last_write(ms.drop_last(), i0, i1, i2, i3);
        lemma_last_write_append(page_writes(ms.drop_last()), mapping_pages(m), i0, i1, i2, i3);
        assert(mapping_pages(m).subrange(0, (m.size_bytes / 4096) as int) =~= mapping_pages(m));
        lemma_mapping_pages_last_write(m, (m.size_bytes / 4096) as int, i0, i1, i2, i3);
        assert((m.size_bytes / 4096) * 4096 == m.size_bytes);
    }
}

/// Translation law of the EPT hierarchy: once materialized from mapping
/// records inside the guest space a four-level walk distinguishes (and
/// with host pages it can encode), every page-aligned guest address below
/// 256 TiB resolves to the host page of the last record covering it, with
/// the entry's address bits, and to nothing when no record covers it.
pub proof fn lemma_materialized_translation(t: crate::ept::program::EptProgrammedTables, ms: Seq<EptProgrammedMapping>, g: u64)
    requires
        built_from(t, ms),
        forall|j: int| 0 <= j < ms.len() ==> #[trigger] mapping_translatable(ms[j]),
        g % 4096 == 0,
        g < guest_space_limit(),
    ensures
        resolve_page(t, g) == match host_at(ms, g as int) {
            Some(h) => Some(h & EPT_ENTRY_ADDRESS_MASK),
            None => None::<u64>,
        },
{
    let (i0, i1, i2, i3) = (pml4_index(g), pdpt_index(g), pd_index(g), pt_index(g));
    lemma_slot_decompose(g);
    lemma_page_writes_last_write(ms, i0, i1, i2, i3);
    match host_at(ms, g as int) {
        Some(h) => {
            lemma_host_at_bound(ms, g as int);
            lemma_leaf_entry_bits(h, true);
            assert(h < 0x8000_0000_0000_0000u64 ==> h & 0x8000_0000_0000_0000u64 == 0) by (bit_vector);
        },
        None => {},
    }
}

proof fn lemma_host_at_bound(ms: Seq<EptProgrammedMapping>, a: int)
    requires
        forall|j: int| 0 <= j < ms.len() ==> #[trigger] mapping_translatable(ms[j]),
    ensures
        host_at(ms, a) matches Some(h) ==> h < host_space_limit(),
    decreases ms.len(),
{
    if ms.len() > 0 {
        assert(mapping_translatable(ms[ms.len() - 1]));
        assert(forall|j: int| 0 <= j < ms.drop_last().len() ==> ms.drop_last()[j] == ms[j]);
        lemma_host_at_bound(ms.drop_last(), a);
    }
}


/// A page of the mapping a successful append added resolves to its host
/// page: the new mapping is the last record, so it wins over any earlier
/// record covering the same guest page.
pub proof fn lemma_appended_page_resolves(
    t: crate::ept::program::EptProgrammedTables,
    ms: Seq<EptProgrammedMapping>,
    m: EptProgrammedMapping,
    k: int,
)
    requires
        built_from(t, ms.push(m)),
        forall|j: int| 0 <= j < ms.push(m).len() ==> #[trigger] mapping_translatable(ms.push(m)[j]),
        0 <= k < m.size_bytes / 4096,
    ensures
        resolve_page(t, (m.guest_phys + k * 4096) as u64) == Some(((m.host_phys + k * 4096) as u64) & EPT_ENTRY_ADDRESS_MASK),
{
    assert(mapping_translatable(ms.push(m)[ms.len() as int]));
    let g = m.guest_phys + k * 4096;
    assert(g + 4096 <= m.guest_phys + m.size_bytes) by (nonlinear_arith)
        requires k < m.size_bytes / 4096, g == m.guest_phys + k * 4096, m.size_bytes % 4096 == 0;
    assert(ms.push(m).last() == m);
    lemma_materialized_translation(t, ms.push(m), g as u64);
}

/// No guest address is covered by two mapping records.
pub open spec fn records_disjoint(ms: Seq<EptProgrammedMapping>) -> bool {
    forall|i: int, j: int| 0 <= i < j < ms.len() ==> #[trigger] ms[i].guest_phys + ms[i].size_bytes <= #[trigger] ms[j].guest_phys
        || ms[j].guest_phys + ms[j].size_bytes <= ms[i].guest_phys
}

/// Appending keeps the mapping records disjoint: a mapping the append
/// accepts overlaps no existing record.
pub proof fn lemma_append_keeps_records_disjoint(
    ms: Seq<EptProgrammedMapping>,
    guest_phys: u64,
    host_phys: u64,
    size_bytes: u64,
    guest_writable: bool,
)
    requires
        records_disjoint(ms),
        append_accepted(ms, guest_phys, host_phys, size_bytes),
    ensures
        records_disjoint(ms.push(new_mapping(guest_phys, host_phys, size_bytes, guest_writable))),
{
    let all = ms.push(new_mapping(guest_phys, host_phys, size_bytes, guest_writable));
    assert forall|i: int, j: int| 0 <= i < j < all.len() implies #[trigger] all[i].guest_phys + all[i].size_bytes <= #[trigger] all[j].guest_phys
        || all[j].guest_phys + all[j].size_bytes <= all[i].guest_phys by {
        if j == ms.len() {
            assert(!conflicts(ms[i], guest_phys, guest_phys + size_bytes));
        } else {
            assert(all[i] == ms[i] && all[j] == ms[j]);
        }
    }
}

/// The record a unique covering mapping gives the last-cover lookup.
proof fn lemma_host_at_unique(ms: Seq<EptProgrammedMapping>, a: int, i: int)
    requires
        0 <= i < ms.len(),
        mapping_host_at(ms[i], a) is Some,
        forall|j: int| 0 <= j < ms.len() && j != i ==> #[trigger] mapping_host_at(ms[j], a) is None,
    ensures
        host_at(ms, a) == mapping_host_at(ms[i], a),
    decreases ms.len(),
{
    if i != ms.len() - 1 {
        assert(mapping_host_at(ms[ms.len() - 1], a) is None);
        assert(forall|j: int| 0 <= j < ms.drop_last().len() ==> ms.drop_last()[j] == ms[j]);
        lemma_host_at_unique(ms.drop_last(), a, i);
    }
}

proof fn lemma_host_at_none(ms: Seq<EptProgrammedMapping>, a: int)
    requires
        forall|j: int| 0 <= j < ms.len() ==> #[trigger] mapping_host_at(ms[j], a) is None,
    ensures
        host_at(ms, a) is None,
    decreases ms.len(),
{
    if ms.len() > 0 {
        assert(mapping_host_at(ms[ms.len() - 1], a) is None);
        assert(forall|j: int| 0 <= j < ms.drop_last().len() ==> ms.drop_last()[j] == ms[j]);
        lemma_host_at_none(ms.drop_last(), a);
    }
}

/// The record scan over translatable records finds the unique covering
/// mapping, or nothing when none covers the address.
proof fn lemma_scan_matches_cover(ms: Seq<EptProgrammedMapping>, g: u64)
    requires
        forall|j: int| 0 <= j < ms.len() ==> #[trigger] mapping_translatable(ms[j]),
        forall|i: int, j: int| #![trigger mapping_host_at(ms[i], g as int), mapping_host_at(ms[j], g as int)]
            0 <= i < j < ms.len() && mapping_host_at(ms[i], g as int) is Some ==> mapping_host_at(ms[j], g as int) is None,
        g < guest_space_limit(),
    ensures
        range_resolution(ms, g, g + 1) == host_at(ms, g as int),
    decreases ms.len(),
{
    if ms.len() > 0 {
        let m = ms[0];
        assert(mapping_translatable(m));
        let rest = ms.skip(1);
        assert(forall|j: int| 0 <= j < rest.len() ==> rest[j] == ms[j + 1]);
        if mapping_host_at(m, g as int) is Some {
            assert forall|j: int| 0 <= j < ms.len() && j != 0 implies #[trigger] mapping_host_at(ms[j], g as int) is None by {
                assert(mapping_host_at(ms[0], g as int) is Some);
            }
            lemma_host_at_unique(ms, g as int, 0);
        } else {
            assert forall|i: int, j: int| #![trigger mapping_host_at(rest[i], g as int), mapping_host_at(rest[j], g as int)]
                0 <= i < j < rest.len() && mapping_host_at(rest[i], g as int) is Some
                implies mapping_host_at(rest[j], g as int) is None by {
                assert(rest[i] == ms[i + 1] && rest[j] == ms[j + 1]);
            }
            assert(forall|j: int| 0 <= j < rest.len() ==> #[trigger] mapping_translatable(rest[j])) by {
                assert forall|j: int| 0 <= j < rest.len() implies #[trigger] mapping_translatable(rest[j]) by {
                    assert(rest[j] == ms[j + 1]);
                    assert(mapping_translatable(ms[j + 1]));
                }
            }
            lemma_scan_matches_cover(rest, g);
            match host_at(rest, g as int) {
                Some(_) => {
                    lemma_host_at_some_has_cover(rest, g as int);
                    let k = choose|k: int| 0 <= k < rest.len() && #[trigger] mapping_host_at(rest[k], g as int) is Some;
                    assert(rest[k] == ms[k + 1]);
                    assert forall|j: int| 0 <= j < ms.len() && j != k + 1 implies #[trigger] mapping_host_at(ms[j], g as int) is None by {
                        if j < k + 1 && j > 0 {
                            assert(rest[j - 1] == ms[j]);
                            assert(mapping_host_at(rest[k], g as int) is Some);
                            if mapping_host_at(ms[j], g as int) is Some {
                                assert(mapping_host_at(ms[k + 1], g as int) is None);
                            }
                        } else if j > k + 1 {
                            assert(mapping_host_at(ms[k + 1], g as int) is Some);
                        }
                    }
                    lemma_host_at_unique(ms, g as int, k + 1);
                    lemma_host_at_unique(rest, g as int, k);
                },
                None => {
                    lemma_host_at_none_has_no_cover(rest, g as int);
                    assert forall|j: int| 0 <= j < ms.len() implies #[trigger] mapping_host_at(ms[j], g as int) is None by {
                        if j > 0 {
                            assert(rest[j - 1] == ms[j]);
                        }
                    }
                    lemma_host_at_none(ms, g as int);
                },
            }
        }
    }
}

proof fn lemma_host_at_some_has_cover(ms: Seq<EptProgrammedMapping>, a: int)
    requires
        host_at(ms, a) is Some,
    ensures
        exists|k: int| 0 <= k < ms.len() && #[trigger] mapping_host_at(ms[k], a) is Some,
    decreases ms.len(),
{
    if mapping_host_at(ms.last(), a) is Some {
        assert(mapping_host_at(ms[ms.len() - 1], a) is Some);
    } else {
        lemma_host_at_some_has_cover(ms.drop_last(), a);
        let k = choose|k: int| 0 <= k < ms.drop_last().len() && #[trigger] mapping_host_at(ms.drop_last()[k], a) is Some;
        assert(ms.drop_last()[k] == ms[k]);
    }
}

proof fn lemma_host_at_none_has_no_cover(ms: Seq<EptProgrammedMapping>, a: int)
    requires
        host_at(ms, a) is None,
    ensures
        forall|k: int| 0 <= k < ms.len() ==> #[trigger] mapping_host_at(ms[k], a) is None,
    decreases ms.len(),
{
    if ms.len() > 0 {
        lemma_host_at_none_has_no_cover(ms.drop_last(), a);
        assert forall|k: int| 0 <= k < ms.len() implies #[trigger] mapping_host_at(ms[k], a) is None by {
            if k < ms.len() - 1 {
                assert(ms.drop_last()[k] == ms[k]);
            }
        }
    }
}

/// The two resolutions agree: over disjoint mapping records inside the
/// guest space a walk distinguishes, the materialized hierarchy resolves a
/// page-aligned guest address to the host address the record scan gives
/// (with the entry's address bits), and to nothing exactly when the scan
/// finds no record.
pub proof fn lemma_hierarchy_agrees_with_record_scan(
    t: crate::ept::program::EptProgrammedTables,
    ms: Seq<EptProgrammedMapping>,
    g: u64,
)
    requires
        built_from(t, ms),
        forall|j: int| 0 <= j < ms.len() ==> #[trigger] mapping_translatable(ms[j]),
        records_disjoint(ms),
        g % 4096 == 0,
        g < guest_space_limit(),
    ensures
        resolve_page(t, g) == match guest_range_host(ms, g, 1) {
            Some(h) => Some(h & EPT_ENTRY_ADDRESS_MASK),
            None => None::<u64>,
        },
{
    lemma_materialized_translation(t, ms, g);
    assert forall|i: int, j: int| #![trigger mapping_host_at(ms[i], g as int), mapping_host_at(ms[j], g as int)]
        0 <= i < j < ms.len() && mapping_host_at(ms[i], g as int) is Some
        implies mapping_host_at(ms[j], g as int) is None by {
        assert(ms[i].guest_phys + ms[i].size_bytes <= ms[j].guest_phys
            || ms[j].guest_phys + ms[j].size_bytes <= ms[i].guest_phys);
    }
    lemma_scan_matches_cover(ms, g);
}

} // verus!
