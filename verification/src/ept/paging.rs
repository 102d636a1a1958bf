//! Four-level EPT paging materialization for programmed guest mappings.
//!
//! The hierarchy lives in byte tables of 512 little-endian entries each.
//! While it is being built, a non-leaf entry holds a synthetic pointer (the
//! top bit set and the index of a nested table in bits 12 and up); once the
//! nested tables are installed, `patch_ept_table_host_phys` rewrites those
//! pointers into hardware table pointers.

use vstd::prelude::*;
use crate::bytes::{le_u64, put_u64, lemma_put_u64, lemma_le_u64_frame, read_u64_le, write_u64_le};
use crate::ept::constants::EPT_PAGE_SIZE_BYTES;
use crate::ept::error::{EptError, EptErrorKind};
use crate::ept::program::{
    encode_ept_leaf_entry, leaf_entry, lemma_leaf_entry_bits, EptProgrammedMapping,
    EptProgrammedTables, EPT_ENTRY_EXECUTE, EPT_ENTRY_MEMORY_TYPE_WB, EPT_ENTRY_READ,
    EPT_ENTRY_WRITE,
};

verus! {

/// Entries in one EPT table.
pub const EPT_ENTRIES_PER_TABLE: usize = 512;
/// Bytes in one EPT table.
pub const EPT_TABLE_BYTES: usize = 4096;
/// Marks an entry as a synthetic pointer to a nested table.
pub const EPT_SYNTHETIC_TABLE_FLAG: u64 = 0x8000_0000_0000_0000;
/// Host physical frame bits of a leaf or table pointer entry.
pub const EPT_ENTRY_ADDRESS_MASK: u64 = 0x000F_FFFF_FFFF_F000;
/// Number of nested tables the synthetic pointer's 31-bit index field can address.
pub const EPT_MAX_PAGING_TABLES: usize = 0x7FFF_FFFF;

// ---------------------------------------------------------------------------
// Model of the hierarchy.
// ---------------------------------------------------------------------------

/// Entry `index` of a byte table; 0 when the table is too short to hold it.
pub open spec fn entry_at(table: Seq<u8>, index: int) -> u64 {
    if 0 <= index && 8 * index + 8 <= table.len() {
        le_u64(table, 8 * index)
    } else {
        0
    }
}

/// The nested table at `index`, or no bytes when there is none.
pub open spec fn nested_table(t: EptProgrammedTables, index: int) -> Seq<u8> {
    if 0 <= index < t.paging_tables@.len() {
        t.paging_tables@[index]@
    } else {
        Seq::empty()
    }
}

/// The nested table index a synthetic pointer entry names.
pub open spec fn synthetic_index(entry: u64) -> Option<usize> {
    if entry & EPT_SYNTHETIC_TABLE_FLAG == 0 {
        None
    } else {
        Some(((entry >> 12u64) & 0x7FFF_FFFFu64) as usize)
    }
}

/// The host physical page a leaf entry maps, if it is a present leaf.
pub open spec fn decode_leaf(entry: u64) -> Option<u64> {
    if entry == 0 || entry & EPT_SYNTHETIC_TABLE_FLAG != 0 {
        None
    } else {
        Some(entry & EPT_ENTRY_ADDRESS_MASK)
    }
}

/// The nested table a root entry points to.
pub open spec fn root_child(t: EptProgrammedTables, i0: int) -> Option<usize> {
    synthetic_index(entry_at(t.root_table@, i0))
}

/// The nested table an entry of nested table `parent` points to.
pub open spec fn nested_child(t: EptProgrammedTables, parent: int, index: int) -> Option<usize> {
    synthetic_index(entry_at(nested_table(t, parent), index))
}

/// The leaf entry the hierarchy holds for the four table indices of a
/// guest page: present when the three pointer levels lead to a leaf table
/// whose entry there is not zero.
pub open spec fn walk_leaf(t: EptProgrammedTables, i0: int, i1: int, i2: int, i3: int) -> Option<u64> {
    match root_child(t, i0) {
        None => None,
        Some(a) => match nested_child(t, a as int, i1) {
            None => None,
            Some(b) => match nested_child(t, b as int, i2) {
                None => None,
                Some(c) => if entry_at(nested_table(t, c as int), i3) == 0 {
                    None
                } else {
                    Some(entry_at(nested_table(t, c as int), i3))
                },
            },
        },
    }
}

/// Walks the hierarchy along the four table indices of a guest page to the
/// host page its leaf maps.
pub open spec fn walk(t: EptProgrammedTables, i0: int, i1: int, i2: int, i3: int) -> Option<u64> {
    match walk_leaf(t, i0, i1, i2, i3) {
        Some(e) => decode_leaf(e),
        None => None,
    }
}

/// PML4 index of a guest physical address (bits 47:39).
pub open spec fn pml4_index(g: u64) -> int {
    ((g >> 39u64) & 0x1FFu64) as int
}

/// PDPT index of a guest physical address (bits 38:30).
pub open spec fn pdpt_index(g: u64) -> int {
    ((g >> 30u64) & 0x1FFu64) as int
}

/// PD index of a guest physical address (bits 29:21).
pub open spec fn pd_index(g: u64) -> int {
    ((g >> 21u64) & 0x1FFu64) as int
}

/// PT index of a guest physical address (bits 20:12).
pub open spec fn pt_index(g: u64) -> int {
    ((g >> 12u64) & 0x1FFu64) as int
}

/// Whether guest page `g` occupies table slots `(i0, i1, i2, i3)`.
pub open spec fn in_slot(g: u64, i0: int, i1: int, i2: int, i3: int) -> bool {
    pml4_index(g) == i0 && pdpt_index(g) == i1 && pd_index(g) == i2 && pt_index(g) == i3
}

/// Whether `(i0, i1, i2, i3)` are table indices.
pub open spec fn slot_in_range(i0: int, i1: int, i2: int, i3: int) -> bool {
    0 <= i0 < 512 && 0 <= i1 < 512 && 0 <= i2 < 512 && 0 <= i3 < 512
}

/// What the hierarchy resolves a guest physical page to.
pub open spec fn resolve_page(t: EptProgrammedTables, g: u64) -> Option<u64> {
    if g % 4096 != 0 {
        None
    } else {
        walk(t, pml4_index(g), pdpt_index(g), pd_index(g), pt_index(g))
    }
}

/// A mapping record that can be materialized: a non-zero whole number of
/// pages whose last guest and host page addresses fit in 64 bits.
pub open spec fn mapping_valid(m: EptProgrammedMapping) -> bool {
    &&& m.size_bytes > 0
    &&& m.size_bytes % 4096 == 0
    &&& m.guest_phys + (m.size_bytes - 4096) <= u64::MAX
    &&& m.host_phys + (m.size_bytes - 4096) <= u64::MAX
}

/// Every mapping record can be materialized.
pub open spec fn mappings_valid(ms: Seq<EptProgrammedMapping>) -> bool {
    forall|i: int| 0 <= i < ms.len() ==> #[trigger] mapping_valid(ms[i])
}

/// The (guest page, host page, guest writable) writes a mapping covers, in order.
pub open spec fn mapping_pages(m: EptProgrammedMapping) -> Seq<(u64, u64, bool)> {
    Seq::new(
        (m.size_bytes / 4096) as nat,
        |k: int| ((m.guest_phys + k * 4096) as u64, (m.host_phys + k * 4096) as u64, m.guest_writable),
    )
}

/// The page writes that materializing `ms` performs, in order.
pub open spec fn page_writes(ms: Seq<EptProgrammedMapping>) -> Seq<(u64, u64, bool)>
    decreases ms.len(),
{
    if ms.len() == 0 {
        Seq::empty()
    } else {
        page_writes(ms.drop_last()) + mapping_pages(ms.last())
    }
}

/// The last write into slot `(i0, i1, i2, i3)`.
pub open spec fn last_slot_write(ws: Seq<(u64, u64, bool)>, i0: int, i1: int, i2: int, i3: int) -> Option<(u64, u64, bool)>
    decreases ws.len(),
{
    if ws.len() == 0 {
        None
    } else if in_slot(ws.last().0, i0, i1, i2, i3) {
        Some(ws.last())
    } else {
        last_slot_write(ws.drop_last(), i0, i1, i2, i3)
    }
}

/// The host page of the last write into slot `(i0, i1, i2, i3)`.
pub open spec fn last_write(ws: Seq<(u64, u64, bool)>, i0: int, i1: int, i2: int, i3: int) -> Option<u64> {
    match last_slot_write(ws, i0, i1, i2, i3) {
        Some(w) => Some(w.1),
        None => None,
    }
}

/// The leaf entry of the last write into slot `(i0, i1, i2, i3)`: its host
/// page with read, execute and write-back, and write when it is guest writable.
pub open spec fn last_leaf(ws: Seq<(u64, u64, bool)>, i0: int, i1: int, i2: int, i3: int) -> Option<u64> {
    match last_slot_write(ws, i0, i1, i2, i3) {
        Some(w) => Some(leaf_entry(w.1, w.2)),
        None => None,
    }
}

/// What a hierarchy built by the writes `ws` resolves slot `(i0, i1, i2, i3)` to.
pub open spec fn expected_walk(ws: Seq<(u64, u64, bool)>, i0: int, i1: int, i2: int, i3: int) -> Option<u64> {
    match last_write(ws, i0, i1, i2, i3) {
        None => None,
        Some(h) => decode_leaf(leaf_entry(h, true)),
    }
}

/// Every page write maps a host page below bit 63, so its leaf entry cannot
/// be mistaken for a synthetic pointer.
pub open spec fn hosts_low(ws: Seq<(u64, u64, bool)>) -> bool {
    forall|k: int| 0 <= k < ws.len() ==> #[trigger] ws[k].1 < 0x8000_0000_0000_0000u64
}

/// Entry `e`, if it is a synthetic pointer, names one of the `n` nested tables.
pub open spec fn pointer_resolved(e: u64, n: int) -> bool {
    match synthetic_index(e) {
        Some(c) => (c as int) < n,
        None => true,
    }
}

/// Every synthetic pointer in the root and in the nested tables names an
/// existing nested table.
pub open spec fn pointers_resolved(t: EptProgrammedTables) -> bool {
    &&& forall|s: int| 0 <= s < 512
        ==> pointer_resolved(#[trigger] entry_at(t.root_table@, s), t.paging_tables@.len() as int)
    &&& forall|j: int, s: int| 0 <= j < t.paging_tables@.len() && 0 <= s < 512
        ==> pointer_resolved(#[trigger] entry_at(nested_table(t, j), s), t.paging_tables@.len() as int)
}

/// A hardware table pointer entry for a nested table at `host_phys`.
pub open spec fn table_pointer(host_phys: u64) -> u64 {
    EPT_ENTRY_READ | EPT_ENTRY_WRITE | EPT_ENTRY_EXECUTE | EPT_ENTRY_MEMORY_TYPE_WB
        | (host_phys & EPT_ENTRY_ADDRESS_MASK)
}

/// An entry after patching: synthetic pointers to installed tables become
/// hardware pointers; every other entry is kept.
pub open spec fn patched_entry(entry: u64, nested_phys: Seq<u64>) -> u64 {
    match synthetic_index(entry) {
        Some(i) => if (i as int) < nested_phys.len() {
            table_pointer(nested_phys[i as int])
        } else {
            entry
        },
        None => entry,
    }
}

// ---------------------------------------------------------------------------
// Byte image of a build.
// ---------------------------------------------------------------------------

/// The bytes of a hierarchy: its root table and its nested tables, in order.
pub open spec fn tables_image(t: EptProgrammedTables) -> (Seq<u8>, Seq<Seq<u8>>) {
    (t.root_table@, t.paging_tables@.map_values(|v: Vec<u8>| v@))
}

/// A zero-filled table.
pub open spec fn zero_table() -> Seq<u8> {
    Seq::new(4096, |k: int| 0u8)
}

/// The synthetic pointer to nested table `c`.
pub open spec fn synthetic_pointer(c: int) -> u64 {
    EPT_SYNTHETIC_TABLE_FLAG | ((c as u64) << 12u64)
}

/// The table of an image that `parent` names: the root for `None`, nested
/// table `i` for `Some(i)` (no bytes when there is none).
pub open spec fn image_table(img: (Seq<u8>, Seq<Seq<u8>>), parent: Option<int>) -> Seq<u8> {
    match parent {
        None => img.0,
        Some(i) => if 0 <= i < img.1.len() {
            img.1[i]
        } else {
            Seq::empty()
        },
    }
}

/// The image with entry `index` of table `parent` set to `v`.
pub open spec fn image_write(img: (Seq<u8>, Seq<Seq<u8>>), parent: Option<int>, index: int, v: u64) -> (Seq<u8>, Seq<Seq<u8>>) {
    match parent {
        None => (put_u64(img.0, 8 * index, v), img.1),
        Some(i) => (img.0, img.1.update(i, put_u64(img.1[i], 8 * index, v))),
    }
}

/// Makes entry `index` of table `parent` point to a nested table: a
/// non-zero entry is kept; a zero entry gets a new zero-filled table
/// appended and pointed at, or `None` when the pointer encoding has no
/// index left for it.
pub open spec fn image_ensure(img: (Seq<u8>, Seq<Seq<u8>>), parent: Option<int>, index: int) -> Option<(Seq<u8>, Seq<Seq<u8>>)> {
    if entry_at(image_table(img, parent), index) != 0 {
        Some(img)
    } else if img.1.len() >= EPT_MAX_PAGING_TABLES {
        None
    } else {
        Some(image_write((img.0, img.1.push(zero_table())), parent, index, synthetic_pointer(img.1.len() as int)))
    }
}

/// The nested table entry `index` of table `parent` points to.
pub open spec fn image_child(img: (Seq<u8>, Seq<Seq<u8>>), parent: Option<int>, index: int) -> Option<int> {
    match synthetic_index(entry_at(image_table(img, parent), index)) {
        Some(c) => Some(c as int),
        None => None,
    }
}

/// The image after the page write `w` = (guest page, host page, guest
/// writable): the three pointer levels are made to exist along the guest
/// page's table indices, then its leaf entry is written.
pub open spec fn image_map(img: (Seq<u8>, Seq<Seq<u8>>), w: (u64, u64, bool)) -> Option<(Seq<u8>, Seq<Seq<u8>>)> {
    let g = w.0;
    match image_ensure(img, None, pml4_index(g)) {
        None => None,
        Some(a) => match image_child(a, None, pml4_index(g)) {
            None => None,
            Some(pdpt) => match image_ensure(a, Some(pdpt), pdpt_index(g)) {
                None => None,
                Some(b) => match image_child(b, Some(pdpt), pdpt_index(g)) {
                    None => None,
                    Some(pd) => match image_ensure(b, Some(pd), pd_index(g)) {
                        None => None,
                        Some(c) => match image_child(c, Some(pd), pd_index(g)) {
                            None => None,
                            Some(pt) => Some(image_write(c, Some(pt), pt_index(g), leaf_entry(w.1, w.2))),
                        },
                    },
                },
            },
        },
    }
}

/// The image that the page writes `ws` build, in order, from a zero-filled
/// root and no nested tables; `None` when a write would need more nested
/// tables than the pointer encoding can index.
pub open spec fn build_image(ws: Seq<(u64, u64, bool)>) -> Option<(Seq<u8>, Seq<Seq<u8>>)>
    decreases ws.len(),
{
    if ws.len() == 0 {
        Some((zero_table(), Seq::empty()))
    } else {
        match build_image(ws.drop_last()) {
            Some(img) => image_map(img, ws.last()),
            None => None,
        }
    }
}

// ---------------------------------------------------------------------------
// Building invariant.
// ---------------------------------------------------------------------------

/// Entry `e` is empty or points to a table labelled `(level, prefix)`.
spec fn pointer_ok(e: u64, labels: Seq<(int, int)>, level: int, prefix: int) -> bool {
    e == 0 || match synthetic_index(e) {
        Some(c) => (c as int) < labels.len() && labels[c as int] == (level, prefix),
        None => false,
    }
}

/// The hierarchy under construction: every nested table carries a label
/// `(level, prefix)` (level 1 for PDPTs, 2 for PDs, 3 for PTs; prefix the
/// table indices leading to it) and every non-leaf entry points to a table
/// with the matching label.
spec fn tree_inv(t: EptProgrammedTables, labels: Seq<(int, int)>) -> bool {
    &&& t.root_table@.len() == 4096
    &&& t.paging_tables@.len() == labels.len()
    &&& labels.len() <= EPT_MAX_PAGING_TABLES
    &&& forall|j: int| 0 <= j < labels.len() ==> #[trigger] t.paging_tables@[j]@.len() == 4096
    &&& forall|j: int| 0 <= j < labels.len() ==> 1 <= #[trigger] labels[j].0 <= 3
    &&& forall|s: int| 0 <= s < 512 ==> pointer_ok(#[trigger] entry_at(t.root_table@, s), labels, 1, s)
    &&& forall|j: int, s: int|
        0 <= j < labels.len() && labels[j].0 < 3 && 0 <= s < 512 ==> pointer_ok(
            #[trigger] entry_at(nested_table(t, j), s),
            labels,
            labels[j].0 + 1,
            labels[j].1 * 512 + s,
        )
}

/// Number of distinct table-index prefixes a table of `level` can have.
spec fn prefix_bound(level: int) -> int {
    if level == 1 {
        512
    } else if level == 2 {
        0x4_0000
    } else {
        0x800_0000
    }
}

/// The nested table reached from the root along the `level` table indices
/// packed in `prefix` (base 512, most significant first).
spec fn reach(t: EptProgrammedTables, level: int, prefix: int) -> Option<usize>
    decreases level,
{
    if level <= 1 {
        root_child(t, prefix)
    } else {
        match reach(t, level - 1, prefix / 512) {
            Some(a) => nested_child(t, a as int, prefix % 512),
            None => None,
        }
    }
}

/// Every nested table is reached from the root along its own label, whose
/// prefix is in range; so no two tables share a label.
spec fn tree_reach(t: EptProgrammedTables, labels: Seq<(int, int)>) -> bool {
    forall|j: int| 0 <= j < labels.len() ==> {
        &&& 0 <= (#[trigger] labels[j]).1 < prefix_bound(labels[j].0)
        &&& reach(t, labels[j].0, labels[j].1) == Some(j as usize)
    }
}

/// Every entry of a leaf-level table has the synthetic-pointer bit clear.
spec fn leaves_low(t: EptProgrammedTables, labels: Seq<(int, int)>) -> bool {
    forall|j: int, s: int| 0 <= j < labels.len() && labels[j].0 == 3 && 0 <= s < 512
        ==> #[trigger] entry_at(nested_table(t, j), s) & EPT_SYNTHETIC_TABLE_FLAG == 0
}

// ---------------------------------------------------------------------------
// Entry encoding lemmas.
// ---------------------------------------------------------------------------

proof fn lemma_synthetic_roundtrip(c: usize)
    requires
        c < EPT_MAX_PAGING_TABLES,
    ensures
        synthetic_index(EPT_SYNTHETIC_TABLE_FLAG | ((c as u64) << 12u64)) == Some(c),
        EPT_SYNTHETIC_TABLE_FLAG | ((c as u64) << 12u64) != 0,
{
    let x = c as u64;
    assert(x < 0x7FFF_FFFFu64 ==> (0x8000_0000_0000_0000u64 | (x << 12u64)) & 0x8000_0000_0000_0000u64 != 0) by (bit_vector);
    assert(x < 0x7FFF_FFFFu64 ==> (((0x8000_0000_0000_0000u64 | (x << 12u64)) >> 12u64) & 0x7FFF_FFFFu64) == x) by (bit_vector);
    assert((0x8000_0000_0000_0000u64 | (x << 12u64)) != 0) by (bit_vector);
}

proof fn lemma_zero_entry()
    ensures
        synthetic_index(0) == None::<usize>,
        decode_leaf(0) == None::<u64>,
{
    assert(0u64 & 0x8000_0000_0000_0000u64 == 0) by (bit_vector);
}

/// Writing entry `index` changes that entry only.
proof fn lemma_entry_at_put(table: Seq<u8>, index: int, v: u64)
    requires
        0 <= index,
        8 * index + 8 <= table.len(),
    ensures
        put_u64(table, 8 * index, v).len() == table.len(),
        forall|j: int| 0 <= j < table.len() && (j < 8 * index || j >= 8 * index + 8) ==> #[trigger] put_u64(table, 8 * index, v)[j] == table[j],
        forall|s: int| #[trigger] entry_at(put_u64(table, 8 * index, v), s) == if s == index { v } else { entry_at(table, s) },
{
    lemma_put_u64(table, 8 * index, v);
    let n = put_u64(table, 8 * index, v);
    assert forall|s: int| #[trigger] entry_at(n, s) == if s == index { v } else { entry_at(table, s) } by {
        if s != index && 0 <= s && 8 * s + 8 <= table.len() {
            assert forall|j: int| 8 * s <= j < 8 * s + 8 implies n[j] == table[j] by {
                assert(j < 8 * index || j >= 8 * index + 8);
            }
            lemma_le_u64_frame(n, table, 8 * s);
        }
    }
}

/// Every entry of a zero-filled table is zero.
proof fn lemma_zero_table(z: Seq<u8>)
    requires
        z.len() == 4096,
        forall|j: int| 0 <= j < 4096 ==> z[j] == 0u8,
    ensures
        forall|s: int| #[trigger] entry_at(z, s) == 0,
{
    vstd::bytes::lemma_auto_spec_u64_to_from_le_bytes();
    vstd::bytes::spec_u64_to_le_bytes_to_open(0u64);
    assert(0u64 & 0xffu64 == 0 && (0u64 >> 8u64) & 0xffu64 == 0 && (0u64 >> 16u64) & 0xffu64 == 0
        && (0u64 >> 24u64) & 0xffu64 == 0 && (0u64 >> 32u64) & 0xffu64 == 0 && (0u64 >> 40u64) & 0xffu64 == 0
        && (0u64 >> 48u64) & 0xffu64 == 0 && (0u64 >> 56u64) & 0xffu64 == 0) by (bit_vector);
    assert forall|s: int| #[trigger] entry_at(z, s) == 0 by {
        if 0 <= s && 8 * s + 8 <= 4096 {
            assert(z.subrange(8 * s, 8 * s + 8) =~= vstd::bytes::spec_u64_to_le_bytes_open(0u64));
        }
    }
}

/// A table reached along `(level, prefix)` carries that label.
proof fn lemma_reach_label(t: EptProgrammedTables, labels: Seq<(int, int)>, level: int, prefix: int)
    requires
        tree_inv(t, labels),
        1 <= level <= 3,
        reach(t, level, prefix) is Some,
    ensures
        (reach(t, level, prefix)->Some_0 as int) < labels.len(),
        labels[reach(t, level, prefix)->Some_0 as int] == (level, prefix),
    decreases level,
{
    lemma_zero_entry();
    if level == 1 {
        assert(pointer_ok(entry_at(t.root_table@, prefix), labels, 1, prefix));
    } else {
        lemma_reach_label(t, labels, level - 1, prefix / 512);
        let a = reach(t, level - 1, prefix / 512)->Some_0 as int;
        assert(prefix / 512 * 512 + prefix % 512 == prefix);
        assert(pointer_ok(entry_at(nested_table(t, a), prefix % 512), labels, level, (prefix / 512) * 512 + prefix % 512));
    }
}

/// Reaching a table only reads non-zero pointer entries of the root and of
/// tables above the leaf level, so it is kept while those are.
proof fn lemma_reach_kept(before: EptProgrammedTables, after: EptProgrammedTables, labels: Seq<(int, int)>, level: int, prefix: int)
    requires
        tree_inv(before, labels),
        1 <= level <= 3,
        reach(before, level, prefix) is Some,
        forall|s: int| 0 <= s < 512 && entry_at(before.root_table@, s) != 0
            ==> #[trigger] entry_at(after.root_table@, s) == entry_at(before.root_table@, s),
        forall|j: int, s: int| 0 <= j < labels.len() && labels[j].0 < 3 && 0 <= s < 512
            && entry_at(nested_table(before, j), s) != 0
            ==> #[trigger] entry_at(nested_table(after, j), s) == entry_at(nested_table(before, j), s),
    ensures
        reach(after, level, prefix) == reach(before, level, prefix),
    decreases level,
{
    lemma_zero_entry();
    if level == 1 {
        assert(entry_at(before.root_table@, prefix) != 0);
    } else {
        lemma_reach_kept(before, after, labels, level - 1, prefix / 512);
        lemma_reach_label(before, labels, level - 1, prefix / 512);
        let a = reach(before, level - 1, prefix / 512)->Some_0 as int;
        assert(entry_at(nested_table(before, a), prefix % 512) != 0);
    }
}

/// Writing an entry of a leaf-level table keeps every table reachable.
proof fn lemma_leaf_write_keeps_reach(t3: EptProgrammedTables, t4: EptProgrammedTables, l3: Seq<(int, int)>, pt: int)
    requires
        tree_inv(t3, l3),
        tree_reach(t3, l3),
        0 <= pt < l3.len(),
        l3[pt].0 == 3,
        t4.root_table@ == t3.root_table@,
        forall|j: int, s: int| 0 <= j < l3.len() && j != pt && 0 <= s < 512
            ==> #[trigger] entry_at(nested_table(t4, j), s) == entry_at(nested_table(t3, j), s),
    ensures
        tree_reach(t4, l3),
{
    assert forall|k: int| 0 <= k < l3.len() implies {
        &&& 0 <= (#[trigger] l3[k]).1 < prefix_bound(l3[k].0)
        &&& reach(t4, l3[k].0, l3[k].1) == Some(k as usize)
    } by {
        assert(0 <= l3[k].1 < prefix_bound(l3[k].0));
        assert(reach(t3, l3[k].0, l3[k].1) == Some(k as usize));
        lemma_reach_kept(t3, t4, l3, l3[k].0, l3[k].1);
    }
}

/// Labels in a reachable tree are distinct and within their prefix range,
/// so there are at most 512 + 512^2 + 512^3 nested tables.
proof fn lemma_labels_bounded(t: EptProgrammedTables, labels: Seq<(int, int)>)
    requires
        tree_inv(t, labels),
        tree_reach(t, labels),
    ensures
        labels.len() <= 0x804_0200,
{
    let codes = labels.map_values(|l: (int, int)| if l.0 == 1 { l.1 } else if l.0 == 2 { 512 + l.1 } else { 0x4_0200 + l.1 });
    assert forall|i: int, j: int| 0 <= i < codes.len() && 0 <= j < codes.len() && i != j implies codes[i] != codes[j] by {
        assert(1 <= labels[i].0 <= 3 && 1 <= labels[j].0 <= 3);
        assert(reach(t, labels[i].0, labels[i].1) == Some(i as usize));
        assert(reach(t, labels[j].0, labels[j].1) == Some(j as usize));
    }
    assert(codes.no_duplicates());
    codes.unique_seq_to_set();
    vstd::set_lib::lemma_int_range(0, 0x804_0200);
    assert forall|c: int| codes.to_set().contains(c) implies vstd::set_lib::set_int_range(0, 0x804_0200).contains(c) by {
        let i = choose|i: int| 0 <= i < codes.len() && codes[i] == c;
        assert(1 <= labels[i].0 <= 3);
        assert(0 <= labels[i].1 < prefix_bound(labels[i].0));
    }
    vstd::set_lib::lemma_len_subset(codes.to_set(), vstd::set_lib::set_int_range(0, 0x804_0200));
}

/// Distinct table-index paths give distinct prefixes.
proof fn lemma_prefix_injective(a0: int, a1: int, a2: int, b0: int, b1: int, b2: int)
    requires
        0 <= a0 < 512, 0 <= a1 < 512, 0 <= a2 < 512,
        0 <= b0 < 512, 0 <= b1 < 512, 0 <= b2 < 512,
    ensures
        (a0 * 512 + a1 == b0 * 512 + b1) ==> (a0 == b0 && a1 == b1),
        ((a0 * 512 + a1) * 512 + a2 == (b0 * 512 + b1) * 512 + b2) ==> (a0 == b0 && a1 == b1 && a2 == b2),
{
    assert((a0 * 512 + a1 == b0 * 512 + b1) ==> (a0 == b0 && a1 == b1)) by (nonlinear_arith)
        requires 0 <= a1 < 512, 0 <= b1 < 512;
    assert(((a0 * 512 + a1) * 512 + a2 == (b0 * 512 + b1) * 512 + b2) ==> (a0 * 512 + a1 == b0 * 512 + b1 && a2 == b2)) by (nonlinear_arith)
        requires 0 <= a2 < 512, 0 <= b2 < 512;
}


// ---------------------------------------------------------------------------
// Table access.
// ---------------------------------------------------------------------------

#[derive(Debug, Clone, Copy, PartialEq, Eq, Structural)]
enum TableRef {
    Root,
    Nested(usize),
}

spec fn table_of(t: EptProgrammedTables, r: TableRef) -> Seq<u8> {
    match r {
        TableRef::Root => t.root_table@,
        TableRef::Nested(i) => nested_table(t, i as int),
    }
}

/// The table of an image that `r` names.
spec fn image_ref(r: TableRef) -> Option<int> {
    match r {
        TableRef::Root => None,
        TableRef::Nested(i) => Some(i as int),
    }
}

proof fn lemma_table_of_image(t: EptProgrammedTables, r: TableRef)
    ensures
        table_of(t, r) == image_table(tables_image(t), image_ref(r)),
{
}

/// The label a child of table `r` receives at slot `index`.
spec fn child_label(labels: Seq<(int, int)>, r: TableRef, index: int) -> (int, int) {
    match r {
        TableRef::Root => (1, index),
        TableRef::Nested(j) => (labels[j as int].0 + 1, labels[j as int].1 * 512 + index),
    }
}

/// `r` names a table whose entries point to further tables.
spec fn pointer_table(labels: Seq<(int, int)>, r: TableRef) -> bool {
    match r {
        TableRef::Root => true,
        TableRef::Nested(j) => (j as int) < labels.len() && labels[j as int].0 < 3,
    }
}

/// Table indices of a guest physical address.
#[derive(Debug, Clone, Copy, PartialEq, Eq)]
struct EptIndices {
    pml4: usize,
    pdpt: usize,
    pd: usize,
    pt: usize,
}

fn ept_indices(guest_phys: u64) -> (r: EptIndices)
    ensures
        r.pml4 as int == pml4_index(guest_phys),
        r.pdpt as int == pdpt_index(guest_phys),
        r.pd as int == pd_index(guest_phys),
        r.pt as int == pt_index(guest_phys),
        r.pml4 < 512 && r.pdpt < 512 && r.pd < 512 && r.pt < 512,
{
    assert((guest_phys >> 39u64) & 0x1FFu64 < 512) by (bit_vector);
    assert((guest_phys >> 30u64) & 0x1FFu64 < 512) by (bit_vector);
    assert((guest_phys >> 21u64) & 0x1FFu64 < 512) by (bit_vector);
    assert((guest_phys >> 12u64) & 0x1FFu64 < 512) by (bit_vector);
    EptIndices {
        pml4: ((guest_phys >> 39u64) & 0x1FF) as usize,
        pdpt: ((guest_phys >> 30u64) & 0x1FF) as usize,
        pd: ((guest_phys >> 21u64) & 0x1FF) as usize,
        pt: ((guest_phys >> 12u64) & 0x1FF) as usize,
    }
}

fn read_entry(table: &[u8], index: usize) -> (e: u64)
    requires
        index < 512,
    ensures
        e == entry_at(table@, index as int),
{
    let offset = index * 8;
    if offset + 8 <= table.len() {
        read_u64_le(table, offset)
    } else {
        0
    }
}

fn write_entry(table: &mut Vec<u8>, index: usize, value: u64)
    requires
        index < 512,
    ensures
        8 * index + 8 <= old(table)@.len() ==> final(table)@ == put_u64(old(table)@, 8 * index as int, value),
        8 * index + 8 > old(table)@.len() ==> final(table)@ == old(table)@,
{
    let offset = index * 8;
    if offset + 8 <= table.len() {
        write_u64_le(table, offset, value);
    }
}

fn read_table_entry(tables: &EptProgrammedTables, r: TableRef, index: usize) -> (e: u64)
    requires
        index < 512,
    ensures
        e == entry_at(table_of(*tables, r), index as int),
{
    match r {
        TableRef::Root => read_entry(tables.root_table.as_slice(), index),
        TableRef::Nested(i) => {
            if i < tables.paging_tables.len() {
                read_entry(tables.paging_tables[i].as_slice(), index)
            } else {
                0
            }
        },
    }
}

fn write_table_entry(tables: &mut EptProgrammedTables, r: TableRef, index: usize, value: u64)
    requires
        index < 512,
        table_of(*old(tables), r).len() == 4096,
    ensures
        final(tables).mappings == old(tables).mappings,
        final(tables).root_table_phys == old(tables).root_table_phys,
        final(tables).paging_tables@.len() == old(tables).paging_tables@.len(),
        table_of(*final(tables), r) == put_u64(table_of(*old(tables), r), 8 * index as int, value),
        r != TableRef::Root ==> final(tables).root_table@ == old(tables).root_table@,
        forall|j: int| 0 <= j < old(tables).paging_tables@.len() && r != TableRef::Nested(j as usize)
            ==> #[trigger] final(tables).paging_tables@[j]@ == old(tables).paging_tables@[j]@,
        tables_image(*final(tables)) == image_write(tables_image(*old(tables)), image_ref(r), index as int, value),
{
    let ghost before = *tables;
    match r {
        TableRef::Root => write_entry(&mut tables.root_table, index, value),
        TableRef::Nested(i) => {
            let mut table: Vec<u8> = Vec::new();
            tables.paging_tables.set_and_swap(i, &mut table);
            write_entry(&mut table, index, value);
            tables.paging_tables.set_and_swap(i, &mut table);
        },
    }
    proof {
        let img = tables_image(before);
        let expected = image_write(img, image_ref(r), index as int, value);
        match r {
            TableRef::Root => {
                assert(tables_image(*tables).1 =~= img.1);
            },
            TableRef::Nested(i) => {
                assert(nested_table(before, i as int).len() == 4096);
                assert(tables_image(*tables).1 =~= expected.1);
            },
        }
    }
}

fn synthetic_table_index(entry: u64) -> (r: Option<usize>)
    ensures
        r == synthetic_index(entry),
{
    if entry & EPT_SYNTHETIC_TABLE_FLAG == 0 {
        return None;
    }
    assert((entry >> 12u64) & 0x7FFF_FFFFu64 <= 0x7FFF_FFFFu64) by (bit_vector);
    Some(((entry >> 12u64) & 0x7FFF_FFFF) as usize)
}

fn encode_synthetic_table_pointer(index: usize) -> (e: u64)
    requires
        index < EPT_MAX_PAGING_TABLES,
    ensures
        e == EPT_SYNTHETIC_TABLE_FLAG | ((index as u64) << 12u64),
        synthetic_index(e) == Some(index),
        e != 0,
{
    proof {
        lemma_synthetic_roundtrip(index);
    }
    EPT_SYNTHETIC_TABLE_FLAG | ((index as u64) << 12u64)
}

fn decode_leaf_host_phys(entry: u64) -> (r: Option<u64>)
    ensures
        r == decode_leaf(entry),
{
    if entry == 0 || entry & EPT_SYNTHETIC_TABLE_FLAG != 0 {
        return None;
    }
    Some(entry & EPT_ENTRY_ADDRESS_MASK)
}

fn encode_table_pointer(host_phys: u64) -> (e: u64)
    ensures
        e == table_pointer(host_phys),
{
    EPT_ENTRY_READ | EPT_ENTRY_WRITE | EPT_ENTRY_EXECUTE | EPT_ENTRY_MEMORY_TYPE_WB | (host_phys
        & EPT_ENTRY_ADDRESS_MASK)
}

fn child_table_index(tables: &EptProgrammedTables, parent: TableRef, index: usize) -> (r: Option<usize>)
    requires
        index < 512,
    ensures
        r == synthetic_index(entry_at(table_of(*tables, parent), index as int)),
{
    let entry = read_table_entry(tables, parent, index);
    synthetic_table_index(entry)
}


fn alloc_child_table(tables: &mut EptProgrammedTables) -> (r: Result<usize, EptError>)
    ensures
        final(tables).mappings == old(tables).mappings,
        final(tables).root_table_phys == old(tables).root_table_phys,
        final(tables).root_table == old(tables).root_table,
        match r {
            Ok(index) => {
                &&& index as int == old(tables).paging_tables@.len()
                &&& index < EPT_MAX_PAGING_TABLES
                &&& final(tables).paging_tables@.len() == old(tables).paging_tables@.len() + 1
                &&& forall|j: int| 0 <= j < old(tables).paging_tables@.len()
                    ==> #[trigger] final(tables).paging_tables@[j] == old(tables).paging_tables@[j]
                &&& final(tables).paging_tables@[index as int]@.len() == 4096
                &&& forall|k: int| 0 <= k < 4096 ==> #[trigger] final(tables).paging_tables@[index as int]@[k] == 0u8
                &&& tables_image(*final(tables)) == (tables_image(*old(tables)).0, tables_image(*old(tables)).1.push(zero_table()))
            },
            Err(e) => {
                &&& e.kind == EptErrorKind::Planning
                &&& old(tables).paging_tables@.len() >= EPT_MAX_PAGING_TABLES
                &&& *final(tables) == *old(tables)
            },
        },
{
    let index = tables.paging_tables.len();
    if index >= EPT_MAX_PAGING_TABLES {
        return Err(EptError::new(EptErrorKind::Planning, "EPT paging table count exceeds pointer encoding"));
    }
    let ghost before = *tables;
    tables.paging_tables.push(vec![0u8; EPT_TABLE_BYTES]);
    proof {
        assert(tables.paging_tables@[index as int]@ =~= zero_table());
        assert(tables_image(*tables).1 =~= tables_image(before).1.push(zero_table()));
    }
    Ok(index)
}

/// Makes sure entry `index` of table `parent` points to a child table,
/// allocating a zero-filled one when the entry is empty.
fn ensure_child_table(
    tables: &mut EptProgrammedTables,
    parent: TableRef,
    index: usize,
    Ghost(labels): Ghost<Seq<(int, int)>>,
) -> (r: (Result<(), EptError>, Ghost<Seq<(int, int)>>))
    requires
        tree_inv(*old(tables), labels),
        index < 512,
        pointer_table(labels, parent),
    ensures
        final(tables).mappings == old(tables).mappings,
        final(tables).root_table_phys == old(tables).root_table_phys,
        match r.0 {
            Ok(_) => {
                let new_labels = r.1@;
                &&& tree_inv(*final(tables), new_labels)
                &&& labels.len() <= new_labels.len() <= labels.len() + 1
                &&& new_labels.subrange(0, labels.len() as int) == labels
                &&& forall|i0: int, i1: int, i2: int, i3: int| slot_in_range(i0, i1, i2, i3)
                    ==> #[trigger] walk_leaf(*final(tables), i0, i1, i2, i3) == walk_leaf(*old(tables), i0, i1, i2, i3)
                &&& match synthetic_index(entry_at(table_of(*final(tables), parent), index as int)) {
                    Some(c) => (c as int) < new_labels.len() && new_labels[c as int] == child_label(labels, parent, index as int),
                    None => false,
                }
                &&& parent != TableRef::Root ==> final(tables).root_table@ == old(tables).root_table@
                &&& forall|j: int| 0 <= j < labels.len() && parent != TableRef::Nested(j as usize)
                    ==> #[trigger] final(tables).paging_tables@[j]@ == old(tables).paging_tables@[j]@
                &&& leaves_low(*old(tables), labels) ==> leaves_low(*final(tables), new_labels)
                &&& tree_reach(*old(tables), labels) ==> tree_reach(*final(tables), new_labels)
            },
            Err(e) => e.kind == EptErrorKind::Planning && labels.len() >= EPT_MAX_PAGING_TABLES,
        },
        image_ensure(tables_image(*old(tables)), image_ref(parent), index as int) == match r.0 {
            Ok(_) => Some(tables_image(*final(tables))),
            Err(_) => None,
        },
{
    let entry = read_table_entry(tables, parent, index);
    proof {
        lemma_table_of_image(*tables, parent);
    }
    if entry != 0 {
        proof {
            match parent {
                TableRef::Root => {},
                TableRef::Nested(j) => {
                    assert(pointer_ok(entry_at(nested_table(*tables, j as int), index as int), labels,
                        labels[j as int].0 + 1, labels[j as int].1 * 512 + index));
                },
            }
            assert(labels.subrange(0, labels.len() as int) =~= labels);
        }
        return (Ok(()), Ghost(labels));
    }
    let ghost before = *tables;
    let child = match alloc_child_table(tables) {
        Ok(child) => child,
        Err(e) => return (Err(e), Ghost(labels)),
    };
    let ghost allocated = *tables;
    let pointer = encode_synthetic_table_pointer(child);
    proof {
        assert(pointer == synthetic_pointer(before.paging_tables@.len() as int));
    }
    proof {
        assert(table_of(allocated, parent) == table_of(before, parent));
    }
    write_table_entry(tables, parent, index, pointer);
    let ghost new_labels = labels.push(child_label(labels, parent, index as int));
    proof {
        let after = *tables;
        let c = child as int;
        lemma_zero_entry();
        lemma_entry_at_put(table_of(before, parent), index as int, pointer);
        lemma_zero_table(after.paging_tables@[c]@);
        assert(nested_table(after, c) == after.paging_tables@[c]@);
        // Entries of tables other than the parent slot are unchanged.
        assert forall|j: int, s: int| 0 <= j < labels.len() && 0 <= s < 512
            && !(parent == TableRef::Nested(j as usize) && s == index)
            implies #[trigger] entry_at(nested_table(after, j), s) == entry_at(nested_table(before, j), s) by {
            assert(nested_table(allocated, j) == nested_table(before, j));
            if parent == TableRef::Nested(j as usize) {
                assert(nested_table(after, j) == put_u64(nested_table(before, j), 8 * index as int, pointer));
            } else {
                assert(nested_table(after, j) == nested_table(before, j));
            }
        }
        assert forall|s: int| 0 <= s < 512 && !(parent == TableRef::Root && s == index)
            implies #[trigger] entry_at(after.root_table@, s) == entry_at(before.root_table@, s) by {
            if parent == TableRef::Root {
                assert(after.root_table@ == put_u64(before.root_table@, 8 * index as int, pointer));
            }
        }
        assert(entry_at(table_of(after, parent), index as int) == pointer);
        // The tree invariant holds with the new label.
        assert forall|j: int| 0 <= j < new_labels.len() implies #[trigger] after.paging_tables@[j]@.len() == 4096 by {
            if j < labels.len() {
                if parent == TableRef::Nested(j as usize) {
                    assert(nested_table(after, j) == put_u64(nested_table(before, j), 8 * index as int, pointer));
                    assert(nested_table(after, j) == after.paging_tables@[j]@);
                } else {
                    assert(nested_table(after, j) == nested_table(before, j));
                    assert(nested_table(after, j) == after.paging_tables@[j]@);
                }
            }
        }
        assert forall|j: int| 0 <= j < new_labels.len() implies 1 <= #[trigger] new_labels[j].0 <= 3 by {
            if j < labels.len() {
                assert(new_labels[j] == labels[j]);
            }
        }
        assert forall|s: int| 0 <= s < 512 implies pointer_ok(#[trigger] entry_at(after.root_table@, s), new_labels, 1, s) by {
            if parent == TableRef::Root && s == index {
            } else {
                let e = entry_at(before.root_table@, s);
                assert(pointer_ok(e, labels, 1, s));
                if e != 0 {
                    let cc = synthetic_index(e)->Some_0;
                    assert(new_labels[cc as int] == labels[cc as int]);
                }
            }
        }
        assert forall|j: int, s: int|
            0 <= j < new_labels.len() && new_labels[j].0 < 3 && 0 <= s < 512 implies pointer_ok(
                #[trigger] entry_at(nested_table(after, j), s),
                new_labels,
                new_labels[j].0 + 1,
                new_labels[j].1 * 512 + s,
            ) by {
            if j == c {
            } else if parent == TableRef::Nested(j as usize) && s == index {
                assert(new_labels[j] == labels[j]);
            } else {
                assert(new_labels[j] == labels[j]);
                let e = entry_at(nested_table(before, j), s);
                assert(pointer_ok(e, labels, labels[j].0 + 1, labels[j].1 * 512 + s));
                if e != 0 {
                    let cc = synthetic_index(e)->Some_0;
                    assert(new_labels[cc as int] == labels[cc as int]);
                }
            }
        }
        assert(tree_inv(after, new_labels));
        // Walks are unchanged: the only new pointer leads to an empty table.
        assert forall|i0: int, i1: int, i2: int, i3: int| slot_in_range(i0, i1, i2, i3)
            implies #[trigger] walk_leaf(after, i0, i1, i2, i3) == walk_leaf(before, i0, i1, i2, i3) by {
            if parent == TableRef::Root && i0 == index {
                assert(root_child(before, i0) == None::<usize>);
                assert(root_child(after, i0) == Some(child));
                assert(nested_child(after, c, i1) == None::<usize>);
            } else {
                assert(root_child(after, i0) == root_child(before, i0));
                match root_child(before, i0) {
                    None => {},
                    Some(a) => {
                        assert(pointer_ok(entry_at(before.root_table@, i0), labels, 1, i0));
                        assert(labels[a as int].0 == 1);
                        if parent == TableRef::Nested(a) && i1 == index {
                            assert(nested_child(before, a as int, i1) == None::<usize>);
                            assert(nested_child(after, a as int, i1) == Some(child));
                            assert(nested_child(after, c, i2) == None::<usize>);
                        } else {
                            assert(nested_child(after, a as int, i1) == nested_child(before, a as int, i1));
                            match nested_child(before, a as int, i1) {
                                None => {},
                                Some(b) => {
                                    assert(pointer_ok(entry_at(nested_table(before, a as int), i1), labels, 2, labels[a as int].1 * 512 + i1));
                                    assert(labels[b as int].0 == 2);
                                    if parent == TableRef::Nested(b) && i2 == index {
                                        assert(nested_child(before, b as int, i2) == None::<usize>);
                                        assert(nested_child(after, b as int, i2) == Some(child));
                                        assert(entry_at(nested_table(after, c), i3) == 0);
                                    } else {
                                        assert(nested_child(after, b as int, i2) == nested_child(before, b as int, i2));
                                        match nested_child(before, b as int, i2) {
                                            None => {},
                                            Some(d) => {
                                                assert(pointer_ok(entry_at(nested_table(before, b as int), i2), labels, 3, labels[b as int].1 * 512 + i2));
                                                assert(labels[d as int].0 == 3);
                                                assert(entry_at(nested_table(after, d as int), i3) == entry_at(nested_table(before, d as int), i3));
                                            },
                                        }
                                    }
                                },
                            }
                        }
                    },
                }
            }
        }
        assert(new_labels.subrange(0, labels.len() as int) =~= labels);
        if leaves_low(before, labels) {
            assert forall|j: int, s: int| 0 <= j < new_labels.len() && new_labels[j].0 == 3 && 0 <= s < 512
                implies #[trigger] entry_at(nested_table(after, j), s) & EPT_SYNTHETIC_TABLE_FLAG == 0 by {
                if j < labels.len() {
                    assert(new_labels[j] == labels[j]);
                    assert(entry_at(nested_table(before, j), s) & EPT_SYNTHETIC_TABLE_FLAG == 0);
                }
            }
        }
        assert forall|j: int| 0 <= j < labels.len() && parent != TableRef::Nested(j as usize)
            implies #[trigger] after.paging_tables@[j]@ == before.paging_tables@[j]@ by {
            assert(after.paging_tables@[j]@ == allocated.paging_tables@[j]@);
        }
        if tree_reach(before, labels) {
            assert forall|s: int| 0 <= s < 512 && entry_at(before.root_table@, s) != 0
                implies #[trigger] entry_at(after.root_table@, s) == entry_at(before.root_table@, s) by {
                if parent == TableRef::Root && s == index {
                    assert(entry_at(table_of(before, parent), index as int) == 0);
                }
            }
            assert forall|j: int, s: int| 0 <= j < labels.len() && labels[j].0 < 3 && 0 <= s < 512
                && entry_at(nested_table(before, j), s) != 0
                implies #[trigger] entry_at(nested_table(after, j), s) == entry_at(nested_table(before, j), s) by {
                if parent == TableRef::Nested(j as usize) && s == index {
                    assert(entry_at(table_of(before, parent), index as int) == 0);
                }
            }
            assert forall|k: int| 0 <= k < new_labels.len() implies {
                &&& 0 <= (#[trigger] new_labels[k]).1 < prefix_bound(new_labels[k].0)
                &&& reach(after, new_labels[k].0, new_labels[k].1) == Some(k as usize)
            } by {
                if k < labels.len() {
                    assert(new_labels[k] == labels[k]);
                    assert(0 <= labels[k].1 < prefix_bound(labels[k].0));
                    assert(reach(before, labels[k].0, labels[k].1) == Some(k as usize));
                    lemma_reach_kept(before, after, labels, labels[k].0, labels[k].1);
                } else {
                    assert(k == c);
                    match parent {
                        TableRef::Root => {
                            assert(root_child(after, index as int) == Some(child));
                        },
                        TableRef::Nested(p) => {
                            let lv = labels[p as int].0;
                            let pre = labels[p as int].1;
                            let ix = index as int;
                            assert(0 <= pre < prefix_bound(lv));
                            assert(reach(before, lv, pre) == Some(p));
                            assert((pre * 512 + ix) / 512 == pre && (pre * 512 + ix) % 512 == ix) by (nonlinear_arith)
                                requires 0 <= ix < 512, 0 <= pre;
                            lemma_reach_kept(before, after, labels, lv, pre);
                            assert(nested_child(after, p as int, ix) == Some(child));
                        },
                    }
                }
            }
        }
    }
    (Ok(()), Ghost(new_labels))
}


/// Maps one guest page to one host page, creating the intermediate tables
/// on the way.
#[verifier::rlimit(40)]
#[verifier::spinoff_prover]
fn map_guest_page(
    tables: &mut EptProgrammedTables,
    guest_phys: u64,
    host_phys: u64,
    guest_writable: bool,
    Ghost(labels): Ghost<Seq<(int, int)>>,
) -> (r: (Result<(), EptError>, Ghost<Seq<(int, int)>>))
    requires
        tree_inv(*old(tables), labels),
    ensures
        final(tables).mappings == old(tables).mappings,
        final(tables).root_table_phys == old(tables).root_table_phys,
        match r.0 {
            Ok(_) => {
                &&& tree_inv(*final(tables), r.1@)
                &&& r.1@.len() <= labels.len() + 3
                &&& forall|i0: int, i1: int, i2: int, i3: int| slot_in_range(i0, i1, i2, i3)
                    ==> #[trigger] walk_leaf(*final(tables), i0, i1, i2, i3) == if in_slot(guest_phys, i0, i1, i2, i3) {
                        Some(leaf_entry(host_phys, guest_writable))
                    } else {
                        walk_leaf(*old(tables), i0, i1, i2, i3)
                    }
                &&& leaves_low(*old(tables), labels) && host_phys < 0x8000_0000_0000_0000u64
                    ==> leaves_low(*final(tables), r.1@)
                &&& tree_reach(*old(tables), labels) ==> tree_reach(*final(tables), r.1@)
            },
            Err(e) => e.kind == EptErrorKind::Planning && labels.len() + 3 > EPT_MAX_PAGING_TABLES,
        },
        image_map(tables_image(*old(tables)), (guest_phys, host_phys, guest_writable)) == match r.0 {
            Ok(_) => Some(tables_image(*final(tables))),
            Err(_) => None,
        },
{
    let ghost t0 = *tables;
    let indices = ept_indices(guest_phys);
    let (res, Ghost(l1)) = ensure_child_table(tables, TableRef::Root, indices.pml4, Ghost(labels));
    if let Err(e) = res {
        return (Err(e), Ghost(labels));
    }
    let ghost t1 = *tables;
    proof {
        lemma_table_of_image(t1, TableRef::Root);
    }
    let pdpt = match child_table_index(tables, TableRef::Root, indices.pml4) {
        Some(index) => index,
        None => return (Err(EptError::new(EptErrorKind::Planning, "EPT PDPT child table unavailable")), Ghost(l1)),
    };
    let (res, Ghost(l2)) = ensure_child_table(tables, TableRef::Nested(pdpt), indices.pdpt, Ghost(l1));
    if let Err(e) = res {
        return (Err(e), Ghost(labels));
    }
    let ghost t2 = *tables;
    proof {
        lemma_table_of_image(t2, TableRef::Nested(pdpt));
    }
    let pd = match child_table_index(tables, TableRef::Nested(pdpt), indices.pdpt) {
        Some(index) => index,
        None => return (Err(EptError::new(EptErrorKind::Planning, "EPT PD child table unavailable")), Ghost(l2)),
    };
    proof {
        assert(synthetic_index(entry_at(table_of(t1, TableRef::Root), indices.pml4 as int)) == Some(pdpt));
        assert((pdpt as int) < l1.len());
        assert(l2.subrange(0, l1.len() as int)[pdpt as int] == l2[pdpt as int]);
        assert(l2[pdpt as int] == l1[pdpt as int]);
    }
    let (res, Ghost(l3)) = ensure_child_table(tables, TableRef::Nested(pd), indices.pd, Ghost(l2));
    if let Err(e) = res {
        return (Err(e), Ghost(labels));
    }
    let ghost t3 = *tables;
    proof {
        lemma_table_of_image(t3, TableRef::Nested(pd));
    }
    let pt = match child_table_index(tables, TableRef::Nested(pd), indices.pd) {
        Some(index) => index,
        None => return (Err(EptError::new(EptErrorKind::Planning, "EPT PT child table unavailable")), Ghost(l3)),
    };
    proof {
        assert(l3.subrange(0, l2.len() as int)[pd as int] == l3[pd as int]);
        assert(l3.subrange(0, l2.len() as int)[pdpt as int] == l3[pdpt as int]);
        assert(l3[pd as int] == l2[pd as int]);
        assert(l3[pdpt as int] == l1[pdpt as int]);
        assert(t3.paging_tables@[pt as int]@.len() == 4096);
    }
    let leaf = encode_ept_leaf_entry(host_phys, guest_writable);
    write_table_entry(tables, TableRef::Nested(pt), indices.pt, leaf);
    proof {
        let t4 = *tables;
        let i0 = indices.pml4 as int;
        let i1 = indices.pdpt as int;
        let i2 = indices.pd as int;
        let i3 = indices.pt as int;
        lemma_zero_entry();
        lemma_leaf_entry_bits(host_phys, guest_writable);
        lemma_entry_at_put(nested_table(t3, pt as int), i3, leaf);
        assert(nested_table(t4, pt as int) == put_u64(nested_table(t3, pt as int), 8 * i3, leaf));
        assert(l3[pdpt as int].0 == 1);
        assert(l3[pd as int].0 == 2);
        assert(l3[pt as int].0 == 3);
        assert(t4.root_table@ == t1.root_table@);
        assert(nested_table(t4, pdpt as int) == nested_table(t2, pdpt as int));
        assert(nested_table(t4, pd as int) == nested_table(t3, pd as int));
        assert forall|j: int, s: int| 0 <= j < l3.len() && 0 <= s < 512 && !(j == pt as int && s == i3)
            implies #[trigger] entry_at(nested_table(t4, j), s) == entry_at(nested_table(t3, j), s) by {
            if j != pt as int {
                assert(t4.paging_tables@[j]@ == t3.paging_tables@[j]@);
            }
        }
        assert forall|j: int| 0 <= j < l3.len() implies #[trigger] t4.paging_tables@[j]@.len() == 4096 by {
            if j != pt as int {
                assert(t4.paging_tables@[j]@ == t3.paging_tables@[j]@);
            } else {
                assert(nested_table(t4, j) == t4.paging_tables@[j]@);
            }
        }
        assert forall|j: int, s: int|
            0 <= j < l3.len() && l3[j].0 < 3 && 0 <= s < 512 implies pointer_ok(
                #[trigger] entry_at(nested_table(t4, j), s),
                l3,
                l3[j].0 + 1,
                l3[j].1 * 512 + s,
            ) by {
            assert(j != pt as int);
            assert(entry_at(nested_table(t4, j), s) == entry_at(nested_table(t3, j), s));
        }
        assert(tree_inv(t4, l3));
        if tree_reach(t0, labels) {
            assert(tree_reach(t3, l3));
            lemma_leaf_write_keeps_reach(t3, t4, l3, pt as int);
        }
        if leaves_low(t0, labels) && host_phys < 0x8000_0000_0000_0000u64 {
            assert(host_phys & 0x8000_0000_0000_0000u64 == 0) by (bit_vector)
                requires host_phys < 0x8000_0000_0000_0000u64;
            assert(leaves_low(t3, l3));
            assert forall|j: int, s: int| 0 <= j < l3.len() && l3[j].0 == 3 && 0 <= s < 512
                implies #[trigger] entry_at(nested_table(t4, j), s) & EPT_SYNTHETIC_TABLE_FLAG == 0 by {
                if !(j == pt as int && s == i3) {
                    assert(entry_at(nested_table(t3, j), s) & EPT_SYNTHETIC_TABLE_FLAG == 0);
                }
            }
        }
        assert forall|s0: int, s1: int, s2: int, s3: int| slot_in_range(s0, s1, s2, s3)
            implies #[trigger] walk_leaf(t4, s0, s1, s2, s3) == if in_slot(guest_phys, s0, s1, s2, s3) {
                Some(leaf_entry(host_phys, guest_writable))
            } else {
                walk_leaf(t0, s0, s1, s2, s3)
            } by {
            assert(walk_leaf(t3, s0, s1, s2, s3) == walk_leaf(t2, s0, s1, s2, s3));
            assert(walk_leaf(t2, s0, s1, s2, s3) == walk_leaf(t1, s0, s1, s2, s3));
            assert(walk_leaf(t1, s0, s1, s2, s3) == walk_leaf(t0, s0, s1, s2, s3));
            if in_slot(guest_phys, s0, s1, s2, s3) {
                assert(root_child(t4, s0) == Some(pdpt));
                assert(nested_child(t4, pdpt as int, s1) == Some(pd));
                assert(nested_child(t4, pd as int, s2) == Some(pt));
                assert(entry_at(nested_table(t4, pt as int), s3) == leaf);
            } else {
                assert(root_child(t4, s0) == root_child(t3, s0));
                match root_child(t3, s0) {
                    None => {},
                    Some(a) => {
                        assert(pointer_ok(entry_at(t3.root_table@, s0), l3, 1, s0));
                        assert(entry_at(nested_table(t4, a as int), s1) == entry_at(nested_table(t3, a as int), s1));
                        match nested_child(t3, a as int, s1) {
                            None => {},
                            Some(b) => {
                                assert(pointer_ok(entry_at(nested_table(t3, a as int), s1), l3, 2, l3[a as int].1 * 512 + s1));
                                assert(entry_at(nested_table(t4, b as int), s2) == entry_at(nested_table(t3, b as int), s2));
                                match nested_child(t3, b as int, s2) {
                                    None => {},
                                    Some(d) => {
                                        assert(pointer_ok(entry_at(nested_table(t3, b as int), s2), l3, 3, l3[b as int].1 * 512 + s2));
                                        if d == pt && s3 == i3 {
                                            lemma_prefix_injective(s0, s1, s2, i0, i1, i2);
                                            assert(false);
                                        }
                                        assert(entry_at(nested_table(t4, d as int), s3) == entry_at(nested_table(t3, d as int), s3));
                                    },
                                }
                            },
                        }
                    },
                }
            }
        }
    }
    (Ok(()), Ghost(l3))
}


// ---------------------------------------------------------------------------
// Facts about the write model.
// ---------------------------------------------------------------------------

proof fn lemma_page_writes_step(ms: Seq<EptProgrammedMapping>, i: int)
    requires
        0 <= i < ms.len(),
    ensures
        page_writes(ms.subrange(0, i + 1)) == page_writes(ms.subrange(0, i)) + mapping_pages(ms[i]),
{
    assert(ms.subrange(0, i + 1).drop_last() =~= ms.subrange(0, i));
    assert(ms.subrange(0, i + 1).last() == ms[i]);
}

proof fn lemma_page_writes_len_mono(ms: Seq<EptProgrammedMapping>, a: int, b: int)
    requires
        0 <= a <= b <= ms.len(),
    ensures
        page_writes(ms.subrange(0, a)).len() <= page_writes(ms.subrange(0, b)).len(),
    decreases b - a,
{
    if a < b {
        lemma_page_writes_step(ms, b - 1);
        lemma_page_writes_len_mono(ms, a, b - 1);
    }
}

proof fn lemma_page_writes_prefix(ms: Seq<EptProgrammedMapping>, a: int, b: int)
    requires
        0 <= a <= b <= ms.len(),
    ensures
        page_writes(ms.subrange(0, a)).len() <= page_writes(ms.subrange(0, b)).len(),
        page_writes(ms.subrange(0, b)).subrange(0, page_writes(ms.subrange(0, a)).len() as int)
            == page_writes(ms.subrange(0, a)),
    decreases b - a,
{
    if a < b {
        lemma_page_writes_step(ms, b - 1);
        lemma_page_writes_prefix(ms, a, b - 1);
        let la = page_writes(ms.subrange(0, a)).len() as int;
        assert(page_writes(ms.subrange(0, b)).subrange(0, la) =~= page_writes(ms.subrange(0, b - 1)).subrange(0, la));
    } else {
        assert(page_writes(ms.subrange(0, b)).subrange(0, page_writes(ms.subrange(0, b)).len() as int)
            =~= page_writes(ms.subrange(0, b)));
    }
}

/// Once a build runs out of table indices, no longer run of writes
/// starting with the same writes succeeds.
proof fn lemma_build_none_extends(ws1: Seq<(u64, u64, bool)>, ws2: Seq<(u64, u64, bool)>)
    requires
        ws1.len() <= ws2.len(),
        ws2.subrange(0, ws1.len() as int) == ws1,
        build_image(ws1) is None,
    ensures
        build_image(ws2) is None,
    decreases ws2.len(),
{
    if ws2.len() == ws1.len() {
        assert(ws2 =~= ws1);
    } else {
        assert(ws2.drop_last().subrange(0, ws1.len() as int) =~= ws1);
        lemma_build_none_extends(ws1, ws2.drop_last());
    }
}

proof fn lemma_last_write_push(ws: Seq<(u64, u64, bool)>, w: (u64, u64, bool), i0: int, i1: int, i2: int, i3: int)
    ensures
        last_slot_write(ws.push(w), i0, i1, i2, i3) == if in_slot(w.0, i0, i1, i2, i3) {
            Some(w)
        } else {
            last_slot_write(ws, i0, i1, i2, i3)
        },
{
    assert(ws.push(w).drop_last() =~= ws);
}

/// A slot's leaf maps the host page of its last write, whatever that
/// write's permission.
proof fn lemma_leaf_decodes_to_write(ws: Seq<(u64, u64, bool)>, i0: int, i1: int, i2: int, i3: int)
    ensures
        match last_leaf(ws, i0, i1, i2, i3) {
            Some(e) => decode_leaf(e),
            None => None,
        } == expected_walk(ws, i0, i1, i2, i3),
{
    match last_slot_write(ws, i0, i1, i2, i3) {
        Some(w) => {
            lemma_leaf_entry_bits(w.1, w.2);
            lemma_leaf_entry_bits(w.1, true);
        },
        None => {},
    }
}

/// What the building invariant gives a finished hierarchy: a page that
/// resolves sits under three distinct nested tables, and when no leaf entry
/// has the top bit set every synthetic pointer names an existing table.
proof fn lemma_tree_facts(t: EptProgrammedTables, labels: Seq<(int, int)>)
    requires
        tree_inv(t, labels),
    ensures
        forall|i0: int, i1: int, i2: int, i3: int| slot_in_range(i0, i1, i2, i3)
            && #[trigger] walk_leaf(t, i0, i1, i2, i3) is Some ==> t.paging_tables@.len() >= 3,
        leaves_low(t, labels) ==> pointers_resolved(t),
{
    lemma_zero_entry();
    assert forall|i0: int, i1: int, i2: int, i3: int| slot_in_range(i0, i1, i2, i3)
        && #[trigger] walk_leaf(t, i0, i1, i2, i3) is Some implies t.paging_tables@.len() >= 3 by {
        let a = root_child(t, i0)->Some_0;
        assert(pointer_ok(entry_at(t.root_table@, i0), labels, 1, i0));
        let b = nested_child(t, a as int, i1)->Some_0;
        assert(pointer_ok(entry_at(nested_table(t, a as int), i1), labels, 2, labels[a as int].1 * 512 + i1));
        let c = nested_child(t, b as int, i2)->Some_0;
        assert(pointer_ok(entry_at(nested_table(t, b as int), i2), labels, 3, labels[b as int].1 * 512 + i2));
        assert(labels[a as int].0 == 1 && labels[b as int].0 == 2 && labels[c as int].0 == 3);
    }
    if leaves_low(t, labels) {
        assert forall|s: int| 0 <= s < 512
            implies pointer_resolved(#[trigger] entry_at(t.root_table@, s), t.paging_tables@.len() as int) by {
            assert(pointer_ok(entry_at(t.root_table@, s), labels, 1, s));
        }
        assert forall|j: int, s: int| 0 <= j < t.paging_tables@.len() && 0 <= s < 512
            implies pointer_resolved(#[trigger] entry_at(nested_table(t, j), s), t.paging_tables@.len() as int) by {
            if labels[j].0 < 3 {
                assert(pointer_ok(entry_at(nested_table(t, j), s), labels, labels[j].0 + 1, labels[j].1 * 512 + s));
            } else {
                assert(entry_at(nested_table(t, j), s) & EPT_SYNTHETIC_TABLE_FLAG == 0);
            }
        }
    }
}

/// The hierarchy in `t` is exactly what materializing `ms` builds: the
/// bytes of `build_image` over the records' page writes (one-page tables),
/// so every guest page slot holds the leaf entry of the last page written
/// into it, with that write's host page and permission; a slot that maps a
/// page lies under three nested tables; and, when every host page lies
/// below bit 63, every synthetic pointer names an existing nested table.
pub open spec fn built_from(t: EptProgrammedTables, ms: Seq<EptProgrammedMapping>) -> bool {
    &&& t.root_table@.len() == 4096
    &&& forall|j: int| 0 <= j < t.paging_tables@.len() ==> #[trigger] t.paging_tables@[j]@.len() == 4096
    &&& forall|i0: int, i1: int, i2: int, i3: int| slot_in_range(i0, i1, i2, i3)
        ==> #[trigger] walk_leaf(t, i0, i1, i2, i3) == last_leaf(page_writes(ms), i0, i1, i2, i3)
    &&& forall|i0: int, i1: int, i2: int, i3: int| slot_in_range(i0, i1, i2, i3)
        ==> #[trigger] walk(t, i0, i1, i2, i3) == expected_walk(page_writes(ms), i0, i1, i2, i3)
    &&& forall|i0: int, i1: int, i2: int, i3: int| slot_in_range(i0, i1, i2, i3)
        && #[trigger] walk_leaf(t, i0, i1, i2, i3) is Some ==> t.paging_tables@.len() >= 3
    &&& hosts_low(page_writes(ms)) ==> pointers_resolved(t)
    &&& build_image(page_writes(ms)) == Some(tables_image(t))
}

// ---------------------------------------------------------------------------
// Public operations.
// ---------------------------------------------------------------------------

/// Rebuilds the in-memory EPT hierarchy from programmed mapping records.
///
/// Succeeds exactly when every mapping is a non-zero whole number of pages
/// whose pages fit in the address space (a build never needs more nested
/// tables than the pointer encoding can index: at most one per distinct
/// table-index prefix); the old tables are discarded and the new ones are a
/// function of the records alone, every guest page slot holding the leaf
/// entry of the last mapping page written into it.
pub fn materialize_ept_paging(tables: &mut EptProgrammedTables) -> (r: Result<(), EptError>)
    ensures
        final(tables).mappings@ == old(tables).mappings@,
        final(tables).root_table_phys == old(tables).root_table_phys,
        r is Ok <==> mappings_valid(old(tables).mappings@),
        r matches Err(e) ==> e.kind == EptErrorKind::Planning,
        r is Ok ==> built_from(*final(tables), old(tables).mappings@),
{
    let ghost ms = tables.mappings@;
    tables.paging_tables.clear();
    tables.root_table = vec![0u8; EPT_TABLE_BYTES];
    let ghost mut labels: Seq<(int, int)> = Seq::empty();
    proof {
        lemma_zero_table(tables.root_table@);
        lemma_zero_entry();
        assert(ms.subrange(0, 0) =~= Seq::<EptProgrammedMapping>::empty());
        assert(tree_inv(*tables, labels));
        assert(tables.root_table@ =~= zero_table());
        assert(tables_image(*tables).1 =~= Seq::<Seq<u8>>::empty());
        assert(page_writes(ms.subrange(0, 0)) =~= Seq::<(u64, u64, bool)>::empty());
    }
    let count = tables.mappings.len();
    let mut i: usize = 0;
    while i < count
        invariant
            count == ms.len(),
            i <= count,
            tables.mappings@ == ms,
            tables.root_table_phys == old(tables).root_table_phys,
            old(tables).mappings@ == ms,
            tree_inv(*tables, labels),
            forall|j: int| 0 <= j < i ==> #[trigger] mapping_valid(ms[j]),
            labels.len() <= 3 * page_writes(ms.subrange(0, i as int)).len(),
            hosts_low(page_writes(ms.subrange(0, i as int))) ==> leaves_low(*tables, labels),
            tree_reach(*tables, labels),
            build_image(page_writes(ms.subrange(0, i as int))) == Some(tables_image(*tables)),
            forall|i0: int, i1: int, i2: int, i3: int| slot_in_range(i0, i1, i2, i3)
                ==> #[trigger] walk_leaf(*tables, i0, i1, i2, i3) == last_leaf(
                    page_writes(ms.subrange(0, i as int)), i0, i1, i2, i3),
        decreases count - i,
    {
        let guest_phys = tables.mappings[i].guest_phys;
        let host_phys = tables.mappings[i].host_phys;
        let size_bytes = tables.mappings[i].size_bytes;
        let guest_writable = tables.mappings[i].guest_writable;
        if size_bytes == 0 || size_bytes % EPT_PAGE_SIZE_BYTES != 0 {
            proof {
                assert(!mapping_valid(ms[i as int]));
            }
            return Err(EptError::new(EptErrorKind::Planning, "EPT mapping size must be a non-zero page multiple"));
        }
        let page_count = size_bytes / EPT_PAGE_SIZE_BYTES;
        let ghost base = page_writes(ms.subrange(0, i as int));
        let ghost pages = mapping_pages(ms[i as int]);
        proof {
            lemma_page_writes_step(ms, i as int);
            lemma_page_writes_len_mono(ms, i as int + 1, ms.len() as int);
            assert(ms.subrange(0, ms.len() as int) =~= ms);
            assert(pages.len() == page_count);
            assert(base + pages.subrange(0, 0) =~= base);
        }
        let mut page_index: u64 = 0;
        while page_index < page_count
            invariant
                count == ms.len(),
                i < count,
                tables.mappings@ == ms,
                tables.root_table_phys == old(tables).root_table_phys,
                old(tables).mappings@ == ms,
                guest_phys == ms[i as int].guest_phys,
                host_phys == ms[i as int].host_phys,
                size_bytes == ms[i as int].size_bytes,
                guest_writable == ms[i as int].guest_writable,
                size_bytes > 0,
                size_bytes % 4096 == 0,
                page_count == size_bytes / 4096,
                pages == mapping_pages(ms[i as int]),
                pages.len() == page_count,
                base == page_writes(ms.subrange(0, i as int)),
                page_writes(ms.subrange(0, i as int + 1)) == base + pages,
                base.len() + pages.len() <= page_writes(ms).len(),
                page_index <= page_count,
                tree_inv(*tables, labels),
                forall|j: int| 0 <= j < i ==> #[trigger] mapping_valid(ms[j]),
                page_index > 0 ==> guest_phys + (page_index - 1) * 4096 <= u64::MAX,
                page_index > 0 ==> host_phys + (page_index - 1) * 4096 <= u64::MAX,
                labels.len() <= 3 * (base.len() + page_index),
                hosts_low(base + pages.subrange(0, page_index as int)) ==> leaves_low(*tables, labels),
                tree_reach(*tables, labels),
                build_image(base + pages.subrange(0, page_index as int)) == Some(tables_image(*tables)),
                forall|i0: int, i1: int, i2: int, i3: int| slot_in_range(i0, i1, i2, i3)
                    ==> #[trigger] walk_leaf(*tables, i0, i1, i2, i3) == last_leaf(
                        base + pages.subrange(0, page_index as int), i0, i1, i2, i3),
            decreases page_count - page_index,
        {
            proof {
                assert(size_bytes == page_count * 4096);
                assert(page_index * 4096 <= size_bytes - 4096) by (nonlinear_arith)
                    requires page_index < page_count, size_bytes == page_count * 4096;
            }
            let offset = page_index * EPT_PAGE_SIZE_BYTES;
            let guest_page = match guest_phys.checked_add(offset) {
                Some(address) => address,
                None => {
                    proof {
                        assert(!mapping_valid(ms[i as int]));
                    }
                    return Err(EptError::new(EptErrorKind::Planning, "guest page address overflow"));
                },
            };
            let host_page = match host_phys.checked_add(offset) {
                Some(address) => address,
                None => {
                    proof {
                        assert(!mapping_valid(ms[i as int]));
                    }
                    return Err(EptError::new(EptErrorKind::Planning, "host page address overflow"));
                },
            };
            let ghost before = *tables;
            let ghost old_labels = labels;
            let ghost done = base + pages.subrange(0, page_index as int);
            let (res, Ghost(new_labels)) = map_guest_page(tables, guest_page, host_page, guest_writable, Ghost(labels));
            let ghost w = pages[page_index as int];
            proof {
                assert(w == (guest_page, host_page, guest_writable));
                assert(base + pages.subrange(0, page_index as int + 1) =~= done.push(w));
                assert(done.push(w).drop_last() =~= done);
                assert(done.push(w).last() == w);
            }
            if let Err(e) = res {
                proof {
                    lemma_labels_bounded(before, old_labels);
                    let full = page_writes(ms);
                    let k = done.len() as int + 1;
                    lemma_page_writes_prefix(ms, i as int + 1, ms.len() as int);
                    assert(ms.subrange(0, ms.len() as int) =~= ms);
                    assert(full.subrange(0, k) =~= done.push(w));
                    lemma_build_none_extends(done.push(w), full);
                }
                return Err(e);
            }
            proof {
                labels = new_labels;
                if hosts_low(done.push(w)) {
                    assert(done.push(w)[done.len() as int] == w);
                    assert(done.push(w)[done.len() as int].1 < 0x8000_0000_0000_0000u64);
                    assert forall|k: int| 0 <= k < done.len() implies #[trigger] done[k].1 < 0x8000_0000_0000_0000u64 by {
                        assert(done.push(w)[k] == done[k]);
                    }
                    assert(hosts_low(done));
                    assert(leaves_low(before, old_labels));
                    assert(leaves_low(*tables, labels));
                }
                assert forall|i0: int, i1: int, i2: int, i3: int| slot_in_range(i0, i1, i2, i3)
                    implies #[trigger] walk_leaf(*tables, i0, i1, i2, i3) == last_leaf(
                        base + pages.subrange(0, page_index as int + 1), i0, i1, i2, i3) by {
                    lemma_last_write_push(done, w, i0, i1, i2, i3);
                }
            }
            page_index = page_index + 1;
        }
        proof {
            assert(pages.subrange(0, page_count as int) =~= pages);
            assert(mapping_valid(ms[i as int]));
            assert(base + pages.subrange(0, page_count as int) =~= page_writes(ms.subrange(0, i as int + 1)));
        }
        i = i + 1;
    }
    proof {
        assert(ms.subrange(0, ms.len() as int) =~= ms);
        assert forall|j: int| 0 <= j < tables.paging_tables@.len() implies #[trigger] tables.paging_tables@[j]@.len() == 4096 by {
        }
        assert forall|i0: int, i1: int, i2: int, i3: int| slot_in_range(i0, i1, i2, i3)
            implies #[trigger] walk(*tables, i0, i1, i2, i3) == expected_walk(page_writes(ms), i0, i1, i2, i3) by {
            lemma_leaf_decodes_to_write(page_writes(ms), i0, i1, i2, i3);
        }
        lemma_tree_facts(*tables, labels);
    }
    Ok(())
}


/// Resolves a guest physical page to its host physical base via the in-memory hierarchy.
pub fn ept_resolve_guest_page(tables: &EptProgrammedTables, guest_phys: u64) -> (r: Option<u64>)
    ensures
        r == resolve_page(*tables, guest_phys),
{
    if guest_phys % EPT_PAGE_SIZE_BYTES != 0 {
        return None;
    }
    let indices = ept_indices(guest_phys);
    let pdpt = match child_table_index(tables, TableRef::Root, indices.pml4) {
        Some(index) => index,
        None => return None,
    };
    let pd = match child_table_index(tables, TableRef::Nested(pdpt), indices.pdpt) {
        Some(index) => index,
        None => return None,
    };
    let pt = match child_table_index(tables, TableRef::Nested(pd), indices.pd) {
        Some(index) => index,
        None => return None,
    };
    let entry = read_table_entry(tables, TableRef::Nested(pt), indices.pt);
    decode_leaf_host_phys(entry)
}

/// Returns whether the in-memory EPT hierarchy maps a guest physical page.
pub fn ept_maps_guest_page(tables: &EptProgrammedTables, guest_phys: u64) -> (mapped: bool)
    ensures
        mapped == resolve_page(*tables, guest_phys) is Some,
{
    ept_resolve_guest_page(tables, guest_phys).is_some()
}

/// `new` is `old` with every whole entry patched and every other byte kept.
pub open spec fn table_patched(old: Seq<u8>, new: Seq<u8>, nested_phys: Seq<u64>) -> bool {
    &&& new.len() == old.len()
    &&& forall|s: int| 0 <= s < 512 && 8 * s + 8 <= old.len()
        ==> #[trigger] entry_at(new, s) == patched_entry(entry_at(old, s), nested_phys)
    &&& forall|j: int| 0 <= j < old.len() && !(j < 4096 && 8 * (j / 8) + 8 <= old.len())
        ==> #[trigger] new[j] == old[j]
}

fn patch_table_entries(table: &mut Vec<u8>, nested_phys: &[u64])
    ensures
        table_patched(old(table)@, final(table)@, nested_phys@),
{
    let ghost start = table@;
    let mut slot: usize = 0;
    while slot < EPT_ENTRIES_PER_TABLE
        invariant
            slot <= 512,
            table@.len() == start.len(),
            forall|s: int| 0 <= s < slot && 8 * s + 8 <= start.len()
                ==> #[trigger] entry_at(table@, s) == patched_entry(entry_at(start, s), nested_phys@),
            forall|s: int| slot <= s < 512 ==> #[trigger] entry_at(table@, s) == entry_at(start, s),
            forall|j: int| 0 <= j < start.len() && !(j < 8 * slot && 8 * (j / 8) + 8 <= start.len())
                ==> #[trigger] table@[j] == start[j],
        decreases 512 - slot,
    {
        let entry = read_entry(table.as_slice(), slot);
        proof {
            lemma_zero_entry();
        }
        if entry & EPT_SYNTHETIC_TABLE_FLAG != 0 {
            if let Some(index) = synthetic_table_index(entry) {
                if index < nested_phys.len() {
                    let host_phys = nested_phys[index];
                    let pointer = encode_table_pointer(host_phys);
                    let ghost before = table@;
                    proof {
                        assert(8 * slot + 8 <= before.len());
                        lemma_entry_at_put(before, slot as int, pointer);
                    }
                    write_entry(table, slot, pointer);
                    proof {
                        assert forall|j: int| 0 <= j < start.len() && !(j < 8 * (slot + 1) && 8 * (j / 8) + 8 <= start.len())
                            implies #[trigger] table@[j] == start[j] by {
                            assert(j < 8 * slot || j >= 8 * slot + 8);
                            assert(table@[j] == before[j]);
                        }
                    }
                }
            }
        }
        slot = slot + 1;
    }
}

/// Patches synthetic child-table pointers with installed host physical
/// addresses: in the root and in every nested table, an entry pointing to
/// nested table `i` becomes a hardware table pointer to `nested_phys[i]`
/// when there is one; all other entries are kept.
pub fn patch_ept_table_host_phys(tables: &mut EptProgrammedTables, nested_phys: &[u64])
    ensures
        final(tables).mappings@ == old(tables).mappings@,
        final(tables).root_table_phys == old(tables).root_table_phys,
        table_patched(old(tables).root_table@, final(tables).root_table@, nested_phys@),
        final(tables).paging_tables@.len() == old(tables).paging_tables@.len(),
        forall|i: int| 0 <= i < old(tables).paging_tables@.len() ==> table_patched(
            #[trigger] old(tables).paging_tables@[i]@,
            final(tables).paging_tables@[i]@,
            nested_phys@,
        ),
{
    patch_table_entries(&mut tables.root_table, nested_phys);
    let ghost start = tables.paging_tables@;
    let count = tables.paging_tables.len();
    let mut i: usize = 0;
    while i < count
        invariant
            count == start.len(),
            i <= count,
            tables.paging_tables@.len() == count,
            tables.mappings@ == old(tables).mappings@,
            tables.root_table_phys == old(tables).root_table_phys,
            table_patched(old(tables).root_table@, tables.root_table@, nested_phys@),
            forall|k: int| 0 <= k < i ==> table_patched(#[trigger] start[k]@, tables.paging_tables@[k]@, nested_phys@),
            forall|k: int| i <= k < count ==> #[trigger] tables.paging_tables@[k] == start[k],
        decreases count - i,
    {
        let mut table: Vec<u8> = Vec::new();
        tables.paging_tables.set_and_swap(i, &mut table);
        patch_table_entries(&mut table, nested_phys);
        tables.paging_tables.set_and_swap(i, &mut table);
        i = i + 1;
    }
}

/// Rebuild law: the bytes a materialization leaves are a function of the
/// mapping records alone. Two hierarchies built from the same records hold
/// the same root and the same nested tables, so rebuilding a hierarchy from
/// its own records leaves it as it was.
pub proof fn lemma_built_tables_determined(t1: EptProgrammedTables, t2: EptProgrammedTables, ms: Seq<EptProgrammedMapping>)
    requires
        built_from(t1, ms),
        built_from(t2, ms),
    ensures
        t1.root_table@ == t2.root_table@,
        t1.paging_tables@.len() == t2.paging_tables@.len(),
        forall|j: int| 0 <= j < t1.paging_tables@.len() ==> #[trigger] t1.paging_tables@[j]@ == t2.paging_tables@[j]@,
{
    assert(tables_image(t1) == tables_image(t2));
    assert(tables_image(t1).1.len() == tables_image(t2).1.len());
    assert forall|j: int| 0 <= j < t1.paging_tables@.len() implies #[trigger] t1.paging_tables@[j]@ == t2.paging_tables@[j]@ by {
        assert(tables_image(t1).1[j] == tables_image(t2).1[j]);
    }
}

proof fn lemma_table_pointer_not_synthetic(h: u64)
    ensures
        synthetic_index(table_pointer(h)) is None,
{
    assert((1u64 | 2u64 | 4u64 | 0x30u64 | (h & 0x000F_FFFF_FFFF_F000u64)) & 0x8000_0000_0000_0000u64 == 0) by (bit_vector);
}

/// An entry that names an existing table, or none, is no synthetic pointer
/// once patched with an address for every table.
proof fn lemma_patched_entry_resolved(e: u64, n: int, nested_phys: Seq<u64>)
    requires
        pointer_resolved(e, n),
        n <= nested_phys.len(),
    ensures
        synthetic_index(patched_entry(e, nested_phys)) is None,
{
    match synthetic_index(e) {
        Some(c) => lemma_table_pointer_not_synthetic(nested_phys[c as int]),
        None => {},
    }
}

/// Patch law: after materializing records whose host pages all lie below
/// bit 63, patching with an installed address for each nested table leaves
/// no synthetic pointer anywhere in the hierarchy, in the root or in any
/// nested table.
pub proof fn lemma_patch_resolves_every_pointer(
    before: EptProgrammedTables,
    after: EptProgrammedTables,
    ms: Seq<EptProgrammedMapping>,
    nested_phys: Seq<u64>,
)
    requires
        built_from(before, ms),
        hosts_low(page_writes(ms)),
        nested_phys.len() >= before.paging_tables@.len(),
        table_patched(before.root_table@, after.root_table@, nested_phys),
        after.paging_tables@.len() == before.paging_tables@.len(),
        forall|i: int| 0 <= i < before.paging_tables@.len() ==> table_patched(
            #[trigger] before.paging_tables@[i]@,
            after.paging_tables@[i]@,
            nested_phys,
        ),
    ensures
        forall|s: int| 0 <= s < 512 ==> #[trigger] synthetic_index(entry_at(after.root_table@, s)) is None,
        forall|j: int, s: int| 0 <= j < after.paging_tables@.len() && 0 <= s < 512
            ==> #[trigger] synthetic_index(entry_at(nested_table(after, j), s)) is None,
{
    let n = before.paging_tables@.len() as int;
    assert forall|s: int| 0 <= s < 512 implies #[trigger] synthetic_index(entry_at(after.root_table@, s)) is None by {
        assert(pointer_resolved(entry_at(before.root_table@, s), n));
        lemma_patched_entry_resolved(entry_at(before.root_table@, s), n, nested_phys);
    }
    assert forall|j: int, s: int| 0 <= j < after.paging_tables@.len() && 0 <= s < 512
        implies #[trigger] synthetic_index(entry_at(nested_table(after, j), s)) is None by {
        assert(table_patched(before.paging_tables@[j]@, after.paging_tables@[j]@, nested_phys));
        assert(before.paging_tables@[j]@.len() == 4096);
        assert(pointer_resolved(entry_at(nested_table(before, j), s), n));
        lemma_patched_entry_resolved(entry_at(nested_table(before, j), s), n, nested_phys);
    }
}

/// Table pointer law: a hardware table pointer is the nested table's 4 KiB
/// frame address within the 52-bit physical space plus 0x37 (read, write,
/// execute, write-back memory type).
pub proof fn lemma_table_pointer_value(host_phys: u64)
    ensures
        table_pointer(host_phys) as int == ((host_phys % 0x10_0000_0000_0000) / 4096) * 4096 + 0x37,
{
    let h = host_phys;
    assert((1u64 | 2u64 | 4u64 | 0x30u64 | (h & 0x000F_FFFF_FFFF_F000u64))
        == ((h % 0x10_0000_0000_0000u64) / 4096u64) * 4096u64 + 0x37u64) by (bit_vector);
}

} // verus!
