//! Page Table Manager: builds the three-level translation-table tree.
//!
//! The tree is rooted in an 8-entry L1 table; every L2 and L3 table is a
//! 2048-entry array of descriptors occupying one 16 KiB frame obtained
//! from the physical page manager.  A virtual address is carved as
//! bits [38:36] -> L1 index, [35:25] -> L2 index, [24:14] -> L3 index,
//! [13:0] -> page offset.
//!
//! On the real machine a parent entry's NLTA field is the only link to its
//! child table; here each node also owns its children directly, and the
//! well-formedness invariant ties the two together: a child is present at
//! a slot exactly when the slot's descriptor is a valid table descriptor,
//! and the descriptor's NLTA names the child's frame.  (Once the MMU is
//! on, the real walker re-projects each NLTA through `pa_to_ram_va`
//! before dereferencing it; the model addresses children by physical
//! address throughout.)

use vstd::prelude::*;

use crate::memory::PAGE_LEN;
use crate::ppm::{
    get_free_page, has_free, lemma_has_free_num_free, lemma_num_free_update, num_free, Ppm,
    PPMError,
};
use crate::ttd::{
    lemma_pa_field_roundtrip, pa_to_nlta, pa_to_oab, oab_to_pa, pd_af, pd_oab, pd_page, pd_valid,
    td_nlta, td_table, td_valid, PageDescriptorS1, TableDescriptorS1,
};
use crate::types::get_bits;

verus! {

#[derive(Clone, Copy, PartialEq, Eq, Structural, Debug)]
pub enum PTMError {
    GetFreePageFailed(PPMError),
    MapPageToVAFailed(PPMError),
    VAAlreadyMapped,
}

/// An L3 table: 2048 page descriptors in the frame at `pa`.
#[verifier::ext_equal]
#[derive(Clone, PartialEq, Eq, Debug)]
pub struct L3Node {
    pub pa: u64,
    pub entries: Vec<PageDescriptorS1>,
}

/// An L2 table: 2048 table descriptors in the frame at `pa`, owning the
/// L3 tables its valid entries point at.
#[verifier::ext_equal]
#[derive(Clone, PartialEq, Eq, Debug)]
pub struct L2Node {
    pub pa: u64,
    pub entries: Vec<TableDescriptorS1>,
    pub children: Vec<Option<L3Node>>,
}

/// A root (L1) table: 8 table descriptors, owning the L2 tables its valid
/// entries point at.  The two kernel roots live in the kernel image, so
/// they carry no frame of their own.
#[verifier::ext_equal]
#[derive(Clone, PartialEq, Eq, Debug)]
pub struct RootTable {
    pub entries: Vec<TableDescriptorS1>,
    pub children: Vec<Option<L2Node>>,
}

/// L1 index of a virtual address: bits [38:36].
pub open spec fn l1_index(va: u64) -> int {
    ((va >> 36u64) & 7u64) as int
}

/// L2 index of a virtual address: bits [35:25].
pub open spec fn l2_index(va: u64) -> int {
    ((va >> 25u64) & 0x7FFu64) as int
}

/// L3 index of a virtual address: bits [24:14].
pub open spec fn l3_index(va: u64) -> int {
    ((va >> 14u64) & 0x7FFu64) as int
}

/// Two addresses select the same 16 KiB page: all three table indices agree.
pub open spec fn same_triple(va1: u64, va2: u64) -> bool {
    l1_index(va1) == l1_index(va2) && l2_index(va1) == l2_index(va2) && l3_index(va1) == l3_index(
        va2,
    )
}

pub proof fn lemma_index_bounds(va: u64)
    ensures
        0 <= l1_index(va) < 8,
        0 <= l2_index(va) < 2048,
        0 <= l3_index(va) < 2048,
{
    assert(((va >> 36u64) & 7u64) < 8u64 && ((va >> 25u64) & 0x7FFu64) < 2048u64 && ((va
        >> 14u64) & 0x7FFu64) < 2048u64) by (bit_vector);
}

/// The concrete values of the two address-space limits.
pub proof fn lemma_pow2_consts()
    ensures
        (1u64 << 39u64) == 0x80_0000_0000u64,
        (1u64 << 48u64) == 0x1_0000_0000_0000u64,
{
    assert((1u64 << 39u64) == 0x80_0000_0000u64 && (1u64 << 48u64) == 0x1_0000_0000_0000u64)
        by (bit_vector);
}

/// An L3 node is well formed: full-size table in an aligned 48-bit frame.
pub open spec fn l3_wf(n: L3Node) -> bool {
    &&& n.entries@.len() == 2048
    &&& n.pa < (1u64 << 48u64)
    &&& n.pa % PAGE_LEN == 0
}

/// Slot `i` of an L2 node is well formed: a child is present exactly when
/// the descriptor is a valid table descriptor, and then the descriptor's
/// NLTA names the child's frame.
pub open spec fn l2_slot_wf(n: L2Node, i: int) -> bool {
    match n.children@[i] {
        Some(l3) => {
            &&& l3_wf(l3)
            &&& td_valid(n.entries@[i].bits)
            &&& td_table(n.entries@[i].bits)
            &&& td_nlta(n.entries@[i].bits) == n.children@[i]->Some_0.pa >> 14u64
        },
        None => !(td_valid(n.entries@[i].bits) && td_table(n.entries@[i].bits)),
    }
}

/// An L2 node is well formed: full-size, aligned frame, every slot tied to
/// its descriptor.
pub open spec fn l2_wf(n: L2Node) -> bool {
    &&& n.entries@.len() == 2048
    &&& n.children@.len() == 2048
    &&& n.pa < (1u64 << 48u64)
    &&& n.pa % PAGE_LEN == 0
    &&& forall|i: int| 0 <= i < 2048 ==> #[trigger] l2_slot_wf(n, i)
}

/// Slot `i` of a root table, tied to its descriptor like an L2 slot.
pub open spec fn root_slot_wf(r: RootTable, i: int) -> bool {
    match r.children@[i] {
        Some(l2) => {
            &&& l2_wf(l2)
            &&& td_valid(r.entries@[i].bits)
            &&& td_table(r.entries@[i].bits)
            &&& td_nlta(r.entries@[i].bits) == r.children@[i]->Some_0.pa >> 14u64
        },
        None => !(td_valid(r.entries@[i].bits) && td_table(r.entries@[i].bits)),
    }
}

/// A root table is well formed: 8 slots, each tied to its descriptor.
pub open spec fn root_wf(r: RootTable) -> bool {
    &&& r.entries@.len() == 8
    &&& r.children@.len() == 8
    &&& forall|i: int| 0 <= i < 8 ==> #[trigger] root_slot_wf(r, i)
}

/// Walk the tree along `va`'s indices: the leaf page descriptor, if the
/// path is complete and the leaf is a valid page.
pub open spec fn walk(r: RootTable, va: u64) -> Option<PageDescriptorS1> {
    match r.children@[l1_index(va)] {
        None => None,
        Some(l2) => match l2.children@[l2_index(va)] {
            None => None,
            Some(l3) => {
                let d = l3.entries@[l3_index(va)];
                if pd_valid(d.bits) && pd_page(d.bits) {
                    Some(d)
                } else {
                    None
                }
            },
        },
    }
}

/// The physical page `va` resolves to: the leaf's output address.
pub open spec fn resolves(r: RootTable, va: u64) -> Option<u64> {
    match walk(r, va) {
        Some(d) => Some((pd_oab(d.bits) << 14u64) as u64),
        None => None,
    }
}

/// The walk depends only on the three indices, never on the offset bits.
pub proof fn lemma_walk_same_triple(r: RootTable, va1: u64, va2: u64)
    requires
        same_triple(va1, va2),
    ensures
        walk(r, va1) == walk(r, va2),
{
}

/// The exact 64-bit word this kernel writes for a page leaf: valid
/// (bit 0), page type (bit 1), access flag (bit 10) and the page's
/// output-address bits — nothing else set.
pub open spec fn page_leaf_bits(pa: u64) -> u64 {
    0x403u64 | ((pa >> 14u64) << 14u64)
}

/// The leaf word carries exactly the four fields the kernel writes:
/// valid, page type, access flag and the output address, with no stray
/// attribute bit.
pub open spec fn leaf_strict(d: u64) -> bool {
    d == 0x403u64 | (pd_oab(d) << 14u64)
}

/// Every leaf anywhere in the tree is one this kernel could have
/// written — so in particular every mapped page has its access flag set
/// and carries no stray attribute bits.
pub open spec fn all_leaves_strict(r: RootTable) -> bool {
    forall|va: u64| #[trigger] walk(r, va) is Some ==> leaf_strict(walk(r, va)->Some_0.bits)
}

/// The fields of the exact leaf word for a 48-bit physical address.
pub proof fn lemma_page_leaf_bits_fields(pa: u64)
    requires
        pa < (1u64 << 48u64),
    ensures
        pd_valid(page_leaf_bits(pa)),
        pd_page(page_leaf_bits(pa)),
        pd_af(page_leaf_bits(pa)),
        pd_oab(page_leaf_bits(pa)) == pa >> 14u64,
        leaf_strict(page_leaf_bits(pa)),
{
    assert(pa < (1u64 << 48u64) ==> pd_valid(0x403u64 | ((pa >> 14u64) << 14u64)) && pd_page(
        0x403u64 | ((pa >> 14u64) << 14u64)) && pd_af(0x403u64 | ((pa >> 14u64) << 14u64))
        && pd_oab(0x403u64 | ((pa >> 14u64) << 14u64)) == pa >> 14u64) by (bit_vector);
    assert(pa < (1u64 << 48u64) ==> (0x403u64 | ((pa >> 14u64) << 14u64)) == 0x403u64 | (pd_oab(
        0x403u64 | ((pa >> 14u64) << 14u64)) << 14u64)) by (bit_vector);
}

/// A strict leaf whose output address names `q` is exactly `q`'s leaf
/// word, access flag included.
pub proof fn lemma_strict_leaf_resolved(d: u64, q: u64)
    requires
        leaf_strict(d),
        (pd_oab(d) << 14u64) as u64 == q,
    ensures
        d == page_leaf_bits(q),
        pd_af(d),
{
    assert((d == 0x403u64 | (((d >> 14u64) & 0x3_FFFF_FFFFu64) << 14u64) && (((d >> 14u64)
        & 0x3_FFFF_FFFFu64) << 14u64) == q) ==> d == (0x403u64 | ((q >> 14u64) << 14u64)) && d
        & 0x400u64 == 0x400u64) by (bit_vector);
}

/// Two page-aligned addresses below the 39-bit horizon with the same
/// index triple are the same address.
pub proof fn lemma_same_triple_eq(p: u64, q: u64)
    requires
        same_triple(p, q),
        p < (1u64 << 39u64),
        q < (1u64 << 39u64),
        p % 16384u64 == 0u64,
        q % 16384u64 == 0u64,
    ensures
        p == q,
{
    if p != q {
        lemma_distinct_triples(p, q);
    }
}

/// The frame holding `pa` is accounted for in the registry.
pub open spec fn frame_reserved(pa: u64, reg: Seq<u8>) -> bool {
    &&& (pa / PAGE_LEN) < reg.len()
    &&& reg[(pa / PAGE_LEN) as int] >= 1
}

/// Every frame owned by the L2 node or its L3 children is accounted for.
pub open spec fn l2_frames_reserved(n: L2Node, reg: Seq<u8>) -> bool {
    &&& frame_reserved(n.pa, reg)
    &&& forall|i: int|
        0 <= i < n.children@.len() ==> match #[trigger] n.children@[i] {
            Some(l3) => frame_reserved(l3.pa, reg),
            None => true,
        }
}

/// Every table frame reachable from the root is accounted for in the
/// registry with at least one reference, so the allocator can never hand
/// a live table page out again.
pub open spec fn root_frames_reserved(r: RootTable, reg: Seq<u8>) -> bool {
    forall|i: int|
        0 <= i < r.children@.len() ==> match #[trigger] r.children@[i] {
            Some(l2) => l2_frames_reserved(l2, reg),
            None => true,
        }
}

/// How many table frames a walk along `va` is missing: 2 when even the L2
/// table is absent, 1 when only the L3 table is, 0 when the path exists.
pub open spec fn needed_tables(r: RootTable, va: u64) -> int {
    match r.children@[l1_index(va)] {
        None => 2,
        Some(l2) => match l2.children@[l2_index(va)] {
            None => 1,
            Some(_) => 0,
        },
    }
}

/// L1 index as an executable value.
fn l1_of(va: u64) -> (r: usize)
    ensures
        r as int == l1_index(va),
        r < 8,
{
    let b = get_bits(va, 38, 36);
    proof {
        assert((va >> 36u64) & (((1u64 << 3u64) - 1) as u64) == (va >> 36u64) & 7u64 && (va
            >> 36u64) & 7u64 < 8u64) by (bit_vector);
    }
    b as usize
}

/// L2 index as an executable value.
fn l2_of(va: u64) -> (r: usize)
    ensures
        r as int == l2_index(va),
        r < 2048,
{
    let b = get_bits(va, 35, 25);
    proof {
        assert((va >> 25u64) & (((1u64 << 11u64) - 1) as u64) == (va >> 25u64) & 0x7FFu64 && (va
            >> 25u64) & 0x7FFu64 < 2048u64) by (bit_vector);
    }
    b as usize
}

/// L3 index as an executable value.
fn l3_of(va: u64) -> (r: usize)
    ensures
        r as int == l3_index(va),
        r < 2048,
{
    let b = get_bits(va, 24, 14);
    proof {
        assert((va >> 14u64) & (((1u64 << 11u64) - 1) as u64) == (va >> 14u64) & 0x7FFu64 && (va
            >> 14u64) & 0x7FFu64 < 2048u64) by (bit_vector);
    }
    b as usize
}

/// A table of `n` invalid (all-zero) table descriptors.
fn zeroed_table_descs(n: usize) -> (v: Vec<TableDescriptorS1>)
    ensures
        v@.len() == n,
        forall|i: int| 0 <= i < n ==> v@[i].bits == 0u64,
{
    let mut v: Vec<TableDescriptorS1> = Vec::new();
    while v.len() < n
        invariant
            v@.len() <= n,
            forall|i: int| 0 <= i < v@.len() ==> v@[i].bits == 0u64,
        decreases n - v@.len(),
    {
        v.push(TableDescriptorS1::new());
    }
    v
}

/// A table of `n` invalid (all-zero) page descriptors.
fn zeroed_page_descs(n: usize) -> (v: Vec<PageDescriptorS1>)
    ensures
        v@.len() == n,
        forall|i: int| 0 <= i < n ==> v@[i].bits == 0u64,
{
    let mut v: Vec<PageDescriptorS1> = Vec::new();
    while v.len() < n
        invariant
            v@.len() <= n,
            forall|i: int| 0 <= i < v@.len() ==> v@[i].bits == 0u64,
        decreases n - v@.len(),
    {
        v.push(PageDescriptorS1::new());
    }
    v
}

/// `n` empty child slots for an L2 node.
fn none_l3_slots(n: usize) -> (v: Vec<Option<L3Node>>)
    ensures
        v@.len() == n,
        forall|i: int| 0 <= i < n ==> v@[i] is None,
{
    let mut v: Vec<Option<L3Node>> = Vec::new();
    while v.len() < n
        invariant
            v@.len() <= n,
            forall|i: int| 0 <= i < v@.len() ==> v@[i] is None,
        decreases n - v@.len(),
    {
        v.push(None);
    }
    v
}

/// `n` empty child slots for a root table.
fn none_l2_slots(n: usize) -> (v: Vec<Option<L2Node>>)
    ensures
        v@.len() == n,
        forall|i: int| 0 <= i < n ==> v@[i] is None,
{
    let mut v: Vec<Option<L2Node>> = Vec::new();
    while v.len() < n
        invariant
            v@.len() <= n,
            forall|i: int| 0 <= i < v@.len() ==> v@[i] is None,
        decreases n - v@.len(),
    {
        v.push(None);
    }
    v
}

impl RootTable {
    /// A fresh root table: 8 invalid entries, no children, mapping nothing.
    pub fn new() -> (r: RootTable)
        ensures
            root_wf(r),
            forall|va: u64| #[trigger] walk(r, va) is None,
            forall|reg: Seq<u8>| #[trigger] root_frames_reserved(r, reg),
            forall|i: int| 0 <= i < 8 ==> r.entries@[i].bits == 0u64,
    {
        let r = RootTable { entries: zeroed_table_descs(8), children: none_l2_slots(8) };
        proof {
            assert(!td_valid(0u64) && !td_table(0u64)) by (bit_vector);
            assert forall|i: int| 0 <= i < 8 implies #[trigger] root_slot_wf(r, i) by {
                assert(r.children@[i] is None);
            }
            assert forall|va: u64| #[trigger] walk(r, va) is None by {
                lemma_index_bounds(va);
                assert(r.children@[l1_index(va)] is None);
            }
        }
        r
    }
}

/// A fresh, zero-filled L2 table in the frame at `pa`.
fn new_l2_node(pa: u64) -> (n: L2Node)
    requires
        pa < (1u64 << 48u64),
        pa % PAGE_LEN == 0,
    ensures
        l2_wf(n),
        n.pa == pa,
        forall|i: int| 0 <= i < 2048 ==> n.children@[i] is None,
        forall|i: int| 0 <= i < 2048 ==> n.entries@[i].bits == 0u64,
{
    let n = L2Node { pa, entries: zeroed_table_descs(2048), children: none_l3_slots(2048) };
    proof {
        assert(!td_valid(0u64) && !td_table(0u64)) by (bit_vector);
        assert forall|i: int| 0 <= i < 2048 implies #[trigger] l2_slot_wf(n, i) by {
            assert(n.children@[i] is None);
        }
    }
    n
}

/// A fresh, zero-filled L3 table in the frame at `pa`.
fn new_l3_node(pa: u64) -> (n: L3Node)
    requires
        pa < (1u64 << 48u64),
        pa % PAGE_LEN == 0,
    ensures
        l3_wf(n),
        n.pa == pa,
        forall|i: int| 0 <= i < 2048 ==> n.entries@[i].bits == 0u64,
{
    L3Node { pa, entries: zeroed_page_descs(2048) }
}

/// Read-only walk: the physical page `va` currently resolves to, exactly
/// as the `resolves` specification describes it.
pub fn resolve_va(root_table: &RootTable, va: u64) -> (r: Option<u64>)
    requires
        root_wf(*root_table),
    ensures
        r == resolves(*root_table, va),
{
    let l1_idx = l1_of(va);
    let l2_idx = l2_of(va);
    let l3_idx = l3_of(va);
    let d1 = root_table.entries[l1_idx];
    proof {
        assert(root_slot_wf(*root_table, l1_idx as int));
    }
    if !(d1.valid_bit() && d1.table_descriptor()) {
        return None;
    }
    let l2 = match &root_table.children[l1_idx] {
        Some(n) => n,
        None => unreached(),
    };
    let d2 = l2.entries[l2_idx];
    proof {
        assert(l2_slot_wf(*l2, l2_idx as int));
    }
    if !(d2.valid_bit() && d2.table_descriptor()) {
        return None;
    }
    let l3 = match &l2.children[l2_idx] {
        Some(n) => n,
        None => unreached(),
    };
    let d3 = l3.entries[l3_idx];
    if d3.valid_bit() && d3.descriptor_type() {
        let oab = d3.oab();
        proof {
            let b = d3.bits;
            assert(pd_oab(b) < (1u64 << 34u64)) by (bit_vector);
        }
        Some(oab_to_pa(oab))
    } else {
        None
    }
}

/// A frame handed out by the allocator is page-aligned and within the
/// 48-bit physical space the registry covers.
proof fn lemma_fresh_frame(i: int, len: int)
    requires
        0 <= i < len,
        len * (PAGE_LEN as int) <= (1u64 << 48u64),
    ensures
        (i * (PAGE_LEN as int)) % (PAGE_LEN as int) == 0,
        0 <= i * (PAGE_LEN as int),
        i * (PAGE_LEN as int) < (1u64 << 48u64),
        (i * (PAGE_LEN as int)) / (PAGE_LEN as int) == i,
{
    assert((i * (PAGE_LEN as int)) % (PAGE_LEN as int) == 0 && 0 <= i * (PAGE_LEN as int) && (i
        * (PAGE_LEN as int)) / (PAGE_LEN as int) == i && i * (PAGE_LEN as int) + (
    PAGE_LEN as int) <= len * (PAGE_LEN as int)) by (nonlinear_arith)
        requires
            0 <= i < len,
            PAGE_LEN == 16384,
    ;
}

/// Map the 16 KiB page at physical address `page_pa` at virtual address
/// `va` in the tree rooted at `root_table`, allocating any missing L2/L3
/// table from the physical page manager.
///
/// If the leaf slot already holds a valid page and `overwrite` is off,
/// nothing changes and the call reports the physical page the slot
/// already resolves to — the caller learns what `va` was mapped to.
/// Otherwise the leaf is (re)written to point at `page_pa` with the
/// access flag set, and `page_pa` itself is returned.  The call fails
/// exactly when the registry has fewer free frames than the walk is
/// missing tables, and a failure changes no mapping.
pub fn map_page_to_va(
    root_table: &mut RootTable,
    ppm: &mut Ppm,
    page_pa: u64,
    va: u64,
    overwrite: bool,
) -> (r: Result<u64, PTMError>)
    requires
        root_wf(*old(root_table)),
        root_frames_reserved(*old(root_table), old(ppm).registry@),
        old(ppm).registry@.len() * (PAGE_LEN as int) <= (1u64 << 48u64),
        page_pa < (1u64 << 48u64),
    ensures
        root_wf(*final(root_table)),
        root_frames_reserved(*final(root_table), final(ppm).registry@),
        final(ppm).registry@.len() == old(ppm).registry@.len(),
        forall|j: int|
            0 <= j < old(ppm).registry@.len() && final(ppm).registry@[j] != old(ppm).registry@[j] ==> old(ppm).registry@[j] == 0 && final(ppm).registry@[j] == 1,
        forall|va2: u64|
            !same_triple(va, va2) ==> #[trigger] walk(*final(root_table), va2) == walk(
                *old(root_table),
                va2,
            ),
        r is Ok <==> needed_tables(*old(root_table), va) <= num_free(old(ppm).registry@),
        r is Err ==> r == Err::<u64, PTMError>(PTMError::GetFreePageFailed(PPMError::NoFreePages))
            && (forall|va2: u64| #[trigger]
            walk(*final(root_table), va2) == walk(*old(root_table), va2)),
        r is Ok && !overwrite && walk(*old(root_table), va) is Some ==> Some(r->Ok_0) == resolves(
            *old(root_table),
            va,
        ) && *final(root_table) == *old(root_table) && final(ppm).registry@ == old(ppm).registry@,
        r is Ok && (overwrite || walk(*old(root_table), va) is None) ==> r->Ok_0 == page_pa && walk(
            *final(root_table),
            va,
        ) is Some && ({
            let d = walk(*final(root_table), va)->Some_0;
            &&& pd_valid(d.bits)
            &&& pd_page(d.bits)
            &&& pd_af(d.bits)
            &&& pd_oab(d.bits) == page_pa >> 14u64
            &&& d.bits == page_leaf_bits(page_pa)
        }),
        all_leaves_strict(*old(root_table)) ==> all_leaves_strict(*final(root_table)),
        forall|va2: u64| #[trigger]
            needed_tables(*final(root_table), va2) <= needed_tables(*old(root_table), va2),
        needed_tables(*old(root_table), va) == 0 ==> final(ppm).registry@ == old(ppm).registry@,
        needed_tables(*old(root_table), va) == 1 ==> final(ppm).registry@
            == crate::ppm::ppm_op_apply(old(ppm).registry@, crate::ppm::PpmOp::GetFreePage),
        needed_tables(*old(root_table), va) == 2 ==> final(ppm).registry@
            == crate::ppm::ppm_op_apply(
            crate::ppm::ppm_op_apply(old(ppm).registry@, crate::ppm::PpmOp::GetFreePage),
            crate::ppm::PpmOp::GetFreePage,
        ),
{
    let ghost root0 = *root_table;
    let ghost reg0 = ppm.registry@;
    proof {
        lemma_has_free_num_free(reg0);
    }
    // "Map if free": an already-mapped slot is reported, not replaced.
    if !overwrite {
        if let Some(prior) = resolve_va(root_table, va) {
            return Ok(prior);
        }
    }
    let l1_idx = l1_of(va);
    let l2_idx = l2_of(va);
    let l3_idx = l3_of(va);

    // Level 1: follow the existing L2 table or install a fresh one.
    let d1 = root_table.entries[l1_idx];
    proof {
        assert(root_slot_wf(root0, l1_idx as int));
    }
    let mut l2node: L2Node;
    if d1.valid_bit() && d1.table_descriptor() {
        let mut taken: Option<L2Node> = None;
        root_table.children.set_and_swap(l1_idx, &mut taken);
        l2node = match taken {
            Some(n) => n,
            None => unreached(),
        };
    } else {
        match get_free_page(ppm, true) {
            Ok(l2_table_pa) => {
                proof {
                    lemma_fresh_frame(
                        (l2_table_pa as int) / (PAGE_LEN as int),
                        reg0.len() as int,
                    );
                }
                let nd = TableDescriptorS1::new().with_valid_bit(true).with_table_descriptor(
                    true,
                ).with_nlta(pa_to_nlta(l2_table_pa));
                root_table.entries.set(l1_idx, nd);
                l2node = new_l2_node(l2_table_pa);
            },
            Err(e) => {
                proof {
                    lemma_has_free_num_free(reg0);
                }
                return Err(PTMError::GetFreePageFailed(e));
            },
        }
    }

    // Level 2: follow the existing L3 table or install a fresh one.
    let d2 = l2node.entries[l2_idx];
    proof {
        if root0.children@[l1_idx as int] is Some {
            assert(l2_slot_wf(root0.children@[l1_idx as int]->Some_0, l2_idx as int));
        }
    }
    let mut l3node: L3Node;
    if d2.valid_bit() && d2.table_descriptor() {
        let mut taken: Option<L3Node> = None;
        l2node.children.set_and_swap(l2_idx, &mut taken);
        l3node = match taken {
            Some(n) => n,
            None => unreached(),
        };
    } else {
        let ghost reg1 = ppm.registry@;
        match get_free_page(ppm, true) {
            Ok(l3_table_pa) => {
                proof {
                    lemma_fresh_frame(
                        (l3_table_pa as int) / (PAGE_LEN as int),
                        reg1.len() as int,
                    );
                }
                let nd = TableDescriptorS1::new().with_valid_bit(true).with_table_descriptor(
                    true,
                ).with_nlta(pa_to_nlta(l3_table_pa));
                l2node.entries.set(l2_idx, nd);
                l3node = new_l3_node(l3_table_pa);
            },
            Err(e) => {
                // Put the (possibly fresh) L2 table back before failing:
                // the tree must stay well formed, and an installed table
                // is not torn out again.
                root_table.children.set(l1_idx, Some(l2node));
                proof {
                    lemma_has_free_num_free(reg0);
                    lemma_has_free_num_free(reg1);
                    if needed_tables(root0, va) == 2 {
                        let f1 = crate::ppm::first_free(reg0);
                        if has_free(reg0) {
                            lemma_num_free_update(reg0, f1, 1u8);
                        }
                    }
                    assert forall|i: int| 0 <= i < 8 implies #[trigger] root_slot_wf(
                        *root_table,
                        i,
                    ) by {
                        if i != l1_idx as int {
                            assert(root_slot_wf(root0, i));
                        } else {
                            assert forall|j: int| 0 <= j < 2048 implies #[trigger] l2_slot_wf(
                                l2node,
                                j,
                            ) by {
                                if root0.children@[i] is Some {
                                    assert(l2_slot_wf(root0.children@[i]->Some_0, j));
                                }
                            }
                        }
                    }
                    assert(root_table.children@ =~= root0.children@.update(
                        l1_idx as int,
                        Some(l2node),
                    ));
                    assert forall|va2: u64| #[trigger]
                        walk(*root_table, va2) == walk(root0, va2) by {
                        lemma_index_bounds(va2);
                        walk_unchanged_err(root0, *root_table, l2node, va, va2, l1_idx as int);
                    }
                    assert forall|va2: u64| #[trigger]
                        needed_tables(*root_table, va2) <= needed_tables(root0, va2) by {
                        lemma_index_bounds(va2);
                        if l1_index(va2) != l1_idx as int {
                            assert(root_table.children@[l1_index(va2)] == root0.children@[
                                l1_index(va2)]);
                        }
                    }
                }
                return Err(PTMError::GetFreePageFailed(e));
            },
        }
    }

    // Level 3: write the leaf.
    let new_leaf = PageDescriptorS1::new().with_valid_bit(true).with_descriptor_type(
        true,
    ).with_oab(pa_to_oab(page_pa)).with_af(true);
    l3node.entries.set(l3_idx, new_leaf);
    l2node.children.set(l2_idx, Some(l3node));
    root_table.children.set(l1_idx, Some(l2node));
    proof {
        let r1 = *root_table;
        let i1 = l1_idx as int;
        let i2 = l2_idx as int;
        let i3 = l3_idx as int;
        assert(r1.children@ =~= root0.children@.update(i1, r1.children@[i1]));
        let l2f = r1.children@[i1]->Some_0;
        let l3f = l2f.children@[i2]->Some_0;
        if root0.children@[i1] is Some {
            assert(l2f.children@ =~= root0.children@[i1]->Some_0.children@.update(
                i2,
                l2f.children@[i2],
            ));
        }
        if needed_tables(root0, va) == 2 {
            let f1 = crate::ppm::first_free(reg0);
            if has_free(reg0) {
                lemma_num_free_update(reg0, f1, 1u8);
            }
            lemma_has_free_num_free(reg0.update(f1, 1u8));
        }
        assert forall|i: int| 0 <= i < 8 implies #[trigger] root_slot_wf(r1, i) by {
            if i != i1 {
                assert(root_slot_wf(root0, i));
            } else {
                let l2f = r1.children@[i1]->Some_0;
                assert forall|j: int| 0 <= j < 2048 implies #[trigger] l2_slot_wf(l2f, j) by {
                    if root0.children@[i1] is Some {
                        assert(l2_slot_wf(root0.children@[i1]->Some_0, j));
                    }
                }
            }
        }
        assert forall|va2: u64| !same_triple(va, va2) implies #[trigger] walk(r1, va2) == walk(
            root0,
            va2,
        ) by {
            lemma_index_bounds(va2);
            lemma_index_bounds(va);
            walk_unchanged_write(root0, r1, va, va2, i1, i2, i3);
        }
        assert forall|va2: u64| #[trigger] needed_tables(r1, va2) <= needed_tables(
            root0,
            va2,
        ) by {
            lemma_index_bounds(va2);
            if l1_index(va2) != i1 {
                assert(r1.children@[l1_index(va2)] == root0.children@[l1_index(va2)]);
            } else {
                if root0.children@[i1] is Some && l2_index(va2) != i2 {
                    assert(r1.children@[i1]->Some_0.children@[l2_index(va2)]
                        == root0.children@[i1]->Some_0.children@[l2_index(va2)]);
                }
            }
        }
        assert(walk(r1, va) == Some(new_leaf));
        let o = page_pa >> 14u64;
        assert((((((0u64 | 1u64) | 2u64) & !(0x3_FFFF_FFFFu64 << 14u64)) | (o << 14u64))
            | 0x400u64) == 0x403u64 | (o << 14u64)) by (bit_vector)
            requires
                o < (1u64 << 34u64),
        ;
        assert(new_leaf.bits == page_leaf_bits(page_pa));
        lemma_page_leaf_bits_fields(page_pa);
        if all_leaves_strict(root0) {
            assert forall|va2: u64| #[trigger] walk(r1, va2) is Some implies leaf_strict(
                walk(r1, va2)->Some_0.bits,
            ) by {
                if same_triple(va, va2) {
                    lemma_walk_same_triple(r1, va, va2);
                } else {
                    assert(walk(r1, va2) == walk(root0, va2));
                }
            }
        }
    }
    Ok(page_pa)
}

/// After a failed L3 allocation the tree only gained (at most) an empty
/// L2 table, so every walk is what it was.
proof fn walk_unchanged_err(
    root0: RootTable,
    r1: RootTable,
    l2f: L2Node,
    va: u64,
    va2: u64,
    i1: int,
)
    requires
        root_wf(root0),
        i1 == l1_index(va),
        r1.children@ == root0.children@.update(i1, Some(l2f)),
        root0.children@[i1] is Some ==> l2f.children@ == root0.children@[i1]->Some_0.children@,
        root0.children@[i1] is None ==> forall|j: int| 0 <= j < 2048 ==> l2f.children@[j] is None,
        l2f.children@.len() == 2048,
    ensures
        walk(r1, va2) == walk(root0, va2),
{
    lemma_index_bounds(va2);
    lemma_index_bounds(va);
    if l1_index(va2) != i1 {
        assert(r1.children@[l1_index(va2)] == root0.children@[l1_index(va2)]);
    } else {
        if root0.children@[i1] is Some {
            assert(walk(r1, va2) == walk(root0, va2));
        } else {
            assert(l2f.children@[l2_index(va2)] is None);
        }
    }
}

/// After writing the leaf for `va`, any address with a different index
/// triple walks exactly as before.
proof fn walk_unchanged_write(
    root0: RootTable,
    r1: RootTable,
    va: u64,
    va2: u64,
    i1: int,
    i2: int,
    i3: int,
)
    requires
        root_wf(root0),
        i1 == l1_index(va),
        i2 == l2_index(va),
        i3 == l3_index(va),
        !same_triple(va, va2),
        r1.children@.len() == 8,
        r1.children@ == root0.children@.update(i1, r1.children@[i1]),
        r1.children@[i1] is Some,
        ({
            let l2f = r1.children@[i1]->Some_0;
            &&& l2f.children@.len() == 2048
            &&& l2f.children@[i2] is Some
            &&& l2f.children@[i2]->Some_0.entries@.len() == 2048
            &&& (root0.children@[i1] is Some ==> l2f.children@ == root0.children@[i1]
                ->Some_0.children@.update(i2, l2f.children@[i2]))
            &&& (root0.children@[i1] is None ==> forall|j: int|
                0 <= j < 2048 && j != i2 ==> l2f.children@[j] is None)
            &&& ({
                let l3f = l2f.children@[i2]->Some_0;
                &&& (root0.children@[i1] is Some && root0.children@[i1]->Some_0.children@[i2]
                    is Some ==> l3f.entries@ == root0.children@[i1]
                    ->Some_0.children@[i2]->Some_0.entries@.update(i3, l3f.entries@[i3]))
                &&& ((root0.children@[i1] is None || root0.children@[i1]
                    ->Some_0.children@[i2] is None) ==> forall|k: int|
                    0 <= k < 2048 && k != i3 ==> l3f.entries@[k].bits == 0u64)
            })
        }),
    ensures
        walk(r1, va2) == walk(root0, va2),
{
    lemma_index_bounds(va2);
    lemma_index_bounds(va);
    assert(root_slot_wf(root0, i1));
    if root0.children@[i1] is Some {
        assert(l2_slot_wf(root0.children@[i1]->Some_0, i2));
    }
    let l2f = r1.children@[i1]->Some_0;
    let l3f = l2f.children@[i2]->Some_0;
    if l1_index(va2) != i1 {
        assert(r1.children@[l1_index(va2)] == root0.children@[l1_index(va2)]);
    } else if l2_index(va2) != i2 {
        if root0.children@[i1] is Some {
            assert(l2f.children@[l2_index(va2)] == root0.children@[i1]
                ->Some_0.children@[l2_index(va2)]);
        } else {
            assert(l2f.children@[l2_index(va2)] is None);
        }
    } else {
        // l3_index(va2) != i3
        if root0.children@[i1] is Some && root0.children@[i1]->Some_0.children@[i2] is Some {
            assert(l3f.entries@[l3_index(va2)] == root0.children@[i1]
                ->Some_0.children@[i2]->Some_0.entries@[l3_index(va2)]);
        } else {
            assert(l3f.entries@[l3_index(va2)].bits == 0u64);
            assert(!pd_valid(0u64)) by (bit_vector);
        }
    }
}


/// The registry moved only by fresh allocations: any changed counter went
/// from 0 (free) to 1 (allocated table frame).
pub open spec fn reg_flips(a: Seq<u8>, b: Seq<u8>) -> bool {
    &&& a.len() == b.len()
    &&& forall|j: int| 0 <= j < a.len() && b[j] != a[j] ==> a[j] == 0 && #[trigger] b[j] == 1
}

/// Allocation-only registry changes compose.
pub proof fn lemma_flips_trans(a: Seq<u8>, b: Seq<u8>, c: Seq<u8>)
    requires
        reg_flips(a, b),
        reg_flips(b, c),
    ensures
        reg_flips(a, c),
{
    assert forall|j: int| 0 <= j < a.len() && c[j] != a[j] implies a[j] == 0 && #[trigger] c[j]
        == 1 by {
        if c[j] == b[j] {
            assert(b[j] != a[j]);
        }
    }
}

/// Reserved table frames stay reserved when the registry only gains
/// references: a counter of at least 1 never returns to 0.
pub proof fn lemma_reserved_monotone(r: RootTable, a: Seq<u8>, b: Seq<u8>)
    requires
        root_frames_reserved(r, a),
        reg_flips(a, b),
    ensures
        root_frames_reserved(r, b),
{
    assert forall|i: int| 0 <= i < r.children@.len() implies match #[trigger] r.children@[i] {
        Some(l2) => l2_frames_reserved(l2, b),
        None => true,
    } by {
        match r.children@[i] {
            Some(l2) => {
                assert(l2_frames_reserved(l2, a));
                assert(frame_reserved(l2.pa, b));
                assert forall|k: int|
                    0 <= k < l2.children@.len() implies match #[trigger] l2.children@[k] {
                    Some(l3) => frame_reserved(l3.pa, b),
                    None => true,
                } by {
                    match l2.children@[k] {
                        Some(l3) => {
                            assert(frame_reserved(l3.pa, a));
                        },
                        None => {},
                    }
                }
            },
            None => {},
        }
    }
}

/// Distinct page-aligned addresses below the 39-bit VA limit select
/// distinct index triples: no two pages share a leaf slot.
pub proof fn lemma_distinct_triples(p: u64, q: u64)
    requires
        p != q,
        p < (1u64 << 39u64),
        q < (1u64 << 39u64),
        p % 16384u64 == 0u64,
        q % 16384u64 == 0u64,
    ensures
        !same_triple(p, q),
{
    assert(!(p != q && p < (1u64 << 39u64) && q < (1u64 << 39u64) && p % 16384u64 == 0u64 && q
        % 16384u64 == 0u64 && (p >> 36u64) & 7u64 == (q >> 36u64) & 7u64 && (p >> 25u64)
        & 0x7FFu64 == (q >> 25u64) & 0x7FFu64 && (p >> 14u64) & 0x7FFu64 == (q >> 14u64)
        & 0x7FFu64)) by (bit_vector);
}

/// Between two page-aligned addresses there is no third: an aligned
/// address strictly below `pa + PAGE_LEN` is at most `pa`.
proof fn lemma_aligned_le(q: u64, pa: u64)
    requires
        q % PAGE_LEN == 0,
        pa % PAGE_LEN == 0,
        q < pa + PAGE_LEN,
    ensures
        q <= pa,
{
    assert(q <= pa) by (nonlinear_arith)
        requires
            q % PAGE_LEN == 0,
            pa % PAGE_LEN == 0,
            q < pa + PAGE_LEN,
            PAGE_LEN == 16384,
    ;
}

/// Every page of `[lo, hi)` is identity-mapped in `r`.
pub open spec fn ident_mapped(r: RootTable, lo: u64, hi: u64) -> bool {
    forall|q: u64| lo <= q < hi && q % PAGE_LEN == 0 ==> #[trigger] resolves(r, q) == Some(q)
}

/// Every page of `[lo, hi)` is mapped in `r` at the RAM-relative virtual
/// address `q - ram_start`.
pub open spec fn linear_mapped(r: RootTable, ram_start: u64, lo: u64, hi: u64) -> bool {
    forall|q: u64|
        lo <= q < hi && q % PAGE_LEN == 0 ==> #[trigger] resolves(r, (q - ram_start) as u64)
            == Some(q)
}

/// Every page of `[lo, hi)` ends at exactly its leaf word — identity
/// output address, access flag set, no stray attribute bit.
pub open spec fn ident_mapped_af(r: RootTable, lo: u64, hi: u64) -> bool {
    forall|q: u64|
        lo <= q < hi && q % PAGE_LEN == 0 ==> #[trigger] walk(r, q) == Some(
            PageDescriptorS1 { bits: page_leaf_bits(q) },
        )
}

/// Every page of `[lo, hi)` ends at exactly its leaf word at the
/// RAM-relative virtual address `q - ram_start`.
pub open spec fn linear_mapped_af(r: RootTable, ram_start: u64, lo: u64, hi: u64) -> bool {
    forall|q: u64|
        lo <= q < hi && q % PAGE_LEN == 0 ==> #[trigger] walk(r, (q - ram_start) as u64) == Some(
            PageDescriptorS1 { bits: page_leaf_bits(q) },
        )
}

/// A failed table allocation means the registry is genuinely dry: once
/// what little was free has been consumed, no free frame remains.
proof fn lemma_failed_alloc_exhausted(reg: Seq<u8>, k: int)
    requires
        1 <= k <= 2,
        k > num_free(reg),
    ensures
        num_free(reg) <= 1,
        k == 1 ==> num_free(
            crate::ppm::ppm_op_apply(reg, crate::ppm::PpmOp::GetFreePage),
        ) <= 1,
        k == 2 ==> num_free(
            crate::ppm::ppm_op_apply(
                crate::ppm::ppm_op_apply(reg, crate::ppm::PpmOp::GetFreePage),
                crate::ppm::PpmOp::GetFreePage,
            ),
        ) <= 1,
{
    lemma_has_free_num_free(reg);
    if k == 1 {
        assert(!has_free(reg));
    } else {
        if has_free(reg) {
            let i = choose|i: int| 0 <= i < reg.len() && reg[i] == 0;
            crate::ppm::ppm_first_free_exists(reg, i);
            let f = crate::ppm::first_free(reg);
            lemma_num_free_update(reg, f, 1u8);
            let mid = crate::ppm::ppm_op_apply(reg, crate::ppm::PpmOp::GetFreePage);
            lemma_has_free_num_free(mid);
            assert(!has_free(mid));
        }
    }
}

/// Identity-map every page of `[lo, hi)` into the tree at `root`,
/// page by page with `overwrite` off.  An already-identity-mapped page is
/// left alone; a page mapped elsewhere aborts with `VAAlreadyMapped`;
/// mappings present before the call are never altered.
fn ident_map_range(root: &mut RootTable, ppm: &mut Ppm, lo: u64, hi: u64) -> (r: Result<
    (),
    PTMError,
>)
    requires
        root_wf(*old(root)),
        root_frames_reserved(*old(root), old(ppm).registry@),
        old(ppm).registry@.len() * (PAGE_LEN as int) <= (1u64 << 48u64),
        lo % PAGE_LEN == 0,
        lo <= hi,
        hi <= (1u64 << 39u64),
    ensures
        root_wf(*final(root)),
        root_frames_reserved(*final(root), final(ppm).registry@),
        reg_flips(old(ppm).registry@, final(ppm).registry@),
        forall|va2: u64|
            walk(*old(root), va2) is Some ==> #[trigger] walk(*final(root), va2) == walk(
                *old(root),
                va2,
            ),
        r is Ok ==> ident_mapped(*final(root), lo, hi),
        r is Err ==> r == Err::<(), PTMError>(PTMError::VAAlreadyMapped) || r == Err::<
            (),
            PTMError,
        >(PTMError::GetFreePageFailed(PPMError::NoFreePages)),
        r == Err::<(), PTMError>(PTMError::VAAlreadyMapped) ==> exists|q: u64|
            lo <= q < hi && q % PAGE_LEN == 0 && #[trigger] resolves(*old(root), q) is Some
                && resolves(*old(root), q) != Some(q),
        r == Err::<(), PTMError>(PTMError::GetFreePageFailed(PPMError::NoFreePages))
            ==> num_free(final(ppm).registry@) <= 1,
        forall|va2: u64|
            #![trigger walk(*final(root), va2)]
            (walk(*final(root), va2) == walk(*old(root), va2) || (exists|q: u64|
                lo <= q < hi && q % PAGE_LEN == 0 && same_triple(q, va2) && resolves(
                    *final(root),
                    va2,
                ) == Some(q))),
        (forall|q: u64|
            lo <= q < hi && q % PAGE_LEN == 0 ==> #[trigger] needed_tables(*old(root), q)
                == 0) ==> final(ppm).registry@ == old(ppm).registry@ && r != Err::<
            (),
            PTMError,
        >(PTMError::GetFreePageFailed(PPMError::NoFreePages)),
        lo + PAGE_LEN == hi ==> ({
            let k = needed_tables(*old(root), lo);
            &&& (k == 0 ==> final(ppm).registry@ == old(ppm).registry@)
            &&& (k == 1 ==> final(ppm).registry@ == crate::ppm::ppm_op_apply(
                old(ppm).registry@,
                crate::ppm::PpmOp::GetFreePage,
            ))
            &&& (k == 2 ==> final(ppm).registry@ == crate::ppm::ppm_op_apply(
                crate::ppm::ppm_op_apply(old(ppm).registry@, crate::ppm::PpmOp::GetFreePage),
                crate::ppm::PpmOp::GetFreePage,
            ))
        }),
        all_leaves_strict(*old(root)) ==> all_leaves_strict(*final(root)),
        all_leaves_strict(*old(root)) && r is Ok ==> ident_mapped_af(*final(root), lo, hi),
        ident_mapped(*old(root), lo, hi) ==> r is Ok && *final(root) == *old(root) && final(ppm).registry@ == old(ppm).registry@,
{
    let ghost reg0 = ppm.registry@;
    let ghost root00 = *old(root);
    let mut cur: u64 = lo;
    while cur < hi
        invariant
            root_wf(*root),
            root_frames_reserved(*root, ppm.registry@),
            reg_flips(reg0, ppm.registry@),
            reg0 == old(ppm).registry@,
            root00 == *old(root),
            reg0.len() * (PAGE_LEN as int) <= (1u64 << 48u64),
            ppm.registry@.len() == reg0.len(),
            lo <= cur,
            cur % PAGE_LEN == 0,
            lo % PAGE_LEN == 0,
            lo <= hi,
            hi <= (1u64 << 39u64),
            forall|q: u64|
                lo <= q < cur && q % PAGE_LEN == 0 ==> #[trigger] resolves(*root, q) == Some(q),
            forall|q: u64|
                cur <= q && q < (1u64 << 39u64) && q % PAGE_LEN == 0 ==> #[trigger] walk(*root, q)
                    == walk(root00, q),
            forall|va2: u64|
                walk(root00, va2) is Some ==> #[trigger] walk(*root, va2) == walk(root00, va2),
            forall|va2: u64|
                #![trigger walk(*root, va2)]
                (walk(*root, va2) == walk(root00, va2) || (exists|q: u64|
                    lo <= q < hi && q % PAGE_LEN == 0 && same_triple(q, va2) && resolves(
                        *root,
                        va2,
                    ) == Some(q))),
            forall|q2: u64| #[trigger] needed_tables(*root, q2) <= needed_tables(root00, q2),
            (forall|q: u64|
                lo <= q < hi && q % PAGE_LEN == 0 ==> #[trigger] needed_tables(root00, q)
                    == 0) ==> ppm.registry@ == reg0,
            cur == lo ==> *root == root00 && ppm.registry@ == reg0,
            lo + PAGE_LEN == hi ==> cur == lo || cur == hi,
            lo + PAGE_LEN == hi && cur == hi ==> ({
                let k = needed_tables(root00, lo);
                &&& (k == 0 ==> ppm.registry@ == reg0)
                &&& (k == 1 ==> ppm.registry@ == crate::ppm::ppm_op_apply(
                    reg0,
                    crate::ppm::PpmOp::GetFreePage,
                ))
                &&& (k == 2 ==> ppm.registry@ == crate::ppm::ppm_op_apply(
                    crate::ppm::ppm_op_apply(reg0, crate::ppm::PpmOp::GetFreePage),
                    crate::ppm::PpmOp::GetFreePage,
                ))
            }),
            all_leaves_strict(root00) ==> all_leaves_strict(*root),
            ident_mapped(root00, lo, hi) ==> *root == root00 && ppm.registry@ == reg0,
        decreases hi + PAGE_LEN - cur,
    {
        let ghost root_i = *root;
        let ghost reg_i = ppm.registry@;
        proof {
            lemma_pow2_consts();
        }
        match map_page_to_va(root, ppm, cur, cur, false) {
            Ok(mapped_pa) => {
                proof {
                    lemma_pa_field_roundtrip(cur);
                    if walk(root_i, cur) is None {
                        assert(mapped_pa == cur);
                    }
                }
                if mapped_pa != cur {
                    proof {
                        assert(*root == root_i);
                        assert(walk(root_i, cur) == walk(root00, cur));
                        assert(resolves(root00, cur) is Some && resolves(root00, cur) != Some(
                            cur,
                        ));
                        lemma_flips_trans(reg0, reg_i, ppm.registry@);
                        assert(!ident_mapped(root00, lo, hi));
                        if forall|q: u64|
                            lo <= q < hi && q % PAGE_LEN == 0 ==> #[trigger] needed_tables(
                                root00,
                                q,
                            ) == 0 {
                            assert(ppm.registry@ == reg_i);
                        }
                        if lo + PAGE_LEN == hi {
                            assert(cur == lo && root_i == root00 && reg_i == reg0);
                            assert(walk(root00, cur) is Some);
                            assert(needed_tables(root00, lo) == 0);
                        }
                    }
                    return Err(PTMError::VAAlreadyMapped);
                }
                proof {
                    lemma_flips_trans(reg0, reg_i, ppm.registry@);
                    assert(resolves(*root, cur) == Some(cur));
                    assert forall|q: u64| lo <= q < cur + PAGE_LEN && q % PAGE_LEN == 0 implies #[
                        trigger] resolves(*root, q) == Some(q) by {
                        if q != cur {
                            lemma_aligned_le(q, cur);
                            lemma_distinct_triples(q, cur);
                            assert(resolves(root_i, q) == Some(q));
                            assert(walk(*root, q) == walk(root_i, q));
                        }
                    }
                    assert forall|q: u64|
                        cur + PAGE_LEN <= q && q < (1u64 << 39u64) && q % PAGE_LEN
                            == 0 implies #[trigger] walk(*root, q) == walk(root00, q) by {
                        lemma_distinct_triples(q, cur);
                        assert(walk(*root, q) == walk(root_i, q));
                    }
                    assert forall|va2: u64| walk(root00, va2) is Some implies #[trigger] walk(
                        *root,
                        va2,
                    ) == walk(root00, va2) by {
                        if walk(root_i, cur) is Some {
                            // the slot was already mapped: nothing changed
                            assert(*root == root_i);
                        } else {
                            if same_triple(cur, va2) {
                                lemma_walk_same_triple(root_i, cur, va2);
                                assert(walk(root_i, va2) is None);
                            }
                        }
                    }
                    assert forall|va2: u64|
                        #![trigger walk(*root, va2)]
                        (walk(*root, va2) == walk(root00, va2) || (exists|q: u64|
                            lo <= q < hi && q % PAGE_LEN == 0 && same_triple(q, va2) && resolves(
                                *root,
                                va2,
                            ) == Some(q))) by {
                        if walk(root_i, cur) is Some {
                            assert(*root == root_i);
                            if !(walk(root_i, va2) == walk(root00, va2)) {
                                let q = choose|q: u64|
                                    lo <= q < hi && q % PAGE_LEN == 0 && same_triple(q, va2)
                                        && resolves(root_i, va2) == Some(q);
                                assert(lo <= q < hi && q % PAGE_LEN == 0 && same_triple(q, va2)
                                    && resolves(*root, va2) == Some(q));
                            }
                        } else if same_triple(cur, va2) {
                            lemma_walk_same_triple(*root, cur, va2);
                            assert(lo <= cur < hi && cur % PAGE_LEN == 0 && same_triple(cur, va2)
                                && resolves(*root, va2) == Some(cur));
                        } else {
                            assert(walk(*root, va2) == walk(root_i, va2));
                            if !(walk(root_i, va2) == walk(root00, va2)) {
                                let q = choose|q: u64|
                                    lo <= q < hi && q % PAGE_LEN == 0 && same_triple(q, va2)
                                        && resolves(root_i, va2) == Some(q);
                                assert(lo <= q < hi && q % PAGE_LEN == 0 && same_triple(q, va2)
                                    && resolves(*root, va2) == Some(q));
                            }
                        }
                    }
                    if forall|q: u64|
                        lo <= q < hi && q % PAGE_LEN == 0 ==> #[trigger] needed_tables(
                            root00,
                            q,
                        ) == 0 {
                        assert(needed_tables(root_i, cur) <= needed_tables(root00, cur));
                        assert(ppm.registry@ == reg_i);
                    }
                    if lo + PAGE_LEN == hi {
                        assert(cur == lo && root_i == root00 && reg_i == reg0);
                    }
                    if all_leaves_strict(root00) {
                        assert(all_leaves_strict(root_i));
                        assert(all_leaves_strict(*root));
                    }
                    if ident_mapped(root00, lo, hi) {
                        assert(resolves(root00, cur) == Some(cur));
                        assert(walk(root_i, cur) is Some);
                        assert(*root == root_i && ppm.registry@ == reg_i);
                    }
                }
            },
            Err(e) => {
                proof {
                    lemma_flips_trans(reg0, reg_i, ppm.registry@);
                    lemma_has_free_num_free(reg_i);
                    let k = needed_tables(root_i, cur);
                    assert(k > num_free(reg_i));
                    lemma_failed_alloc_exhausted(reg_i, k);
                    assert(num_free(ppm.registry@) <= 1);
                    assert forall|va2: u64|
                        #![trigger walk(*root, va2)]
                        (walk(*root, va2) == walk(root00, va2) || (exists|q: u64|
                            lo <= q < hi && q % PAGE_LEN == 0 && same_triple(q, va2) && resolves(
                                *root,
                                va2,
                            ) == Some(q))) by {
                        assert(walk(*root, va2) == walk(root_i, va2));
                        if !(walk(root_i, va2) == walk(root00, va2)) {
                            let q = choose|q: u64|
                                lo <= q < hi && q % PAGE_LEN == 0 && same_triple(q, va2)
                                    && resolves(root_i, va2) == Some(q);
                            assert(lo <= q < hi && q % PAGE_LEN == 0 && same_triple(q, va2)
                                && resolves(*root, va2) == Some(q));
                        }
                    }
                    if forall|q: u64|
                        lo <= q < hi && q % PAGE_LEN == 0 ==> #[trigger] needed_tables(
                            root00,
                            q,
                        ) == 0 {
                        assert(needed_tables(root_i, cur) <= needed_tables(root00, cur));
                        assert(false);
                    }
                    if lo + PAGE_LEN == hi {
                        assert(cur == lo && root_i == root00 && reg_i == reg0);
                    }
                    if all_leaves_strict(root00) {
                        assert(all_leaves_strict(root_i));
                        assert forall|va2: u64| #[trigger] walk(*root, va2) is Some implies
                            leaf_strict(walk(*root, va2)->Some_0.bits) by {
                            assert(walk(*root, va2) == walk(root_i, va2));
                        }
                    }
                    if ident_mapped(root00, lo, hi) {
                        assert(resolves(root00, cur) == Some(cur));
                        assert(walk(root_i, cur) is Some);
                        assert(needed_tables(root_i, cur) == 0);
                    }
                }
                return Err(PTMError::GetFreePageFailed(PPMError::NoFreePages));
            },
        }
        cur = cur + PAGE_LEN;
    }
    proof {
        if all_leaves_strict(root00) {
            assert forall|q: u64| lo <= q < hi && q % PAGE_LEN == 0 implies #[trigger] walk(
                *root,
                q,
            ) == Some(PageDescriptorS1 { bits: page_leaf_bits(q) }) by {
                assert(resolves(*root, q) == Some(q));
                let d = walk(*root, q)->Some_0;
                assert(leaf_strict(d.bits));
                lemma_strict_leaf_resolved(d.bits, q);
            }
        }
    }
    Ok(())
}

/// Map every page of `[lo, hi)` into the tree at `root` at the
/// RAM-relative virtual address `q - ram_start`, page by page with
/// `overwrite` off; the high half's hardware mask lives in the TTBR1
/// register, so the stored virtual address starts at 0.
fn linear_map_range(root: &mut RootTable, ppm: &mut Ppm, ram_start: u64, lo: u64, hi: u64) -> (r:
    Result<(), PTMError>)
    requires
        root_wf(*old(root)),
        root_frames_reserved(*old(root), old(ppm).registry@),
        old(ppm).registry@.len() * (PAGE_LEN as int) <= (1u64 << 48u64),
        ram_start % PAGE_LEN == 0,
        lo % PAGE_LEN == 0,
        ram_start <= lo,
        lo <= hi,
        hi <= (1u64 << 39u64),
    ensures
        root_wf(*final(root)),
        root_frames_reserved(*final(root), final(ppm).registry@),
        reg_flips(old(ppm).registry@, final(ppm).registry@),
        forall|va2: u64|
            walk(*old(root), va2) is Some ==> #[trigger] walk(*final(root), va2) == walk(
                *old(root),
                va2,
            ),
        r is Ok ==> linear_mapped(*final(root), ram_start, lo, hi),
        r is Err ==> r == Err::<(), PTMError>(PTMError::VAAlreadyMapped) || r == Err::<
            (),
            PTMError,
        >(PTMError::GetFreePageFailed(PPMError::NoFreePages)),
        r == Err::<(), PTMError>(PTMError::VAAlreadyMapped) ==> exists|q: u64|
            lo <= q < hi && q % PAGE_LEN == 0 && #[trigger] resolves(
                *old(root),
                (q - ram_start) as u64,
            ) is Some && resolves(*old(root), (q - ram_start) as u64) != Some(q),
        r == Err::<(), PTMError>(PTMError::GetFreePageFailed(PPMError::NoFreePages))
            ==> num_free(final(ppm).registry@) <= 1,
        all_leaves_strict(*old(root)) ==> all_leaves_strict(*final(root)),
        all_leaves_strict(*old(root)) && r is Ok ==> linear_mapped_af(
            *final(root),
            ram_start,
            lo,
            hi,
        ),
        linear_mapped(*old(root), ram_start, lo, hi) ==> r is Ok && *final(root) == *old(root)
            && final(ppm).registry@ == old(ppm).registry@,
{
    let ghost reg0 = ppm.registry@;
    let ghost root00 = *old(root);
    let mut cur: u64 = lo;
    while cur < hi
        invariant
            root_wf(*root),
            root_frames_reserved(*root, ppm.registry@),
            reg_flips(reg0, ppm.registry@),
            reg0 == old(ppm).registry@,
            root00 == *old(root),
            reg0.len() * (PAGE_LEN as int) <= (1u64 << 48u64),
            ppm.registry@.len() == reg0.len(),
            ram_start % PAGE_LEN == 0,
            ram_start <= lo,
            lo <= cur,
            cur % PAGE_LEN == 0,
            lo % PAGE_LEN == 0,
            lo <= hi,
            hi <= (1u64 << 39u64),
            forall|q: u64|
                lo <= q < cur && q % PAGE_LEN == 0 ==> #[trigger] resolves(
                    *root,
                    (q - ram_start) as u64,
                ) == Some(q),
            forall|q: u64|
                cur <= q < hi && q % PAGE_LEN == 0 ==> #[trigger] walk(
                    *root,
                    (q - ram_start) as u64,
                ) == walk(root00, (q - ram_start) as u64),
            forall|va2: u64|
                walk(root00, va2) is Some ==> #[trigger] walk(*root, va2) == walk(root00, va2),
            all_leaves_strict(root00) ==> all_leaves_strict(*root),
            linear_mapped(root00, ram_start, lo, hi) ==> *root == root00 && ppm.registry@ == reg0,
        decreases hi + PAGE_LEN - cur,
    {
        let ghost root_i = *root;
        let ghost reg_i = ppm.registry@;
        proof {
            lemma_pow2_consts();
        }
        let va: u64 = cur - ram_start;
        match map_page_to_va(root, ppm, cur, va, false) {
            Ok(mapped_pa) => {
                proof {
                    lemma_pa_field_roundtrip(cur);
                    if walk(root_i, va) is None {
                        assert(mapped_pa == cur);
                    }
                }
                if mapped_pa != cur {
                    proof {
                        assert(*root == root_i);
                        assert(walk(root_i, va) == walk(root00, va));
                        assert(resolves(root00, va) is Some && resolves(root00, va) != Some(cur));
                        lemma_flips_trans(reg0, reg_i, ppm.registry@);
                        assert(lo <= cur < hi && cur % PAGE_LEN == 0 && resolves(
                            root00,
                            (cur - ram_start) as u64,
                        ) is Some && resolves(root00, (cur - ram_start) as u64) != Some(cur));
                        assert(!linear_mapped(root00, ram_start, lo, hi));
                    }
                    return Err(PTMError::VAAlreadyMapped);
                }
                proof {
                    lemma_flips_trans(reg0, reg_i, ppm.registry@);
                    assert(resolves(*root, va) == Some(cur));
                    assert forall|q: u64| lo <= q < cur + PAGE_LEN && q % PAGE_LEN
                        == 0 implies #[trigger] resolves(*root, (q - ram_start) as u64) == Some(
                        q,
                    ) by {
                        if q != cur {
                            lemma_aligned_le(q, cur);
                            lemma_distinct_triples((q - ram_start) as u64, va);
                            assert(resolves(root_i, (q - ram_start) as u64) == Some(q));
                            assert(walk(*root, (q - ram_start) as u64) == walk(
                                root_i,
                                (q - ram_start) as u64,
                            ));
                        }
                    }
                    assert forall|q: u64|
                        cur + PAGE_LEN <= q < hi && q % PAGE_LEN == 0 implies #[trigger] walk(
                        *root,
                        (q - ram_start) as u64,
                    ) == walk(root00, (q - ram_start) as u64) by {
                        lemma_distinct_triples((q - ram_start) as u64, va);
                        assert(walk(*root, (q - ram_start) as u64) == walk(
                            root_i,
                            (q - ram_start) as u64,
                        ));
                    }
                    assert forall|va2: u64| walk(root00, va2) is Some implies #[trigger] walk(
                        *root,
                        va2,
                    ) == walk(root00, va2) by {
                        if walk(root_i, va) is Some {
                            assert(*root == root_i);
                        } else {
                            if same_triple(va, va2) {
                                lemma_walk_same_triple(root_i, va, va2);
                                assert(walk(root_i, va2) is None);
                            }
                        }
                    }
                    if all_leaves_strict(root00) {
                        assert(all_leaves_strict(root_i));
                        assert(all_leaves_strict(*root));
                    }
                    if linear_mapped(root00, ram_start, lo, hi) {
                        assert(resolves(root00, (cur - ram_start) as u64) == Some(cur));
                        assert(walk(root_i, va) is Some);
                        assert(*root == root_i && ppm.registry@ == reg_i);
                    }
                }
            },
            Err(e) => {
                proof {
                    lemma_flips_trans(reg0, reg_i, ppm.registry@);
                    lemma_has_free_num_free(reg_i);
                    let k = needed_tables(root_i, va);
                    assert(k > num_free(reg_i));
                    lemma_failed_alloc_exhausted(reg_i, k);
                    assert(num_free(ppm.registry@) <= 1);
                    if all_leaves_strict(root00) {
                        assert(all_leaves_strict(root_i));
                        assert forall|va2: u64| #[trigger] walk(*root, va2) is Some implies
                            leaf_strict(walk(*root, va2)->Some_0.bits) by {
                            assert(walk(*root, va2) == walk(root_i, va2));
                        }
                    }
                    if linear_mapped(root00, ram_start, lo, hi) {
                        assert(resolves(root00, (cur - ram_start) as u64) == Some(cur));
                        assert(walk(root_i, va) is Some);
                        assert(needed_tables(root_i, va) == 0);
                    }
                }
                return Err(PTMError::GetFreePageFailed(PPMError::NoFreePages));
            },
        }
        cur = cur + PAGE_LEN;
    }
    proof {
        if all_leaves_strict(root00) {
            assert forall|q: u64| lo <= q < hi && q % PAGE_LEN == 0 implies #[trigger] walk(
                *root,
                (q - ram_start) as u64,
            ) == Some(PageDescriptorS1 { bits: page_leaf_bits(q) }) by {
                assert(resolves(*root, (q - ram_start) as u64) == Some(q));
                let d = walk(*root, (q - ram_start) as u64)->Some_0;
                assert(leaf_strict(d.bits));
                lemma_strict_leaf_resolved(d.bits, q);
            }
        }
    }
    Ok(())
}

/// Bootstrap the kernel's address space while the MMU is still off:
/// identity-map the DTB and the kernel image (with the page registry)
/// into the low-half root, then map all of RAM at its RAM-relative
/// offset into the high-half root, so that after translation is enabled
/// the kernel can still fetch its next instruction and can reach any
/// physical byte — its own live page tables included — through the high
/// half.
///
/// A page that is already mapped to a different physical address aborts
/// with `VAAlreadyMapped`; running out of frames for the table pages
/// surfaces as `GetFreePageFailed(NoFreePages)`.
pub fn bootstrap_kernel_page_tables(
    dtb_start: u64,
    dtb_end: u64,
    ram_start: u64,
    ram_len: u64,
    kernel_mem_end: u64,
    root0: &mut RootTable,
    root1: &mut RootTable,
    ppm: &mut Ppm,
) -> (r: Result<(), PTMError>)
    requires
        root_wf(*old(root0)),
        root_wf(*old(root1)),
        root_frames_reserved(*old(root0), old(ppm).registry@),
        root_frames_reserved(*old(root1), old(ppm).registry@),
        old(ppm).registry@.len() * (PAGE_LEN as int) <= (1u64 << 48u64),
        dtb_start % PAGE_LEN == 0,
        ram_start % PAGE_LEN == 0,
        kernel_mem_end % PAGE_LEN == 0,
        dtb_start <= dtb_end,
        dtb_end <= (1u64 << 39u64),
        ram_start <= kernel_mem_end,
        kernel_mem_end <= ram_start + ram_len,
        ram_start + ram_len <= (1u64 << 39u64),
    ensures
        root_wf(*final(root0)),
        root_wf(*final(root1)),
        root_frames_reserved(*final(root0), final(ppm).registry@),
        root_frames_reserved(*final(root1), final(ppm).registry@),
        reg_flips(old(ppm).registry@, final(ppm).registry@),
        r is Ok ==> ident_mapped(*final(root0), dtb_start, dtb_end),
        r is Ok ==> ident_mapped(*final(root0), ram_start, kernel_mem_end),
        r is Ok ==> linear_mapped(*final(root1), ram_start, ram_start, (ram_start
            + ram_len) as u64),
        r is Err ==> r == Err::<(), PTMError>(PTMError::VAAlreadyMapped) || r == Err::<
            (),
            PTMError,
        >(PTMError::GetFreePageFailed(PPMError::NoFreePages)),
        forall|va: u64|
            walk(*old(root0), va) is Some ==> #[trigger] walk(*final(root0), va) == walk(
                *old(root0),
                va,
            ),
        forall|va: u64|
            walk(*old(root1), va) is Some ==> #[trigger] walk(*final(root1), va) == walk(
                *old(root1),
                va,
            ),
        r == Err::<(), PTMError>(PTMError::GetFreePageFailed(PPMError::NoFreePages))
            ==> num_free(final(ppm).registry@) <= 1,
        r == Err::<(), PTMError>(PTMError::VAAlreadyMapped) ==> (exists|q: u64|
            ((dtb_start <= q < dtb_end || ram_start <= q < kernel_mem_end) && q % PAGE_LEN == 0
                && #[trigger] resolves(*old(root0), q) is Some && resolves(*old(root0), q)
                != Some(q))) || (exists|q: u64|
            ram_start <= q < ram_start + ram_len && q % PAGE_LEN == 0 && #[trigger] resolves(
                *old(root1),
                (q - ram_start) as u64,
            ) is Some && resolves(*old(root1), (q - ram_start) as u64) != Some(q)),
        all_leaves_strict(*old(root0)) ==> all_leaves_strict(*final(root0)),
        all_leaves_strict(*old(root1)) ==> all_leaves_strict(*final(root1)),
        all_leaves_strict(*old(root0)) && r is Ok ==> ident_mapped_af(
            *final(root0),
            dtb_start,
            dtb_end,
        ) && ident_mapped_af(*final(root0), ram_start, kernel_mem_end),
        all_leaves_strict(*old(root1)) && r is Ok ==> linear_mapped_af(
            *final(root1),
            ram_start,
            ram_start,
            (ram_start + ram_len) as u64,
        ),
        ident_mapped(*old(root0), dtb_start, dtb_end) && ident_mapped(
            *old(root0),
            ram_start,
            kernel_mem_end,
        ) && linear_mapped(*old(root1), ram_start, ram_start, (ram_start + ram_len) as u64)
            ==> r is Ok && *final(root0) == *old(root0) && *final(root1) == *old(root1)
            && final(ppm).registry@ == old(ppm).registry@,
{
    let ghost reg_a = ppm.registry@;
    // Identity-map the DTB so the kernel can keep reading it after the
    // MMU comes on.
    match ident_map_range(root0, ppm, dtb_start, dtb_end) {
        Ok(_) => {},
        Err(e) => {
            proof {
                lemma_reserved_monotone(*old(root1), reg_a, ppm.registry@);
            }
            return Err(e);
        },
    }
    let ghost reg_b = ppm.registry@;
    let ghost root0_b = *root0;
    // Identity-map the kernel image and the page-registry frames: the
    // instruction after the MMU-enable must still translate to itself.
    match ident_map_range(root0, ppm, ram_start, kernel_mem_end) {
        Ok(_) => {},
        Err(e) => {
            proof {
                lemma_flips_trans(reg_a, reg_b, ppm.registry@);
                lemma_reserved_monotone(*old(root1), reg_a, ppm.registry@);
                if e == PTMError::VAAlreadyMapped {
                    // Trace the conflict back through the first pass: a
                    // page the first pass touched resolves to itself, so
                    // the conflicting resolution predates the call.
                    let q = choose|q: u64|
                        ram_start <= q < kernel_mem_end && q % PAGE_LEN == 0 && #[trigger]
                        resolves(root0_b, q) is Some && resolves(root0_b, q) != Some(q);
                    if !(walk(root0_b, q) == walk(*old(root0), q)) {
                        let q1 = choose|q1: u64|
                            dtb_start <= q1 < dtb_end && q1 % PAGE_LEN == 0 && same_triple(
                                q1,
                                q,
                            ) && resolves(root0_b, q) == Some(q1);
                        lemma_same_triple_eq(q1, q);
                    }
                    assert(resolves(*old(root0), q) is Some && resolves(*old(root0), q) != Some(
                        q,
                    ));
                }
            }
            return Err(e);
        },
    }
    let ghost reg_c = ppm.registry@;
    let ghost root0_c = *root0;
    // Map all of RAM into the high half so the kernel can later reach
    // any physical byte, its own page tables included.
    match linear_map_range(root1, ppm, ram_start, ram_start, ram_start + ram_len) {
        Ok(_) => {},
        Err(e) => {
            proof {
                lemma_flips_trans(reg_a, reg_b, reg_c);
                lemma_flips_trans(reg_a, reg_c, ppm.registry@);
                lemma_reserved_monotone(root0_c, reg_c, ppm.registry@);
            }
            return Err(e);
        },
    }
    proof {
        lemma_flips_trans(reg_a, reg_b, reg_c);
        lemma_flips_trans(reg_a, reg_c, ppm.registry@);
        lemma_reserved_monotone(root0_c, reg_c, ppm.registry@);
        // The DTB identity range survived the second pass: each of its
        // walks was already a valid leaf.
        assert forall|q: u64|
            dtb_start <= q < dtb_end && q % PAGE_LEN == 0 implies #[trigger] resolves(
            *root0,
            q,
        ) == Some(q) by {
            assert(resolves(root0_b, q) == Some(q));
            assert(walk(root0_b, q) is Some);
        }
        if all_leaves_strict(*old(root0)) {
            assert forall|q: u64|
                dtb_start <= q < dtb_end && q % PAGE_LEN == 0 implies #[trigger] walk(*root0, q)
                    == Some(PageDescriptorS1 { bits: page_leaf_bits(q) }) by {
                assert(walk(root0_b, q) == Some(PageDescriptorS1 { bits: page_leaf_bits(q) }));
                assert(walk(root0_b, q) is Some);
            }
        }
    }
    Ok(())
}

/// Identity-map the page-aligned range covering `[mmio_address,
/// mmio_address + mmio_len]` into the low-half tree so a driver can reach
/// its device registers.  The policy is identity: a caller-chosen virtual
/// address is not supported.
pub fn map_mmio_range(root0: &mut RootTable, ppm: &mut Ppm, mmio_address: u64, mmio_len: u64) -> (r:
    Result<(), PTMError>)
    requires
        root_wf(*old(root0)),
        root_frames_reserved(*old(root0), old(ppm).registry@),
        old(ppm).registry@.len() * (PAGE_LEN as int) <= (1u64 << 48u64),
        mmio_address + mmio_len < (1u64 << 39u64),
    ensures
        root_wf(*final(root0)),
        root_frames_reserved(*final(root0), final(ppm).registry@),
        reg_flips(old(ppm).registry@, final(ppm).registry@),
        forall|va2: u64|
            walk(*old(root0), va2) is Some ==> #[trigger] walk(*final(root0), va2) == walk(
                *old(root0),
                va2,
            ),
        r is Ok ==> ident_mapped(
            *final(root0),
            (mmio_address / PAGE_LEN * PAGE_LEN) as u64,
            ((mmio_address + mmio_len) / (PAGE_LEN as int) * (PAGE_LEN as int) + PAGE_LEN) as u64,
        ),
        r is Err ==> r == Err::<(), PTMError>(PTMError::VAAlreadyMapped) || r == Err::<
            (),
            PTMError,
        >(PTMError::GetFreePageFailed(PPMError::NoFreePages)),
        ident_mapped(
            *old(root0),
            (mmio_address / PAGE_LEN * PAGE_LEN) as u64,
            ((mmio_address + mmio_len) / (PAGE_LEN as int) * (PAGE_LEN as int) + PAGE_LEN) as u64,
        ) ==> r is Ok && *final(root0) == *old(root0) && final(ppm).registry@ == old(ppm).registry@,
        r == Err::<(), PTMError>(PTMError::GetFreePageFailed(PPMError::NoFreePages))
            ==> num_free(final(ppm).registry@) <= 1,
        r == Err::<(), PTMError>(PTMError::VAAlreadyMapped) ==> (exists|q: u64|
            (mmio_address / PAGE_LEN * PAGE_LEN) as u64 <= q < ((mmio_address + mmio_len) / (
            PAGE_LEN as int) * (PAGE_LEN as int) + PAGE_LEN) as u64 && q % PAGE_LEN == 0
                && #[trigger] resolves(*old(root0), q) is Some && resolves(*old(root0), q)
                != Some(q)),
        (forall|q: u64|
            (mmio_address / PAGE_LEN * PAGE_LEN) as u64 <= q < ((mmio_address + mmio_len) / (
            PAGE_LEN as int) * (PAGE_LEN as int) + PAGE_LEN) as u64 && q % PAGE_LEN == 0
                ==> #[trigger] needed_tables(*old(root0), q) == 0) ==> final(ppm).registry@
            == old(ppm).registry@ && r != Err::<(), PTMError>(
            PTMError::GetFreePageFailed(PPMError::NoFreePages),
        ),
        mmio_address / PAGE_LEN == (mmio_address + mmio_len) / (PAGE_LEN as int) ==> ({
            let k = needed_tables(*old(root0), (mmio_address / PAGE_LEN * PAGE_LEN) as u64);
            &&& (k == 0 ==> final(ppm).registry@ == old(ppm).registry@)
            &&& (k == 1 ==> final(ppm).registry@ == crate::ppm::ppm_op_apply(
                old(ppm).registry@,
                crate::ppm::PpmOp::GetFreePage,
            ))
            &&& (k == 2 ==> final(ppm).registry@ == crate::ppm::ppm_op_apply(
                crate::ppm::ppm_op_apply(old(ppm).registry@, crate::ppm::PpmOp::GetFreePage),
                crate::ppm::PpmOp::GetFreePage,
            ))
        }),
        all_leaves_strict(*old(root0)) ==> all_leaves_strict(*final(root0)),
        all_leaves_strict(*old(root0)) && r is Ok ==> ident_mapped_af(
            *final(root0),
            (mmio_address / PAGE_LEN * PAGE_LEN) as u64,
            ((mmio_address + mmio_len) / (PAGE_LEN as int) * (PAGE_LEN as int) + PAGE_LEN) as u64,
        ),
{
    let mmio_pg_range_lo: u64 = mmio_address / PAGE_LEN * PAGE_LEN;
    let mmio_pg_range_hi: u64 = (mmio_address + mmio_len) / PAGE_LEN * PAGE_LEN;
    proof {
        lemma_pow2_consts();
        let a = mmio_address as int;
        let b = (mmio_address + mmio_len) as int;
        let p = PAGE_LEN as int;
        assert((a / p * p) % p == 0 && a / p * p <= a && b / p * p <= b && a / p * p <= b / p
            * p) by (nonlinear_arith)
            requires
                p == 16384,
                0 <= a <= b,
        ;
        assert(b / p * p + p <= 0x80_0000_0000int) by (nonlinear_arith)
            requires
                p == 16384,
                0 <= b < 0x80_0000_0000int,
        ;
    }
    // The covering range is inclusive of the page holding the last byte.
    ident_map_range(root0, ppm, mmio_pg_range_lo, mmio_pg_range_hi + PAGE_LEN)
}


/// Mapping is idempotent and conflicts are reported, not overwritten:
/// once the walk for `va` ends at a valid leaf naming the page at
/// `prior_pa`, the walk needs no further table, and a repeated
/// `map_page_to_va` with `overwrite` off takes its already-mapped path —
/// by its contract it returns exactly `prior_pa` (the page previously
/// mapped, whatever page the repeat asked for) and leaves the tree and
/// the frame registry byte-for-byte unchanged.
pub proof fn lemma_mapped_va_reports_prior(r: RootTable, va: u64, prior_pa: u64)
    requires
        root_wf(r),
        walk(r, va) is Some,
        pd_oab(walk(r, va)->Some_0.bits) == prior_pa >> 14u64,
        prior_pa < (1u64 << 48u64),
        prior_pa % 16384u64 == 0u64,
    ensures
        needed_tables(r, va) == 0,
        resolves(r, va) == Some(prior_pa),
{
    lemma_index_bounds(va);
    lemma_pa_field_roundtrip(prior_pa);
}

} // verus!
