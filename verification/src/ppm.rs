//! Physical Page Manager: a reference-counted frame allocator.
//!
//! The registry is an array of 8-bit reference counters, one per physical
//! frame, spanning every address from 0 to the end of RAM.  A counter of 0
//! means the frame is free; 255 means it is saturated and further shared
//! acquisition is an error rather than a silent wrap.  At initialisation
//! the frames covering the kernel's static image and the registry itself
//! are pre-reserved with a count of 1, so they are never observed free.
//!
//! On the real machine the registry lives in RAM immediately after the
//! kernel image; here it is held in a vector, and the byte-wiping of a
//! freshly handed-out frame (`zero_out`) is physical-memory work that the
//! model does not represent.

use vstd::prelude::*;

use crate::memory::PAGE_LEN;

verus! {

#[derive(Clone, Copy, PartialEq, Eq, Structural, Debug)]
pub enum PPMError {
    PageIdxOutOfRange,
    PageHasNoReferences,
    PageHasMaxReferences,
    InvalidPageIdxRange,
    ExpectedFreePageHasReferences,
    NoFreePages,
}

/// The frame registry: `registry[i]` is the reference count of the frame
/// whose physical address is `i * PAGE_LEN`.
#[derive(Clone, PartialEq, Eq, Debug)]
pub struct Ppm {
    pub registry: Vec<u8>,
}

/// The total of all reference counts in the registry.
pub open spec fn sum_refs(s: Seq<u8>) -> int
    decreases s.len(),
{
    if s.len() == 0 {
        0
    } else {
        sum_refs(s.drop_last()) + s.last() as int
    }
}

/// How many frames are free (count 0).
pub open spec fn num_free(s: Seq<u8>) -> int
    decreases s.len(),
{
    if s.len() == 0 {
        0
    } else {
        num_free(s.drop_last()) + if s.last() == 0 {
            1int
        } else {
            0int
        }
    }
}

/// Some frame is free.
pub open spec fn has_free(s: Seq<u8>) -> bool {
    exists|i: int| 0 <= i < s.len() && s[i] == 0
}

/// `i` is the lowest-numbered free frame.
pub open spec fn is_first_free(s: Seq<u8>, i: int) -> bool {
    &&& 0 <= i < s.len()
    &&& s[i] == 0
    &&& forall|j: int| 0 <= j < i ==> s[j] != 0
}

/// The lowest-numbered free frame (meaningful when `has_free(s)`).
pub open spec fn first_free(s: Seq<u8>) -> int {
    choose|i: int| is_first_free(s, i)
}

/// One abstract registry operation, mirroring the three public calls.
pub enum PpmOp {
    GetFreePage,
    GetPage(int),
    FreePage(int),
}

/// The registry after one operation.  Failed operations (no free frame,
/// index out of range, saturated or zero counter) leave it unchanged.
pub open spec fn ppm_op_apply(s: Seq<u8>, op: PpmOp) -> Seq<u8> {
    match op {
        PpmOp::GetFreePage => if has_free(s) {
            s.update(first_free(s), 1u8)
        } else {
            s
        },
        PpmOp::GetPage(i) => if 0 <= i < s.len() && s[i] < 255 {
            s.update(i, (s[i] + 1) as u8)
        } else {
            s
        },
        PpmOp::FreePage(i) => if 0 <= i < s.len() && s[i] > 0 {
            s.update(i, (s[i] - 1) as u8)
        } else {
            s
        },
    }
}

/// The operation's contribution to the net number of acquisitions:
/// +1 for a successful acquire, -1 for a successful release, 0 on failure.
pub open spec fn ppm_op_net(s: Seq<u8>, op: PpmOp) -> int {
    match op {
        PpmOp::GetFreePage => if has_free(s) {
            1int
        } else {
            0int
        },
        PpmOp::GetPage(i) => if 0 <= i < s.len() && s[i] < 255 {
            1int
        } else {
            0int
        },
        PpmOp::FreePage(i) => if 0 <= i < s.len() && s[i] > 0 {
            -1int
        } else {
            0int
        },
    }
}

/// The registry after a sequence of operations.
pub open spec fn ppm_run(s: Seq<u8>, ops: Seq<PpmOp>) -> Seq<u8>
    decreases ops.len(),
{
    if ops.len() == 0 {
        s
    } else {
        ppm_op_apply(ppm_run(s, ops.drop_last()), ops.last())
    }
}

/// The net number of successful acquisitions over a sequence of operations.
pub open spec fn ppm_net(s: Seq<u8>, ops: Seq<PpmOp>) -> int
    decreases ops.len(),
{
    if ops.len() == 0 {
        0
    } else {
        ppm_net(s, ops.drop_last()) + ppm_op_net(ppm_run(s, ops.drop_last()), ops.last())
    }
}

/// Updating one counter changes the total by the difference at that slot.
pub proof fn lemma_sum_refs_update(s: Seq<u8>, i: int, v: u8)
    requires
        0 <= i < s.len(),
    ensures
        sum_refs(s.update(i, v)) == sum_refs(s) - s[i] + v,
    decreases s.len(),
{
    if s.len() > 0 {
        if i == s.len() - 1 {
            assert(s.update(i, v).drop_last() =~= s.drop_last());
        } else {
            assert(s.update(i, v).drop_last() =~= s.drop_last().update(i, v));
            lemma_sum_refs_update(s.drop_last(), i, v);
        }
    }
}

/// Updating one counter changes the free count at that slot only.
pub proof fn lemma_num_free_update(s: Seq<u8>, i: int, v: u8)
    requires
        0 <= i < s.len(),
    ensures
        num_free(s.update(i, v)) == num_free(s) + (if v == 0 { 1int } else { 0int }) - (
        if s[i] == 0 {
            1int
        } else {
            0int
        }),
    decreases s.len(),
{
    if s.len() > 0 {
        if i == s.len() - 1 {
            assert(s.update(i, v).drop_last() =~= s.drop_last());
        } else {
            assert(s.update(i, v).drop_last() =~= s.drop_last().update(i, v));
            lemma_num_free_update(s.drop_last(), i, v);
        }
    }
}

/// A registry has a free frame exactly when its free count is positive,
/// and the free count is never negative.
pub proof fn lemma_has_free_num_free(s: Seq<u8>)
    ensures
        has_free(s) <==> num_free(s) > 0,
        num_free(s) >= 0,
    decreases s.len(),
{
    if s.len() > 0 {
        lemma_has_free_num_free(s.drop_last());
        if s.last() == 0 {
            assert(s[s.len() - 1] == 0);
        } else {
            if has_free(s.drop_last()) {
                let i = choose|i: int| 0 <= i < s.drop_last().len() && s.drop_last()[i] == 0;
                assert(s[i] == 0);
            }
            if has_free(s) {
                let i = choose|i: int| 0 <= i < s.len() && s[i] == 0;
                assert(i != s.len() - 1);
                assert(s.drop_last()[i] == 0);
            }
        }
    }
}

/// The lowest free frame is unique.
pub proof fn lemma_first_free_unique(s: Seq<u8>, i: int)
    requires
        is_first_free(s, i),
    ensures
        first_free(s) == i,
{
    let j = first_free(s);
    assert(is_first_free(s, j));
    if j < i {
        assert(s[j] != 0);
    } else if i < j {
        assert(s[i] != 0);
    }
}

/// Reference-count conservation: over any sequence of registry operations
/// the total of all counters moves by exactly the net number of successful
/// acquisitions; failed operations leave it untouched.  The executable
/// calls `get_free_page`, `get_page` and `free_page_ref` each guarantee
/// that their effect on the registry is `ppm_op_apply` of the matching
/// operation, so this law covers any interleaving of them.
pub proof fn lemma_refcount_conservation(s: Seq<u8>, ops: Seq<PpmOp>)
    ensures
        sum_refs(ppm_run(s, ops)) == sum_refs(s) + ppm_net(s, ops),
    decreases ops.len(),
{
    if ops.len() > 0 {
        lemma_refcount_conservation(s, ops.drop_last());
        let t = ppm_run(s, ops.drop_last());
        match ops.last() {
            PpmOp::GetFreePage => {
                if has_free(t) {
                    let i = choose|i: int| 0 <= i < t.len() && t[i] == 0;
                    ppm_first_free_exists(t, i);
                    assert(is_first_free(t, first_free(t)));
                    lemma_sum_refs_update(t, first_free(t), 1u8);
                }
            },
            PpmOp::GetPage(i) => {
                if 0 <= i < t.len() && t[i] < 255 {
                    lemma_sum_refs_update(t, i, (t[i] + 1) as u8);
                }
            },
            PpmOp::FreePage(i) => {
                if 0 <= i < t.len() && t[i] > 0 {
                    lemma_sum_refs_update(t, i, (t[i] - 1) as u8);
                }
            },
        }
    }
}

/// From any free slot, a lowest free slot exists.
pub proof fn ppm_first_free_exists(s: Seq<u8>, i: int)
    requires
        0 <= i < s.len(),
        s[i] == 0,
    ensures
        is_first_free(s, first_free(s)),
    decreases i,
{
    if exists|j: int| 0 <= j < i && s[j] == 0 {
        let j = choose|j: int| 0 <= j < i && s[j] == 0;
        ppm_first_free_exists(s, j);
    } else {
        assert(is_first_free(s, i));
        lemma_first_free_unique(s, i);
    }
}

/// Initialise the registry for a machine whose RAM ends at
/// `ram_start + ram_len` and whose kernel static image ends at
/// `static_kernel_mem_end`.  Every frame from 0 up to the end of the
/// kernel image plus the registry's own frames is pre-reserved with one
/// reference; all remaining frames are free.  Returns the registry and
/// the first byte after all reserved memory.
pub fn init_ppm(static_kernel_mem_end: u64, ram_start: u64, ram_len: u64) -> (r: Result<
    (Ppm, u64),
    PPMError,
>)
    requires
        static_kernel_mem_end >= 1,
        ram_start + ram_len <= u64::MAX,
        (ram_start + ram_len) / (PAGE_LEN as int) <= usize::MAX,
    ensures
        ({
            let n = (ram_start + ram_len) / (PAGE_LEN as int);
            let static_pages = (static_kernel_mem_end - 1) / (PAGE_LEN as int) + 1;
            let registry_pages = (n + PAGE_LEN as int - 1) / (PAGE_LEN as int);
            let used = static_pages + registry_pages;
            &&& (r is Ok <==> used <= n)
            &&& (r is Err ==> r == Err::<(Ppm, u64), PPMError>(PPMError::InvalidPageIdxRange))
            &&& (r is Ok ==> {
                let (ppm, end) = r->Ok_0;
                &&& ppm.registry@.len() == n
                &&& forall|i: int| 0 <= i < used ==> ppm.registry@[i] == 1
                &&& forall|i: int| used <= i < n ==> ppm.registry@[i] == 0
                &&& end == used * PAGE_LEN
                &&& sum_refs(ppm.registry@) == used
            })
        }),
{
    // One page past the last byte of the static image, counting from 0.
    let static_kernel_mem_pages: u64 = (static_kernel_mem_end - 1) / PAGE_LEN + 1;
    // The registry spans every frame from physical 0 to the end of RAM.
    let registry_len: u64 = (ram_start + ram_len) / PAGE_LEN;
    let registry_pages: u64 = (registry_len + PAGE_LEN - 1) / PAGE_LEN;
    let already_used_pages: u64 = static_kernel_mem_pages + registry_pages;
    if already_used_pages > registry_len {
        return Err(PPMError::InvalidPageIdxRange);
    }
    let mut ppm = Ppm { registry: vec![0u8; registry_len as usize] };
    proof {
        lemma_sum_zero(ppm.registry@);
    }
    match increment_ref_count_range(&mut ppm, (already_used_pages - 1) as usize, 0) {
        Ok(_) => {
            proof {
                lemma_sum_ones_prefix(ppm.registry@, already_used_pages as int);
            }
            Ok((ppm, already_used_pages * PAGE_LEN))
        },
        Err(e) => Err(e),
    }
}

/// An all-zero registry has total 0.
proof fn lemma_sum_zero(s: Seq<u8>)
    requires
        forall|i: int| 0 <= i < s.len() ==> s[i] == 0,
    ensures
        sum_refs(s) == 0,
    decreases s.len(),
{
    if s.len() > 0 {
        lemma_sum_zero(s.drop_last());
    }
}

/// A registry that is 1 on the first `k` slots and 0 after has total `k`.
proof fn lemma_sum_ones_prefix(s: Seq<u8>, k: int)
    requires
        0 <= k <= s.len(),
        forall|i: int| 0 <= i < k ==> s[i] == 1,
        forall|i: int| k <= i < s.len() ==> s[i] == 0,
    ensures
        sum_refs(s) == k,
    decreases s.len(),
{
    if s.len() > 0 {
        if k == s.len() {
            lemma_sum_ones_prefix(s.drop_last(), k - 1);
        } else {
            lemma_sum_ones_prefix(s.drop_last(), k);
        }
    }
}

/// The number of frames the registry covers.
pub fn get_num_phys_pages(ppm: &Ppm) -> (r: usize)
    ensures
        r == ppm.registry@.len(),
{
    ppm.registry.len()
}

/// Hand out the lowest-numbered free frame: its count becomes 1 and its
/// physical address is returned.  `zero_out` asks for the frame's bytes
/// to be wiped — physical-memory work outside this model.  Fails with
/// `NoFreePages` exactly when no counter is 0.
pub fn get_free_page(ppm: &mut Ppm, zero_out: bool) -> (r: Result<u64, PPMError>)
    requires
        old(ppm).registry@.len() * PAGE_LEN <= u64::MAX,
    ensures
        final(ppm).registry@ == ppm_op_apply(old(ppm).registry@, PpmOp::GetFreePage),
        final(ppm).registry@.len() == old(ppm).registry@.len(),
        r is Ok <==> has_free(old(ppm).registry@),
        r is Err ==> r == Err::<u64, PPMError>(PPMError::NoFreePages) && final(ppm).registry@
            == old(ppm).registry@,
        r is Ok ==> ({
            let i = r->Ok_0 as int / PAGE_LEN as int;
            &&& is_first_free(old(ppm).registry@, i)
            &&& r->Ok_0 == i * PAGE_LEN
            &&& final(ppm).registry@ == old(ppm).registry@.update(i, 1u8)
        }),
        sum_refs(final(ppm).registry@) == sum_refs(old(ppm).registry@) + (
        if r is Ok {
            1int
        } else {
            0int
        }),
{
    let n = ppm.registry.len();
    let mut i: usize = 0;
    while i < n
        invariant
            n == ppm.registry@.len(),
            (n as int) * (PAGE_LEN as int) <= u64::MAX,
            *ppm == *old(ppm),
            0 <= i <= n,
            forall|j: int| 0 <= j < i ==> ppm.registry@[j] != 0,
        decreases n - i,
    {
        if ppm.registry[i] == 0 {
            let ghost reg0 = ppm.registry@;
            match increment_ref_count(ppm, i) {
                Ok(ref_count) => {
                    if ref_count != 0x01 {
                        // Unreachable: the slot was just observed free, so
                        // its new count is exactly 1; the guard defends the
                        // allocator's post-condition all the same.
                        return Err(PPMError::ExpectedFreePageHasReferences);
                    }
                },
                Err(e) => {
                    return Err(e);
                },
            }
            proof {
                lemma_first_free_unique(reg0, i as int);
                lemma_sum_refs_update(reg0, i as int, 1u8);
                assert((i as int) * (PAGE_LEN as int) < (n as int) * (PAGE_LEN as int) && (i
                    as int) * (PAGE_LEN as int) >= 0) by (nonlinear_arith)
                    requires
                        0 <= (i as int) < (n as int),
                        PAGE_LEN == 16384,
                ;
                assert((i as int) * (PAGE_LEN as int) / (PAGE_LEN as int) == i as int)
                    by (nonlinear_arith)
                    requires
                        PAGE_LEN == 16384,
                ;
                assert((n as int) * (PAGE_LEN as int) <= u64::MAX);
                assert((i as int) * (PAGE_LEN as int) <= u64::MAX);
            }
            // If asked, the real allocator wipes the frame's 16 KiB here.
            let _ = zero_out;
            return Ok((i as u64) * PAGE_LEN);
        }
        i += 1;
    }
    Err(PPMError::NoFreePages)
}

/// Acquire one more reference to the frame at `page_idx` and return its
/// physical address.  Fails with `PageIdxOutOfRange` when the index is
/// beyond the registry and with `PageHasMaxReferences` when the counter
/// is saturated at 255; a failing call leaves the counter untouched.
pub fn get_page(ppm: &mut Ppm, page_idx: usize) -> (r: Result<u64, PPMError>)
    requires
        old(ppm).registry@.len() * PAGE_LEN <= u64::MAX,
    ensures
        final(ppm).registry@ == ppm_op_apply(old(ppm).registry@, PpmOp::GetPage(page_idx as int)),
        page_idx >= old(ppm).registry@.len() ==> r == Err::<u64, PPMError>(
            PPMError::PageIdxOutOfRange,
        ) && final(ppm).registry@ == old(ppm).registry@,
        page_idx < old(ppm).registry@.len() && old(ppm).registry@[page_idx as int] == 255 ==> r
            == Err::<u64, PPMError>(PPMError::PageHasMaxReferences) && final(ppm).registry@ == old(ppm).registry@,
        page_idx < old(ppm).registry@.len() && old(ppm).registry@[page_idx as int] < 255 ==> r
            == Ok::<u64, PPMError>((page_idx * PAGE_LEN as usize) as u64) && final(ppm).registry@
            == old(ppm).registry@.update(page_idx as int, (old(ppm).registry@[page_idx as int]
            + 1) as u8),
        sum_refs(final(ppm).registry@) == sum_refs(old(ppm).registry@) + (
        if r is Ok {
            1int
        } else {
            0int
        }),
{
    let ghost reg0 = ppm.registry@;
    match increment_ref_count(ppm, page_idx) {
        Ok(_) => {
            proof {
                lemma_sum_refs_update(reg0, page_idx as int, (reg0[page_idx as int] + 1) as u8);
            }
            Ok(page_idx_to_pa(page_idx))
        },
        Err(e) => Err(e),
    }
}

/// Release one reference to the frame holding physical address `page_ref`
/// and return the new count.  Fails with `PageIdxOutOfRange` beyond the
/// registry and with `PageHasNoReferences` when the frame is already free.
pub fn free_page_ref(ppm: &mut Ppm, page_ref: u64) -> (r: Result<u8, PPMError>)
    ensures
        ({
            let i = page_ref as int / PAGE_LEN as int;
            &&& final(ppm).registry@ == ppm_op_apply(old(ppm).registry@, PpmOp::FreePage(i))
            &&& (i >= old(ppm).registry@.len() ==> r == Err::<u8, PPMError>(
                PPMError::PageIdxOutOfRange,
            ) && final(ppm).registry@ == old(ppm).registry@)
            &&& (i < old(ppm).registry@.len() && old(ppm).registry@[i] == 0 ==> r == Err::<
                u8,
                PPMError,
            >(PPMError::PageHasNoReferences) && final(ppm).registry@ == old(ppm).registry@)
            &&& (i < old(ppm).registry@.len() && old(ppm).registry@[i] > 0 ==> r == Ok::<
                u8,
                PPMError,
            >((old(ppm).registry@[i] - 1) as u8) && final(ppm).registry@ == old(ppm).registry@.update(i, (old(ppm).registry@[i] - 1) as u8))
            &&& sum_refs(final(ppm).registry@) == sum_refs(old(ppm).registry@) - (
            if r is Ok {
                1int
            } else {
                0int
            })
        }),
{
    let ghost reg0 = ppm.registry@;
    let q: u64 = page_ref / PAGE_LEN;
    if q >= ppm.registry.len() as u64 {
        return Err(PPMError::PageIdxOutOfRange);
    }
    let r = decrement_ref_count(ppm, q as usize);
    proof {
        if reg0[q as int] > 0 {
            lemma_sum_refs_update(reg0, q as int, (reg0[q as int] - 1) as u8);
        }
    }
    r
}

/// Add one reference to the frame at `page_idx`, failing without mutation
/// when the index is out of range or the counter is saturated.
pub fn increment_ref_count(ppm: &mut Ppm, page_idx: usize) -> (r: Result<u8, PPMError>)
    ensures
        page_idx >= old(ppm).registry@.len() ==> r == Err::<u8, PPMError>(
            PPMError::PageIdxOutOfRange,
        ) && final(ppm).registry@ == old(ppm).registry@,
        page_idx < old(ppm).registry@.len() && old(ppm).registry@[page_idx as int] == 255 ==> r
            == Err::<u8, PPMError>(PPMError::PageHasMaxReferences) && final(ppm).registry@ == old(ppm).registry@,
        page_idx < old(ppm).registry@.len() && old(ppm).registry@[page_idx as int] < 255 ==> r
            == Ok::<u8, PPMError>((old(ppm).registry@[page_idx as int] + 1) as u8) && final(ppm).registry@ == old(ppm).registry@.update(page_idx as int, (old(ppm).registry@[page_idx as int] + 1) as u8),
{
    if page_idx >= ppm.registry.len() {
        return Err(PPMError::PageIdxOutOfRange);
    }
    let cur_ref_count: u8 = ppm.registry[page_idx];
    if cur_ref_count >= 255 {
        return Err(PPMError::PageHasMaxReferences);
    }
    ppm.registry.set(page_idx, cur_ref_count + 1);
    Ok(cur_ref_count + 1)
}

/// Drop one reference from the frame at `page_idx`, failing without
/// mutation when the index is out of range or the counter is already 0.
pub fn decrement_ref_count(ppm: &mut Ppm, page_idx: usize) -> (r: Result<u8, PPMError>)
    ensures
        page_idx >= old(ppm).registry@.len() ==> r == Err::<u8, PPMError>(
            PPMError::PageIdxOutOfRange,
        ) && final(ppm).registry@ == old(ppm).registry@,
        page_idx < old(ppm).registry@.len() && old(ppm).registry@[page_idx as int] == 0 ==> r
            == Err::<u8, PPMError>(PPMError::PageHasNoReferences) && final(ppm).registry@ == old(ppm).registry@,
        page_idx < old(ppm).registry@.len() && old(ppm).registry@[page_idx as int] > 0 ==> r
            == Ok::<u8, PPMError>((old(ppm).registry@[page_idx as int] - 1) as u8) && final(ppm).registry@ == old(ppm).registry@.update(page_idx as int, (old(ppm).registry@[page_idx as int] - 1) as u8),
{
    if page_idx >= ppm.registry.len() {
        return Err(PPMError::PageIdxOutOfRange);
    }
    let cur_ref_count: u8 = ppm.registry[page_idx];
    if cur_ref_count == 0 {
        return Err(PPMError::PageHasNoReferences);
    }
    ppm.registry.set(page_idx, cur_ref_count - 1);
    Ok(cur_ref_count - 1)
}

/// Add one reference to every frame in `[low_idx, high_idx]`.  The whole
/// range is checked before any counter moves, so a failing call mutates
/// nothing: partial increments never occur.  The range is valid when
/// `low_idx <= high_idx < len`; otherwise `InvalidPageIdxRange`.
pub fn increment_ref_count_range(ppm: &mut Ppm, high_idx: usize, low_idx: usize) -> (r: Result<
    (),
    PPMError,
>)
    ensures
        !(low_idx <= high_idx && high_idx < old(ppm).registry@.len()) ==> r == Err::<(), PPMError>(
            PPMError::InvalidPageIdxRange,
        ) && final(ppm).registry@ == old(ppm).registry@,
        low_idx <= high_idx && high_idx < old(ppm).registry@.len() && (exists|j: int|
            low_idx <= j <= high_idx && old(ppm).registry@[j] == 255) ==> r == Err::<(), PPMError>(
            PPMError::PageHasMaxReferences,
        ) && final(ppm).registry@ == old(ppm).registry@,
        low_idx <= high_idx && high_idx < old(ppm).registry@.len() && (forall|j: int|
            low_idx <= j <= high_idx ==> old(ppm).registry@[j] < 255) ==> r == Ok::<(), PPMError>(
            (),
        ) && final(ppm).registry@.len() == old(ppm).registry@.len() && (forall|j: int|
            0 <= j < old(ppm).registry@.len() ==> final(ppm).registry@[j] == (
            if low_idx <= j <= high_idx {
                (old(ppm).registry@[j] + 1) as u8
            } else {
                old(ppm).registry@[j]
            })),
{
    if high_idx < low_idx || high_idx >= ppm.registry.len() {
        return Err(PPMError::InvalidPageIdxRange);
    }
    let mut page_idx: usize = low_idx;
    while page_idx <= high_idx
        invariant
            low_idx <= page_idx <= high_idx + 1,
            high_idx < usize::MAX,
            high_idx < ppm.registry@.len(),
            *ppm == *old(ppm),
            forall|j: int| low_idx <= j < page_idx ==> ppm.registry@[j] < 255,
        decreases high_idx + 1 - page_idx,
    {
        if ppm.registry[page_idx] >= 255 {
            return Err(PPMError::PageHasMaxReferences);
        }
        page_idx += 1;
    }
    page_idx = low_idx;
    while page_idx <= high_idx
        invariant
            low_idx <= page_idx <= high_idx + 1,
            high_idx < usize::MAX,
            high_idx < ppm.registry@.len(),
            ppm.registry@.len() == old(ppm).registry@.len(),
            forall|j: int| low_idx <= j <= high_idx ==> old(ppm).registry@[j] < 255,
            forall|j: int|
                0 <= j < ppm.registry@.len() ==> ppm.registry@[j] == (
                if low_idx <= j < page_idx {
                    (old(ppm).registry@[j] + 1) as u8
                } else {
                    old(ppm).registry@[j]
                }),
        decreases high_idx + 1 - page_idx,
    {
        let c = ppm.registry[page_idx];
        ppm.registry.set(page_idx, c + 1);
        page_idx += 1;
    }
    Ok(())
}

/// Drop one reference from every frame in `[low_idx, high_idx]`.  The
/// whole range is checked before any counter moves, so a failing call
/// mutates nothing.  The range is valid when `low_idx <= high_idx < len`;
/// otherwise `InvalidPageIdxRange`.
pub fn decrement_ref_count_range(ppm: &mut Ppm, high_idx: usize, low_idx: usize) -> (r: Result<
    (),
    PPMError,
>)
    ensures
        !(low_idx <= high_idx && high_idx < old(ppm).registry@.len()) ==> r == Err::<(), PPMError>(
            PPMError::InvalidPageIdxRange,
        ) && final(ppm).registry@ == old(ppm).registry@,
        low_idx <= high_idx && high_idx < old(ppm).registry@.len() && (exists|j: int|
            low_idx <= j <= high_idx && old(ppm).registry@[j] == 0) ==> r == Err::<(), PPMError>(
            PPMError::PageHasNoReferences,
        ) && final(ppm).registry@ == old(ppm).registry@,
        low_idx <= high_idx && high_idx < old(ppm).registry@.len() && (forall|j: int|
            low_idx <= j <= high_idx ==> old(ppm).registry@[j] > 0) ==> r == Ok::<(), PPMError>(())
            && final(ppm).registry@.len() == old(ppm).registry@.len() && (forall|j: int|
            0 <= j < old(ppm).registry@.len() ==> final(ppm).registry@[j] == (
            if low_idx <= j <= high_idx {
                (old(ppm).registry@[j] - 1) as u8
            } else {
                old(ppm).registry@[j]
            })),
{
    if high_idx < low_idx || high_idx >= ppm.registry.len() {
        return Err(PPMError::InvalidPageIdxRange);
    }
    let mut page_idx: usize = low_idx;
    while page_idx <= high_idx
        invariant
            low_idx <= page_idx <= high_idx + 1,
            high_idx < usize::MAX,
            high_idx < ppm.registry@.len(),
            *ppm == *old(ppm),
            forall|j: int| low_idx <= j < page_idx ==> ppm.registry@[j] > 0,
        decreases high_idx + 1 - page_idx,
    {
        if ppm.registry[page_idx] == 0 {
            return Err(PPMError::PageHasNoReferences);
        }
        page_idx += 1;
    }
    page_idx = low_idx;
    while page_idx <= high_idx
        invariant
            low_idx <= page_idx <= high_idx + 1,
            high_idx < usize::MAX,
            high_idx < ppm.registry@.len(),
            ppm.registry@.len() == old(ppm).registry@.len(),
            forall|j: int| low_idx <= j <= high_idx ==> old(ppm).registry@[j] > 0,
            forall|j: int|
                0 <= j < ppm.registry@.len() ==> ppm.registry@[j] == (
                if low_idx <= j < page_idx {
                    (old(ppm).registry@[j] - 1) as u8
                } else {
                    old(ppm).registry@[j]
                }),
        decreases high_idx + 1 - page_idx,
    {
        let c = ppm.registry[page_idx];
        ppm.registry.set(page_idx, c - 1);
        page_idx += 1;
    }
    Ok(())
}

/// The physical address of the frame at `page_idx`.
pub fn page_idx_to_pa(page_idx: usize) -> (r: u64)
    requires
        page_idx * PAGE_LEN <= u64::MAX,
    ensures
        r == page_idx * PAGE_LEN,
{
    (page_idx as u64) * PAGE_LEN
}

/// The frame index holding physical address `pa`.
pub fn pa_to_page_idx(pa: u64) -> (r: u64)
    ensures
        r == pa / PAGE_LEN,
{
    pa / PAGE_LEN
}

/// The physical address of the frame at `page_idx`, for a mutable mapping.
/// On the model's plain addresses this is the same arithmetic as
/// `page_idx_to_pa`.
pub fn page_idx_to_pa_mut(page_idx: usize) -> (r: u64)
    requires
        page_idx * PAGE_LEN <= u64::MAX,
    ensures
        r == page_idx * PAGE_LEN,
{
    (page_idx as u64) * PAGE_LEN
}

/// The frame index holding physical address `pa`, for a mutable mapping.
pub fn pa_to_page_idx_mut(pa: u64) -> (r: u64)
    ensures
        r == pa / PAGE_LEN,
{
    pa / PAGE_LEN
}

} // verus!
