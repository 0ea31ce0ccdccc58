//! Over an arena that begins at a multiple of 8, every block begins at a
//! multiple of 8.
use vstd::prelude::*;
use vstd::arithmetic::div_mod::{lemma_fundamental_div_mod, lemma_mod_multiples_basic};
use vstd::arithmetic::power2::{lemma2_to64, lemma_pow2_adds, lemma_pow2_pos, pow2};
use crate::allocator::model::{
    bin_index, bin_size, coalesce, first_adjacent, first_fit, push_front, split, take, Heap,
};
use crate::allocator::util::{align_up_spec, is_power_of_two_spec, lemma_align_up};
use crate::allocator::validity::{
    lemma_allocate, lemma_bin_num, lemma_first_adjacent, lemma_first_fit,
};

verus! {

/// Every free block begins at a multiple of 8.
pub open spec fn lists_word_aligned(bins: Seq<Seq<usize>>) -> bool {
    forall|i: int, k: int|
        #![trigger bins[i][k]]
        0 <= i < bins.len() && 0 <= k < bins[i].len() ==> bins[i][k] % 8 == 0
}

/// The wilderness and every block, free or live, begin at a multiple of 8.
pub open spec fn word_aligned(heap: Heap) -> bool {
    &&& heap.free_start % 8 == 0
    &&& lists_word_aligned(heap.bins)
    &&& forall|a: usize| #![trigger heap.live.contains_key(a)] heap.live.contains_key(a) ==> a % 8 == 0
}

/// The size of a block is a multiple of 8.
pub proof fn lemma_bin_size_word(bin: nat)
    ensures
        bin_size(bin) % 8 == 0,
{
    lemma2_to64();
    lemma_pow2_adds(bin, 3);
    lemma_mod_multiples_basic(pow2(bin) as int, 8);
}

/// A multiple of a power of two that is at least 8, or of 8 itself
/// adjusted to a smaller power of two, is a multiple of 8: aligning a
/// multiple of 8 up to a power of two gives a multiple of 8.
pub proof fn lemma_align_up_word(addr: nat, align: nat)
    requires
        is_power_of_two_spec(align),
        addr % 8 == 0,
    ensures
        align_up_spec(addr, align) % 8 == 0,
{
    let k = choose|k: nat| pow2(k) == align;
    lemma2_to64();
    lemma_pow2_pos(k);
    if k >= 3 {
        lemma_pow2_adds((k - 3) as nat, 3);
        lemma_align_up(addr, align);
        let up = align_up_spec(addr, align);
        let rest = pow2((k - 3) as nat);
        lemma_fundamental_div_mod(up as int, align as int);
        let q = up as int / align as int;
        assert(up == (rest * q) * 8) by (nonlinear_arith)
            requires
                up == align * q,
                align == rest * 8,
        ;
        lemma_mod_multiples_basic(rest * q, 8);
        assert(up % 8 == 0);
    } else {
        if k == 0 {
            assert(align == 1);
            assert(addr % 1 == 0);
        } else if k == 1 {
            assert(align == 2);
            assert(addr % 2 == 0);
        } else {
            assert(align == 4);
            assert(addr % 4 == 0);
        }
        assert(align_up_spec(addr, align) == addr);
    }
}

/// Handing back the upper part of a block that begins at a multiple of 8
/// keeps every free block at a multiple of 8.
pub proof fn lemma_split_word(bins: Seq<Seq<usize>>, addr: nat, from: nat, to: nat)
    requires
        lists_word_aligned(bins),
        addr % 8 == 0,
        from <= to <= bins.len(),
        addr + bin_size(to) <= usize::MAX,
    ensures
        lists_word_aligned(split(bins, addr, from, to)),
    decreases to - from,
{
    if from < to {
        lemma_bin_size_word(from);
        crate::allocator::validity::lemma_bin_size_grows(from, to);
        let piece = (addr + bin_size(from)) as usize;
        let pushed = push_front(bins, from, piece);
        assert forall|i: int, k: int|
            #![trigger pushed[i][k]]
            0 <= i < pushed.len() && 0 <= k < pushed[i].len() implies pushed[i][k] % 8 == 0 by {
            if i == from && k > 0 {
                assert(pushed[i][k] == bins[i][k - 1]);
            } else if i != from {
                assert(pushed[i][k] == bins[i][k]);
            }
        }
        lemma_split_word(pushed, addr, from + 1, to);
    }
}

/// Handing a block that begins at a multiple of 8 to a bin keeps every free
/// block at a multiple of 8.
pub proof fn lemma_coalesce_word(bins: Seq<Seq<usize>>, bin_num: nat, bin: nat, addr: usize)
    requires
        lists_word_aligned(bins),
        addr % 8 == 0,
        bin < bin_num <= bins.len(),
    ensures
        lists_word_aligned(coalesce(bins, bin_num, bin, addr)),
    decreases bin_num - bin,
{
    let list = bins[bin as int];
    let k = first_adjacent(list, addr as nat, bin_size(bin), 0);
    lemma_first_adjacent(list, addr as nat, bin_size(bin), 0);
    if bin + 1 < bin_num && k < list.len() {
        let other = list[k];
        let merged = if other < addr { other } else { addr };
        let taken = take(bins, bin, k);
        assert(bins[bin as int][k] % 8 == 0);
        assert forall|i: int, m: int|
            #![trigger taken[i][m]]
            0 <= i < taken.len() && 0 <= m < taken[i].len() implies taken[i][m] % 8 == 0 by {
            let n = if i == bin && m >= k { m + 1 } else { m };
            assert(taken[i][m] == bins[i][n]);
        }
        lemma_coalesce_word(taken, bin_num, bin + 1, merged);
    } else {
        let pushed = push_front(bins, bin, addr);
        assert forall|i: int, m: int|
            #![trigger pushed[i][m]]
            0 <= i < pushed.len() && 0 <= m < pushed[i].len() implies pushed[i][m] % 8 == 0 by {
            if i == bin && m > 0 {
                assert(pushed[i][m] == bins[i][m - 1]);
            } else if i != bin {
                assert(pushed[i][m] == bins[i][m]);
            }
        }
    }
}

/// A new heap over an arena that begins at a multiple of 8 holds every
/// address at a multiple of 8.
pub proof fn lemma_fresh_word_aligned(start: nat, end: nat)
    requires
        start % 8 == 0,
    ensures
        word_aligned(Heap::fresh(start, end)),
{
}

/// An allocation keeps every address that the heap holds at a multiple of
/// 8, and the block it hands out begins at one.
pub proof fn lemma_allocate_word_aligned(heap: Heap, size: usize, align: usize)
    requires
        heap.wf(),
        word_aligned(heap),
    ensures
        word_aligned(heap.allocate(size, align).0),
        heap.allocate(size, align).1 matches Ok(addr) ==> addr % 8 == 0,
{
    let bin = bin_index(size as nat);
    let after = heap.allocate(size, align).0;
    lemma_allocate(heap, size, align);
    lemma_bin_num(heap);
    lemma_bin_size_word(bin);
    if is_power_of_two_spec(align as nat) && bin < heap.bin_num {
        lemma_first_fit(heap.bins, align as nat, bin, heap.bin_num);
        match first_fit(heap.bins, align as nat, bin, heap.bin_num) {
            Some((found, k)) => {
                let addr = heap.bins[found as int][k as int];
                let taken = take(heap.bins, found, k as int);
                assert(heap.bins[found as int][k as int] % 8 == 0);
                assert(addr + bin_size(found) <= heap.free_start);
                assert forall|i: int, m: int|
                    #![trigger taken[i][m]]
                    0 <= i < taken.len() && 0 <= m < taken[i].len() implies taken[i][m] % 8
                    == 0 by {
                    let n = if i == found && m >= k { m + 1 } else { m };
                    assert(taken[i][m] == heap.bins[i][n]);
                }
                lemma_split_word(taken, addr as nat, bin, found);
                assert forall|a: usize| #![trigger after.live.contains_key(a)]
                    after.live.contains_key(a) implies a % 8 == 0 by {
                    if a != addr {
                        assert(heap.live.contains_key(a));
                    }
                }
            },
            None => {
                lemma_align_up_word(heap.free_start, align as nat);
                match heap.bump(bin_size(bin), align as nat) {
                    Some((free_start, addr)) => {
                        assert forall|a: usize| #![trigger after.live.contains_key(a)]
                            after.live.contains_key(a) implies a % 8 == 0 by {
                            if a != addr {
                                assert(heap.live.contains_key(a));
                            }
                        }
                    },
                    None => {},
                }
            },
        }
    }
}

/// A deallocation keeps every address that the heap holds at a multiple of
/// 8.
pub proof fn lemma_dealloc_word_aligned(heap: Heap, addr: usize, size: usize)
    requires
        heap.wf(),
        heap.owes(addr, size),
        word_aligned(heap),
    ensures
        word_aligned(heap.dealloc(addr, size)),
{
    let after = heap.dealloc(addr, size);
    lemma_bin_num(heap);
    assert(heap.live.contains_key(addr));
    lemma_coalesce_word(heap.bins, heap.bin_num, bin_index(size as nat), addr);
    assert forall|a: usize| #![trigger after.live.contains_key(a)]
        after.live.contains_key(a) implies a % 8 == 0 by {
        assert(heap.live.contains_key(a));
    }
}

} // verus!
