//! Proofs that allocation and deallocation keep the heap valid.
use vstd::prelude::*;
use vstd::arithmetic::power2::{
    lemma2_to64, lemma2_to64_rest, lemma_pow2_pos, lemma_pow2_strictly_increases,
    lemma_pow2_unfold, pow2,
};
use crate::allocator::model::{
    bin_index, bin_size, coalesce, disjoint, first_adjacent, first_aligned, first_fit, free_clear,
    free_active, free_disjoint, free_within, landing, push_front, split, take, Heap, BIN_COUNT,
};
use crate::allocator::util::{
    is_power_of_two_spec, lemma_align_up, lemma_log2_ceil_is_least, log2_ceil_spec,
};

verus! {

/// The blocks of a bin are at least 8 bytes, and twice as large as those of
/// the bin before.
pub proof fn lemma_bin_size(bin: nat)
    ensures
        bin_size(bin) >= 8,
        bin_size(bin + 1) == 2 * bin_size(bin),
    decreases bin,
{
    lemma2_to64();
    lemma_pow2_unfold(bin + 4);
    if bin > 0 {
        lemma_bin_size((bin - 1) as nat);
    }
}

/// Larger bins hold larger blocks.
pub proof fn lemma_bin_size_grows(i: nat, j: nat)
    requires
        i <= j,
    ensures
        bin_size(i) <= bin_size(j),
{
    if i < j {
        lemma_pow2_strictly_increases(i + 3, j + 3);
    }
}

/// A request fits the blocks of its bin.
pub proof fn lemma_bin_index_fits(size: nat)
    ensures
        size <= bin_size(bin_index(size)),
{
    lemma_log2_ceil_is_least(size);
    let log = log2_ceil_spec(size);
    if log < 3 {
        lemma_pow2_strictly_increases(log, 3);
    }
}

/// `first_aligned` finds the first aligned address, and none before it is.
pub proof fn lemma_first_aligned(list: Seq<usize>, align: nat, from: int)
    requires
        0 <= from <= list.len(),
    ensures
        from <= first_aligned(list, align, from) <= list.len(),
        first_aligned(list, align, from) < list.len() ==> list[first_aligned(list, align, from)] as nat
            % align == 0,
        forall|m: int|
            from <= m < first_aligned(list, align, from) ==> (#[trigger] list[m]) as nat % align != 0,
    decreases list.len() - from,
{
    if from < list.len() && list[from] as nat % align != 0 {
        lemma_first_aligned(list, align, from + 1);
    }
}

/// `first_adjacent` finds the first bordering block, and none before it
/// borders.
pub proof fn lemma_first_adjacent(list: Seq<usize>, addr: nat, size: nat, from: int)
    requires
        0 <= from <= list.len(),
    ensures
        from <= first_adjacent(list, addr, size, from) <= list.len(),
        ({
            let k = first_adjacent(list, addr, size, from);
            k < list.len() ==> list[k] == addr + size || list[k] + size == addr
        }),
        forall|m: int|
            from <= m < first_adjacent(list, addr, size, from) ==> !((#[trigger] list[m]) == addr
                + size || list[m] + size == addr),
    decreases list.len() - from,
{
    if from < list.len() && !(list[from] == addr + size || list[from] + size == addr) {
        lemma_first_adjacent(list, addr, size, from + 1);
    }
}

/// `first_fit` finds a block in the bins it goes through, at an aligned
/// address; and it finds one whenever there is one.
pub proof fn lemma_first_fit(bins: Seq<Seq<usize>>, align: nat, from: nat, to: nat)
    requires
        to <= bins.len(),
    ensures
        match first_fit(bins, align, from, to) {
            Some((bin, k)) => from <= bin < to && k < bins[bin as int].len() && bins[bin as int][k as int] as nat
                % align == 0,
            None => forall|i: int, k: int|
                from <= i < to && 0 <= k < bins[i].len() ==> (#[trigger] bins[i][k]) as nat % align
                    != 0,
        },
    decreases to - from,
{
    if from < to {
        lemma_first_aligned(bins[from as int], align, 0);
        lemma_first_fit(bins, align, from + 1, to);
    }
}

/// Taking a block off its list leaves the other free blocks as they were,
/// and the bytes of the block free of them.
pub proof fn lemma_take(bins: Seq<Seq<usize>>, bin_num: nat, lo: int, hi: int, bin: nat, k: int)
    requires
        free_active(bins, bin_num),
        free_within(bins, lo, hi),
        free_disjoint(bins),
        bin < bins.len(),
        0 <= k < bins[bin as int].len(),
    ensures
        free_active(take(bins, bin, k), bin_num),
        free_within(take(bins, bin, k), lo, hi),
        free_disjoint(take(bins, bin, k)),
        free_clear(
            take(bins, bin, k),
            bins[bin as int][k] as int,
            bins[bin as int][k] + bin_size(bin),
        ),
        forall|qlo: int, qhi: int|
            free_clear(bins, qlo, qhi) ==> #[trigger] free_clear(take(bins, bin, k), qlo, qhi),
{
    let after = take(bins, bin, k);
    let list = bins[bin as int];
    let addr = list[k];
    assert forall|i: int, m: int| 0 <= i < after.len() && 0 <= m < after[i].len() implies ({
        let n = if i == bin && m >= k { m + 1 } else { m };
        &&& 0 <= n < bins[i].len()
        &&& #[trigger] after[i][m] == bins[i][n]
    }) by {}
    assert forall|i: int, m: int|
        #![trigger after[i][m]]
        0 <= i < after.len() && 0 <= m < after[i].len() implies lo <= after[i][m] && after[i][m]
        + bin_size(i as nat) <= hi by {
        let n = if i == bin && m >= k { m + 1 } else { m };
        assert(after[i][m] == bins[i][n]);
    }
    assert forall|i: int, m: int, j: int, l: int|
        #![trigger after[i][m], after[j][l]]
        0 <= i < after.len() && 0 <= m < after[i].len() && 0 <= j < after.len() && 0 <= l
            < after[j].len() && (i != j || m != l) implies disjoint(
        after[i][m] as int,
        bin_size(i as nat) as int,
        after[j][l] as int,
        bin_size(j as nat) as int,
    ) by {
        let n = if i == bin && m >= k { m + 1 } else { m };
        let p = if j == bin && l >= k { l + 1 } else { l };
        assert(after[i][m] == bins[i][n]);
        assert(after[j][l] == bins[j][p]);
    }
    assert forall|i: int, m: int|
        #![trigger after[i][m]]
        0 <= i < after.len() && 0 <= m < after[i].len() implies after[i][m] + bin_size(i as nat)
        <= addr || addr + bin_size(bin) <= after[i][m] by {
        let n = if i == bin && m >= k { m + 1 } else { m };
        assert(after[i][m] == bins[i][n]);
        assert(disjoint(
            bins[i][n] as int,
            bin_size(i as nat) as int,
            bins[bin as int][k] as int,
            bin_size(bin) as int,
        ));
    }
    assert forall|qlo: int, qhi: int| free_clear(bins, qlo, qhi) implies #[trigger] free_clear(
        after,
        qlo,
        qhi,
    ) by {
        assert forall|i: int, m: int|
            #![trigger after[i][m]]
            0 <= i < after.len() && 0 <= m < after[i].len() implies after[i][m] + bin_size(
            i as nat,
        ) <= qlo || qhi <= after[i][m] by {
            let n = if i == bin && m >= k { m + 1 } else { m };
            assert(after[i][m] == bins[i][n]);
        }
    }
}

/// Putting a block whose bytes are free of the free blocks on a list keeps
/// the free blocks apart, and leaves free of them what was so before and
/// shares no byte with the block.
pub proof fn lemma_push(bins: Seq<Seq<usize>>, bin_num: nat, lo: int, hi: int, bin: nat, addr: usize)
    requires
        free_active(bins, bin_num),
        free_within(bins, lo, hi),
        free_disjoint(bins),
        bin < bins.len(),
        bin < bin_num,
        lo <= addr,
        addr + bin_size(bin) <= hi,
        free_clear(bins, addr as int, addr + bin_size(bin)),
    ensures
        free_active(push_front(bins, bin, addr), bin_num),
        free_within(push_front(bins, bin, addr), lo, hi),
        free_disjoint(push_front(bins, bin, addr)),
        forall|qlo: int, qhi: int|
            free_clear(bins, qlo, qhi) && (qhi <= addr || addr + bin_size(bin) <= qlo)
                ==> #[trigger] free_clear(push_front(bins, bin, addr), qlo, qhi),
{
    let after = push_front(bins, bin, addr);
    lemma_bin_size(bin);
    assert forall|i: int, m: int|
        #![trigger after[i][m]]
        0 <= i < after.len() && 0 <= m < after[i].len() implies lo <= after[i][m] && after[i][m]
        + bin_size(i as nat) <= hi by {
        if i == bin && m > 0 {
            assert(after[i][m] == bins[i][m - 1]);
        } else if i != bin {
            assert(after[i][m] == bins[i][m]);
        }
    }
    assert forall|i: int, m: int, j: int, l: int|
        #![trigger after[i][m], after[j][l]]
        0 <= i < after.len() && 0 <= m < after[i].len() && 0 <= j < after.len() && 0 <= l
            < after[j].len() && (i != j || m != l) implies disjoint(
        after[i][m] as int,
        bin_size(i as nat) as int,
        after[j][l] as int,
        bin_size(j as nat) as int,
    ) by {
        let n = if i == bin { m - 1 } else { m };
        let p = if j == bin { l - 1 } else { l };
        if n >= 0 {
            assert(after[i][m] == bins[i][n]);
        }
        if p >= 0 {
            assert(after[j][l] == bins[j][p]);
        }
        lemma_bin_size(i as nat);
        lemma_bin_size(j as nat);
    }
    assert forall|qlo: int, qhi: int|
        free_clear(bins, qlo, qhi) && (qhi <= addr || addr + bin_size(bin)
            <= qlo) implies #[trigger] free_clear(after, qlo, qhi) by {
        assert forall|i: int, m: int|
            #![trigger after[i][m]]
            0 <= i < after.len() && 0 <= m < after[i].len() implies after[i][m] + bin_size(
            i as nat,
        ) <= qlo || qhi <= after[i][m] by {
            if i == bin && m > 0 {
                assert(after[i][m] == bins[i][m - 1]);
            } else if i != bin {
                assert(after[i][m] == bins[i][m]);
            }
        }
    }
}

/// Handing back the upper part of a block, which is free of the free
/// blocks, keeps the free blocks apart, and leaves free of them what was so
/// before and shares no byte with that upper part.
pub proof fn lemma_split(
    bins: Seq<Seq<usize>>,
    bin_num: nat,
    lo: int,
    hi: int,
    addr: nat,
    from: nat,
    to: nat,
)
    requires
        free_active(bins, bin_num),
        free_within(bins, lo, hi),
        free_disjoint(bins),
        from <= to <= bin_num <= bins.len(),
        lo <= addr,
        addr + bin_size(to) <= hi <= usize::MAX,
        free_clear(bins, (addr + bin_size(from)) as int, (addr + bin_size(to)) as int),
    ensures
        split(bins, addr, from, to).len() == bins.len(),
        free_active(split(bins, addr, from, to), bin_num),
        free_within(split(bins, addr, from, to), lo, hi),
        free_disjoint(split(bins, addr, from, to)),
        forall|qlo: int, qhi: int|
            free_clear(bins, qlo, qhi) && (qhi <= addr + bin_size(from) || addr + bin_size(to)
                <= qlo) ==> #[trigger] free_clear(split(bins, addr, from, to), qlo, qhi),
    decreases to - from,
{
    if from < to {
        let piece: int = (addr + bin_size(from)) as int;
        let rest: int = (addr + bin_size(from + 1)) as int;
        let end: int = (addr + bin_size(to)) as int;
        lemma_bin_size(from);
        lemma_bin_size_grows(from + 1, to);
        assert(free_clear(bins, piece, rest));
        assert(free_clear(bins, rest, end));
        lemma_push(bins, bin_num, lo, hi, from, piece as usize);
        let pushed = push_front(bins, from, piece as usize);
        assert(free_clear(pushed, rest, end));
        lemma_split(pushed, bin_num, lo, hi, addr, from + 1, to);
        let after = split(bins, addr, from, to);
        assert forall|qlo: int, qhi: int|
            free_clear(bins, qlo, qhi) && (qhi <= piece || end <= qlo) implies #[trigger] free_clear(
            after,
            qlo,
            qhi,
        ) by {
            assert(free_clear(pushed, qlo, qhi));
        }
    }
}

/// Handing a block whose bytes are free of the free blocks to a bin keeps
/// the free blocks apart, and leaves free of them what was so before and
/// shares no byte with the block.
pub proof fn lemma_coalesce(
    bins: Seq<Seq<usize>>,
    bin_num: nat,
    lo: int,
    hi: int,
    bin: nat,
    addr: usize,
)
    requires
        free_active(bins, bin_num),
        free_within(bins, lo, hi),
        free_disjoint(bins),
        bin < bin_num <= bins.len(),
        lo <= addr,
        addr + bin_size(bin) <= hi,
        free_clear(bins, addr as int, addr + bin_size(bin)),
    ensures
        coalesce(bins, bin_num, bin, addr).len() == bins.len(),
        free_active(coalesce(bins, bin_num, bin, addr), bin_num),
        free_within(coalesce(bins, bin_num, bin, addr), lo, hi),
        free_disjoint(coalesce(bins, bin_num, bin, addr)),
        forall|qlo: int, qhi: int|
            free_clear(bins, qlo, qhi) && qlo < qhi && (qhi <= addr || addr + bin_size(bin) <= qlo)
                ==> #[trigger] free_clear(coalesce(bins, bin_num, bin, addr), qlo, qhi),
    decreases bin_num - bin,
{
    let size = bin_size(bin);
    let list = bins[bin as int];
    let k = first_adjacent(list, addr as nat, size, 0);
    lemma_first_adjacent(list, addr as nat, size, 0);
    lemma_bin_size(bin);
    if bin + 1 < bin_num && k < list.len() {
        let other = list[k];
        let merged = if other < addr { other } else { addr };
        let taken = take(bins, bin, k);
        assert(lo <= bins[bin as int][k] && bins[bin as int][k] + bin_size(bin) <= hi);
        lemma_take(bins, bin_num, lo, hi, bin, k);
        assert(free_clear(taken, addr as int, addr + size));
        assert(free_clear(taken, other as int, other + size));
        assert forall|i: int, m: int|
            #![trigger taken[i][m]]
            0 <= i < taken.len() && 0 <= m < taken[i].len() implies taken[i][m] + bin_size(
            i as nat,
        ) <= merged || merged + bin_size(bin + 1) <= taken[i][m] by {
            lemma_bin_size(i as nat);
        }
        lemma_coalesce(taken, bin_num, lo, hi, bin + 1, merged);
        let after = coalesce(bins, bin_num, bin, addr);
        assert forall|qlo: int, qhi: int|
            free_clear(bins, qlo, qhi) && qlo < qhi && (qhi <= addr || addr + size
                <= qlo) implies #[trigger] free_clear(after, qlo, qhi) by {
            assert(bins[bin as int][k] + bin_size(bin) <= qlo || qhi <= bins[bin as int][k]);
            assert(free_clear(taken, qlo, qhi));
        }
    } else {
        lemma_push(bins, bin_num, lo, hi, bin, addr);
    }
}

/// A block handed to a bin comes to rest at the head of the list of a bin at
/// or above that bin, at or below its own address.
pub proof fn lemma_landing(bins: Seq<Seq<usize>>, bin_num: nat, bin: nat, addr: usize)
    requires
        bin < bin_num <= bins.len(),
    ensures
        ({
            let (at, rest) = landing(bins, bin_num, bin, addr);
            let after = coalesce(bins, bin_num, bin, addr);
            &&& bin <= at < bin_num
            &&& rest <= addr
            &&& after.len() == bins.len()
            &&& after[at as int].len() > 0
            &&& after[at as int][0] == rest
        }),
    decreases bin_num - bin,
{
    let list = bins[bin as int];
    let k = first_adjacent(list, addr as nat, bin_size(bin), 0);
    lemma_first_adjacent(list, addr as nat, bin_size(bin), 0);
    if bin + 1 < bin_num && k < list.len() {
        let other = list[k];
        let merged = if other < addr { other } else { addr };
        lemma_landing(take(bins, bin, k), bin_num, bin + 1, merged);
    }
}

/// In a valid heap every active bin has a free list, and its block size fits
/// a machine word.
pub proof fn lemma_bin_num(heap: Heap)
    requires
        heap.wf(),
    ensures
        heap.bin_num <= BIN_COUNT,
        heap.bin_num + 3 <= usize::BITS,
{
    lemma2_to64();
    lemma2_to64_rest();
    let top = heap.bin_num + 2;
    if usize::BITS == 32 {
        if top >= 32 {
            if top > 32 {
                lemma_pow2_strictly_increases(32, top);
            }
        }
    } else {
        if top >= 64 {
            if top > 64 {
                lemma_pow2_strictly_increases(64, top);
            }
        }
    }
}

/// A valid heap stays valid through an allocation. A block that it hands
/// out is aligned as asked, holds the bytes asked for, lies in the arena and
/// shares no byte with a block that was live before.
pub proof fn lemma_allocate(heap: Heap, size: usize, align: usize)
    requires
        heap.wf(),
    ensures
        heap.allocate(size, align).0.wf(),
        match heap.allocate(size, align).1 {
            Ok(addr) => {
                let bin = bin_index(size as nat);
                &&& addr as nat % (align as nat) == 0
                &&& heap.start <= addr
                &&& addr + size <= addr + bin_size(bin) <= heap.allocate(size, align).0.free_start
                    <= heap.free_end
                &&& heap.free_start <= heap.allocate(size, align).0.free_start
                &&& heap.live_clear(addr as int, addr + bin_size(bin))
                &&& !heap.live.contains_key(addr)
                &&& heap.allocate(size, align).0.live == heap.live.insert(addr, bin)
            },
            Err(_) => heap.allocate(size, align).0 == heap,
        },
{
    lemma_allocate_cases(heap, size, align);
}

/// The proof of `lemma_allocate`, with its claims written out one by one.
proof fn lemma_allocate_cases(heap: Heap, size: usize, align: usize)
    requires
        heap.wf(),
    ensures
        heap.allocate(size, align).0.wf(),
        heap.allocate(size, align).1 is Err ==> heap.allocate(size, align).0 == heap,
        heap.allocate(size, align).1 is Ok ==> heap.allocate(size, align).1->Ok_0 as nat % (
        align as nat) == 0,
        heap.allocate(size, align).1 is Ok ==> heap.start <= heap.allocate(size, align).1->Ok_0,
        heap.allocate(size, align).1 is Ok ==> heap.allocate(size, align).1->Ok_0 + size
            <= heap.allocate(size, align).1->Ok_0 + bin_size(bin_index(size as nat)),
        heap.allocate(size, align).1 is Ok ==> heap.allocate(size, align).1->Ok_0 + bin_size(
            bin_index(size as nat),
        ) <= heap.allocate(size, align).0.free_start <= heap.free_end,
        heap.allocate(size, align).1 is Ok ==> heap.free_start <= heap.allocate(
            size,
            align,
        ).0.free_start,
        heap.allocate(size, align).1 is Ok ==> heap.live_clear(
            heap.allocate(size, align).1->Ok_0 as int,
            heap.allocate(size, align).1->Ok_0 + bin_size(bin_index(size as nat)),
        ),
        heap.allocate(size, align).1 is Ok ==> !heap.live.contains_key(
            heap.allocate(size, align).1->Ok_0,
        ),
        heap.allocate(size, align).1 is Ok ==> heap.allocate(size, align).0.live
            == heap.live.insert(heap.allocate(size, align).1->Ok_0, bin_index(size as nat)),
{
    let bin = bin_index(size as nat);
    let (after, result) = heap.allocate(size, align);
    lemma_bin_num(heap);
    lemma_bin_index_fits(size as nat);
    lemma_bin_size(bin);
    if is_power_of_two_spec(align as nat) && bin < heap.bin_num {
        let k = choose|k: nat| pow2(k) == align as nat;
        lemma_pow2_pos(k);
        lemma_first_fit(heap.bins, align as nat, bin, heap.bin_num);
        match first_fit(heap.bins, align as nat, bin, heap.bin_num) {
            Some((found, k)) => {
                let addr = heap.bins[found as int][k as int];
                let taken = take(heap.bins, found, k as int);
                let lo = heap.start as int;
                let hi = heap.free_start as int;
                assert(lo <= heap.bins[found as int][k as int] && heap.bins[found as int][k as int]
                    + bin_size(found) <= hi);
                lemma_take(heap.bins, heap.bin_num, lo, hi, found, k as int);
                lemma_bin_size_grows(bin, found);
                assert(free_clear(taken, addr + bin_size(bin), addr + bin_size(found)));
                lemma_split(taken, heap.bin_num, lo, hi, addr as nat, bin, found);
                assert(free_clear(taken, addr as int, addr + bin_size(bin)));
                assert forall|a: usize| #![trigger after.live.contains_key(a)]
                    after.live.contains_key(a) implies {
                    &&& after.live[a] < after.bin_num
                    &&& after.start <= a
                    &&& a + bin_size(after.live[a]) <= after.free_start
                    &&& free_clear(after.bins, a as int, a + bin_size(after.live[a]))
                } by {
                    if a != addr {
                        assert(heap.live.contains_key(a));
                        let end = a + bin_size(heap.live[a]);
                        assert(free_clear(heap.bins, a as int, end));
                        assert(heap.bins[found as int][k as int] + bin_size(found) <= a || end
                            <= heap.bins[found as int][k as int]);
                        assert(free_clear(taken, a as int, end));
                    }
                }
                assert forall|a: usize|
                    #![trigger heap.live.contains_key(a)]
                    heap.live.contains_key(a) implies a + bin_size(heap.live[a]) <= addr || addr
                    + bin_size(bin) <= a by {
                    assert(free_clear(heap.bins, a as int, a + bin_size(heap.live[a])));
                    assert(heap.bins[found as int][k as int] + bin_size(found) <= a || a
                        + bin_size(heap.live[a]) <= heap.bins[found as int][k as int]);
                    lemma_bin_size(heap.live[a]);
                }
                if heap.live.contains_key(addr) {
                    lemma_bin_size(heap.live[addr]);
                }
                assert(after.wf());
            },
            None => {
                lemma_align_up(heap.free_start, align as nat);
                match heap.bump(bin_size(bin), align as nat) {
                    Some((free_start, addr)) => {
                        assert forall|a: usize| #![trigger after.live.contains_key(a)]
                            after.live.contains_key(a) implies {
                            &&& after.live[a] < after.bin_num
                            &&& after.start <= a
                            &&& a + bin_size(after.live[a]) <= after.free_start
                            &&& free_clear(after.bins, a as int, a + bin_size(after.live[a]))
                        } by {
                            if a != addr {
                                assert(heap.live.contains_key(a));
                            }
                        }
                        assert forall|a: usize|
                            #![trigger heap.live.contains_key(a)]
                            heap.live.contains_key(a) implies a + bin_size(heap.live[a]) <= addr
                            || addr + bin_size(bin) <= a by {
                            lemma_bin_size(heap.live[a]);
                        }
                        if heap.live.contains_key(addr) {
                            lemma_bin_size(heap.live[addr]);
                        }
                        assert(after.wf());
                    },
                    None => {},
                }
            },
        }
    }
}

/// A valid heap stays valid when a live block is given back.
pub proof fn lemma_dealloc(heap: Heap, addr: usize, size: usize)
    requires
        heap.wf(),
        heap.owes(addr, size),
    ensures
        heap.dealloc(addr, size).wf(),
{
    let bin = bin_index(size as nat);
    let after = heap.dealloc(addr, size);
    let lo = heap.start as int;
    let hi = heap.free_start as int;
    assert(heap.live.contains_key(addr));
    lemma_bin_num(heap);
    lemma_coalesce(heap.bins, heap.bin_num, lo, hi, bin, addr);
    assert forall|a: usize| #![trigger after.live.contains_key(a)]
        after.live.contains_key(a) implies {
        &&& after.live[a] < after.bin_num
        &&& after.start <= a
        &&& a + bin_size(after.live[a]) <= after.free_start
        &&& free_clear(after.bins, a as int, a + bin_size(after.live[a]))
    } by {
        assert(heap.live.contains_key(a));
        assert(free_clear(heap.bins, a as int, a + bin_size(heap.live[a])));
        lemma_bin_size(heap.live[a]);
    }
}

} // verus!
