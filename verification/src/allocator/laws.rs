//! What holds of sequences of allocations and deallocations.
use vstd::prelude::*;
use crate::allocator::model::{
    bin_index, bin_size, coalesce, first_adjacent, first_aligned, first_fit, landing, push_front,
    take, AllocErr, Heap, Unsupported,
};
use crate::allocator::util::is_power_of_two_spec;
use crate::allocator::validity::{
    lemma_allocate, lemma_bin_num, lemma_bin_size, lemma_dealloc, lemma_first_adjacent,
    lemma_first_fit, lemma_landing,
};

verus! {

/// A block that is allocated and given back can be allocated again: after
/// `allocate` and the matching `dealloc`, an `allocate` of the same size and
/// alignment succeeds, provided that the block came to rest, after merging,
/// at an address that is still a multiple of `align`. Where it was merged
/// with nothing, the same address is returned.
pub proof fn lemma_allocate_after_dealloc(heap: Heap, size: usize, align: usize)
    requires
        heap.wf(),
        size > 0,
        heap.allocate(size, align).1 is Ok,
        landing(
            heap.allocate(size, align).0.bins,
            heap.bin_num,
            bin_index(size as nat),
            heap.allocate(size, align).1->Ok_0,
        ).1 as nat % (align as nat) == 0,
    ensures
        ({
            let (allocated, first) = heap.allocate(size, align);
            let addr = first->Ok_0;
            let freed = allocated.dealloc(addr, size);
            let (at, rest) = landing(allocated.bins, heap.bin_num, bin_index(size as nat), addr);
            &&& freed.wf()
            &&& freed.allocate(size, align).1 is Ok
            &&& at == bin_index(size as nat) ==> freed.allocate(size, align).1 == Ok::<
                usize,
                AllocErr,
            >(addr)
        }),
{
    let bin = bin_index(size as nat);
    let (allocated, first) = heap.allocate(size, align);
    let addr = first->Ok_0;
    lemma_allocate(heap, size, align);
    lemma_bin_num(allocated);
    assert(allocated.owes(addr, size));
    lemma_dealloc(allocated, addr, size);
    let freed = allocated.dealloc(addr, size);
    lemma_landing(allocated.bins, heap.bin_num, bin, addr);
    let (at, rest) = landing(allocated.bins, heap.bin_num, bin, addr);
    lemma_first_fit(freed.bins, align as nat, bin, heap.bin_num);
    assert(freed.bins[at as int][0] as nat % (align as nat) == 0);
    if at == bin {
        let list = allocated.bins[bin as int];
        let k = first_adjacent(list, addr as nat, bin_size(bin), 0);
        if bin + 1 < heap.bin_num && k < list.len() {
            let other = list[k];
            let merged = if other < addr { other } else { addr };
            lemma_landing(take(allocated.bins, bin, k), heap.bin_num, bin + 1, merged);
        }
        assert(freed.bins == push_front(allocated.bins, bin, addr));
        assert(first_aligned(freed.bins[bin as int], align as nat, 0) == 0);
        assert(take(freed.bins, bin, 0) =~= allocated.bins) by {
            assert(freed.bins[bin as int].remove(0) =~= allocated.bins[bin as int]);
        }
    }
}

/// Handing a block to a bin leaves the lists of the bins below it as they
/// were.
pub proof fn lemma_coalesce_keeps_lower(
    bins: Seq<Seq<usize>>,
    bin_num: nat,
    bin: nat,
    addr: usize,
    lower: nat,
)
    requires
        lower < bin < bin_num <= bins.len(),
    ensures
        coalesce(bins, bin_num, bin, addr)[lower as int] == bins[lower as int],
    decreases bin_num - bin,
{
    let list = bins[bin as int];
    let k = first_adjacent(list, addr as nat, bin_size(bin), 0);
    lemma_first_adjacent(list, addr as nat, bin_size(bin), 0);
    if bin + 1 < bin_num && k < list.len() {
        let other = list[k];
        let merged = if other < addr { other } else { addr };
        lemma_coalesce_keeps_lower(take(bins, bin, k), bin_num, bin + 1, merged, lower);
    }
}

/// Two live blocks of one bin that border each other, given back one after
/// the other, leave one block of the next bin and none of their own: where
/// the first one found no free block to merge with, the free lists end as if
/// the block of double size at the lower address had been handed to the next
/// bin, and the list of their own bin is as it was before.
pub proof fn lemma_adjacent_blocks_merge(heap: Heap, low: usize, high: usize, size: usize, low_first: bool)
    requires
        heap.wf(),
        heap.owes(low, size),
        heap.owes(high, size),
        high == low + bin_size(bin_index(size as nat)),
        bin_index(size as nat) + 1 < heap.bin_num,
        ({
            let list = heap.bins[bin_index(size as nat) as int];
            let first = if low_first { low } else { high };
            first_adjacent(list, first as nat, bin_size(bin_index(size as nat)), 0) == list.len()
        }),
    ensures
        ({
            let bin = bin_index(size as nat);
            let first = if low_first { low } else { high };
            let second = if low_first { high } else { low };
            let after = heap.dealloc(first, size).dealloc(second, size);
            &&& after.wf()
            &&& after.bins == coalesce(heap.bins, heap.bin_num, bin + 1, low)
            &&& after.bins[bin as int] == heap.bins[bin as int]
            &&& !after.live.contains_key(low)
            &&& !after.live.contains_key(high)
        }),
{
    let bin = bin_index(size as nat);
    let len = bin_size(bin);
    let first = if low_first { low } else { high };
    let second = if low_first { high } else { low };
    lemma_bin_num(heap);
    lemma_bin_size(bin);
    lemma_dealloc(heap, first, size);
    let once = heap.dealloc(first, size);
    assert(once.bins == push_front(heap.bins, bin, first));
    assert(once.owes(second, size));
    lemma_dealloc(once, second, size);
    let list = once.bins[bin as int];
    assert(list[0] == first);
    assert(first_adjacent(list, second as nat, len, 0) == 0);
    assert(take(once.bins, bin, 0) =~= heap.bins) by {
        assert(list.remove(0) =~= heap.bins[bin as int]);
    }
    lemma_coalesce_keeps_lower(heap.bins, heap.bin_num, bin + 1, low, bin);
}

/// When an allocation fails, and with which error: with `Unsupported` if
/// and only if the alignment is not a power of two or the size falls into
/// the first bin that is not active; with `Exhausted` if and only if, the
/// alignment being a power of two, the size falls into a bin beyond that,
/// or into an active bin while no free block of that bin or a larger one
/// begins at a multiple of the alignment and the wilderness has no room.
pub proof fn lemma_allocate_errors(heap: Heap, size: usize, align: usize)
    ensures
        ({
            let result = heap.allocate(size, align).1;
            let bin = bin_index(size as nat);
            let aligned = is_power_of_two_spec(align as nat);
            let served = first_fit(heap.bins, align as nat, bin, heap.bin_num) is Some || heap.bump(
                bin_size(bin),
                align as nat,
            ) is Some;
            &&& result == Err::<usize, AllocErr>(
                AllocErr::Unsupported { details: Unsupported::Alignment },
            ) <==> !aligned
            &&& result == Err::<usize, AllocErr>(AllocErr::Unsupported { details: Unsupported::Size })
                <==> aligned && bin == heap.bin_num
            &&& result == Err::<usize, AllocErr>(AllocErr::Exhausted { size, align }) <==> aligned
                && (bin > heap.bin_num || (bin < heap.bin_num && !served))
            &&& result is Ok <==> aligned && bin < heap.bin_num && served
        }),
{
}

/// A request for memory.
pub struct Request {
    pub size: usize,
    pub align: usize,
}

/// The heap after the requests `requests` were served in order.
pub open spec fn after_requests(heap: Heap, requests: Seq<Request>) -> Heap
    decreases requests.len(),
{
    if requests.len() == 0 {
        heap
    } else {
        after_requests(heap, requests.drop_last()).allocate(
            requests.last().size,
            requests.last().align,
        ).0
    }
}

/// What request `at` of `requests`, served in order, got.
pub open spec fn result_of(heap: Heap, requests: Seq<Request>, at: int) -> Result<usize, AllocErr>
    recommends
        0 <= at < requests.len(),
{
    after_requests(heap, requests.take(at)).allocate(requests[at].size, requests[at].align).1
}

/// A valid heap stays valid through a sequence of allocations, and every
/// block that it has handed out in the sequence is live afterwards, in the
/// bin of its size.
pub proof fn lemma_after_requests(heap: Heap, requests: Seq<Request>)
    requires
        heap.wf(),
    ensures
        after_requests(heap, requests).wf(),
        after_requests(heap, requests).start == heap.start,
        after_requests(heap, requests).free_end == heap.free_end,
        heap.free_start <= after_requests(heap, requests).free_start,
        forall|at: int|
            0 <= at < requests.len() && (#[trigger] result_of(heap, requests, at)) is Ok ==> {
                let addr = result_of(heap, requests, at)->Ok_0;
                &&& after_requests(heap, requests).live.contains_key(addr)
                &&& after_requests(heap, requests).live[addr] == bin_index(requests[at].size as nat)
            },
    decreases requests.len(),
{
    if requests.len() > 0 {
        let earlier = requests.drop_last();
        let last = requests.last();
        lemma_after_requests(heap, earlier);
        let before = after_requests(heap, earlier);
        lemma_allocate(before, last.size, last.align);
        let after = after_requests(heap, requests);
        assert forall|at: int|
            0 <= at < requests.len() && (#[trigger] result_of(heap, requests, at)) is Ok implies {
            let addr = result_of(heap, requests, at)->Ok_0;
            &&& after.live.contains_key(addr)
            &&& after.live[addr] == bin_index(requests[at].size as nat)
        } by {
            if at < earlier.len() {
                assert(requests.take(at) =~= earlier.take(at));
                assert(result_of(heap, requests, at) == result_of(heap, earlier, at));
            } else {
                assert(requests.take(at) =~= earlier);
            }
        }
    }
}

/// Live allocations never overlap: of the blocks that a sequence of
/// allocations from a valid heap handed out, each begins at a multiple of
/// the alignment asked for, lies with all the bytes asked for in the arena,
/// and shares no byte with any other of them.
pub proof fn lemma_allocations_apart(heap: Heap, requests: Seq<Request>, first: int, second: int)
    requires
        heap.wf(),
        0 <= first < second < requests.len(),
        result_of(heap, requests, first) is Ok,
        result_of(heap, requests, second) is Ok,
    ensures
        ({
            let a = result_of(heap, requests, first)->Ok_0;
            let b = result_of(heap, requests, second)->Ok_0;
            &&& a as nat % (requests[first].align as nat) == 0
            &&& b as nat % (requests[second].align as nat) == 0
            &&& heap.start <= a && a + requests[first].size <= heap.free_end
            &&& heap.start <= b && b + requests[second].size <= heap.free_end
            &&& a + requests[first].size <= b || b + requests[second].size <= a
        }),
{
    let upto_first = requests.take(first);
    let upto_second = requests.take(second);
    lemma_after_requests(heap, upto_first);
    lemma_after_requests(heap, upto_second);
    let before_first = after_requests(heap, upto_first);
    let before_second = after_requests(heap, upto_second);
    lemma_allocate(before_first, requests[first].size, requests[first].align);
    lemma_allocate(before_second, requests[second].size, requests[second].align);
    assert(upto_second.take(first) =~= upto_first);
    assert(result_of(heap, upto_second, first) == result_of(heap, requests, first));
    let a = result_of(heap, requests, first)->Ok_0;
    assert(before_second.live.contains_key(a));
    crate::allocator::validity::lemma_bin_index_fits(requests[first].size as nat);
}

} // verus!
