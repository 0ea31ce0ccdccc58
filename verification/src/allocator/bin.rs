//! The bin allocator: free lists of power-of-two size classes over a fixed
//! arena, with a wilderness that is carved when no free block serves.
use vstd::prelude::*;
use vstd::arithmetic::power2::{lemma2_to64, lemma_pow2_pos, lemma_pow2_strictly_increases, pow2};
use vstd::bits::{lemma_usize_pow2_no_overflow, lemma_usize_shl_is_mul};
use crate::allocator::linked_list::LinkedList;
use crate::allocator::model::{
    bin_index, bin_size, coalesce, first_adjacent, first_aligned, first_fit, push_front, split,
    take, AllocErr, Heap, Unsupported, BIN_COUNT,
};
use crate::allocator::util::{
    align_up, is_power_of_two, is_power_of_two_spec, lemma_align_up, log2_ceil,
};
use crate::allocator::validity::{
    lemma_allocate, lemma_bin_num, lemma_bin_size, lemma_bin_size_grows, lemma_dealloc,
};

verus! {

/// The size in bytes of the blocks of bin `bin`.
fn calc_bin_size(bin: usize) -> (r: usize)
    requires
        bin + 3 < usize::BITS,
    ensures
        r == bin_size(bin as nat),
{
    proof {
        lemma_usize_pow2_no_overflow((bin + 3) as nat);
        lemma_usize_shl_is_mul(1, (bin + 3) as usize);
    }
    1usize << (bin + 3)
}

/// The position in `list` of the first address that is a multiple of
/// `align`; the length of `list` if there is none.
fn find_aligned(list: &LinkedList, align: usize) -> (r: usize)
    requires
        align > 0,
    ensures
        r == first_aligned(list@, align as nat, 0),
        r <= list@.len(),
{
    let n = list.len();
    let mut k: usize = 0;
    while k < n
        invariant
            k <= n,
            n == list@.len(),
            align > 0,
            first_aligned(list@, align as nat, 0) == first_aligned(list@, align as nat, k as int),
        decreases n - k,
    {
        if list.get(k) % align == 0 {
            return k;
        }
        k += 1;
    }
    k
}

/// The position in `list` of the first block that borders the block of
/// `size` bytes at `addr`; the length of `list` if there is none.
fn find_adjacent(list: &LinkedList, addr: usize, size: usize) -> (r: usize)
    requires
        size > 0,
    ensures
        r == first_adjacent(list@, addr as nat, size as nat, 0),
        r <= list@.len(),
{
    let n = list.len();
    let mut k: usize = 0;
    while k < n
        invariant
            k <= n,
            n == list@.len(),
            size > 0,
            first_adjacent(list@, addr as nat, size as nat, 0) == first_adjacent(
                list@,
                addr as nat,
                size as nat,
                k as int,
            ),
        decreases n - k,
    {
        let other = list.get(k);
        if other > addr && other - addr == size {
            return k;
        } else if other < addr && addr - other == size {
            return k;
        }
        k += 1;
    }
    k
}

/// A simple allocator that allocates based on size classes.
pub struct Allocator {
    /// The free lists; bin `i` holds blocks of `2^(i + 3)` bytes.
    bins: Vec<LinkedList>,
    /// The number of active bins.
    bin_num: usize,
    /// Where the wilderness begins.
    free_start: usize,
    /// Where the arena ends.
    free_end: usize,
    /// Where the arena begins.
    start: Ghost<nat>,
    /// The blocks handed out and not yet given back.
    live: Ghost<Map<usize, nat>>,
}

impl View for Allocator {
    type V = Heap;

    closed spec fn view(&self) -> Heap {
        Heap {
            bins: self.lists(),
            bin_num: self.bin_num as nat,
            start: self.start@,
            free_start: self.free_start as nat,
            free_end: self.free_end as nat,
            live: self.live@,
        }
    }
}

impl Allocator {
    /// The free lists, each from its head on.
    closed spec fn lists(&self) -> Seq<Seq<usize>> {
        Seq::new(self.bins@.len(), |i: int| self.bins@[i]@)
    }

    /// Creates a new bin allocator that will allocate memory from the region
    /// starting at address `start` and ending at address `end`.
    pub fn new(start: usize, end: usize) -> (allocator: Allocator)
        requires
            start <= end,
            end - start > 4,
        ensures
            allocator@ == Heap::fresh(start as nat, end as nat),
            allocator@.wf(),
    {
        let mut bins: Vec<LinkedList> = Vec::new();
        let mut i: usize = 0;
        while i < BIN_COUNT
            invariant
                i <= BIN_COUNT,
                bins@.len() == i,
                forall|j: int| 0 <= j < i ==> (#[trigger] bins@[j])@ == Seq::<usize>::empty(),
            decreases BIN_COUNT - i,
        {
            bins.push(LinkedList::new());
            i += 1;
        }
        let log = log2_ceil(end - start);
        proof {
            lemma2_to64();
            if log < 3 {
                lemma_pow2_strictly_increases(log as nat, 3);
            }
        }
        let allocator = Allocator {
            bins,
            bin_num: log - 1 - 2,
            free_start: start,
            free_end: end,
            start: Ghost(start as nat),
            live: Ghost(Map::empty()),
        };
        proof {
            assert(allocator@.bins =~= Heap::fresh(start as nat, end as nat).bins);
        }
        allocator
    }

    /// The number of active bins.
    pub fn bin_num(&self) -> (r: usize)
        ensures
            r == self@.bin_num,
    {
        self.bin_num
    }

    /// Where the wilderness begins.
    pub fn free_start(&self) -> (r: usize)
        ensures
            r == self@.free_start,
    {
        self.free_start
    }

    /// Where the arena ends.
    pub fn free_end(&self) -> (r: usize)
        ensures
            r == self@.free_end,
    {
        self.free_end
    }

    /// The number of free blocks on the list of bin `bin`.
    pub fn free_chunks(&self, bin: usize) -> (r: usize)
        requires
            bin < self@.bins.len(),
        ensures
            r == self@.bins[bin as int].len(),
    {
        self.bins[bin].len()
    }

    /// The address of the free block `index` places from the head of the
    /// list of bin `bin`.
    pub fn free_chunk(&self, bin: usize, index: usize) -> (r: usize)
        requires
            bin < self@.bins.len(),
            index < self@.bins[bin as int].len(),
        ensures
            r == self@.bins[bin as int][index as int],
    {
        self.bins[bin].get(index)
    }

    /// Carves a block of `len` bytes aligned to `align` from the wilderness.
    fn naive_alloc(&mut self, len: usize, size: usize, align: usize) -> (r: Result<usize, AllocErr>)
        requires
            is_power_of_two_spec(align as nat),
            old(self).free_start <= old(self).free_end,
        ensures
            match old(self)@.bump(len as nat, align as nat) {
                Some((free_start, addr)) => {
                    &&& r == Ok::<usize, AllocErr>(addr)
                    &&& final(self).free_start == free_start
                },
                None => {
                    &&& r == Err::<usize, AllocErr>(AllocErr::Exhausted { size, align })
                    &&& final(self).free_start == old(self).free_start
                },
            },
            final(self).bins == old(self).bins,
            final(self).bin_num == old(self).bin_num,
            final(self).free_end == old(self).free_end,
            final(self).start == old(self).start,
            final(self).live == old(self).live,
    {
        proof {
            let k = choose|k: nat| pow2(k) == align as nat;
            lemma_pow2_pos(k);
            lemma_align_up(self.free_start as nat, align as nat);
        }
        let offset = self.free_start % align;
        if offset != 0 && align - offset > usize::MAX - self.free_start {
            return Err(AllocErr::Exhausted { size, align });
        }
        let aligned_start = align_up(self.free_start, align);
        if aligned_start > self.free_end || self.free_end - aligned_start < len {
            Err(AllocErr::Exhausted { size, align })
        } else {
            self.free_start = aligned_start + len;
            Ok(aligned_start)
        }
    }

    /// Hands back the upper part of the block that lies `bin_size(start_bin)`
    /// below `start`: one fragment to each of the bins `start_bin..orig_bin`.
    fn split_free_memory(&mut self, start: usize, orig_bin: usize, start_bin: usize)
        requires
            start_bin <= orig_bin <= old(self).bins@.len(),
            orig_bin + 3 < usize::BITS,
            start >= bin_size(start_bin as nat),
            start - bin_size(start_bin as nat) + bin_size(orig_bin as nat) <= usize::MAX,
        ensures
            final(self).lists() == split(
                old(self).lists(),
                (start - bin_size(start_bin as nat)) as nat,
                start_bin as nat,
                orig_bin as nat,
            ),
            final(self).bin_num == old(self).bin_num,
            final(self).free_start == old(self).free_start,
            final(self).free_end == old(self).free_end,
            final(self).start == old(self).start,
            final(self).live == old(self).live,
    {
        let ghost addr = (start - bin_size(start_bin as nat)) as nat;
        let mut cur_start = start;
        let mut cur_bin = start_bin;
        while cur_bin < orig_bin
            invariant
                start_bin <= cur_bin <= orig_bin <= self.bins@.len(),
                orig_bin + 3 < usize::BITS,
                self.bins@.len() == old(self).bins@.len(),
                addr + bin_size(orig_bin as nat) <= usize::MAX,
                cur_start == addr + bin_size(cur_bin as nat),
                split(self.lists(), addr, cur_bin as nat, orig_bin as nat) == split(
                    old(self).lists(),
                    addr,
                    start_bin as nat,
                    orig_bin as nat,
                ),
                self.bin_num == old(self).bin_num,
                self.free_start == old(self).free_start,
                self.free_end == old(self).free_end,
                self.start == old(self).start,
                self.live == old(self).live,
            decreases orig_bin - cur_bin,
        {
            let ghost before = self.lists();
            self.bins[cur_bin].push(cur_start);
            proof {
                assert(self.lists() =~= push_front(before, cur_bin as nat, cur_start));
                lemma_bin_size(cur_bin as nat);
                lemma_bin_size_grows((cur_bin + 1) as nat, orig_bin as nat);
            }
            cur_start += calc_bin_size(cur_bin);
            cur_bin += 1;
        }
    }

    /// Hands the block at `chunk` to bin `bin_index`, merging it with a
    /// bordering free block of its size wherever there is one.
    fn coalesce_insert_chunk(&mut self, bin_index: usize, chunk: usize)
        requires
            bin_index < old(self).bin_num <= old(self).bins@.len(),
            old(self).bin_num + 3 <= usize::BITS,
        ensures
            final(self).lists() == coalesce(
                old(self).lists(),
                old(self).bin_num as nat,
                bin_index as nat,
                chunk,
            ),
            final(self).bins@.len() == old(self).bins@.len(),
            final(self).bin_num == old(self).bin_num,
            final(self).free_start == old(self).free_start,
            final(self).free_end == old(self).free_end,
            final(self).start == old(self).start,
            final(self).live == old(self).live,
        decreases old(self).bin_num - bin_index,
    {
        if bin_index < self.bin_num - 1 {
            let size = calc_bin_size(bin_index);
            proof {
                lemma_bin_size(bin_index as nat);
            }
            let k = find_adjacent(&self.bins[bin_index], chunk, size);
            if k < self.bins[bin_index].len() {
                let ghost before = self.lists();
                let other = self.bins[bin_index].remove(k);
                let merged = if other < chunk {
                    other
                } else {
                    chunk
                };
                proof {
                    assert(self.lists() =~= take(before, bin_index as nat, k as int));
                }
                self.coalesce_insert_chunk(bin_index + 1, merged);
                return ;
            }
        }
        let ghost before = self.lists();
        self.bins[bin_index].push(chunk);
        proof {
            assert(self.lists() =~= push_front(before, bin_index as nat, chunk));
        }
    }

    /// Allocates memory: returns the address of a block of at least `size`
    /// bytes whose address is a multiple of `align`.
    ///
    /// Fails with `Unsupported` if `align` is not a power of two or `size`
    /// falls into the largest size class, and with `Exhausted` if no free
    /// block and no part of the wilderness can serve the request.
    pub fn allocate(&mut self, size: usize, align: usize) -> (r: Result<usize, AllocErr>)
        requires
            old(self)@.wf(),
            size > 0,
        ensures
            final(self)@ == old(self)@.allocate(size, align).0,
            r == old(self)@.allocate(size, align).1,
            final(self)@.wf(),
            match r {
                Ok(addr) => {
                    &&& addr as nat % (align as nat) == 0
                    &&& old(self)@.start <= addr
                    &&& addr + size <= final(self)@.free_start <= old(self)@.free_end
                    &&& old(self)@.free_start <= final(self)@.free_start
                    &&& old(self)@.live_clear(addr as int, addr + size)
                    &&& final(self)@.owes(addr, size)
                },
                Err(_) => final(self)@ == old(self)@,
            },
    {
        proof {
            lemma_allocate(self@, size, align);
            lemma_bin_num(self@);
        }
        if !is_power_of_two(align) {
            return Err(AllocErr::Unsupported { details: Unsupported::Alignment });
        }
        let bin = log2_ceil(size).saturating_sub(3);
        if bin > self.bin_num {
            return Err(AllocErr::Exhausted { size, align });
        } else if bin == self.bin_num {
            return Err(AllocErr::Unsupported { details: Unsupported::Size });
        }
        let len = calc_bin_size(bin);
        proof {
            let k = choose|k: nat| pow2(k) == align as nat;
            lemma_pow2_pos(k);
        }
        let mut index = bin;
        while index < self.bin_num
            invariant
                bin <= index <= self.bin_num <= self.bins@.len(),
                self.bin_num + 3 <= usize::BITS,
                size > 0,
                align > 0,
                is_power_of_two_spec(align as nat),
                bin == bin_index(size as nat),
                len == bin_size(bin as nat),
                *self == *old(self),
                self@.wf(),
                first_fit(self.lists(), align as nat, bin as nat, self.bin_num as nat)
                    == first_fit(self.lists(), align as nat, index as nat, self.bin_num as nat),
            decreases self.bin_num - index,
        {
            let k = find_aligned(&self.bins[index], align);
            if k < self.bins[index].len() {
                let ghost before = self.lists();
                let addr = self.bins[index].remove(k);
                proof {
                    assert(self.lists() =~= take(before, index as nat, k as int));
                    lemma_bin_size_grows(bin as nat, index as nat);
                    lemma_allocate(old(self)@, size, align);
                    assert(before[index as int][k as int] + bin_size(index as nat)
                        <= self.free_start);
                }
                if index != bin {
                    self.split_free_memory(addr + len, index, bin);
                }
                proof {
                    self.live@ = self.live@.insert(addr, bin as nat);
                }
                return Ok(addr);
            }
            index += 1;
        }
        proof {
            lemma_allocate(old(self)@, size, align);
        }
        let r = self.naive_alloc(len, size, align);
        proof {
            if let Ok(addr) = r {
                self.live@ = self.live@.insert(addr, bin as nat);
            }
        }
        r
    }

    /// Deallocates the block of `size` bytes at `ptr`, which must be live and
    /// have been allocated with that size.
    pub fn dealloc(&mut self, ptr: usize, size: usize, align: usize)
        requires
            old(self)@.wf(),
            old(self)@.owes(ptr, size),
        ensures
            final(self)@ == old(self)@.dealloc(ptr, size),
            final(self)@.wf(),
    {
        proof {
            lemma_dealloc(self@, ptr, size);
            lemma_bin_num(self@);
        }
        let bin = log2_ceil(size).saturating_sub(3);
        self.coalesce_insert_chunk(bin, ptr);
        proof {
            self.live@ = self.live@.remove(ptr);
        }
    }
}

} // verus!
