//! The mathematical model of the bin allocator: what the free lists and the
//! wilderness hold, and what allocation and deallocation do to them.
use vstd::prelude::*;
use vstd::arithmetic::power2::pow2;
use crate::allocator::util::{align_up_spec, is_power_of_two_spec, log2_ceil_spec, is_log2_ceil};

verus! {

/// The number of free lists that an allocator carries. Bin `i` holds blocks
/// of `2^(i + 3)` bytes, so 61 bins reach blocks of `2^63` bytes.
pub const BIN_COUNT: usize = 61;

/// Why an allocation failed.
#[derive(Debug, Clone, Copy, PartialEq, Eq)]
pub enum AllocErr {
    /// Neither a free block nor the wilderness can serve the request.
    Exhausted { size: usize, align: usize },
    /// The allocator never serves such a request.
    Unsupported { details: Unsupported },
}

/// The requests that the allocator never serves.
#[derive(Debug, Clone, Copy, PartialEq, Eq)]
pub enum Unsupported {
    /// The alignment is not a power of two.
    Alignment,
    /// The request falls into the largest size class, which is reserved.
    Size,
}

/// The size in bytes of the blocks of bin `bin`.
pub open spec fn bin_size(bin: nat) -> nat {
    pow2(bin + 3)
}

/// The bin that serves requests of `size` bytes: the smallest whose blocks
/// hold `size` bytes.
pub open spec fn bin_index(size: nat) -> nat {
    let log = log2_ceil_spec(size);
    if log <= 3 {
        0
    } else {
        (log - 3) as nat
    }
}

/// The position in `list`, at or after `from`, of the first address that is a
/// multiple of `align`; the length of `list` if there is none.
pub open spec fn first_aligned(list: Seq<usize>, align: nat, from: int) -> int
    decreases list.len() - from,
{
    if from < 0 || from >= list.len() {
        list.len() as int
    } else if list[from] as nat % align == 0 {
        from
    } else {
        first_aligned(list, align, from + 1)
    }
}

/// The first free block, going through the bins `from..to` in order and
/// through each list from its head, whose address is a multiple of `align`:
/// its bin and its position in that bin's list.
pub open spec fn first_fit(bins: Seq<Seq<usize>>, align: nat, from: nat, to: nat) -> Option<
    (nat, nat),
>
    decreases to - from,
{
    if from >= to {
        None
    } else {
        let k = first_aligned(bins[from as int], align, 0);
        if k < bins[from as int].len() {
            Some((from, k as nat))
        } else {
            first_fit(bins, align, from + 1, to)
        }
    }
}

/// The position in `list`, at or after `from`, of the first block that
/// borders the block of `size` bytes at `addr` on either side; the length of
/// `list` if there is none.
pub open spec fn first_adjacent(list: Seq<usize>, addr: nat, size: nat, from: int) -> int
    decreases list.len() - from,
{
    if from < 0 || from >= list.len() {
        list.len() as int
    } else if list[from] == addr + size || list[from] + size == addr {
        from
    } else {
        first_adjacent(list, addr, size, from + 1)
    }
}

/// The free lists with `addr` put at the head of the list of `bin`.
pub open spec fn push_front(bins: Seq<Seq<usize>>, bin: nat, addr: usize) -> Seq<Seq<usize>> {
    bins.update(bin as int, seq![addr] + bins[bin as int])
}

/// The free lists without the block at position `k` of the list of `bin`.
pub open spec fn take(bins: Seq<Seq<usize>>, bin: nat, k: int) -> Seq<Seq<usize>> {
    bins.update(bin as int, bins[bin as int].remove(k))
}

/// The free lists after the upper part of a block at `addr` has been handed
/// back: for each bin `k` in `from..to`, the fragment of that bin's size at
/// `addr + bin_size(k)`.
pub open spec fn split(bins: Seq<Seq<usize>>, addr: nat, from: nat, to: nat) -> Seq<Seq<usize>>
    decreases to - from,
{
    if from >= to {
        bins
    } else {
        split(push_front(bins, from, (addr + bin_size(from)) as usize), addr, from + 1, to)
    }
}

/// The bin and the address at which a block handed to bin `bin` comes to
/// rest: merged with the first bordering free block of its size, again and
/// again, up to the last active bin.
pub open spec fn landing(bins: Seq<Seq<usize>>, bin_num: nat, bin: nat, addr: usize) -> (
    nat,
    usize,
)
    decreases bin_num - bin,
{
    if bin + 1 < bin_num {
        let k = first_adjacent(bins[bin as int], addr as nat, bin_size(bin), 0);
        if k < bins[bin as int].len() {
            let other = bins[bin as int][k];
            landing(take(bins, bin, k), bin_num, bin + 1, if other < addr { other } else { addr })
        } else {
            (bin, addr)
        }
    } else {
        (bin, addr)
    }
}

/// The free lists after the block at `addr` has been handed to bin `bin`:
/// every block it was merged with is gone from its list, and the merged block
/// is at the head of the list of the bin where it came to rest.
pub open spec fn coalesce(bins: Seq<Seq<usize>>, bin_num: nat, bin: nat, addr: usize) -> Seq<
    Seq<usize>,
>
    decreases bin_num - bin,
{
    if bin + 1 < bin_num {
        let k = first_adjacent(bins[bin as int], addr as nat, bin_size(bin), 0);
        if k < bins[bin as int].len() {
            let other = bins[bin as int][k];
            coalesce(take(bins, bin, k), bin_num, bin + 1, if other < addr { other } else { addr })
        } else {
            push_front(bins, bin, addr)
        }
    } else {
        push_front(bins, bin, addr)
    }
}

/// Whether the `alen` bytes at `a` and the `blen` bytes at `b` share no byte.
pub open spec fn disjoint(a: int, alen: int, b: int, blen: int) -> bool {
    a + alen <= b || b + blen <= a
}

/// No free block reaches into `[lo, hi)`.
pub open spec fn free_clear(bins: Seq<Seq<usize>>, lo: int, hi: int) -> bool {
    forall|i: int, k: int|
        #![trigger bins[i][k]]
        0 <= i < bins.len() && 0 <= k < bins[i].len() ==> bins[i][k] + bin_size(i as nat) <= lo
            || hi <= bins[i][k]
}

/// No two free blocks share a byte.
pub open spec fn free_disjoint(bins: Seq<Seq<usize>>) -> bool {
    forall|i: int, k: int, j: int, l: int|
        #![trigger bins[i][k], bins[j][l]]
        0 <= i < bins.len() && 0 <= k < bins[i].len() && 0 <= j < bins.len() && 0 <= l
            < bins[j].len() && (i != j || k != l) ==> disjoint(
            bins[i][k] as int,
            bin_size(i as nat) as int,
            bins[j][l] as int,
            bin_size(j as nat) as int,
        )
}

/// Every free block lies in `[lo, hi)`.
pub open spec fn free_within(bins: Seq<Seq<usize>>, lo: int, hi: int) -> bool {
    forall|i: int, k: int|
        #![trigger bins[i][k]]
        0 <= i < bins.len() && 0 <= k < bins[i].len() ==> lo <= bins[i][k] && bins[i][k]
            + bin_size(i as nat) <= hi
}

/// Only the first `bin_num` bins hold free blocks.
pub open spec fn free_active(bins: Seq<Seq<usize>>, bin_num: nat) -> bool {
    forall|i: int| #![trigger bins[i]] bin_num <= i < bins.len() ==> bins[i].len() == 0
}

/// The state of a bin allocator.
pub struct Heap {
    /// The free lists, one per bin, each from its head on.
    pub bins: Seq<Seq<usize>>,
    /// The number of active bins.
    pub bin_num: nat,
    /// Where the arena begins.
    pub start: nat,
    /// Where the wilderness, the part never handed out yet, begins.
    pub free_start: nat,
    /// Where the arena and the wilderness end.
    pub free_end: nat,
    /// The blocks handed out and not yet given back: address and bin.
    pub live: Map<usize, nat>,
}

impl Heap {
    /// The heap over the arena `[start, end)` of which nothing has been
    /// handed out.
    pub open spec fn fresh(start: nat, end: nat) -> Heap {
        Heap {
            bins: Seq::new(BIN_COUNT as nat, |i: int| Seq::<usize>::empty()),
            bin_num: (log2_ceil_spec((end - start) as nat) - 3) as nat,
            start,
            free_start: start,
            free_end: end,
            live: Map::empty(),
        }
    }

    /// No live block reaches into `[lo, hi)`.
    pub open spec fn live_clear(self, lo: int, hi: int) -> bool {
        forall|a: usize|
            #![trigger self.live.contains_key(a)]
            self.live.contains_key(a) ==> a + bin_size(self.live[a]) <= lo || hi <= a
    }

    /// The validity of the state: the blocks on the free lists and the live
    /// blocks lie between the start of the arena and the wilderness, each in
    /// an active bin, and no two of them share a byte.
    pub open spec fn wf(self) -> bool {
        &&& self.bins.len() == BIN_COUNT
        &&& is_log2_ceil((self.free_end - self.start) as nat, self.bin_num + 3)
        &&& self.start <= self.free_start <= self.free_end <= usize::MAX
        &&& free_active(self.bins, self.bin_num)
        &&& free_within(self.bins, self.start as int, self.free_start as int)
        &&& free_disjoint(self.bins)
        &&& forall|a: usize|
            #![trigger self.live.contains_key(a)]
            self.live.contains_key(a) ==> {
                &&& self.live[a] < self.bin_num
                &&& self.start <= a
                &&& a + bin_size(self.live[a]) <= self.free_start
                &&& free_clear(self.bins, a as int, a + bin_size(self.live[a]))
            }
        &&& forall|a: usize, b: usize|
            #![trigger self.live.contains_key(a), self.live.contains_key(b)]
            self.live.contains_key(a) && self.live.contains_key(b) && a != b ==> disjoint(
                a as int,
                bin_size(self.live[a]) as int,
                b as int,
                bin_size(self.live[b]) as int,
            )
    }

    /// The wilderness after a block of `len` bytes aligned to `align` has
    /// been carved from it, and the address of the block; `None` if the
    /// wilderness has no room for the block.
    pub open spec fn bump(self, len: nat, align: nat) -> Option<(nat, usize)> {
        let aligned = align_up_spec(self.free_start, align);
        if aligned + len > self.free_end {
            None
        } else {
            Some((aligned + len, aligned as usize))
        }
    }

    /// What an allocation of `size` bytes aligned to `align` returns, and the
    /// state it leaves.
    pub open spec fn allocate(self, size: usize, align: usize) -> (Heap, Result<usize, AllocErr>) {
        let bin = bin_index(size as nat);
        if !is_power_of_two_spec(align as nat) {
            (self, Err(AllocErr::Unsupported { details: Unsupported::Alignment }))
        } else if bin > self.bin_num {
            (self, Err(AllocErr::Exhausted { size, align }))
        } else if bin == self.bin_num {
            (self, Err(AllocErr::Unsupported { details: Unsupported::Size }))
        } else {
            match first_fit(self.bins, align as nat, bin, self.bin_num) {
                Some((found, k)) => {
                    let addr = self.bins[found as int][k as int];
                    (
                        Heap {
                            bins: split(take(self.bins, found, k as int), addr as nat, bin, found),
                            live: self.live.insert(addr, bin),
                            ..self
                        },
                        Ok(addr),
                    )
                },
                None => match self.bump(bin_size(bin), align as nat) {
                    Some((free_start, addr)) => (
                        Heap { free_start, live: self.live.insert(addr, bin), ..self },
                        Ok(addr),
                    ),
                    None => (self, Err(AllocErr::Exhausted { size, align })),
                },
            }
        }
    }

    /// Whether the block at `addr` may be given back with size `size`: it is
    /// live, and `size` belongs to the bin it was taken from.
    pub open spec fn owes(self, addr: usize, size: usize) -> bool {
        &&& size > 0
        &&& self.live.contains_key(addr)
        &&& self.live[addr] == bin_index(size as nat)
    }

    /// The state after the block of `size` bytes at `addr` has been given
    /// back.
    pub open spec fn dealloc(self, addr: usize, size: usize) -> Heap {
        Heap {
            bins: coalesce(self.bins, self.bin_num, bin_index(size as nat), addr),
            live: self.live.remove(addr),
            ..self
        }
    }
}

} // verus!
