//! The allocator of the whole machine: a slot that holds no allocator
//! until it is initialized.
use vstd::prelude::*;
use crate::allocator::bin::Allocator;
use crate::allocator::model::{AllocErr, Heap};

verus! {

/// The allocator of the whole machine, initialized once, before the first
/// allocation.
pub struct GlobalAllocator(Option<Allocator>);

impl View for GlobalAllocator {
    type V = Option<Heap>;

    closed spec fn view(&self) -> Option<Heap> {
        match self.0 {
            Some(allocator) => Some(allocator@),
            None => None,
        }
    }
}

impl GlobalAllocator {
    /// Whether the allocator was initialized, and its heap is valid.
    pub open spec fn initialized(self) -> bool {
        self@ matches Some(heap) && heap.wf()
    }

    /// Returns an uninitialized allocator.
    pub fn uninitialized() -> (global: GlobalAllocator)
        ensures
            global@ is None,
    {
        GlobalAllocator(None)
    }

    /// Whether the allocator was initialized.
    pub fn is_initialized(&self) -> (r: bool)
        ensures
            r == self@ is Some,
    {
        self.0.is_some()
    }

    /// Initializes the allocator over the arena `[start, end)`.
    pub fn initialize(&mut self, start: usize, end: usize)
        requires
            old(self)@ is None,
            start <= end,
            end - start > 4,
        ensures
            final(self).initialized(),
            final(self)@ == Some(Heap::fresh(start as nat, end as nat)),
    {
        self.0 = Some(Allocator::new(start, end));
    }

    /// Allocates memory. For more details, see the documentation on
    /// `Allocator::allocate()`.
    pub fn allocate(&mut self, size: usize, align: usize) -> (r: Result<usize, AllocErr>)
        requires
            old(self).initialized(),
            size > 0,
        ensures
            final(self).initialized(),
            (final(self)@->Some_0, r) == old(self)@->Some_0.allocate(size, align),
    {
        match &mut self.0 {
            Some(allocator) => allocator.allocate(size, align),
            None => Err(AllocErr::Exhausted { size, align }),
        }
    }

    /// Deallocates the block of `size` bytes at `ptr`. For more details, see
    /// the documentation on `Allocator::dealloc()`.
    pub fn dealloc(&mut self, ptr: usize, size: usize, align: usize)
        requires
            old(self).initialized(),
            old(self)@->Some_0.owes(ptr, size),
        ensures
            final(self).initialized(),
            final(self)@->Some_0 == old(self)@->Some_0.dealloc(ptr, size),
    {
        match &mut self.0 {
            Some(allocator) => allocator.dealloc(ptr, size, align),
            None => {},
        }
    }

    /// The allocator itself, once initialized.
    pub fn get_mut(&mut self) -> (allocator: &mut Allocator)
        requires
            old(self).initialized(),
        ensures
            allocator@ == old(self)@->Some_0,
            final(self)@ == Some(final(allocator)@),
    {
        match &mut self.0 {
            Some(allocator) => allocator,
            None => vstd::pervasive::unreached(),
        }
    }
}

} // verus!
