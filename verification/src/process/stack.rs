//! The stack of a process: a block of fixed size from the heap.
use vstd::prelude::*;
use crate::allocator::bin::Allocator;

verus! {

/// The size in bytes of a process stack: 1 MiB.
pub const STACK_SIZE: usize = 0x10_0000;

/// The alignment of a process stack.
pub const STACK_ALIGN: usize = 16;

/// A process stack, owned by one process for its lifetime.
#[derive(Debug)]
pub struct Stack {
    /// The lowest address of the stack.
    base: usize,
}

impl Stack {
    #[verifier::type_invariant]
    spec fn fits(self) -> bool {
        self.base + STACK_SIZE <= usize::MAX
    }

    /// The lowest address of the stack.
    pub closed spec fn base(self) -> usize {
        self.base
    }

    /// Allocates a stack from `allocator`; `None` if the allocator cannot
    /// serve it.
    pub fn new(allocator: &mut Allocator) -> (stack: Option<Stack>)
        requires
            old(allocator)@.wf(),
        ensures
            final(allocator)@ == old(allocator)@.allocate(STACK_SIZE, STACK_ALIGN).0,
            final(allocator)@.wf(),
            match old(allocator)@.allocate(STACK_SIZE, STACK_ALIGN).1 {
                Ok(addr) => stack matches Some(s) && s.base() == addr,
                Err(_) => stack is None,
            },
    {
        match allocator.allocate(STACK_SIZE, STACK_ALIGN) {
            Ok(base) => Some(Stack { base }),
            Err(_) => None,
        }
    }

    /// The address just above the stack, where an empty stack's pointer
    /// stands.
    pub fn top(&self) -> (addr: usize)
        ensures
            addr == self.base() + STACK_SIZE,
    {
        proof {
            use_type_invariant(self);
        }
        self.base + STACK_SIZE
    }

    /// The lowest address of the stack.
    pub fn bottom(&self) -> (addr: usize)
        ensures
            addr == self.base(),
    {
        self.base
    }
}

} // verus!
