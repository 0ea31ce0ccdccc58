//! Heap allocation: alignment arithmetic, free lists and the bin allocator.
pub mod alignment;
pub mod bin;
pub mod global;
pub mod laws;
pub mod linked_list;
pub mod model;
pub mod util;
pub mod validity;
