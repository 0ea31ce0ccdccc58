//! The free list of one bin: a stack of block addresses, most recently freed
//! first.
use vstd::prelude::*;

verus! {

/// A list of block addresses. `push` puts an address at the head; the list is
/// walked from the head, and a node can be taken out wherever the walk stands.
pub struct LinkedList {
    /// The addresses, the head of the list last.
    nodes: Vec<usize>,
}

impl View for LinkedList {
    type V = Seq<usize>;

    /// The addresses from the head of the list on.
    closed spec fn view(&self) -> Seq<usize> {
        self.nodes@.reverse()
    }
}

impl LinkedList {
    /// An empty list.
    pub fn new() -> (list: LinkedList)
        ensures
            list@ == Seq::<usize>::empty(),
    {
        let list = LinkedList { nodes: Vec::new() };
        assert(list@ =~= Seq::<usize>::empty());
        list
    }

    /// Whether the list holds no address.
    pub fn is_empty(&self) -> (r: bool)
        ensures
            r == (self@.len() == 0),
    {
        self.nodes.len() == 0
    }

    /// The number of addresses in the list.
    pub fn len(&self) -> (r: usize)
        ensures
            r == self@.len(),
    {
        self.nodes.len()
    }

    /// Puts `item` at the head of the list.
    pub fn push(&mut self, item: usize)
        ensures
            final(self)@ == seq![item] + old(self)@,
    {
        self.nodes.push(item);
        assert(self@ =~= seq![item] + old(self)@);
    }

    /// The address at the head of the list, if there is one.
    pub fn peek(&self) -> (r: Option<usize>)
        ensures
            r == if self@.len() == 0 { None } else { Some(self@[0]) },
    {
        let n = self.nodes.len();
        if n == 0 {
            None
        } else {
            Some(self.nodes[n - 1])
        }
    }

    /// Takes the address at the head off the list.
    pub fn pop(&mut self) -> (r: Option<usize>)
        ensures
            r == if old(self)@.len() == 0 { None } else { Some(old(self)@[0]) },
            final(self)@ == if old(self)@.len() == 0 { old(self)@ } else { old(self)@.remove(0) },
    {
        let r = self.nodes.pop();
        assert(self@ =~= if old(self)@.len() == 0 { old(self)@ } else { old(self)@.remove(0) });
        r
    }

    /// The address held by the node `index` steps from the head.
    pub fn get(&self, index: usize) -> (r: usize)
        requires
            index < self@.len(),
        ensures
            r == self@[index as int],
    {
        let n = self.nodes.len();
        self.nodes[n - 1 - index]
    }

    /// Takes the node `index` steps from the head out of the list and returns
    /// its address.
    pub fn remove(&mut self, index: usize) -> (r: usize)
        requires
            index < old(self)@.len(),
        ensures
            r == old(self)@[index as int],
            final(self)@ == old(self)@.remove(index as int),
    {
        let n = self.nodes.len();
        let r = self.nodes.remove(n - 1 - index);
        assert(self@ =~= old(self)@.remove(index as int));
        r
    }
}

} // verus!
