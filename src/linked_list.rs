//! A generic singly linked list used as a stack at its front.
use vstd::prelude::*;

verus! {

pub struct Node<T> {
    value: T,
    next: Option<Box<Node<T>>>,
}

/// The values held by the chain starting at `link`, front first.
pub closed spec fn chain_view<T>(link: Option<Box<Node<T>>>) -> Seq<T>
    decreases link,
{
    match link {
        None => Seq::empty(),
        Some(node) => seq![node.value].add(chain_view(node.next)),
    }
}

impl<T> Node<T> {
    pub closed spec fn value_of(&self) -> T {
        self.value
    }

    pub closed spec fn next_of(&self) -> Option<Box<Node<T>>> {
        self.next
    }

    pub fn new(value: T, next: Option<Box<Node<T>>>) -> (r: Node<T>)
        ensures
            r.value_of() == value,
            r.next_of() == next,
    {
        Node { value: value, next: next }
    }
}

pub struct LinkedList<T> {
    head: Option<Box<Node<T>>>,
    size: usize,
}

impl<T> View for LinkedList<T> {
    type V = Seq<T>;

    closed spec fn view(&self) -> Seq<T> {
        chain_view(self.head)
    }
}

impl<T> LinkedList<T> {
    /// The stored size matches the chain.
    pub closed spec fn wf(&self) -> bool {
        self.size == chain_view(self.head).len()
    }

    pub fn new() -> (r: LinkedList<T>)
        ensures
            r.wf(),
            r@ == Seq::<T>::empty(),
    {
        LinkedList { head: None, size: 0 }
    }

    pub fn get_size(&self) -> (r: usize)
        requires
            self.wf(),
        ensures
            r == self@.len(),
    {
        self.size
    }

    pub fn is_empty(&self) -> (r: bool)
        requires
            self.wf(),
        ensures
            r == (self@.len() == 0),
    {
        self.get_size() == 0
    }

    pub fn push_front(&mut self, value: T)
        requires
            old(self).wf(),
            old(self)@.len() < usize::MAX,
        ensures
            final(self).wf(),
            final(self)@ == seq![value].add(old(self)@),
    {
        let new_node: Box<Node<T>> = Box::new(Node::new(value, self.head.take()));
        self.head = Some(new_node);
        self.size += 1;
    }

    pub fn pop_front(&mut self) -> (r: Option<T>)
        requires
            old(self).wf(),
        ensures
            final(self).wf(),
            old(self)@.len() == 0 ==> r.is_none() && final(self)@ == old(self)@,
            old(self)@.len() > 0 ==> r == Some(old(self)@[0]) && final(self)@ == old(self)@.drop_first(),
    {
        match self.head.take() {
            None => None,
            Some(node) => {
                let node = *node;
                proof {
                    assert(chain_view(old(self).head) == seq![node.value].add(chain_view(node.next)));
                    assert(seq![node.value].add(chain_view(node.next)).drop_first() =~= chain_view(node.next));
                }
                self.head = node.next;
                self.size -= 1;
                Some(node.value)
            },
        }
    }

    /// A cursor over the values, front first.
    pub fn iter(&self) -> (r: LinkedListIter<'_, T>)
        ensures
            r@ == self@,
    {
        LinkedListIter { current: &self.head }
    }
}

/// A cursor over a list's values.
pub struct LinkedListIter<'a, T> {
    current: &'a Option<Box<Node<T>>>,
}

impl<'a, T> View for LinkedListIter<'a, T> {
    type V = Seq<T>;

    /// The values not yet handed out.
    closed spec fn view(&self) -> Seq<T> {
        chain_view(*self.current)
    }
}

impl<'a, T> LinkedListIter<'a, T> {
    /// The next value, if any.
    pub fn next(&mut self) -> (r: Option<&'a T>)
        ensures
            old(self)@.len() == 0 ==> r.is_none() && final(self)@ == old(self)@,
            old(self)@.len() > 0 ==> r == Some(&old(self)@[0]) && final(self)@ == old(self)@.drop_first(),
    {
        match self.current {
            Some(node) => {
                proof {
                    assert(seq![node.value].add(chain_view(node.next)).drop_first() =~= chain_view(node.next));
                }
                self.current = &node.next;
                Some(&node.value)
            },
            None => None,
        }
    }
}

} // verus!
