//! A singly linked stack of `u32` values.
use vstd::prelude::*;

verus! {

struct Node {
    value: u32,
    next: Option<Box<Node>>,
}

/// The values held by the chain starting at `link`, top first.
closed spec fn chain_view(link: Option<Box<Node>>) -> Seq<u32>
    decreases link,
{
    match link {
        None => Seq::empty(),
        Some(node) => seq![node.value].add(chain_view(node.next)),
    }
}

impl Node {
    fn new(value: u32, next: Option<Box<Node>>) -> (r: Node)
        ensures
            r.value == value,
            r.next == next,
    {
        Node { value: value, next: next }
    }
}

pub struct LinkedList {
    head: Option<Box<Node>>,
    size: usize,
}

impl View for LinkedList {
    type V = Seq<u32>;

    closed spec fn view(&self) -> Seq<u32> {
        chain_view(self.head)
    }
}

impl LinkedList {
    /// The stored size matches the chain.
    pub closed spec fn wf(&self) -> bool {
        self.size == chain_view(self.head).len()
    }

    pub fn new() -> (r: LinkedList)
        ensures
            r.wf(),
            r@ == Seq::<u32>::empty(),
    {
        LinkedList { head: None, size: 0 }
    }

    pub fn get_size(&self) -> (r: usize)
        requires
            self.wf(),
        ensures
            r == self@.len(),
    {
        self.size
    }

    pub fn is_empty(&self) -> (r: bool)
        requires
            self.wf(),
        ensures
            r == (self@.len() == 0),
    {
        self.get_size() == 0
    }

    pub fn push(&mut self, value: u32)
        requires
            old(self).wf(),
            old(self)@.len() < usize::MAX,
        ensures
            final(self).wf(),
            final(self)@ == seq![value].add(old(self)@),
    {
        let new_node = Box::new(Node::new(value, self.head.take()));
        self.head = Some(new_node);
        self.size += 1;
    }

    pub fn pop(&mut self) -> (r: Option<u32>)
        requires
            old(self).wf(),
        ensures
            final(self).wf(),
            old(self)@.len() == 0 ==> r.is_none() && final(self)@ == old(self)@,
            old(self)@.len() > 0 ==> r == Some(old(self)@[0]) && final(self)@ == old(self)@.drop_first(),
    {
        match self.head.take() {
            None => None,
            Some(node) => {
                let node = *node;
                proof {
                    assert(seq![node.value].add(chain_view(node.next)).drop_first() =~= chain_view(node.next));
                }
                self.head = node.next;
                self.size -= 1;
                Some(node.value)
            },
        }
    }

    /// The values from top to bottom.
    pub fn values(&self) -> (r: Vec<u32>)
        ensures
            r@ == self@,
    {
        let mut r: Vec<u32> = Vec::new();
        let mut cur: &Option<Box<Node>> = &self.head;
        while cur.is_some()
            invariant
                r@ + chain_view(*cur) == self@,
            decreases chain_view(*cur).len(),
        {
            match cur {
                Some(node) => {
                    let ghost before = r@;
                    r.push(node.value);
                    assert(r@ + chain_view(node.next) =~= before + seq![node.value].add(chain_view(node.next)));
                    cur = &node.next;
                },
                None => {},
            }
        }
        assert(r@ + chain_view(*cur) =~= r@);
        r
    }
}

} // verus!
