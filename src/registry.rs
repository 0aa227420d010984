//! The breakpoint table: one record per address, with ids handed out in
//! order of registration starting at 1. It outlives any traced process and
//! is re-armed into each new one.
use vstd::prelude::*;

verus! {

/// A user breakpoint. `orig_byte` is meaningful only while `installed`.
#[derive(Clone, Copy, PartialEq, Eq, Structural, Debug)]
pub struct BreakPoint {
    pub id: usize,
    pub addr: usize,
    pub orig_byte: u8,
    pub installed: bool,
}

impl BreakPoint {
    /// A breakpoint not yet written into any process.
    pub fn new(id: usize, addr: usize) -> (r: BreakPoint)
        ensures
            r == fresh(id, addr),
    {
        BreakPoint { id, addr, orig_byte: 0, installed: false }
    }

    pub fn addr(&self) -> (r: usize)
        ensures
            r == self.addr,
    {
        self.addr
    }

    pub fn id(&self) -> (r: usize)
        ensures
            r == self.id,
    {
        self.id
    }

    /// Records the byte that the trap replaced; the breakpoint is now armed.
    pub fn set_byte(&mut self, orig_byte: u8)
        ensures
            *final(self) == armed(*old(self), orig_byte),
    {
        self.orig_byte = orig_byte;
        self.installed = true;
    }
}

pub open spec fn fresh(id: usize, addr: usize) -> BreakPoint {
    BreakPoint { id, addr, orig_byte: 0, installed: false }
}

pub open spec fn armed(b: BreakPoint, orig_byte: u8) -> BreakPoint {
    BreakPoint { orig_byte, installed: true, ..b }
}

pub open spec fn disarmed(b: BreakPoint) -> BreakPoint {
    BreakPoint { installed: false, ..b }
}

/// Index of the entry for `addr`, or -1 when there is none.
pub open spec fn index_of(s: Seq<BreakPoint>, addr: usize) -> int
    decreases s.len(),
{
    if s.len() == 0 {
        -1
    } else if s.last().addr == addr {
        s.len() - 1
    } else {
        index_of(s.drop_last(), addr)
    }
}

/// Ids run 1, 2, 3, ... in order and no address appears twice.
pub open spec fn table_wf(s: Seq<BreakPoint>) -> bool {
    &&& forall|i: int| 0 <= i < s.len() ==> #[trigger] s[i].id == i + 1
    &&& forall|i: int, j: int|
        0 <= i < s.len() && 0 <= j < s.len() && i != j ==> #[trigger] s[i].addr != #[trigger] s[j].addr
}

/// The table after a break is requested at `addr`.
pub open spec fn requested(s: Seq<BreakPoint>, addr: usize) -> Seq<BreakPoint> {
    if index_of(s, addr) >= 0 {
        s
    } else {
        s.push(fresh((s.len() + 1) as usize, addr))
    }
}

/// The id reported for a break requested at `addr`.
pub open spec fn request_id(s: Seq<BreakPoint>, addr: usize) -> int {
    let i = index_of(s, addr);
    if i >= 0 {
        s[i].id as int
    } else {
        s.len() + 1int
    }
}

/// The table after the entry for `addr`, if any, is replaced by `b`.
pub open spec fn updated_at(
    s: Seq<BreakPoint>,
    addr: usize,
    b: BreakPoint,
) -> Seq<BreakPoint> {
    let i = index_of(s, addr);
    if i >= 0 {
        s.update(i, b)
    } else {
        s
    }
}

pub proof fn lemma_index_of(s: Seq<BreakPoint>, addr: usize)
    ensures
        -1 <= index_of(s, addr) < s.len(),
        index_of(s, addr) >= 0 ==> s[index_of(s, addr)].addr == addr,
        index_of(s, addr) < 0 ==> forall|i: int| 0 <= i < s.len() ==> s[i].addr != addr,
    decreases s.len(),
{
    if s.len() > 0 {
        lemma_index_of(s.drop_last(), addr);
        if s.last().addr != addr && index_of(s, addr) < 0 {
            assert forall|i: int| 0 <= i < s.len() implies s[i].addr != addr by {
                if i < s.len() - 1 {
                    assert(s[i] == s.drop_last()[i]);
                }
            }
        }
    }
}

/// In a well-formed table the entry for `addr` is the unique one holding it.
pub proof fn lemma_index_unique(s: Seq<BreakPoint>, addr: usize, i: int)
    requires
        table_wf(s),
        0 <= i < s.len(),
        s[i].addr == addr,
    ensures
        index_of(s, addr) == i,
{
    lemma_index_of(s, addr);
    let k = index_of(s, addr);
    if k != i {
        assert(s[k].addr != s[i].addr);
    }
}

/// Requesting a break at an address twice gives the same id both times and
/// leaves the table as the first request left it.
pub proof fn lemma_request_twice(s: Seq<BreakPoint>, addr: usize)
    requires
        table_wf(s),
        s.len() < usize::MAX,
    ensures
        requested(requested(s, addr), addr) == requested(s, addr),
        request_id(requested(s, addr), addr) == request_id(s, addr),
        requested(requested(s, addr), addr).len() == requested(s, addr).len(),
{
    let t = requested(s, addr);
    if index_of(s, addr) < 0 {
        assert(t.drop_last() == s);
        assert(index_of(t, addr) == s.len());
    }
}

/// The breakpoint table.
pub struct BreakpointRegistry {
    entries: Vec<BreakPoint>,
}

impl View for BreakpointRegistry {
    type V = Seq<BreakPoint>;

    closed spec fn view(&self) -> Seq<BreakPoint> {
        self.entries@
    }
}

impl BreakpointRegistry {
    pub open spec fn wf(&self) -> bool {
        table_wf(self@)
    }

    pub fn new() -> (r: BreakpointRegistry)
        ensures
            r.wf(),
            r@ == Seq::<BreakPoint>::empty(),
    {
        BreakpointRegistry { entries: Vec::new() }
    }

    pub fn len(&self) -> (r: usize)
        ensures
            r == self@.len(),
    {
        self.entries.len()
    }

    /// Position of the entry for `addr`.
    fn find(&self, addr: usize) -> (r: Option<usize>)
        requires
            self.wf(),
        ensures
            match r {
                Some(i) => i < self@.len() && i as int == index_of(self@, addr),
                None => index_of(self@, addr) < 0,
            },
    {
        proof {
            lemma_index_of(self@, addr);
        }
        let mut i: usize = 0;
        while i < self.entries.len()
            invariant
                self.wf(),
                i <= self@.len(),
                forall|j: int| 0 <= j < i ==> self@[j].addr != addr,
            decreases self@.len() - i,
        {
            if self.entries[i].addr == addr {
                proof {
                    lemma_index_unique(self@, addr, i as int);
                }
                return Some(i);
            }
            i += 1;
        }
        None
    }

    /// The breakpoint registered at `addr`, if any.
    pub fn lookup(&self, addr: usize) -> (r: Option<BreakPoint>)
        requires
            self.wf(),
        ensures
            index_of(self@, addr) >= 0 ==> r == Some(self@[index_of(self@, addr)]),
            index_of(self@, addr) < 0 ==> r.is_none(),
    {
        match self.find(addr) {
            Some(i) => Some(self.entries[i]),
            None => None,
        }
    }

    /// Registers a break at `addr` unless one is there already; returns its id.
    pub fn request_break(&mut self, addr: usize) -> (id: usize)
        requires
            old(self).wf(),
            old(self)@.len() < usize::MAX,
        ensures
            final(self).wf(),
            final(self)@ == requested(old(self)@, addr),
            id == request_id(old(self)@, addr),
    {
        match self.find(addr) {
            Some(i) => self.entries[i].id,
            None => {
                let id = self.entries.len() + 1;
                self.entries.push(BreakPoint::new(id, addr));
                proof {
                    lemma_index_of(old(self)@, addr);
                }
                id
            },
        }
    }

    /// Records that the trap at `addr` is armed over `orig_byte`.
    pub fn mark_installed(&mut self, addr: usize, orig_byte: u8)
        requires
            old(self).wf(),
        ensures
            final(self).wf(),
            index_of(old(self)@, addr) >= 0 ==> final(self)@ == updated_at(
                old(self)@,
                addr,
                armed(old(self)@[index_of(old(self)@, addr)], orig_byte),
            ),
            index_of(old(self)@, addr) < 0 ==> final(self)@ == old(self)@,
    {
        match self.find(addr) {
            Some(i) => {
                let mut b = self.entries[i];
                b.set_byte(orig_byte);
                self.entries.set(i, b);
            },
            None => {},
        }
    }

    /// Records that the trap at `addr` can no longer be relied on.
    pub fn mark_disarmed(&mut self, addr: usize)
        requires
            old(self).wf(),
        ensures
            final(self).wf(),
            index_of(old(self)@, addr) >= 0 ==> final(self)@ == updated_at(
                old(self)@,
                addr,
                disarmed(old(self)@[index_of(old(self)@, addr)]),
            ),
            index_of(old(self)@, addr) < 0 ==> final(self)@ == old(self)@,
    {
        match self.find(addr) {
            Some(i) => {
                let mut b = self.entries[i];
                b.installed = false;
                self.entries.set(i, b);
            },
            None => {},
        }
    }

    /// Marks every entry as not written into any process.
    pub fn disarm_all(&mut self)
        requires
            old(self).wf(),
        ensures
            final(self).wf(),
            final(self)@.len() == old(self)@.len(),
            forall|i: int| 0 <= i < old(self)@.len() ==> #[trigger] final(self)@[i] == disarmed(old(self)@[i]),
    {
        let mut i: usize = 0;
        while i < self.entries.len()
            invariant
                i <= self@.len(),
                self@.len() == old(self)@.len(),
                forall|j: int| 0 <= j < i ==> #[trigger] self@[j] == disarmed(old(self)@[j]),
                forall|j: int| i <= j < self@.len() ==> #[trigger] self@[j] == old(self)@[j],
            decreases self@.len() - i,
        {
            let mut b = self.entries[i];
            b.installed = false;
            self.entries.set(i, b);
            i += 1;
        }
        assert(table_wf(self@)) by {
            assert forall|i: int, j: int|
                0 <= i < self@.len() && 0 <= j < self@.len() && i != j implies #[trigger] self@[i].addr
                != #[trigger] self@[j].addr by {
                assert(old(self)@[i].addr != old(self)@[j].addr);
            }
        }
    }

    /// Every registered address, in order of registration.
    pub fn addresses(&self) -> (r: Vec<usize>)
        ensures
            r@.len() == self@.len(),
            forall|i: int| 0 <= i < self@.len() ==> #[trigger] r@[i] == self@[i].addr,
    {
        let mut r: Vec<usize> = Vec::new();
        let mut i: usize = 0;
        while i < self.entries.len()
            invariant
                i <= self@.len(),
                r@.len() == i,
                forall|j: int| 0 <= j < i ==> #[trigger] r@[j] == self@[j].addr,
            decreases self@.len() - i,
        {
            r.push(self.entries[i].addr);
            i += 1;
        }
        r
    }
}

} // verus!
