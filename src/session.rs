//! The debugger session as a state machine.
//!
//! The session decides; its caller performs the process operations that a
//! decision asks for (spawn, poke, step, resume, wait, kill) and hands the
//! outcome back. The session owns the breakpoint table and knows whether a
//! traced process is alive.
use vstd::prelude::*;
use crate::registry::{
    BreakPoint,
    BreakpointRegistry,
    index_of,
    requested,
    request_id,
    updated_at,
    armed,
    disarmed,
    table_wf,
};

verus! {

/// Signal number of SIGTRAP on Linux.
pub const SIGTRAP: i32 = 5;

/// Why a wait on the traced process returned.
#[derive(Clone, Copy, PartialEq, Eq, Structural, Debug)]
pub enum Status {
    /// Stopped by the signal, at the instruction pointer.
    Stopped(i32, usize),
    /// Exited normally with the exit code.
    Exited(i32),
    /// Killed by the signal.
    Signaled(i32),
}

/// What `continue` must do first.
#[derive(Clone, Copy, PartialEq, Eq, Structural, Debug)]
pub enum ContinuePlan {
    /// There is no process to continue.
    NoProcess,
    /// The process sits just past the trap at `addr`: put `orig_byte` back,
    /// rewind to `addr`, step one instruction, then re-arm and resume.
    StepOver { addr: usize, orig_byte: u8 },
    /// Resume directly.
    Resume,
}

/// Outcome of a `break` request.
#[derive(Clone, Copy, PartialEq, Eq, Structural, Debug)]
pub struct BreakRequest {
    /// The breakpoint's id, new or existing.
    pub id: usize,
    /// Whether the trap must now be written into the live process.
    pub install: bool,
}

/// All entries of `s` disarmed.
pub open spec fn all_disarmed(s: Seq<BreakPoint>) -> Seq<BreakPoint> {
    Seq::new(s.len(), |i: int| disarmed(s[i]))
}

/// The breakpoint whose trap the process has just hit, if the instruction
/// pointer is `ip`.
pub open spec fn trap_hit(s: Seq<BreakPoint>, ip: usize) -> Option<BreakPoint> {
    if ip >= 1 && index_of(s, (ip - 1) as usize) >= 0 && s[index_of(s, (ip - 1) as usize)].installed {
        Some(s[index_of(s, (ip - 1) as usize)])
    } else {
        None
    }
}

pub open spec fn continue_plan(running: bool, s: Seq<BreakPoint>, ip: usize) -> ContinuePlan {
    if !running {
        ContinuePlan::NoProcess
    } else {
        match trap_hit(s, ip) {
            Some(b) => ContinuePlan::StepOver { addr: b.addr, orig_byte: b.orig_byte },
            None => ContinuePlan::Resume,
        }
    }
}

pub open spec fn is_alive(status: Status) -> bool {
    status is Stopped
}

pub struct Session {
    registry: BreakpointRegistry,
    running: bool,
}

impl Session {
    pub closed spec fn breakpoints(&self) -> Seq<BreakPoint> {
        self.registry@
    }

    pub closed spec fn running(&self) -> bool {
        self.running
    }

    pub closed spec fn wf(&self) -> bool {
        self.registry.wf()
    }

    /// A session with no breakpoints and no process.
    pub fn new() -> (r: Session)
        ensures
            r.wf(),
            !r.running(),
            r.breakpoints() == Seq::<BreakPoint>::empty(),
    {
        Session { registry: BreakpointRegistry::new(), running: false }
    }

    pub fn is_running(&self) -> (r: bool)
        ensures
            r == self.running(),
    {
        self.running
    }

    /// Number of registered breakpoints.
    pub fn breakpoint_count(&self) -> (r: usize)
        ensures
            r == self.breakpoints().len(),
    {
        self.registry.len()
    }

    /// The breakpoint registered at `addr`, if any.
    pub fn breakpoint_at(&self, addr: usize) -> (r: Option<BreakPoint>)
        requires
            self.wf(),
        ensures
            index_of(self.breakpoints(), addr) >= 0 ==> r == Some(
                self.breakpoints()[index_of(self.breakpoints(), addr)],
            ),
            index_of(self.breakpoints(), addr) < 0 ==> r.is_none(),
    {
        self.registry.lookup(addr)
    }

    /// A new process has been spawned: every breakpoint is to be written
    /// into it. Returns their addresses, in order of registration.
    pub fn start(&mut self) -> (r: Vec<usize>)
        requires
            old(self).wf(),
        ensures
            final(self).wf(),
            final(self).running(),
            final(self).breakpoints() == all_disarmed(old(self).breakpoints()),
            r@.len() == old(self).breakpoints().len(),
            forall|i: int| 0 <= i < r@.len() ==> #[trigger] r@[i] == old(self).breakpoints()[i].addr,
    {
        self.registry.disarm_all();
        self.running = true;
        assert(self.registry@ =~= all_disarmed(old(self).registry@));
        self.registry.addresses()
    }

    /// Registers a break at `addr`. The trap is to be written at once when
    /// a process is alive and the breakpoint is not armed in it yet.
    pub fn request_break(&mut self, addr: usize) -> (r: BreakRequest)
        requires
            old(self).wf(),
            old(self).breakpoints().len() < usize::MAX,
        ensures
            final(self).wf(),
            final(self).running() == old(self).running(),
            final(self).breakpoints() == requested(old(self).breakpoints(), addr),
            r.id == request_id(old(self).breakpoints(), addr),
            r.install == (old(self).running() && !final(self).breakpoints()[index_of(
                final(self).breakpoints(),
                addr,
            )].installed),
    {
        let id = self.registry.request_break(addr);
        let b = self.registry.lookup(addr);
        proof {
            crate::registry::lemma_index_of(old(self).registry@, addr);
            crate::registry::lemma_index_of(self.registry@, addr);
            if index_of(old(self).registry@, addr) < 0 {
                crate::registry::lemma_index_unique(self.registry@, addr, old(self).registry@.len() as int);
            }
        }
        let install = match b {
            Some(b) => self.running && !b.installed,
            None => false,
        };
        BreakRequest { id, install }
    }

    /// The trap at `addr` has been written over `orig_byte`.
    pub fn mark_installed(&mut self, addr: usize, orig_byte: u8)
        requires
            old(self).wf(),
        ensures
            final(self).wf(),
            final(self).running() == old(self).running(),
            index_of(old(self).breakpoints(), addr) >= 0 ==> final(self).breakpoints() == updated_at(
                old(self).breakpoints(),
                addr,
                armed(old(self).breakpoints()[index_of(old(self).breakpoints(), addr)], orig_byte),
            ),
            index_of(old(self).breakpoints(), addr) < 0 ==> final(self).breakpoints() == old(
                self,
            ).breakpoints(),
    {
        self.registry.mark_installed(addr, orig_byte);
    }

    /// The trap at `addr` can no longer be relied on to be in place.
    pub fn mark_disarmed(&mut self, addr: usize)
        requires
            old(self).wf(),
        ensures
            final(self).wf(),
            final(self).running() == old(self).running(),
            index_of(old(self).breakpoints(), addr) >= 0 ==> final(self).breakpoints() == updated_at(
                old(self).breakpoints(),
                addr,
                disarmed(old(self).breakpoints()[index_of(old(self).breakpoints(), addr)]),
            ),
            index_of(old(self).breakpoints(), addr) < 0 ==> final(self).breakpoints() == old(
                self,
            ).breakpoints(),
    {
        self.registry.mark_disarmed(addr);
    }

    /// Decides how `continue` starts when the process's instruction pointer
    /// is `ip`. Stopped just past an armed trap, the process must first step
    /// over the instruction the trap replaced, so that the same stop is not
    /// reported again.
    pub fn plan_continue(&self, ip: usize) -> (r: ContinuePlan)
        requires
            self.wf(),
        ensures
            r == continue_plan(self.running(), self.breakpoints(), ip),
    {
        if !self.running {
            return ContinuePlan::NoProcess;
        }
        if ip == 0 {
            return ContinuePlan::Resume;
        }
        match self.registry.lookup(ip - 1) {
            Some(b) => {
                if b.installed {
                    ContinuePlan::StepOver { addr: b.addr, orig_byte: b.orig_byte }
                } else {
                    ContinuePlan::Resume
                }
            },
            None => ContinuePlan::Resume,
        }
    }

    /// Records the outcome of a wait. When the process is gone, no trap is
    /// armed anywhere any more.
    pub fn record_status(&mut self, status: Status)
        requires
            old(self).wf(),
        ensures
            final(self).wf(),
            final(self).running() == (old(self).running() && is_alive(status)),
            is_alive(status) ==> final(self).breakpoints() == old(self).breakpoints(),
            !is_alive(status) ==> final(self).breakpoints() == all_disarmed(old(self).breakpoints()),
    {
        match status {
            Status::Stopped(_, _) => {},
            _ => {
                self.process_gone();
            },
        }
    }

    fn process_gone(&mut self)
        requires
            old(self).wf(),
        ensures
            final(self).wf(),
            !final(self).running(),
            final(self).breakpoints() == all_disarmed(old(self).breakpoints()),
    {
        self.registry.disarm_all();
        self.running = false;
        assert(self.registry@ =~= all_disarmed(old(self).registry@));
    }

    /// Records the outcome of the single step over the trap at `addr`.
    /// Returns true when the step ended in a trace trap: the trap is then to
    /// be written back and the process resumed. Otherwise the trap at `addr`
    /// is no longer armed.
    pub fn finish_step(&mut self, addr: usize, status: Status) -> (r: bool)
        requires
            old(self).wf(),
        ensures
            final(self).wf(),
            r == (status matches Status::Stopped(sig, _) && sig == SIGTRAP),
            final(self).running() == (old(self).running() && is_alive(status)),
            r ==> final(self).breakpoints() == old(self).breakpoints(),
            !r && is_alive(status) ==> final(self).breakpoints() == updated_at(
                old(self).breakpoints(),
                addr,
                disarmed(old(self).breakpoints()[index_of(old(self).breakpoints(), addr)]),
            ),
            !is_alive(status) ==> final(self).breakpoints() == all_disarmed(old(self).breakpoints()),
    {
        match status {
            Status::Stopped(sig, _) => {
                if sig == SIGTRAP {
                    true
                } else {
                    proof {
                        crate::registry::lemma_index_of(self.registry@, addr);
                    }
                    self.registry.mark_disarmed(addr);
                    false
                }
            },
            _ => {
                self.process_gone();
                false
            },
        }
    }

    /// Ends the session. Returns whether a live process must be killed.
    pub fn quit(&mut self) -> (r: bool)
        requires
            old(self).wf(),
        ensures
            final(self).wf(),
            r == old(self).running(),
            !final(self).running(),
            final(self).breakpoints() == all_disarmed(old(self).breakpoints()),
    {
        let r = self.running;
        self.process_gone();
        r
    }
}

/// Stopped just past an armed trap, `continue` never resumes in place: it
/// steps over the replaced instruction at the trap's address first.
pub proof fn lemma_continue_makes_progress(running: bool, s: Seq<BreakPoint>, ip: usize)
    requires
        table_wf(s),
        running,
        ip >= 1,
        index_of(s, (ip - 1) as usize) >= 0,
        s[index_of(s, (ip - 1) as usize)].installed,
    ensures
        continue_plan(running, s, ip) == (ContinuePlan::StepOver {
            addr: (ip - 1) as usize,
            orig_byte: s[index_of(s, (ip - 1) as usize)].orig_byte,
        }),
{
    crate::registry::lemma_index_of(s, (ip - 1) as usize);
}

} // verus!
