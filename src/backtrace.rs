//! One step of the frame-pointer stack walk.
//!
//! Each frame is named by the symbol resolver. The walk ends at the
//! program's entry function; otherwise the saved return address sits one
//! word above the frame base and the caller's frame base at the frame base.
use vstd::prelude::*;
use crate::memory::WORD_SIZE;

verus! {

/// Registers that locate a stack frame.
#[derive(Clone, Copy, PartialEq, Eq, Structural, Debug)]
pub struct Frame {
    /// Instruction pointer inside the frame's function.
    pub ip: usize,
    /// Frame base pointer.
    pub base: usize,
}

/// What to do after a frame has been resolved.
#[derive(Clone, Copy, PartialEq, Eq, Structural, Debug)]
pub enum FrameStep {
    /// Report the frame; it is the outermost one.
    Outermost,
    /// Report the frame, then read the caller's instruction pointer at
    /// `return_addr_at` and the caller's frame base at `caller_base_at`.
    Next { return_addr_at: usize, caller_base_at: usize },
    /// The frame's function or line is unknown: the walk fails here.
    Unresolved,
    /// The frame base is so high that the return address slot is past the
    /// end of the address space: the walk fails here.
    BadFrame,
}

/// Name of the outermost function of a program.
pub open spec fn entry_function() -> Seq<char> {
    seq!['m', 'a', 'i', 'n']
}

/// Whether `name` is the program's entry function.
pub fn is_entry_function(name: &str) -> (r: bool)
    ensures
        r == (name@ == entry_function()),
{
    let expected = ['m', 'a', 'i', 'n'];
    if name.unicode_len() != 4 {
        return false;
    }
    let mut i: usize = 0;
    while i < 4
        invariant
            i <= 4,
            name@.len() == 4,
            expected@ == entry_function(),
            forall|j: int| 0 <= j < i ==> name@[j] == entry_function()[j],
        decreases 4 - i,
    {
        if name.get_char(i) != expected[i] {
            return false;
        }
        i += 1;
    }
    assert(name@ =~= entry_function());
    true
}

pub open spec fn frame_step_spec(frame: Frame, function: Option<Seq<char>>, line: Option<usize>) -> FrameStep {
    if function is None || line is None {
        FrameStep::Unresolved
    } else if function.unwrap() == entry_function() {
        FrameStep::Outermost
    } else if frame.base + WORD_SIZE > usize::MAX {
        FrameStep::BadFrame
    } else {
        FrameStep::Next { return_addr_at: (frame.base + WORD_SIZE) as usize, caller_base_at: frame.base }
    }
}

/// Decides the walk's next move from what the resolver said of `frame.ip`.
pub fn frame_step(frame: Frame, function: Option<&str>, line: Option<usize>) -> (r: FrameStep)
    ensures
        r == frame_step_spec(
            frame,
            match function {
                Some(f) => Some(f@),
                None => None,
            },
            line,
        ),
{
    match (function, line) {
        (Some(f), Some(_)) => {
            if is_entry_function(f) {
                FrameStep::Outermost
            } else {
                match frame.base.checked_add(WORD_SIZE) {
                    Some(ret_at) => FrameStep::Next { return_addr_at: ret_at, caller_base_at: frame.base },
                    None => FrameStep::BadFrame,
                }
            }
        },
        _ => FrameStep::Unresolved,
    }
}

} // verus!
