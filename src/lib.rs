//! Core of a small native-process debugger: breakpoint bookkeeping, the
//! byte patching that arms and disarms software traps, breakpoint-spec
//! parsing, the session state machine and the frame-pointer backtrace walk.
//! The operating-system side (spawning, ptrace, waitpid) is left to callers.
//!
//! Beside it stand a few small exercises: vector helpers (`warmup`) and two
//! singly linked lists (`stack_list`, `linked_list`).
pub mod memory;
pub mod registry;
pub mod command;
pub mod session;
pub mod backtrace;
pub mod warmup;
pub mod linked_list;
pub mod stack_list;
