//! The faults a step or a load can report.
use vstd::prelude::*;

verus! {

/// Why the machine refused to go on.
#[derive(Debug, Clone, Copy, PartialEq, Eq, Structural)]
pub enum Fault {
    /// An access needed memory at `addr`, which lies at or past the end of memory.
    Addressing { addr: usize },
    /// A program image of `len` bytes does not fit between the load address and the end of memory.
    Capacity { len: usize },
    /// A call with all sixteen stack entries in use.
    StackOverflow,
    /// A return with an empty stack.
    StackUnderflow,
    /// A key instruction named key `key`, and only keys `0..16` exist.
    KeyIndex { key: u8 },
    /// The word `op`, fetched from address `pc`, is no instruction.
    UnknownOpcode { op: u16, pc: u16 },
}

} // verus!
