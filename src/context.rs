//! The captured register state and stack memory a walk starts from.
use vstd::prelude::*;

verus! {

/// The register snapshot of the crashed thread.
#[derive(Debug, Clone, Copy, PartialEq, Eq, Structural)]
pub struct MinidumpContext {
    pub frame_pointer: u64,
    pub stack_pointer: u64,
    pub instruction_pointer: u64,
    pub is_64bit: bool,
}

impl MinidumpContext {
    pub fn new(frame_pointer: u64, stack_pointer: u64, instruction_pointer: u64, is_64bit: bool) -> (r: Self)
        ensures
            r == (MinidumpContext { frame_pointer, stack_pointer, instruction_pointer, is_64bit }),
    {
        MinidumpContext { frame_pointer, stack_pointer, instruction_pointer, is_64bit }
    }

    pub fn get_frame_pointer(&self) -> (r: u64)
        ensures
            r == self.frame_pointer,
    {
        self.frame_pointer
    }

    pub fn get_stack_pointer(&self) -> (r: u64)
        ensures
            r == self.stack_pointer,
    {
        self.stack_pointer
    }

    pub fn get_instruction_pointer(&self) -> (r: u64)
        ensures
            r == self.instruction_pointer,
    {
        self.instruction_pointer
    }

    pub fn is_64bit(&self) -> (r: bool)
        ensures
            r == self.is_64bit,
    {
        self.is_64bit
    }
}

/// A contiguous captured range of stack memory starting at `base_address`.
#[derive(Debug, Clone)]
pub struct MinidumpMemory {
    pub base_address: u64,
    pub size: u64,
    pub bytes: Vec<u8>,
}

impl MinidumpMemory {
    /// The buffer holds exactly `size` bytes and the range ends within the address space.
    pub open spec fn wf(&self) -> bool {
        &&& self.bytes@.len() == self.size
        &&& self.base_address + self.size <= u64::MAX
    }

    /// The address one past the captured range.
    pub open spec fn top(&self) -> int {
        self.base_address + self.size
    }

    /// The memory captured at `base_address`, or `None` when the range would pass
    /// the end of the address space.
    pub fn new(base_address: u64, bytes: Vec<u8>) -> (r: Option<Self>)
        ensures
            r is Some <==> base_address + bytes@.len() <= u64::MAX,
            r matches Some(m) ==> m.wf() && m.base_address == base_address && m.bytes@ == bytes@,
    {
        let len = bytes.len() as u64;
        if len > u64::MAX - base_address {
            None
        } else {
            Some(MinidumpMemory { base_address, size: len, bytes })
        }
    }
}

} // verus!
