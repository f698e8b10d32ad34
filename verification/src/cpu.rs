use vstd::prelude::*;
use crate::memory::PROGRAM_START;
use crate::stack::Stack;

verus! {

/// The processor: sixteen 8-bit registers V0 to VF, the program counter,
/// the address register I and the call stack.
#[derive(Debug)]
pub struct Cpu {
    pub registers: [u8; 16],
    pub pc: u16,
    pub i: u16,
    pub stack: Stack,
}

impl Cpu {
    /// Registers and I zero, the program counter at `PROGRAM_START`, the
    /// stack empty.
    pub fn new() -> (c: Self)
        ensures
            forall|r: int| 0 <= r < 16 ==> #[trigger] c.registers@[r] == 0u8,
            c.pc == PROGRAM_START,
            c.i == 0,
            c.stack.wf(),
            c.stack@ == Seq::<u16>::empty(),
            forall|k: int| 0 <= k < 16 ==> #[trigger] c.stack.values@[k] == 0u16,
    {
        Cpu { registers: [0u8; 16], pc: 0x200, i: 0, stack: Stack::new() }
    }
}

impl Default for Cpu {
    fn default() -> (c: Self)
        ensures
            forall|r: int| 0 <= r < 16 ==> #[trigger] c.registers@[r] == 0u8,
            c.pc == PROGRAM_START,
            c.i == 0,
            c.stack.wf(),
            c.stack@ == Seq::<u16>::empty(),
            forall|k: int| 0 <= k < 16 ==> #[trigger] c.stack.values@[k] == 0u16,
    {
        Cpu::new()
    }
}

} // verus!
