use vstd::prelude::*;

verus! {

/// Address at which programs are loaded, and where execution starts.
pub const PROGRAM_START: u16 = 0x200;

/// The sixteen 8-bit registers V0..VF, the address register I and the
/// program counter.
#[derive(Debug)]
pub struct Chip8Registers {
    pub v: [u8; 16],
    pub i: u16,
    pub pc: u16,
}

impl Chip8Registers {
    /// All registers zero, the program counter at the program start.
    pub fn new() -> (r: Chip8Registers)
        ensures
            forall|k: int| 0 <= k < 16 ==> r.v[k] == 0,
            r.i == 0,
            r.pc == PROGRAM_START,
    {
        Chip8Registers { v: [0; 16], i: 0, pc: PROGRAM_START }
    }

    pub fn get_v_register(&self, reg: usize) -> (r: &u8)
        requires
            reg < 16,
        ensures
            *r == self.v[reg as int],
    {
        &self.v[reg]
    }

    pub fn get_v_register_mut(&mut self, reg: usize) -> (r: &mut u8)
        requires
            reg < 16,
        ensures
            *r == old(self).v[reg as int],
            final(self).v@ == old(self).v@.update(reg as int, *final(r)),
            final(self).i == old(self).i,
            final(self).pc == old(self).pc,
    {
        &mut self.v[reg]
    }

    pub fn get_i_register(&self) -> (r: &u16)
        ensures
            *r == self.i,
    {
        &self.i
    }

    pub fn get_i_register_mut(&mut self) -> (r: &mut u16)
        ensures
            *r == old(self).i,
            final(self).i == *final(r),
            final(self).v == old(self).v,
            final(self).pc == old(self).pc,
    {
        &mut self.i
    }

    pub fn get_pc_register(&self) -> (r: &u16)
        ensures
            *r == self.pc,
    {
        &self.pc
    }

    pub fn get_pc_register_mut(&mut self) -> (r: &mut u16)
        ensures
            *r == old(self).pc,
            final(self).pc == *final(r),
            final(self).v == old(self).v,
            final(self).i == old(self).i,
    {
        &mut self.pc
    }

    /// Sets the program counter to `addr`.
    pub fn jump_to(&mut self, addr: u16)
        ensures
            final(self).pc == addr,
            final(self).v == old(self).v,
            final(self).i == old(self).i,
    {
        self.pc = addr;
    }

    /// Skips the next instruction: the program counter moves on by two.
    pub fn skip_next_instr(&mut self)
        requires
            old(self).pc + 2 <= u16::MAX,
        ensures
            final(self).pc == old(self).pc + 2,
            final(self).v == old(self).v,
            final(self).i == old(self).i,
    {
        self.pc = self.pc + 2;
    }
}

} // verus!
