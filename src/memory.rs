use vstd::prelude::*;

verus! {

/// Number of addressable bytes.
pub const MEMORY_SIZE: usize = 4096;

/// Address at which programs are loaded.
pub const PROGRAM_ADDR: usize = 0x200;

/// Most 16-bit words a program can have: it must fit between the program
/// address and the end of memory.
pub const MAX_PROGRAM_WORDS: usize = 1792;

/// Number of bytes in the built-in font: sixteen glyphs of five bytes.
pub const FONT_SIZE: usize = 80;

/// Initial stack pointer: the stack grows downward from here, and the
/// pointer names the next free byte.
pub const STACK_TOP: u16 = 0x0EFF;

/// Lowest address that the stack may occupy (the region 0xEA0..=0xEFF).
pub const STACK_LIMIT: u16 = 0x0EA0;

/// The glyphs of the hexadecimal digits 0..F, five rows each, MSB-first.
pub open spec fn font_table() -> Seq<u8> {
    seq![
        0xF0, 0x90, 0x90, 0x90, 0xF0, 0x20, 0x60, 0x20, 0x20, 0x70,
        0xF0, 0x10, 0xF0, 0x80, 0xF0, 0xF0, 0x10, 0xF0, 0x10, 0xF0,
        0x90, 0x90, 0xF0, 0x10, 0x10, 0xF0, 0x80, 0xF0, 0x10, 0xF0,
        0xF0, 0x80, 0xF0, 0x90, 0xF0, 0xF0, 0x10, 0x20, 0x40, 0x40,
        0xF0, 0x90, 0xF0, 0x90, 0xF0, 0xF0, 0x90, 0xF0, 0x10, 0xF0,
        0xF0, 0x90, 0xF0, 0x90, 0x90, 0xE0, 0x90, 0xE0, 0x90, 0xE0,
        0xF0, 0x80, 0x80, 0x80, 0xF0, 0xE0, 0x90, 0x90, 0x90, 0xE0,
        0xF0, 0x80, 0xF0, 0x80, 0xF0, 0xF0, 0x80, 0xF0, 0x80, 0x80,
    ]
}

/// The byte at offset `off` of a program stored as big-endian words.
pub open spec fn program_byte(program: Seq<u16>, off: int) -> u8 {
    if off % 2 == 0 {
        (program[off / 2] / 256) as u8
    } else {
        (program[off / 2] % 256) as u8
    }
}

/// Memory after `program` is stored, word by word and high byte first,
/// from the program address on.
pub open spec fn with_program(bytes: Seq<u8>, program: Seq<u16>) -> Seq<u8> {
    Seq::new(
        bytes.len(),
        |a: int|
            if PROGRAM_ADDR <= a < PROGRAM_ADDR + 2 * program.len() {
                program_byte(program, a - PROGRAM_ADDR)
            } else {
                bytes[a]
            },
    )
}

/// Memory after the font is stored at address zero.
pub open spec fn with_fonts(bytes: Seq<u8>) -> Seq<u8> {
    font_table() + bytes.subrange(FONT_SIZE as int, bytes.len() as int)
}

/// The big-endian word whose high byte is `hi` and low byte is `lo`.
pub open spec fn word(hi: u8, lo: u8) -> u16 {
    (hi * 256 + lo) as u16
}

/// Why a stack operation could not be done.
#[derive(Debug, Clone, Copy, PartialEq, Eq, Structural)]
pub enum StackError {
    Overflow,
    Underflow,
}

/// What the logic reads of memory: its bytes and the stack pointer.
#[verifier::ext_equal]
pub struct MemoryView {
    pub bytes: Seq<u8>,
    pub stack_ptr: u16,
}

impl MemoryView {
    /// The bytes on the stack, the most recently pushed first.
    pub open spec fn stack(self) -> Seq<u8> {
        self.bytes.subrange(self.stack_ptr + 1, STACK_TOP + 1)
    }

    /// Whether `n` more bytes fit on the stack.
    pub open spec fn has_room(self, n: int) -> bool {
        STACK_LIMIT + n - 1 <= self.stack_ptr <= STACK_TOP
    }

    /// Whether at least `n` bytes are on the stack.
    pub open spec fn holds(self, n: int) -> bool {
        STACK_LIMIT - 1 <= self.stack_ptr && self.stack_ptr + n <= STACK_TOP
    }

    pub open spec fn push_u8(self, val: u8) -> MemoryView {
        MemoryView {
            bytes: self.bytes.update(self.stack_ptr as int, val),
            stack_ptr: (self.stack_ptr - 1) as u16,
        }
    }

    pub open spec fn pop_u8(self) -> (MemoryView, u8) {
        (
            MemoryView { bytes: self.bytes, stack_ptr: (self.stack_ptr + 1) as u16 },
            self.bytes[self.stack_ptr + 1],
        )
    }

    /// Pushes the high byte of `val`, then its low byte.
    pub open spec fn push_u16(self, val: u16) -> MemoryView {
        self.push_u8((val / 256) as u8).push_u8((val % 256) as u8)
    }

    /// Pops the low byte, then the high byte.
    pub open spec fn pop_u16(self) -> (MemoryView, u16) {
        (
            MemoryView { bytes: self.bytes, stack_ptr: (self.stack_ptr + 2) as u16 },
            word(self.bytes[self.stack_ptr + 2], self.bytes[self.stack_ptr + 1]),
        )
    }
}

/// The 4 KB address space and the stack pointer.
#[derive(Debug)]
pub struct Chip8Memory {
    pub mem: [u8; 4096],
    pub stack_ptr: u16,
}

impl View for Chip8Memory {
    type V = MemoryView;

    open spec fn view(&self) -> MemoryView {
        MemoryView { bytes: self.mem@, stack_ptr: self.stack_ptr }
    }
}

/// The font table as an array.
fn font_data() -> (r: [u8; 80])
    ensures
        r@ == font_table(),
{
    let r: [u8; 80] = [
        0xF0, 0x90, 0x90, 0x90, 0xF0, 0x20, 0x60, 0x20, 0x20, 0x70,
        0xF0, 0x10, 0xF0, 0x80, 0xF0, 0xF0, 0x10, 0xF0, 0x10, 0xF0,
        0x90, 0x90, 0xF0, 0x10, 0x10, 0xF0, 0x80, 0xF0, 0x10, 0xF0,
        0xF0, 0x80, 0xF0, 0x90, 0xF0, 0xF0, 0x10, 0x20, 0x40, 0x40,
        0xF0, 0x90, 0xF0, 0x90, 0xF0, 0xF0, 0x90, 0xF0, 0x10, 0xF0,
        0xF0, 0x90, 0xF0, 0x90, 0x90, 0xE0, 0x90, 0xE0, 0x90, 0xE0,
        0xF0, 0x80, 0x80, 0x80, 0xF0, 0xE0, 0x90, 0x90, 0x90, 0xE0,
        0xF0, 0x80, 0xF0, 0x80, 0xF0, 0xF0, 0x80, 0xF0, 0x80, 0x80,
    ];
    assert(r@ =~= font_table());
    r
}

impl Chip8Memory {
    /// All bytes zero, the stack empty.
    pub fn new() -> (r: Chip8Memory)
        ensures
            r@.bytes == Seq::new(4096, |a: int| 0u8),
            r@.stack_ptr == STACK_TOP,
    {
        let r = Chip8Memory { mem: [0; 4096], stack_ptr: STACK_TOP };
        assert(r@.bytes =~= Seq::new(4096, |a: int| 0u8));
        r
    }

    pub fn get_memory_at(&self, addr: usize) -> (r: &u8)
        requires
            addr < MEMORY_SIZE,
        ensures
            *r == self@.bytes[addr as int],
    {
        &self.mem[addr]
    }

    /// The big-endian word at `addr` and `addr + 1`.
    pub fn get_memory_at_u16(&self, addr: usize) -> (r: u16)
        requires
            addr + 1 < MEMORY_SIZE,
        ensures
            r == word(self@.bytes[addr as int], self@.bytes[addr + 1]),
    {
        let higher = *self.get_memory_at(addr) as u16;
        let lower = *self.get_memory_at(addr + 1) as u16;
        higher * 256 + lower
    }

    pub fn get_memory_at_mut(&mut self, addr: usize) -> (r: &mut u8)
        requires
            addr < MEMORY_SIZE,
        ensures
            *r == old(self)@.bytes[addr as int],
            final(self)@.bytes == old(self)@.bytes.update(addr as int, *final(r)),
            final(self)@.stack_ptr == old(self)@.stack_ptr,
    {
        &mut self.mem[addr]
    }

    /// Stores `program` from the program address on, each word high byte
    /// first; every other byte is kept.
    pub fn load_program_into_mem(&mut self, program: &Vec<u16>)
        requires
            program.len() <= MAX_PROGRAM_WORDS,
        ensures
            final(self)@.bytes == with_program(old(self)@.bytes, program@),
            final(self)@.stack_ptr == old(self)@.stack_ptr,
    {
        let mut k: usize = 0;
        while k < program.len()
            invariant
                k <= program.len() <= MAX_PROGRAM_WORDS,
                self@.stack_ptr == old(self)@.stack_ptr,
                self@.bytes == with_program(old(self)@.bytes, program@.subrange(0, k as int)),
            decreases program.len() - k,
        {
            let opcode = program[k];
            let higher = (opcode >> 8) as u8;
            let lower = (opcode & 0xFF) as u8;
            assert(higher == opcode / 256 && lower == opcode % 256) by (bit_vector)
                requires
                    higher == (opcode >> 8) as u8,
                    lower == (opcode & 0xFF) as u8,
            ;
            let ghost before = self@.bytes;
            self.mem[PROGRAM_ADDR + 2 * k] = higher;
            self.mem[PROGRAM_ADDR + 2 * k + 1] = lower;
            proof {
                let p = program@.subrange(0, k + 1);
                assert forall|a: int| 0 <= a < 4096 implies #[trigger] self@.bytes[a]
                    == with_program(old(self)@.bytes, p)[a] by {
                    if PROGRAM_ADDR <= a < PROGRAM_ADDR + 2 * k {
                        assert(p[(a - PROGRAM_ADDR) / 2] == program@.subrange(0, k as int)[(a
                            - PROGRAM_ADDR) / 2]);
                    }
                }
                assert(self@.bytes =~= with_program(old(self)@.bytes, p));
            }
            k = k + 1;
        }
        assert(program@.subrange(0, program.len() as int) =~= program@);
    }

    /// Stores the font table at address zero; every other byte is kept.
    pub fn load_fonts_into_mem(&mut self)
        ensures
            final(self)@.bytes == with_fonts(old(self)@.bytes),
            final(self)@.stack_ptr == old(self)@.stack_ptr,
    {
        let font = font_data();
        let mut k: usize = 0;
        while k < FONT_SIZE
            invariant
                k <= FONT_SIZE,
                font@ == font_table(),
                self@.stack_ptr == old(self)@.stack_ptr,
                self@.bytes == font_table().subrange(0, k as int) + old(self)@.bytes.subrange(
                    k as int,
                    4096,
                ),
            decreases FONT_SIZE - k,
        {
            self.mem[k] = font[k];
            assert(self@.bytes =~= font_table().subrange(0, k + 1) + old(self)@.bytes.subrange(
                k + 1,
                4096,
            ));
            k = k + 1;
        }
        assert(font_table().subrange(0, 80) =~= font_table());
    }

    /// Pushes one byte: it is written at the stack pointer, which then moves
    /// down. Fails, changing nothing, when the stack is full.
    pub fn push_to_stack_u8(&mut self, val: u8) -> (r: Result<(), StackError>)
        ensures
            old(self)@.has_room(1) ==> r == Ok::<(), StackError>(()) && final(self)@ == old(self)@.push_u8(val),
            !old(self)@.has_room(1) ==> r == Err::<(), StackError>(StackError::Overflow)
                && final(self)@ == old(self)@,
    {
        if self.stack_ptr < STACK_LIMIT || self.stack_ptr > STACK_TOP {
            return Err(StackError::Overflow);
        }
        self.mem[self.stack_ptr as usize] = val;
        self.stack_ptr = self.stack_ptr - 1;
        Ok(())
    }

    /// Pushes the high byte of `val`, then its low byte. Fails, changing
    /// nothing, when fewer than two bytes are free.
    pub fn push_to_stack_u16(&mut self, val: u16) -> (r: Result<(), StackError>)
        ensures
            old(self)@.has_room(2) ==> r == Ok::<(), StackError>(()) && final(self)@ == old(self)@.push_u16(val),
            !old(self)@.has_room(2) ==> r == Err::<(), StackError>(StackError::Overflow)
                && final(self)@ == old(self)@,
    {
        if self.stack_ptr < STACK_LIMIT + 1 || self.stack_ptr > STACK_TOP {
            return Err(StackError::Overflow);
        }
        let higher = (val >> 8) as u8;
        let lower = (val & 0xFF) as u8;
        assert(higher == val / 256 && lower == val % 256) by (bit_vector)
            requires
                higher == (val >> 8) as u8,
                lower == (val & 0xFF) as u8,
        ;
        let _ = self.push_to_stack_u8(higher);
        let _ = self.push_to_stack_u8(lower);
        Ok(())
    }

    /// Pops one byte: the stack pointer moves up and the byte there is
    /// returned. Fails, changing nothing, when the stack is empty.
    pub fn pop_from_stack_u8(&mut self) -> (r: Result<u8, StackError>)
        ensures
            old(self)@.holds(1) ==> r == Ok::<u8, StackError>(old(self)@.pop_u8().1) && final(self)@ == old(self)@.pop_u8().0,
            !old(self)@.holds(1) ==> r == Err::<u8, StackError>(StackError::Underflow)
                && final(self)@ == old(self)@,
    {
        if self.stack_ptr < STACK_LIMIT - 1 || self.stack_ptr >= STACK_TOP {
            return Err(StackError::Underflow);
        }
        self.stack_ptr = self.stack_ptr + 1;
        Ok(self.mem[self.stack_ptr as usize])
    }

    /// Pops the low byte, then the high byte, and returns their word.
    /// Fails, changing nothing, when fewer than two bytes are on the stack.
    pub fn pop_from_stack_u16(&mut self) -> (r: Result<u16, StackError>)
        ensures
            old(self)@.holds(2) ==> r == Ok::<u16, StackError>(old(self)@.pop_u16().1) && final(self)@ == old(self)@.pop_u16().0,
            !old(self)@.holds(2) ==> r == Err::<u16, StackError>(StackError::Underflow)
                && final(self)@ == old(self)@,
    {
        if self.stack_ptr < STACK_LIMIT - 1 || self.stack_ptr > STACK_TOP - 2 {
            return Err(StackError::Underflow);
        }
        let lower = self.mem[self.stack_ptr as usize + 1];
        let higher = self.mem[self.stack_ptr as usize + 2];
        self.stack_ptr = self.stack_ptr + 2;
        Ok(higher as u16 * 256 + lower as u16)
    }
}

} // verus!
