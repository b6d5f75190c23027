use vstd::prelude::*;
use crate::input::Chip8Input;
use crate::memory::{Chip8Memory, MemoryView, MAX_PROGRAM_WORDS, STACK_TOP, with_fonts, with_program};
use crate::output::{blank_display, is_grid, Chip8Output, Chip8Pixel};
use crate::registers::{Chip8Registers, PROGRAM_START};
use crate::timers::Chip8Timers;

verus! {

/// What the logic reads of a whole machine.
#[verifier::ext_equal]
pub struct Chip8View {
    pub memory: MemoryView,
    pub v: Seq<u8>,
    pub i: u16,
    pub pc: u16,
    pub delay: u8,
    pub sound: u8,
    pub display: Seq<Seq<Chip8Pixel>>,
    pub keys: Seq<bool>,
}

/// Whether a view has the sizes of a machine: 4096 bytes of memory, 16
/// registers and keys, and a 64x32 display.
pub open spec fn well_formed(s: Chip8View) -> bool {
    &&& s.memory.bytes.len() == 4096
    &&& s.v.len() == 16
    &&& s.keys.len() == 16
    &&& is_grid(s.display)
}

/// A machine as it is created: memory zeroed, stack empty, registers and
/// timers zero, the program counter at the program start, the display
/// blank and no key held.
pub open spec fn blank_machine() -> Chip8View {
    Chip8View {
        memory: MemoryView { bytes: Seq::new(4096, |a: int| 0u8), stack_ptr: STACK_TOP },
        v: Seq::new(16, |k: int| 0u8),
        i: 0,
        pc: PROGRAM_START,
        delay: 0,
        sound: 0,
        display: blank_display(),
        keys: Seq::new(16, |k: int| false),
    }
}

/// A machine as it is reset: blank, with the font loaded.
pub open spec fn reset_machine() -> Chip8View {
    Chip8View {
        memory: MemoryView { bytes: with_fonts(blank_machine().memory.bytes), ..blank_machine().memory },
        ..blank_machine()
    }
}

/// A CHIP-8 machine: memory, registers, timers, display and keypad.
#[derive(Debug)]
pub struct Chip8 {
    pub memory: Chip8Memory,
    pub registers: Chip8Registers,
    pub timers: Chip8Timers,
    pub output: Chip8Output,
    pub input: Chip8Input,
}

impl View for Chip8 {
    type V = Chip8View;

    open spec fn view(&self) -> Chip8View {
        Chip8View {
            memory: self.memory@,
            v: self.registers.v@,
            i: self.registers.i,
            pc: self.registers.pc,
            delay: self.timers.delay,
            sound: self.timers.sound,
            display: self.output@,
            keys: self.input.keys_status@,
        }
    }
}

impl Chip8 {
    /// A blank machine; the font is not loaded.
    pub fn new() -> (r: Chip8)
        ensures
            r@ == blank_machine(),
    {
        let r = Chip8 {
            memory: Chip8Memory::new(),
            registers: Chip8Registers::new(),
            timers: Chip8Timers::new(),
            output: Chip8Output::new(),
            input: Chip8Input::new(),
        };
        assert(r@.v =~= blank_machine().v);
        assert(r@.keys =~= blank_machine().keys);
        r
    }

    /// A machine with `program` stored from the program address on and the
    /// font loaded.
    pub fn new_with_program(program: &Vec<u16>) -> (r: Chip8)
        requires
            program.len() <= MAX_PROGRAM_WORDS,
        ensures
            r@ == (Chip8View {
                memory: MemoryView {
                    bytes: with_fonts(with_program(blank_machine().memory.bytes, program@)),
                    stack_ptr: STACK_TOP,
                },
                ..blank_machine()
            }),
    {
        let mut inst = Chip8::new();
        inst.memory.load_program_into_mem(program);
        inst.memory.load_fonts_into_mem();
        inst
    }
}

} // verus!
