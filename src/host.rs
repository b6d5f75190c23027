use vstd::prelude::*;
use vstd::slice::slice_to_vec;
use crate::cpu::{step_spec, Chip8Error};
use crate::machine::{reset_machine, Chip8, Chip8View};
use crate::memory::{word, with_program, MemoryView, MAX_PROGRAM_WORDS};
use crate::output::{display_text, pixel_value, Chip8Pixel, HEIGHT, WIDTH};
use crate::registers::PROGRAM_START;
use crate::timers::count_down;

verus! {

/// The words of a program image: bytes paired high byte first, an odd
/// last byte paired with a zero.
pub open spec fn words_of(bytes: Seq<u8>) -> Seq<u16> {
    Seq::new(
        ((bytes.len() + 1) / 2) as nat,
        |k: int|
            word(
                bytes[2 * k],
                if 2 * k + 1 < bytes.len() {
                    bytes[2 * k + 1]
                } else {
                    0u8
                },
            ),
    )
}

/// The display flattened row by row: one byte per pixel, 1 on, 0 off.
pub open spec fn flat_pixels(d: Seq<Seq<Chip8Pixel>>) -> Seq<u8> {
    Seq::new((HEIGHT * WIDTH) as nat, |k: int| pixel_value(d[k / 64][k % 64]))
}

/// `rs.len()` steps from `s`, each with its random byte, stopping at the
/// first fault.
pub open spec fn run_steps(s: Chip8View, rs: Seq<u8>) -> (Chip8View, Result<(), Chip8Error>)
    decreases rs.len(),
{
    if rs.len() == 0 {
        (s, Ok(()))
    } else {
        let prev = run_steps(s, rs.drop_last());
        if prev.1 is Err {
            prev
        } else {
            step_spec(prev.0, rs.last())
        }
    }
}

/// Replaces the machine with a blank one and loads the font.
pub fn reset_inst(c8: &mut Chip8)
    ensures
        final(c8)@ == reset_machine(),
{
    *c8 = Chip8::new();
    c8.memory.load_fonts_into_mem();
}

/// Moves the program counter back to the program start.
pub fn reset_pc(c8: &mut Chip8)
    ensures
        final(c8)@ == (Chip8View { pc: PROGRAM_START, ..old(c8)@ }),
{
    c8.registers.pc = PROGRAM_START;
}

/// Pairs the bytes of a program image into big-endian words; an odd last
/// byte is paired with a zero.
pub fn program_8_to_16(program: &[u8]) -> (r: Vec<u16>)
    ensures
        r@ == words_of(program@),
{
    let mut r: Vec<u16> = Vec::new();
    let len = program.len();
    let n_words = len / 2 + len % 2;
    let mut w: usize = 0;
    while w < n_words
        invariant
            len == program@.len(),
            n_words == (len + 1) / 2,
            w <= n_words,
            r@.len() == w,
            forall|j: int| 0 <= j < w ==> #[trigger] r@[j] == words_of(program@)[j],
        decreases n_words - w,
    {
        assert(2 * w < len) by (nonlinear_arith)
            requires
                w < (len + 1) / 2,
        ;
        let k = 2 * w;
        let higher = program[k] as u16;
        let lower = if k + 1 < program.len() {
            program[k + 1] as u16
        } else {
            0
        };
        r.push(higher * 256 + lower);
        w = w + 1;
    }
    assert(r@ =~= words_of(program@));
    r
}

/// Stores a program from the program address on, each word high byte
/// first.
pub fn load_program(c8: &mut Chip8, program: &[u16])
    requires
        program.len() <= MAX_PROGRAM_WORDS,
    ensures
        final(c8)@ == (Chip8View {
            memory: MemoryView { bytes: with_program(old(c8)@.memory.bytes, program@), ..old(c8)@.memory },
            ..old(c8)@
        }),
{
    let program = slice_to_vec(program);
    c8.memory.load_program_into_mem(&program);
}

/// Runs up to `instr_count` steps, stopping at the first fault, which is
/// returned. The outcome is that of some sequence of random bytes, one per
/// step taken; fewer steps than asked are taken only when the last one
/// faulted.
pub fn execute_instructions(c8: &mut Chip8, instr_count: usize) -> (r: Result<(), Chip8Error>)
    ensures
        exists|rs: Seq<u8>|
            #![trigger run_steps(old(c8)@, rs)]
            rs.len() <= instr_count && (final(c8)@, r) == run_steps(old(c8)@, rs) && (rs.len()
                < instr_count ==> r is Err),
{
    let ghost mut rs: Seq<u8> = Seq::empty();
    let mut k: usize = 0;
    while k < instr_count
        invariant
            k <= instr_count,
            rs.len() == k,
            (c8@, Ok::<(), Chip8Error>(())) == run_steps(old(c8)@, rs),
        decreases instr_count - k,
    {
        let ghost before = rs;
        let ghost s_before = c8@;
        let result = c8.execute_next_instruction();
        proof {
            let b = choose|b: u8| (c8@, result) == step_spec(s_before, b);
            rs = before.push(b);
            assert(rs.drop_last() =~= before);
            assert(run_steps(old(c8)@, rs) == (c8@, result));
        }
        match result {
            Ok(()) => {},
            Err(e) => {
                return Err(e);
            },
        }
        k = k + 1;
    }
    Ok(())
}

/// The display as text, two characters per pixel and a newline after each
/// row.
pub fn get_display_as_str(c8: &Chip8) -> (r: String)
    ensures
        r@ == display_text(c8@.display),
{
    c8.output.get_display_as_str()
}

/// The display flattened row by row, one byte per pixel: 1 on, 0 off.
pub fn get_display_as_ints(c8: &Chip8) -> (r: Vec<u8>)
    ensures
        r@ == flat_pixels(c8@.display),
{
    let mut r: Vec<u8> = Vec::new();
    let mut row: usize = 0;
    while row < HEIGHT
        invariant
            row <= HEIGHT,
            r@.len() == row * 64,
            forall|k: int| 0 <= k < r@.len() ==> #[trigger] r@[k] == flat_pixels(c8@.display)[k],
        decreases HEIGHT - row,
    {
        let mut col: usize = 0;
        while col < WIDTH
            invariant
                row < HEIGHT,
                col <= WIDTH,
                r@.len() == row * 64 + col,
                forall|k: int| 0 <= k < r@.len() ==> #[trigger] r@[k] == flat_pixels(c8@.display)[k],
            decreases WIDTH - col,
        {
            let v: u8 = match c8.output.display[row][col] {
                Chip8Pixel::Black => 0,
                Chip8Pixel::White => 1,
            };
            assert((row * 64 + col) / 64 == row && (row * 64 + col) % 64 == col) by (nonlinear_arith)
                requires
                    col < 64,
            ;
            r.push(v);
            col = col + 1;
        }
        row = row + 1;
    }
    assert(r@ =~= flat_pixels(c8@.display));
    r
}

/// Sets key `i` held when `keys_status[i]` is 1 and released otherwise,
/// for each given entry; keys past the given entries are kept.
pub fn update_keys_status(c8: &mut Chip8, keys_status: &[usize])
    requires
        keys_status.len() <= 16,
    ensures
        final(c8)@ == (Chip8View {
            keys: Seq::new(
                16,
                |k: int|
                    if k < keys_status.len() {
                        keys_status[k] == 1
                    } else {
                        old(c8)@.keys[k]
                    },
            ),
            ..old(c8)@
        }),
{
    let mut i: usize = 0;
    while i < keys_status.len()
        invariant
            i <= keys_status.len() <= 16,
            c8@ == (Chip8View {
                keys: Seq::new(
                    16,
                    |k: int|
                        if k < i {
                            keys_status[k] == 1
                        } else {
                            old(c8)@.keys[k]
                        },
                ),
                ..old(c8)@
            }),
        decreases keys_status.len() - i,
    {
        c8.input.keys_status[i] = keys_status[i] == 1;
        assert(c8@.keys =~= Seq::new(
            16,
            |k: int|
                if k < i + 1 {
                    keys_status[k] == 1
                } else {
                    old(c8)@.keys[k]
                },
        ));
        i = i + 1;
    }
}

/// Ticks both timers, then tells whether the sound timer is still running.
pub fn timer_tick_and_get_sound(c8: &mut Chip8) -> (r: bool)
    ensures
        final(c8)@ == (Chip8View {
            delay: count_down(old(c8)@.delay),
            sound: count_down(old(c8)@.sound),
            ..old(c8)@
        }),
        r == (count_down(old(c8)@.sound) > 0),
{
    c8.timers.timer_tick();
    c8.timers.sound > 0
}

} // verus!
