use vstd::prelude::*;
use crate::cpu::{fetch, lemma_fields, op_class, op_n, op_nn, op_nnn, op_x, step_spec};
use crate::input::{any_key_held, first_held_key};
use crate::machine::{well_formed, Chip8View};
use crate::memory::{word, MemoryView};
use crate::output::{blank_display, collides, covers, drawn, is_grid, Chip8Pixel};

verus! {

/// A word split into its high and low bytes is put back together by `word`.
pub proof fn lemma_word_split(v: u16)
    ensures
        word((v / 256) as u8, (v % 256) as u8) == v,
{
}

/// The stack is last in, first out: after pushing `a` then `b`, popping
/// yields `b` then `a`, and leaves the stack pointer and the bytes on the
/// stack as they were before the pushes.
pub proof fn law_stack_lifo(m: MemoryView, a: u16, b: u16)
    requires
        m.bytes.len() == 4096,
        m.has_room(4),
    ensures
        m.push_u16(a).push_u16(b).holds(2),
        m.push_u16(a).push_u16(b).pop_u16().1 == b,
        m.push_u16(a).push_u16(b).pop_u16().0.stack_ptr == m.push_u16(a).stack_ptr,
        m.push_u16(a).push_u16(b).pop_u16().0.stack() == m.push_u16(a).stack(),
        m.push_u16(a).push_u16(b).pop_u16().0.holds(2),
        m.push_u16(a).push_u16(b).pop_u16().0.pop_u16().1 == a,
        m.push_u16(a).push_u16(b).pop_u16().0.pop_u16().0.stack_ptr == m.stack_ptr,
        m.push_u16(a).push_u16(b).pop_u16().0.pop_u16().0.stack() == m.stack(),
{
    lemma_word_split(a);
    lemma_word_split(b);
    let m1 = m.push_u16(a);
    let m2 = m1.push_u16(b);
    let m3 = m2.pop_u16().0;
    let m4 = m3.pop_u16().0;
    assert(m3.stack() =~= m1.stack());
    assert(m4.stack() =~= m.stack());
}

/// A subroutine call jumps to its address with the return address on the
/// stack; a return met later, with the stack as the call left it, comes
/// back to the instruction after the call and restores the stack. Inner
/// call and return pairs leave the stack as they found it, so calls nest.
pub proof fn law_call_return(s: Chip8View, t: Chip8View, r1: u8, r2: u8)
    requires
        well_formed(s),
        well_formed(t),
        s.pc + 1 < 4096,
        op_class(fetch(s)) == 0x2,
        s.memory.has_room(2),
        t.memory.stack_ptr == step_spec(s, r1).0.memory.stack_ptr,
        t.memory.stack() == step_spec(s, r1).0.memory.stack(),
        t.pc + 1 < 4096,
        fetch(t) == 0x00EE,
    ensures
        step_spec(s, r1).1 is Ok,
        step_spec(s, r1).0.pc == op_nnn(fetch(s)),
        step_spec(t, r2).1 is Ok,
        step_spec(t, r2).0.pc == s.pc + 2,
        step_spec(t, r2).0.memory.stack_ptr == s.memory.stack_ptr,
        step_spec(t, r2).0.memory.stack() == s.memory.stack(),
{
    let op = fetch(s);
    lemma_fields(op);
    assert(op_class(0x00EE) == 0 && op_nnn(0x00EE) == 0x0EE) by (bit_vector);
    let ret = (s.pc + 2) as u16;
    lemma_word_split(ret);
    let s1 = step_spec(s, r1).0;
    assert(s1.memory == s.memory.push_u16(ret));
    let sp = s.memory.stack_ptr as int;
    assert(s1.memory.stack()[0] == (ret % 256) as u8);
    assert(s1.memory.stack()[1] == (ret / 256) as u8);
    let tsp = t.memory.stack_ptr as int;
    assert(t.memory.bytes[tsp + 1] == t.memory.stack()[0]);
    assert(t.memory.bytes[tsp + 2] == t.memory.stack()[1]);
    let t1 = step_spec(t, r2).0;
    assert forall|k: int| 0 <= k < s.memory.stack().len() implies t1.memory.stack()[k]
        == s.memory.stack()[k] by {
        assert(t1.memory.stack()[k] == t.memory.stack()[k + 2]);
        assert(s1.memory.stack()[k + 2] == s.memory.stack()[k]);
    }
    assert(t1.memory.stack() =~= s.memory.stack());
}

/// A shift sets VF to the bit shifted out: 8XY6 to the low bit of VX as it
/// was, 8XYE to its bit 7.
pub proof fn law_shift_flags(s: Chip8View, random: u8)
    requires
        well_formed(s),
        s.pc + 1 < 4096,
        op_class(fetch(s)) == 0x8,
        op_n(fetch(s)) == 0x6 || op_n(fetch(s)) == 0xE,
    ensures
        step_spec(s, random).1 is Ok,
        op_n(fetch(s)) == 0x6 ==> step_spec(s, random).0.v[15] == s.v[op_x(fetch(s)) as int] % 2,
        op_n(fetch(s)) == 0xE ==> step_spec(s, random).0.v[15] == s.v[op_x(fetch(s)) as int] / 128,
{
    let op = fetch(s);
    lemma_fields(op);
    let l = s.v[op_x(op) as int] as u16;
    assert(l < 256 ==> ((l & 1 == 1) == (l % 2 == 1)) && ((l & 0x80 > 0) == (l / 128 == 1))) by (bit_vector);
}

/// Dumping V0..VX to memory at I and then loading V0..VX from the same
/// place gives back every register as it was.
pub proof fn law_dump_load(s: Chip8View, r1: u8, r2: u8)
    requires
        well_formed(s),
        s.pc + 1 < 4096,
        op_class(fetch(s)) == 0xF,
        op_nn(fetch(s)) == 0x55,
        s.i + op_x(fetch(s)) + 1 <= 4096,
        step_spec(s, r1).0.pc + 1 < 4096,
        op_class(fetch(step_spec(s, r1).0)) == 0xF,
        op_nn(fetch(step_spec(s, r1).0)) == 0x65,
        op_x(fetch(step_spec(s, r1).0)) == op_x(fetch(s)),
    ensures
        step_spec(s, r1).1 is Ok,
        step_spec(step_spec(s, r1).0, r2).1 is Ok,
        step_spec(step_spec(s, r1).0, r2).0.v == s.v,
{
    let op = fetch(s);
    lemma_fields(op);
    let s1 = step_spec(s, r1).0;
    lemma_fields(fetch(s1));
    let s2 = step_spec(s1, r2).0;
    assert(s2.v =~= s.v);
}

/// Drawing a sprite twice at the same place gives back the display it
/// started from; the second drawing collides exactly when the first one
/// turned some pixel on, so on a blank display any sprite with a set pixel
/// sets VF on its second drawing.
pub proof fn law_draw_twice(d: Seq<Seq<Chip8Pixel>>, sprite: Seq<Seq<Chip8Pixel>>, x: int, y: int)
    requires
        is_grid(d),
    ensures
        drawn(drawn(d, sprite, x, y), sprite, x, y) == d,
        collides(drawn(d, sprite, x, y), sprite, x, y) == (exists|col: int, row: int|
            0 <= col < 64 && 0 <= row < 32 && #[trigger] covers(sprite, x, y, col, row)
                && d[row][col] == Chip8Pixel::Black),
        (d == blank_display() && exists|col: int, row: int|
            0 <= col < 64 && 0 <= row < 32 && #[trigger] covers(sprite, x, y, col, row))
            ==> collides(drawn(d, sprite, x, y), sprite, x, y),
{
    let d1 = drawn(d, sprite, x, y);
    assert(drawn(d1, sprite, x, y) =~~= d);
    if collides(d1, sprite, x, y) {
        let (c, r) = choose|c: int, r: int|
            0 <= c < 64 && 0 <= r < 32 && #[trigger] covers(sprite, x, y, c, r) && d1[r][c]
                == Chip8Pixel::White;
        assert(d[r][c] == Chip8Pixel::Black);
    }
    if exists|col: int, row: int|
        0 <= col < 64 && 0 <= row < 32 && #[trigger] covers(sprite, x, y, col, row)
            && d[row][col] == Chip8Pixel::Black {
        let (c, r) = choose|c: int, r: int|
            0 <= c < 64 && 0 <= r < 32 && #[trigger] covers(sprite, x, y, c, r) && d[r][c]
                == Chip8Pixel::Black;
        assert(d1[r][c] == Chip8Pixel::White);
    }
    if d == blank_display() && exists|col: int, row: int|
        0 <= col < 64 && 0 <= row < 32 && #[trigger] covers(sprite, x, y, col, row) {
        let (c, r) = choose|c: int, r: int|
            0 <= c < 64 && 0 <= r < 32 && #[trigger] covers(sprite, x, y, c, r);
        assert(d[r][c] == Chip8Pixel::Black);
        assert(d1[r][c] == Chip8Pixel::White);
    }
}

/// Drawing wraps around the display: a sprite drawn at (x, y) lands as it
/// would at (x mod 64, y mod 32), and the result is again a 64x32 grid.
pub proof fn law_draw_wraps(d: Seq<Seq<Chip8Pixel>>, sprite: Seq<Seq<Chip8Pixel>>, x: int, y: int)
    requires
        is_grid(d),
        x >= 0,
        y >= 0,
    ensures
        drawn(d, sprite, x, y) == drawn(d, sprite, x % 64, y % 32),
        collides(d, sprite, x, y) == collides(d, sprite, x % 64, y % 32),
        is_grid(drawn(d, sprite, x, y)),
{
    assert forall|col: int, row: int| #[trigger] covers(sprite, x, y, col, row) == covers(
        sprite,
        x % 64,
        y % 32,
        col,
        row,
    ) by {
        assert((x % 64) % 64 == x % 64);
        assert((y % 32) % 32 == y % 32);
    }
    assert(drawn(d, sprite, x, y) =~~= drawn(d, sprite, x % 64, y % 32));
    if collides(d, sprite, x, y) {
        let (c, r) = choose|c: int, r: int|
            0 <= c < 64 && 0 <= r < 32 && #[trigger] covers(sprite, x, y, c, r) && d[r][c]
                == Chip8Pixel::White;
        assert(covers(sprite, x % 64, y % 32, c, r));
    }
    if collides(d, sprite, x % 64, y % 32) {
        let (c, r) = choose|c: int, r: int|
            0 <= c < 64 && 0 <= r < 32 && #[trigger] covers(sprite, x % 64, y % 32, c, r)
                && d[r][c] == Chip8Pixel::White;
        assert(covers(sprite, x, y, c, r));
    }
}

/// A blocking key read (FX0A) with no key held leaves the program counter,
/// memory and keypad as they were, so the next step runs it again; with a
/// key held, it moves on and VX holds the first held key.
pub proof fn law_key_wait(s: Chip8View, random: u8)
    requires
        well_formed(s),
        s.pc + 1 < 4096,
        op_class(fetch(s)) == 0xF,
        op_nn(fetch(s)) == 0x0A,
    ensures
        step_spec(s, random).1 is Ok,
        !any_key_held(s.keys) ==> step_spec(s, random).0.pc == s.pc && step_spec(s, random).0.memory
            == s.memory && step_spec(s, random).0.keys == s.keys,
        any_key_held(s.keys) ==> step_spec(s, random).0.pc == s.pc + 2 && Some(
            step_spec(s, random).0.v[op_x(fetch(s)) as int] as usize,
        ) == first_held_key(s.keys),
{
    let op = fetch(s);
    lemma_fields(op);
    if any_key_held(s.keys) {
        let k = first_held_key(s.keys).unwrap();
        assert(k < 16);
    }
}

} // verus!
