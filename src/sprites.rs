use vstd::prelude::*;
use crate::memory::Chip8Memory;
use crate::output::Chip8Pixel;

verus! {

/// The pixel for bit `c` of `b`, counting from the most significant bit.
pub open spec fn pixel_of(b: u8, c: u8) -> Chip8Pixel {
    if b & (0x80u8 >> c) > 0 {
        Chip8Pixel::White
    } else {
        Chip8Pixel::Black
    }
}

/// The row of eight pixels that a sprite byte stands for, MSB first.
pub open spec fn sprite_row(b: u8) -> Seq<Chip8Pixel> {
    Seq::new(8, |c: int| pixel_of(b, c as u8))
}

/// The rows of a sprite made of the given bytes.
pub open spec fn sprite_rows(bytes: Seq<u8>) -> Seq<Seq<Chip8Pixel>> {
    bytes.map_values(|b: u8| sprite_row(b))
}

/// A sprite: up to 15 rows of 8 pixels.
#[derive(Debug)]
pub struct Chip8Sprite {
    pub pixels: Vec<[Chip8Pixel; 8]>,
}

impl View for Chip8Sprite {
    type V = Seq<Seq<Chip8Pixel>>;

    open spec fn view(&self) -> Seq<Seq<Chip8Pixel>> {
        self.pixels@.map_values(|row: [Chip8Pixel; 8]| row@)
    }
}

impl Chip8Sprite {
    /// The sprite made of the `sprite_height` bytes of memory from
    /// `starting_addr` on, one row per byte.
    pub fn new(memory: &Chip8Memory, starting_addr: usize, sprite_height: usize) -> (r: Chip8Sprite)
        requires
            sprite_height < 16,
            starting_addr + sprite_height <= 4096,
        ensures
            r@ == sprite_rows(memory@.bytes.subrange(starting_addr as int, starting_addr + sprite_height)),
            r.pixels.len() == sprite_height,
    {
        let ghost bytes = memory@.bytes.subrange(starting_addr as int, starting_addr + sprite_height);
        let mut inst = Chip8Sprite { pixels: Vec::with_capacity(sprite_height) };
        let mut k: usize = 0;
        while k < sprite_height
            invariant
                k <= sprite_height < 16,
                starting_addr + sprite_height <= 4096,
                bytes == memory@.bytes.subrange(starting_addr as int, starting_addr + sprite_height),
                inst.pixels.len() == k,
                inst@ == sprite_rows(bytes.subrange(0, k as int)),
            decreases sprite_height - k,
        {
            let byte = *memory.get_memory_at(starting_addr + k);
            let mut pixel_array = [Chip8Pixel::Black; 8];
            let mut bit: u8 = 0;
            while bit < 8
                invariant
                    bit <= 8,
                    forall|c: int| 0 <= c < bit ==> pixel_array[c] == pixel_of(byte, c as u8),
                decreases 8 - bit,
            {
                pixel_array[bit as usize] = if byte & (0x80u8 >> bit) > 0 {
                    Chip8Pixel::White
                } else {
                    Chip8Pixel::Black
                };
                bit = bit + 1;
            }
            assert(pixel_array@ =~= sprite_row(byte));
            let ghost prev = inst@;
            inst.pixels.push(pixel_array);
            assert(inst@ =~= prev.push(sprite_row(byte)));
            assert(bytes.subrange(0, k + 1) =~= bytes.subrange(0, k as int).push(byte));
            assert(sprite_rows(bytes.subrange(0, k + 1)) =~= sprite_rows(bytes.subrange(0, k as int)).push(sprite_row(byte)));
            k = k + 1;
        }
        assert(bytes.subrange(0, sprite_height as int) =~= bytes);
        inst
    }
}

} // verus!
