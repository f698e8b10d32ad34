use vstd::prelude::*;

verus! {

/// Bytes of addressable memory.
pub const MEMORY_SIZE: usize = 4096;

/// Address at which programs are loaded and execution starts.
pub const PROGRAM_START: usize = 0x200;

/// Address of the built-in hexadecimal font.
pub const FONT_START: usize = 0x0;

/// Bytes per glyph of the built-in font.
pub const FONT_GLYPH_BYTES: usize = 5;

/// The built-in font: sixteen 4x5 glyphs for the digits 0 to F, one byte per
/// row, the glyph's pixels in the high nibble.
pub const FONTSET: [u8; 80] = [
    0xF0, 0x90, 0x90, 0x90, 0xF0,  // 0
    0x20, 0x60, 0x20, 0x20, 0x70,  // 1
    0xF0, 0x10, 0xF0, 0x80, 0xF0,  // 2
    0xF0, 0x10, 0xF0, 0x10, 0xF0,  // 3
    0x90, 0x90, 0xF0, 0x10, 0x10,  // 4
    0xF0, 0x80, 0xF0, 0x10, 0xF0,  // 5
    0xF0, 0x80, 0xF0, 0x90, 0xF0,  // 6
    0xF0, 0x10, 0x20, 0x40, 0x40,  // 7
    0xF0, 0x90, 0xF0, 0x90, 0xF0,  // 8
    0xF0, 0x90, 0xF0, 0x10, 0xF0,  // 9
    0xF0, 0x90, 0xF0, 0x90, 0x90,  // A
    0xE0, 0x90, 0xE0, 0x90, 0xE0,  // B
    0xF0, 0x80, 0x80, 0x80, 0xF0,  // C
    0xE0, 0x90, 0x90, 0x90, 0xE0,  // D
    0xF0, 0x80, 0xF0, 0x80, 0xF0,  // E
    0xF0, 0x80, 0xF0, 0x80, 0x80,  // F
];

/// Memory at power-on: the font at `FONT_START`, zero everywhere else.
pub open spec fn initial_memory() -> Seq<u8> {
    Seq::new(
        MEMORY_SIZE as nat,
        |a: int|
            if FONT_START <= a < FONT_START + FONTSET@.len() {
                FONTSET@[a - FONT_START]
            } else {
                0u8
            },
    )
}

/// `mem` with `program` copied to `PROGRAM_START`, every other byte kept.
pub open spec fn loaded(mem: Seq<u8>, program: Seq<u8>) -> Seq<u8> {
    mem.subrange(0, PROGRAM_START as int) + program + mem.subrange(
        PROGRAM_START + program.len(),
        MEMORY_SIZE as int,
    )
}

/// Whether `program` fits between `PROGRAM_START` and the end of memory.
pub open spec fn program_fits(program: Seq<u8>) -> bool {
    program.len() <= MEMORY_SIZE - PROGRAM_START
}

/// The machine's 4 KiB of memory.
#[derive(Debug)]
pub struct Memory {
    pub values: [u8; 4096],
}

impl View for Memory {
    type V = Seq<u8>;

    open spec fn view(&self) -> Seq<u8> {
        self.values@
    }
}

impl Memory {
    /// Memory at power-on: the font in place, every other byte zero.
    pub fn new() -> (m: Self)
        ensures
            m@ == initial_memory(),
    {
        let mut values = [0u8; 4096];
        let font = FONTSET;
        let mut i: usize = 0;
        while i < font.len()
            invariant
                i <= font@.len(),
                font@ == FONTSET@,
                values@.len() == MEMORY_SIZE,
                forall|a: int| 0 <= a < i ==> #[trigger] values@[a] == FONTSET@[a],
                forall|a: int| i <= a < MEMORY_SIZE ==> #[trigger] values@[a] == 0u8,
            decreases font@.len() - i,
        {
            values[FONT_START + i] = font[i];
            i = i + 1;
        }
        let m = Memory { values };
        assert(m@ =~= initial_memory());
        m
    }

    /// Copies `program` into memory at `PROGRAM_START`.
    pub fn load_program(&mut self, program: &[u8])
        requires
            program_fits(program@),
        ensures
            final(self)@ == loaded(old(self)@, program@),
    {
        let mut k: usize = 0;
        while k < program.len()
            invariant
                program_fits(program@),
                k <= program@.len(),
                self@.len() == MEMORY_SIZE,
                forall|a: int|
                    0 <= a < MEMORY_SIZE ==> #[trigger] self@[a] == if PROGRAM_START <= a
                        < PROGRAM_START + k {
                        program@[a - PROGRAM_START]
                    } else {
                        old(self)@[a]
                    },
            decreases program@.len() - k,
        {
            self.values[PROGRAM_START + k] = program[k];
            k = k + 1;
        }
        assert(self@ =~= loaded(old(self)@, program@));
    }
}

impl Default for Memory {
    fn default() -> (m: Self)
        ensures
            m@ == initial_memory(),
    {
        Memory::new()
    }
}

} // verus!
