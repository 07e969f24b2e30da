//! The machine's memory: 4096 bytes, the font glyphs at the bottom and
//! the program from `0x200` upwards.

use vstd::prelude::*;
use vstd::slice::slice_subrange;

verus! {

/// Number of addressable bytes.
pub const RAM_SIZE: usize = 4096;

/// Address at which a program is loaded and starts to run.
pub const PROGRAM_START: usize = 0x200;

/// Number of bytes that the sixteen font glyphs occupy.
pub const FONT_SIZE: usize = 80;

/// Number of bytes of one font glyph.
pub const GLYPH_SIZE: usize = 5;

/// The glyphs of the hexadecimal digits `0` to `F`, five bytes each, as
/// they lie in memory from address 0.
pub open spec fn font_table() -> Seq<u8> {
    seq![
        0xF0u8, 0x90u8, 0x90u8, 0x90u8, 0xF0u8,
        0x20u8, 0x60u8, 0x20u8, 0x20u8, 0x70u8,
        0xF0u8, 0x10u8, 0xF0u8, 0x80u8, 0xF0u8,
        0xF0u8, 0x10u8, 0xF0u8, 0x10u8, 0xF0u8,
        0x90u8, 0x90u8, 0xF0u8, 0x10u8, 0x10u8,
        0xF0u8, 0x80u8, 0xF0u8, 0x10u8, 0xF0u8,
        0xF0u8, 0x80u8, 0xF0u8, 0x90u8, 0xF0u8,
        0xF0u8, 0x10u8, 0x20u8, 0x40u8, 0x40u8,
        0xF0u8, 0x90u8, 0xF0u8, 0x90u8, 0xF0u8,
        0xF0u8, 0x90u8, 0xF0u8, 0x10u8, 0xF0u8,
        0xF0u8, 0x90u8, 0xF0u8, 0x90u8, 0x90u8,
        0xE0u8, 0x90u8, 0xE0u8, 0x90u8, 0xE0u8,
        0xF0u8, 0x80u8, 0x80u8, 0x80u8, 0xF0u8,
        0xE0u8, 0x90u8, 0x90u8, 0x90u8, 0xE0u8,
        0xF0u8, 0x80u8, 0xF0u8, 0x80u8, 0xF0u8,
        0xF0u8, 0x80u8, 0xF0u8, 0x80u8, 0x80u8,
    ]
}

/// Memory after `data` has been stored from address `index` on: the
/// bytes of `data` in `[index, index + data.len())`, `memory` elsewhere.
pub open spec fn written(memory: Seq<u8>, index: int, data: Seq<u8>) -> Seq<u8> {
    Seq::new(
        memory.len(),
        |a: int|
            if index <= a < index + data.len() {
                data[a - index]
            } else {
                memory[a]
            },
    )
}

/// The big-endian 16-bit word whose high byte lies at `index`.
pub open spec fn word_at(memory: Seq<u8>, index: int) -> int {
    memory[index] as int * 256 + memory[index + 1] as int
}

/// Memory as it is before the first instruction runs: the font in
/// `[0, 80)`, the program from `0x200` on, zero everywhere else.
pub open spec fn initial_memory(rom: Seq<u8>) -> Seq<u8> {
    Seq::new(
        RAM_SIZE as nat,
        |a: int|
            if 0 <= a < FONT_SIZE {
                font_table()[a]
            } else if PROGRAM_START <= a < PROGRAM_START + rom.len() {
                rom[a - PROGRAM_START]
            } else {
                0u8
            },
    )
}

/// The 4096 bytes of the machine's memory.
pub struct Ram {
    memory: [u8; 4096],
}

impl View for Ram {
    type V = Seq<u8>;

    closed spec fn view(&self) -> Seq<u8> {
        self.memory@
    }
}

impl Ram {
    /// Every memory has exactly 4096 bytes.
    pub proof fn lemma_size(&self)
        ensures
            self@.len() == RAM_SIZE,
    {
    }

    /// Builds the initial memory around the program `rom`.
    ///
    /// The program has to fit between `0x200` and the end of memory.
    pub fn new(rom: &[u8]) -> (ram: Ram)
        requires
            rom@.len() <= RAM_SIZE - PROGRAM_START,
        ensures
            ram@ == initial_memory(rom@),
            ram@.subrange(PROGRAM_START as int, PROGRAM_START + rom@.len()) == rom@,
            ram@.subrange(0, FONT_SIZE as int) == font_table(),
            forall|a: int|
                FONT_SIZE <= a < RAM_SIZE && !(PROGRAM_START <= a < PROGRAM_START + rom@.len())
                    ==> ram@[a] == 0,
    {
        let font: [u8; 80] = [
            0xF0, 0x90, 0x90, 0x90, 0xF0,
            0x20, 0x60, 0x20, 0x20, 0x70,
            0xF0, 0x10, 0xF0, 0x80, 0xF0,
            0xF0, 0x10, 0xF0, 0x10, 0xF0,
            0x90, 0x90, 0xF0, 0x10, 0x10,
            0xF0, 0x80, 0xF0, 0x10, 0xF0,
            0xF0, 0x80, 0xF0, 0x90, 0xF0,
            0xF0, 0x10, 0x20, 0x40, 0x40,
            0xF0, 0x90, 0xF0, 0x90, 0xF0,
            0xF0, 0x90, 0xF0, 0x10, 0xF0,
            0xF0, 0x90, 0xF0, 0x90, 0x90,
            0xE0, 0x90, 0xE0, 0x90, 0xE0,
            0xF0, 0x80, 0x80, 0x80, 0xF0,
            0xE0, 0x90, 0x90, 0x90, 0xE0,
            0xF0, 0x80, 0xF0, 0x80, 0xF0,
            0xF0, 0x80, 0xF0, 0x80, 0x80,
        ];
        assert(font@ =~= font_table());
        let mut ram = Ram { memory: [0x0; 4096] };
        ram.write_data(0x0, font.as_slice());
        ram.write_data(PROGRAM_START, rom);
        assert(ram@ =~= initial_memory(rom@));
        assert(ram@.subrange(PROGRAM_START as int, PROGRAM_START + rom@.len()) =~= rom@);
        assert(ram@.subrange(0, FONT_SIZE as int) =~= font_table());
        ram
    }

    /// Stores `data` from address `index` on.
    ///
    /// The whole range has to lie inside memory.
    pub fn write_data(&mut self, index: usize, data: &[u8])
        requires
            index + data@.len() <= RAM_SIZE,
        ensures
            final(self)@ == written(old(self)@, index as int, data@),
            final(self)@.subrange(index as int, index + data@.len()) == data@,
    {
        let n = data.len();
        let mut i: usize = 0;
        while i < n
            invariant
                n == data@.len(),
                index + n <= RAM_SIZE,
                i <= n,
                self@ == written(old(self)@, index as int, data@.take(i as int)),
            decreases n - i,
        {
            self.memory[i + index] = data[i];
            i += 1;
            assert(self@ =~= written(old(self)@, index as int, data@.take(i as int)));
        }
        assert(data@.take(n as int) =~= data@);
        assert(self@.subrange(index as int, index + data@.len()) =~= data@);
    }

    /// The byte at address `index`.
    pub fn read_byte(&self, index: usize) -> (byte: &u8)
        requires
            index < RAM_SIZE,
        ensures
            *byte == self@[index as int],
    {
        &self.memory[index]
    }

    /// The big-endian word made of the bytes at `index` and `index + 1`.
    pub fn read_word(&self, index: usize) -> (word: u16)
        requires
            index + 2 <= RAM_SIZE,
        ensures
            word == word_at(self@, index as int),
    {
        let bytes = self.read_bytes(index, 2);
        let high: u16 = bytes[0] as u16;
        let low: u16 = bytes[1] as u16;
        assert((high << 8) | low == high * 256 + low) by (bit_vector)
            requires
                high < 256,
                low < 256,
        ;
        (high << 8) | low
    }

    /// The `size` bytes that start at address `index`.
    pub fn read_bytes(&self, index: usize, size: usize) -> (bytes: &[u8])
        requires
            index + size <= RAM_SIZE,
        ensures
            bytes@ == self@.subrange(index as int, index + size),
    {
        slice_subrange(self.memory.as_slice(), index, index + size)
    }
}

/// Reading back the range that was just written gives the written
/// bytes, wherever in memory the range lies.
pub proof fn lemma_write_then_read(memory: Seq<u8>, index: int, data: Seq<u8>)
    requires
        memory.len() == RAM_SIZE,
        0 <= index,
        index + data.len() <= RAM_SIZE,
    ensures
        written(memory, index, data).subrange(index, index + data.len()) == data,
        forall|k: int|
            0 <= k < data.len() ==> written(memory, index, data)[index + k] == #[trigger] data[k],
{
    assert(written(memory, index, data).subrange(index, index + data.len()) =~= data);
}

/// A write changes nothing outside the written range and keeps the
/// size of memory.
pub proof fn lemma_write_elsewhere(memory: Seq<u8>, index: int, data: Seq<u8>)
    requires
        memory.len() == RAM_SIZE,
        0 <= index,
        index + data.len() <= RAM_SIZE,
    ensures
        written(memory, index, data).len() == RAM_SIZE,
        forall|a: int|
            0 <= a < RAM_SIZE && !(index <= a < index + data.len()) ==> written(
                memory,
                index,
                data,
            )[a] == memory[a],
{
}

/// A loaded program lies unchanged from `0x200` on; the font lies below
/// address 80; every other byte is zero.
pub proof fn lemma_initial_memory(rom: Seq<u8>)
    requires
        rom.len() <= RAM_SIZE - PROGRAM_START,
    ensures
        initial_memory(rom).len() == RAM_SIZE,
        initial_memory(rom).subrange(PROGRAM_START as int, PROGRAM_START + rom.len()) == rom,
        initial_memory(rom).subrange(0, FONT_SIZE as int) == font_table(),
        forall|a: int|
            FONT_SIZE <= a < RAM_SIZE && !(PROGRAM_START <= a < PROGRAM_START + rom.len())
                ==> initial_memory(rom)[a] == 0,
{
    assert(initial_memory(rom).subrange(PROGRAM_START as int, PROGRAM_START + rom.len()) =~= rom);
    assert(initial_memory(rom).subrange(0, FONT_SIZE as int) =~= font_table());
}

} // verus!
