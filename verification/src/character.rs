//! The cell of the grid and its layout as 32-bit words and as bytes.

use vstd::prelude::*;

verus! {

/// Number of 32-bit words that one cell occupies.
pub const CELL_WORDS: usize = 8;

/// Number of bytes that one cell occupies.
pub const CELL_BYTES: usize = 32;

/// Bit pattern of the single-precision number `0.0`.
pub const CHANNEL_MIN: u32 = 0;

/// Bit pattern of the single-precision number `1.0`.
pub const CHANNEL_MAX: u32 = 0x3f80_0000;

/// One grid position: background colour, foreground colour and code point.
///
/// A colour has three channels. Each channel is held as the bit pattern of a
/// single-precision number, so a cell is eight words of 32 bits: the three
/// background channels, one word of padding that keeps the foreground on a
/// 16-byte boundary, the three foreground channels, and the code point.
#[derive(Debug, Clone, Copy, PartialEq, Eq)]
pub struct Character {
    pub bg: [u32; 3],
    pub _padding: u32,
    pub fg: [u32; 3],
    pub code: u32,
}

impl Character {
    /// The eight words of the cell, in the order in which they are laid out.
    pub open spec fn words(self) -> Seq<u32> {
        seq![
            self.bg[0],
            self.bg[1],
            self.bg[2],
            self._padding,
            self.fg[0],
            self.fg[1],
            self.fg[2],
            self.code,
        ]
    }

    /// The cell that a new grid is filled with: background `0.0` in every
    /// channel, foreground `1.0` in every channel, code point 0.
    pub open spec fn blank() -> Character {
        Character {
            bg: [CHANNEL_MIN, CHANNEL_MIN, CHANNEL_MIN],
            _padding: 0,
            fg: [CHANNEL_MAX, CHANNEL_MAX, CHANNEL_MAX],
            code: 0,
        }
    }

    /// A cell with the given colours and code point, and zero padding.
    pub fn new(bg: [u32; 3], fg: [u32; 3], code: u32) -> (cell: Self)
        ensures
            cell == (Character { bg, _padding: 0, fg, code }),
    {
        Self { bg, _padding: 0, fg, code }
    }

    /// The cell that shows code point `c` in the given colours.
    pub open spec fn spec_glyph(bg: [u32; 3], fg: [u32; 3], c: char) -> Character {
        Character { bg, _padding: 0, fg, code: c as u32 }
    }

    /// The cell that shows code point `c` in the given colours.
    pub fn glyph(bg: [u32; 3], fg: [u32; 3], c: char) -> (cell: Self)
        ensures
            cell == Self::spec_glyph(bg, fg, c),
    {
        Self::new(bg, fg, c as u32)
    }

    /// Appends the eight words of the cell to `out`.
    pub fn push_words(&self, out: &mut Vec<u32>)
        ensures
            final(out)@ == old(out)@ + self.words(),
            self.words().len() == CELL_WORDS,
    {
        out.push(self.bg[0]);
        out.push(self.bg[1]);
        out.push(self.bg[2]);
        out.push(self._padding);
        out.push(self.fg[0]);
        out.push(self.fg[1]);
        out.push(self.fg[2]);
        out.push(self.code);
    }
}

/// The cells that show the code points of `text`, one cell for each, all in
/// the given colours.
pub open spec fn glyphs(bg: [u32; 3], fg: [u32; 3], text: Seq<char>) -> Seq<Character> {
    Seq::new(text.len(), |k: int| Character::spec_glyph(bg, fg, text[k]))
}

/// The words of a run of cells: the eight words of the first cell, then those
/// of the second, and so on.
pub open spec fn cell_words(cells: Seq<Character>) -> Seq<u32> {
    Seq::new(cells.len() * 8, |i: int| cells[i / 8].words()[i % 8])
}

/// Byte `k` of `word`, where byte 0 is the least significant and byte 3 the
/// most significant.
pub open spec fn word_byte(word: u32, k: int) -> u8 {
    if k == 0 {
        (word % 0x100) as u8
    } else if k == 1 {
        (word / 0x100 % 0x100) as u8
    } else if k == 2 {
        (word / 0x1_0000 % 0x100) as u8
    } else {
        (word / 0x100_0000) as u8
    }
}

/// The bytes of `words` with the least significant byte of each word first.
pub open spec fn little_endian(words: Seq<u32>) -> Seq<u8> {
    Seq::new(words.len() * 4, |i: int| word_byte(words[i / 4], i % 4))
}

/// The bytes of `words` with the most significant byte of each word first.
pub open spec fn big_endian(words: Seq<u32>) -> Seq<u8> {
    Seq::new(words.len() * 4, |i: int| word_byte(words[i / 4], 3 - i % 4))
}

/// `bytes` is what a machine holds in memory for `words`: four bytes for each
/// word, in the order of the words, every word in the same byte order.
pub open spec fn is_memory_image(bytes: Seq<u8>, words: Seq<u32>) -> bool {
    bytes == little_endian(words) || bytes == big_endian(words)
}

/// Views `words` as bytes with `bytemuck::cast_slice` and copies the bytes out.
///
/// Not proved: the contract is taken from the outside crate. The cast hands
/// back the memory that holds the words, read as bytes, so there are four
/// bytes for each word and the words keep their order. Which end of a word
/// comes first is the machine's byte order, which the cast does not change;
/// the contract leaves it open between the two there are.
#[verifier::external_body]
fn words_as_bytes(words: &[u32]) -> (bytes: Vec<u8>)
    ensures
        is_memory_image(bytes@, words@),
{
    bytemuck::cast_slice::<u32, u8>(words).to_vec()
}

/// The bytes that stand for `cells` in a buffer a renderer reads: 32 bytes for
/// each cell, cell after cell, each cell as its eight words in memory.
pub fn cells_as_bytes(cells: &[Character]) -> (bytes: Vec<u8>)
    ensures
        is_memory_image(bytes@, cell_words(cells@)),
        bytes@.len() == cells@.len() * CELL_BYTES,
{
    let mut words: Vec<u32> = Vec::new();
    let mut i: usize = 0;
    while i < cells.len()
        invariant
            i <= cells.len(),
            words@ == cell_words(cells@.take(i as int)),
        decreases cells.len() - i,
    {
        cells[i].push_words(&mut words);
        i += 1;
    }
    assert(cells@.take(cells.len() as int) == cells@);
    words_as_bytes(words.as_slice())
}

} // verus!
