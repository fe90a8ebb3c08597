use vstd::prelude::*;

verus! {

/// Number of addressable bytes.
pub const RAM_SIZE: usize = 0x1000;

/// Number of bytes taken by the built-in font (16 glyphs of 5 rows).
pub const FONT_SIZE: usize = 0x50;

/// The built-in hexadecimal font: glyph `d` occupies bytes `5 * d .. 5 * d + 5`.
pub open spec fn font() -> Seq<u8> {
    seq![
        0xF0u8, 0x90, 0x90, 0x90, 0xF0,  // 0
        0x20, 0x60, 0x20, 0x20, 0x70,  // 1
        0xF0, 0x10, 0xF0, 0x80, 0xF0,  // 2
        0xF0, 0x10, 0xF0, 0x10, 0xF0,  // 3
        0x90, 0x90, 0xF0, 0x10, 0x10,  // 4
        0xF0, 0x80, 0xF0, 0x10, 0xF0,  // 5
        0xF0, 0x80, 0xF0, 0x90, 0xF0,  // 6
        0xF0, 0x10, 0x20, 0x40, 0x40,  // 7
        0xF0, 0x90, 0xF0, 0x90, 0xF0,  // 8
        0xF0, 0x90, 0xF0, 0x10, 0xF0,  // 9
        0xF0, 0x90, 0xF0, 0x90, 0x90,  // A
        0xE0, 0x90, 0xE0, 0x90, 0xE0,  // B
        0xF0, 0x80, 0x80, 0x80, 0xF0,  // C
        0xE0, 0x90, 0x90, 0x90, 0xE0,  // D
        0xF0, 0x80, 0xF0, 0x80, 0xF0,  // E
        0xF0, 0x80, 0xF0, 0x80, 0x80,  // F
    ]
}

/// The contents of a freshly built memory: the font, then zeroes.
pub open spec fn initial_memory() -> Seq<u8> {
    Seq::new(RAM_SIZE as nat, |i: int| if i < FONT_SIZE { font()[i] } else { 0u8 })
}

/// A flat store of 4096 bytes.
pub struct Memory {
    memory: [u8; RAM_SIZE],
}

impl View for Memory {
    type V = Seq<u8>;

    closed spec fn view(&self) -> Seq<u8> {
        self.memory@
    }
}

impl Memory {
    /// Every memory holds exactly `RAM_SIZE` bytes.
    pub proof fn lemma_len(&self)
        ensures
            self@.len() == RAM_SIZE,
    {
    }

    /// The byte at `pointer`.
    pub fn read_memory(&self, pointer: u16) -> (r: u8)
        requires
            pointer < RAM_SIZE,
        ensures
            r == self@[pointer as int],
    {
        self.memory[pointer as usize]
    }

    /// Stores `value` at `pointer`.
    pub fn write_memory(&mut self, pointer: u16, value: u8)
        requires
            pointer < RAM_SIZE,
        ensures
            final(self)@ == old(self)@.update(pointer as int, value),
    {
        self.memory[pointer as usize] = value;
    }

    /// Copies `values` into the memory starting at `pointer`.
    pub fn set_range(&mut self, pointer: u16, values: &[u8])
        requires
            pointer + values@.len() <= RAM_SIZE,
        ensures
            final(self)@ == old(self)@.subrange(0, pointer as int) + values@ + old(self)@.subrange(
                pointer + values@.len(),
                RAM_SIZE as int,
            ),
    {
        let start = pointer as usize;
        let mut i: usize = 0;
        while i < values.len()
            invariant
                start == pointer,
                start + values@.len() <= RAM_SIZE,
                i <= values@.len(),
                self.memory@.len() == RAM_SIZE,
                forall|j: int| 0 <= j < start ==> self.memory@[j] == old(self)@[j],
                forall|j: int| start <= j < start + i ==> self.memory@[j] == values@[j - start],
                forall|j: int| start + i <= j < RAM_SIZE ==> self.memory@[j] == old(self)@[j],
            decreases values@.len() - i,
        {
            self.memory[start + i] = values[i];
            i = i + 1;
        }
        assert(self@ =~= old(self)@.subrange(0, pointer as int) + values@ + old(self)@.subrange(
            pointer + values@.len(),
            RAM_SIZE as int,
        ));
    }
}

impl Default for Memory {
    /// A memory holding the font at address 0 and zeroes elsewhere.
    fn default() -> (m: Memory)
        ensures
            m@ == initial_memory(),
    {
        let glyphs: [u8; FONT_SIZE] = [
            0xF0, 0x90, 0x90, 0x90, 0xF0, 0x20, 0x60, 0x20, 0x20, 0x70,
            0xF0, 0x10, 0xF0, 0x80, 0xF0, 0xF0, 0x10, 0xF0, 0x10, 0xF0,
            0x90, 0x90, 0xF0, 0x10, 0x10, 0xF0, 0x80, 0xF0, 0x10, 0xF0,
            0xF0, 0x80, 0xF0, 0x90, 0xF0, 0xF0, 0x10, 0x20, 0x40, 0x40,
            0xF0, 0x90, 0xF0, 0x90, 0xF0, 0xF0, 0x90, 0xF0, 0x10, 0xF0,
            0xF0, 0x90, 0xF0, 0x90, 0x90, 0xE0, 0x90, 0xE0, 0x90, 0xE0,
            0xF0, 0x80, 0x80, 0x80, 0xF0, 0xE0, 0x90, 0x90, 0x90, 0xE0,
            0xF0, 0x80, 0xF0, 0x80, 0xF0, 0xF0, 0x80, 0xF0, 0x80, 0x80,
        ];
        assert(glyphs@ =~= font());
        let mut memory = [0u8; RAM_SIZE];
        let mut i: usize = 0;
        while i < FONT_SIZE
            invariant
                i <= FONT_SIZE,
                glyphs@ == font(),
                memory@.len() == RAM_SIZE,
                forall|j: int| 0 <= j < i ==> memory@[j] == font()[j],
                forall|j: int| i <= j < RAM_SIZE ==> memory@[j] == 0,
            decreases FONT_SIZE - i,
        {
            memory[i] = glyphs[i];
            i = i + 1;
        }
        let m = Memory { memory };
        assert(m@ =~= initial_memory());
        m
    }
}

} // verus!
