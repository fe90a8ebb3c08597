use chip_8::memory::{Memory, FONT_SIZE, RAM_SIZE};

#[test]
fn test_memory_write() {
    let mut memory = Memory::default();
    let mut values = [0x0u8; RAM_SIZE];

    for i in 0x0..RAM_SIZE {
        for j in 0x0..0x100 {
            let index = i as u16;
            let value = j as u8;

            values[i] = value;
            memory.write_memory(index, value);
            assert_eq!(values[i], memory.read_memory(index));
        }
    }
}

#[test]
fn test_memory_set_range() {
    let mut memory = Memory::default();
    let mut values = [0x0u8; RAM_SIZE];

    for i in 0x0..(RAM_SIZE - 0x200) {
        values[i] = rand::random::<u8>();
    }

    memory.set_range(0x200, &values[0x200..]);

    for i in 0x200..RAM_SIZE {
        assert_eq!(values[i], memory.read_memory(i as u16));
    }
}

#[test]
fn fresh_memory_holds_font_then_zeroes() {
    let memory = Memory::default();
    let glyph_zero = [0xF0, 0x90, 0x90, 0x90, 0xF0];
    let glyph_f = [0xF0, 0x80, 0xF0, 0x80, 0x80];
    for i in 0..5 {
        assert_eq!(memory.read_memory(i as u16), glyph_zero[i]);
        assert_eq!(memory.read_memory((0x4B + i) as u16), glyph_f[i]);
    }
    for i in FONT_SIZE..RAM_SIZE {
        assert_eq!(memory.read_memory(i as u16), 0);
    }
}

#[test]
fn set_range_leaves_neighbours_alone() {
    let mut memory = Memory::default();
    memory.write_memory(0x2FF, 0xAA);
    memory.write_memory(0x303, 0xBB);
    memory.set_range(0x300, &[1, 2, 3]);
    assert_eq!(memory.read_memory(0x2FF), 0xAA);
    assert_eq!(memory.read_memory(0x300), 1);
    assert_eq!(memory.read_memory(0x301), 2);
    assert_eq!(memory.read_memory(0x302), 3);
    assert_eq!(memory.read_memory(0x303), 0xBB);
}

#[test]
fn set_range_reaches_last_byte() {
    let mut memory = Memory::default();
    memory.set_range((RAM_SIZE - 2) as u16, &[7, 9]);
    assert_eq!(memory.read_memory((RAM_SIZE - 2) as u16), 7);
    assert_eq!(memory.read_memory((RAM_SIZE - 1) as u16), 9);
    memory.set_range(0x100, &[]);
    assert_eq!(memory.read_memory(0x100), 0);
}
