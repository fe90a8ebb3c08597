use vstd::prelude::*;

verus! {

/// Width of the screen in pixels.
pub const SCREEN_WIDTH: usize = 0x40;

/// Height of the screen in pixels.
pub const SCREEN_HEIGHT: usize = 0x20;

/// Number of pixels on the screen.
pub const SCREEN_SIZE: usize = 0x800;

/// The state of one pixel as handed to a display.
#[derive(Clone, Copy, Debug, PartialEq, Eq, Structural)]
pub enum Pixel {
    On,
    Off,
}

/// A device that can sound a short tone.
pub trait Audio {
    fn beep(&self);
}

/// A device that shows the screen: `set` stages one pixel, `refresh` shows
/// everything staged so far. `set` may refuse a pixel it cannot show; the
/// request is recorded either way. `sent` is every `set` request received so
/// far, oldest first, and `refreshes` counts the refreshes. The model is
/// ghost: the library's own code works over any `Display` and never relies
/// on the default bodies, which only spare implementations written outside
/// verified code from defining it.
pub trait Display {
    closed spec fn sent(&self) -> Seq<(usize, usize, Pixel)> {
        Seq::empty()
    }

    closed spec fn refreshes(&self) -> nat {
        0
    }

    fn set(&mut self, row: usize, col: usize, state: Pixel) -> (r: Result<(), ()>)
        ensures
            final(self).sent() == old(self).sent().push((row, col, state)),
            final(self).refreshes() == old(self).refreshes(),
    ;

    fn refresh(&mut self)
        ensures
            final(self).sent() == old(self).sent(),
            final(self).refreshes() == old(self).refreshes() + 1,
    ;
}

/// The pixel requests that show `screen` in full: one per cell, row by row,
/// `On` for a cell that is on and `Off` otherwise.
pub open spec fn frame(screen: Seq<bool>) -> Seq<(usize, usize, Pixel)> {
    Seq::new(
        SCREEN_SIZE as nat,
        |c: int|
            (
                (c / SCREEN_WIDTH as int) as usize,
                (c % SCREEN_WIDTH as int) as usize,
                if screen[c] {
                    Pixel::On
                } else {
                    Pixel::Off
                },
            ),
    )
}

/// A keypad of sixteen keys, numbered 0 to 15.
pub trait Input {
    /// The keys pressed since the last poll, in any order.
    fn get_keys(&self) -> Vec<u8>;

    /// Waits for a key press and returns it.
    fn get_key(&self) -> u8;
}

/// The keypad key bound to a keyboard character code. The left four columns
/// of a QWERTY keyboard stand for the keypad:
/// `1 2 3 4` / `q w e r` / `a s d f` / `z x c v` give keys 0 to 15 in that order.
pub open spec fn key_binding(code: i32) -> Option<u8> {
    if code == 0x31 { Some(0x0u8) }
    else if code == 0x32 { Some(0x1u8) }
    else if code == 0x33 { Some(0x2u8) }
    else if code == 0x34 { Some(0x3u8) }
    else if code == 0x71 { Some(0x4u8) }
    else if code == 0x77 { Some(0x5u8) }
    else if code == 0x65 { Some(0x6u8) }
    else if code == 0x72 { Some(0x7u8) }
    else if code == 0x61 { Some(0x8u8) }
    else if code == 0x73 { Some(0x9u8) }
    else if code == 0x64 { Some(0xAu8) }
    else if code == 0x66 { Some(0xBu8) }
    else if code == 0x7A { Some(0xCu8) }
    else if code == 0x78 { Some(0xDu8) }
    else if code == 0x63 { Some(0xEu8) }
    else if code == 0x76 { Some(0xFu8) }
    else { None }
}

/// Maps a keyboard character code to the keypad key bound to it, if any.
pub fn map_key(code: i32) -> (r: Option<u8>)
    ensures
        r == key_binding(code),
        r matches Some(k) ==> k < 16,
{
    match code {
        0x31 => Some(0x0),
        0x32 => Some(0x1),
        0x33 => Some(0x2),
        0x34 => Some(0x3),
        0x71 => Some(0x4),
        0x77 => Some(0x5),
        0x65 => Some(0x6),
        0x72 => Some(0x7),
        0x61 => Some(0x8),
        0x73 => Some(0x9),
        0x64 => Some(0xA),
        0x66 => Some(0xB),
        0x7A => Some(0xC),
        0x78 => Some(0xD),
        0x63 => Some(0xE),
        0x76 => Some(0xF),
        _ => None,
    }
}

} // verus!
