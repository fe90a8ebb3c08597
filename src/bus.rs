use vstd::prelude::*;

use crate::io::{Audio, Display, Input};
use crate::memory::{initial_memory, Memory};

verus! {

/// The memory and the three devices that a processor works with.
pub struct Bus<A, D, I> {
    pub memory: Memory,
    pub audio: A,
    pub display: D,
    pub input: I,
}

impl<A: Audio, D: Display, I: Input> Bus<A, D, I> {
    /// A bus over a fresh memory and the given devices.
    pub fn new(audio: A, display: D, input: I) -> (b: Bus<A, D, I>)
        ensures
            b.memory@ == initial_memory(),
            b.audio == audio,
            b.display == display,
            b.input == input,
    {
        Bus { memory: Memory::default(), audio, display, input }
    }
}

} // verus!
