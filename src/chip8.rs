use vstd::prelude::*;

use crate::bus::Bus;
use crate::fault::Fault;
use crate::io::{frame, Audio, Display, Input};
use crate::memory::{initial_memory, RAM_SIZE};
use crate::processor::Processor;
use crate::semantics::{cycle_spec, initial_state, CpuState, START_ADDRESS};

verus! {

/// The largest program that fits in memory after `START_ADDRESS`.
pub const MAX_ROM_SIZE: usize = 0xE00;

/// A whole machine: a processor and the bus it works on.
pub struct Chip8<A, D, I> {
    processor: Processor,
    bus: Bus<A, D, I>,
}

impl<A, D, I> View for Chip8<A, D, I> {
    type V = (CpuState, Seq<u8>);

    /// The processor state and the memory contents.
    closed spec fn view(&self) -> (CpuState, Seq<u8>) {
        (self.processor@, self.bus.memory@)
    }
}

impl<A: Audio, D: Display, I: Input> Chip8<A, D, I> {
    /// The display device.
    pub closed spec fn display(&self) -> D {
        self.bus.display
    }

    /// A machine with a fresh processor and memory and the given devices.
    pub fn new(audio: A, display: D, input: I) -> (c: Chip8<A, D, I>)
        ensures
            c@ == (initial_state(), initial_memory()),
            c@.0.wf(),
            c@.1.len() == RAM_SIZE,
    {
        Chip8 { processor: Processor::default(), bus: Bus::new(audio, display, input) }
    }

    /// Copies a program into memory at `START_ADDRESS`.
    pub fn load_rom(&mut self, buff: &[u8])
        requires
            buff@.len() <= MAX_ROM_SIZE,
        ensures
            final(self)@.0 == old(self)@.0,
            final(self)@.1.len() == RAM_SIZE,
            final(self)@.1 == old(self)@.1.subrange(0, START_ADDRESS as int) + buff@ + old(
                self,
            )@.1.subrange(START_ADDRESS + buff@.len(), RAM_SIZE as int),
    {
        proof {
            self.bus.memory.lemma_len();
        }
        self.bus.memory.set_range(START_ADDRESS, buff);
        proof {
            self.bus.memory.lemma_len();
        }
    }

    /// Runs one cycle at time `now`; see `Processor::cycle`.
    pub fn cycle(&mut self, now: u64) -> (r: Result<bool, Fault>)
        ensures
            exists|random: u8, key: u8, pressed: Seq<u8>|
                #[trigger] cycle_spec(old(self)@.0, old(self)@.1, random, key, pressed, now) == (
                    r,
                    final(self)@.0,
                    final(self)@.1,
                ),
            final(self)@.0.wf(),
            final(self)@.1.len() == RAM_SIZE,
            r == Ok::<bool, Fault>(true) ==> final(self).display().sent() == old(self).display().sent()
                + frame(final(self)@.0.screen) && final(self).display().refreshes() == old(
                self,
            ).display().refreshes() + 1,
            r != Ok::<bool, Fault>(true) ==> final(self).display().sent() == old(self).display().sent()
                && final(self).display().refreshes() == old(self).display().refreshes(),
    {
        let r = self.processor.cycle(&mut self.bus, now);
        proof {
            self.bus.memory.lemma_len();
            let (random, key, pressed) = choose|random: u8, key: u8, pressed: Seq<u8>|
                #[trigger] cycle_spec(old(self).processor@, old(self).bus.memory@, random, key, pressed, now)
                    == (r, self.processor@, self.bus.memory@);
            assert(cycle_spec(old(self)@.0, old(self)@.1, random, key, pressed, now) == (r, self@.0, self@.1));
        }
        r
    }
}

} // verus!
