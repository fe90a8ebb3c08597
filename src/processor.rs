use vstd::prelude::*;

use crate::bus::Bus;
use crate::draw::{lemma_row, row_collides, row_hits, row_touches};
use crate::fault::Fault;
use crate::instruction::{decode, Instruction};
use crate::io::{frame, Audio, Display, Input, Pixel, SCREEN_HEIGHT, SCREEN_SIZE, SCREEN_WIDTH};
use crate::memory::{Memory, RAM_SIZE};
use crate::semantics::{
    advance, arith_step, bit_of, collides, covered, cycle_spec, draw_step, drawn_screen, executed,
    expired, fetch, finish_cycle, flag, flow_step, initial_state, load_step, loaded_regs,
    memory_step, next, reg, sample_keys, skip_if, skip_step, sprite_fault, sprite_row_addr, step,
    stored_regs, tick_delay, tick_sound, touches, with_regs, word_at, CpuState, Key,
    KEY_HOLD_MILLIS, START_ADDRESS,
};

verus! {

/// Pause, in milliseconds, after a frame has been shown (about 60 frames a second).
pub const FRAME_MILLIS: u64 = 17;

/// Relies on `rand::random::<u8>`, which draws a byte from the thread-local
/// generator. Nothing is known of the value.
#[verifier::external_body]
fn random_byte() -> u8 {
    rand::random::<u8>()
}

/// A processor: registers, program counter, stack, timers, screen and keys.
pub struct Processor {
    pc: u16,
    sp: u16,
    index: u16,
    delay_timer: u8,
    sound_timer: u8,
    draw_flag: bool,
    v: [u8; 16],
    stack: [u16; 16],
    screen: [bool; SCREEN_SIZE],
    keys: [Key; 16],
}

impl View for Processor {
    type V = CpuState;

    closed spec fn view(&self) -> CpuState {
        CpuState {
            pc: self.pc,
            sp: self.sp,
            index: self.index,
            delay_timer: self.delay_timer,
            sound_timer: self.sound_timer,
            draw_flag: self.draw_flag,
            v: self.v@,
            stack: self.stack@,
            screen: self.screen@,
            keys: self.keys@,
        }
    }
}

impl Processor {
    #[verifier::type_invariant]
    spec fn inv(&self) -> bool {
        self.sp <= 16
    }

    /// The big-endian word at `pointer`.
    fn read_address(pointer: u16, memory: &Memory) -> (r: u16)
        requires
            pointer + 1 < RAM_SIZE,
        ensures
            r == word_at(memory@, pointer as int),
    {
        let top = (memory.read_memory(pointer) as u16) << 8u16;
        let bot = memory.read_memory(pointer + 1) as u16;
        proof {
            let hi = memory@[pointer as int];
            let lo = memory@[pointer + 1];
            assert(((hi as u16) << 8u16) | (lo as u16) == (hi as int * 0x100 + lo as int) as u16)
                by (bit_vector);
        }
        top | bot
    }

    /// Fetches the instruction word at the program counter.
    fn load_opcode(&self, memory: &Memory) -> (r: Result<u16, Fault>)
        ensures
            r == fetch(self@, memory@),
    {
        if self.pc < (RAM_SIZE - 1) as u16 {
            Ok(Processor::read_address(self.pc, memory))
        } else {
            Err(Fault::AddressOutOfRange(self.pc))
        }
    }

    /// Counts the delay timer down by one, unless it is already zero.
    fn decrement_delay_timer(&mut self)
        ensures
            final(self)@ == tick_delay(old(self)@),
    {
        proof {
            use_type_invariant(&*self);
        }
        if self.delay_timer > 0 {
            self.delay_timer = self.delay_timer - 1;
        }
    }

    /// Counts the sound timer down by one, unless it is already zero. The
    /// result says whether this tick ends the tone: the timer went from 1 to 0.
    fn decrement_sound_timer(&mut self) -> (beep: bool)
        ensures
            final(self)@ == tick_sound(old(self)@),
            beep == (old(self)@.sound_timer == 1),
    {
        proof {
            use_type_invariant(&*self);
        }
        let mut beep = false;
        if self.sound_timer > 0 {
            if self.sound_timer == 1 {
                beep = true;
            }
            self.sound_timer = self.sound_timer - 1;
        }
        beep
    }

    /// Records a poll of the keypad at time `now` that reported `pressed`.
    /// Reported codes that name no key are ignored.
    fn set_pushed(&mut self, pressed: &Vec<u8>, now: u64)
        ensures
            final(self)@ == (CpuState { keys: sample_keys(old(self)@.keys, pressed@, now), ..old(self)@ }),
    {
        proof {
            use_type_invariant(&*self);
        }
        let mut k: usize = 0;
        while k < 16
            invariant
                k <= 16,
                self.sp == old(self).sp,
                self.sp <= 16,
                self@ == (CpuState { keys: self@.keys, ..old(self)@ }),
                forall|j: int|
                    0 <= j < k ==> self.keys@[j] == match old(self).keys@[j] {
                        Key::Down(t) => if expired(t, now) {
                            Key::Up
                        } else {
                            old(self).keys@[j]
                        },
                        Key::Up => Key::Up,
                    },
                forall|j: int| k <= j < 16 ==> self.keys@[j] == old(self).keys@[j],
            decreases 16 - k,
        {
            match self.keys[k] {
                Key::Down(t) => {
                    if now > t && now - t > KEY_HOLD_MILLIS {
                        self.keys[k] = Key::Up;
                    }
                },
                Key::Up => {},
            }
            k = k + 1;
        }
        let ghost expired_keys = self.keys@;
        let mut i: usize = 0;
        while i < pressed.len()
            invariant
                i <= pressed@.len(),
                self.sp == old(self).sp,
                self.sp <= 16,
                expired_keys.len() == 16,
                self@ == (CpuState { keys: self@.keys, ..old(self)@ }),
                forall|j: int|
                    0 <= j < 16 ==> self.keys@[j] == if pressed@.subrange(0, i as int).contains(
                        j as u8,
                    ) {
                        Key::Down(now)
                    } else {
                        expired_keys[j]
                    },
            decreases pressed@.len() - i,
        {
            let key = pressed[i];
            if key < 16 {
                self.keys[key as usize] = Key::Down(now);
            }
            proof {
                assert forall|j: int| 0 <= j < 16 implies (#[trigger] pressed@.subrange(0, i + 1).contains(
                    j as u8,
                ) <==> (pressed@.subrange(0, i as int).contains(j as u8) || key == j as u8)) by {
                    let s0 = pressed@.subrange(0, i as int);
                    let s1 = pressed@.subrange(0, i + 1);
                    if s1.contains(j as u8) {
                        let w = choose|w: int| 0 <= w < s1.len() && s1[w] == j as u8;
                        if w < i {
                            assert(s0[w] == j as u8);
                        }
                    }
                    if s0.contains(j as u8) {
                        let w = choose|w: int| 0 <= w < s0.len() && s0[w] == j as u8;
                        assert(s1[w] == j as u8);
                    }
                    if key == j as u8 {
                        assert(s1[i as int] == j as u8);
                    }
                }
            }
            i = i + 1;
        }
        proof {
            assert(pressed@.subrange(0, pressed@.len() as int) =~= pressed@);
            assert(self.keys@ =~= sample_keys(old(self)@.keys, pressed@, now));
            assert(self@ =~= (CpuState { keys: sample_keys(old(self)@.keys, pressed@, now), ..old(self)@ }));
        }
    }
}

impl Processor {
    /// XORs the eight bits of `byte` onto the screen cells `loc` to
    /// `loc + 7`, most significant bit first. Cells past the end of the
    /// screen are left out. `VF` becomes 1 if a cell that was on is turned
    /// off; the draw flag is raised if any cell flips.
    fn draw_byte(&mut self, loc: usize, byte: u8)
        requires
            loc < 0x10000,
        ensures
            forall|c: int|
                0 <= c < SCREEN_SIZE ==> final(self)@.screen[c] == (old(self)@.screen[c] != row_hits(
                    loc as int,
                    byte,
                    8,
                    c,
                )),
            final(self)@.v == (if row_collides(old(self)@.screen, loc as int, byte, 8) {
                old(self)@.v.update(0xF, 1)
            } else {
                old(self)@.v
            }),
            final(self)@.draw_flag == (old(self)@.draw_flag || row_touches(loc as int, byte, 8)),
            final(self)@ == (CpuState {
                screen: final(self)@.screen,
                v: final(self)@.v,
                draw_flag: final(self)@.draw_flag,
                ..old(self)@
            }),
    {
        proof {
            use_type_invariant(&*self);
        }
        let mut j: u8 = 0;
        while j < 8
            invariant
                j <= 8,
                loc < 0x10000,
                self.sp == old(self).sp,
                self.sp <= 16,
                forall|c: int|
                    0 <= c < SCREEN_SIZE ==> self.screen@[c] == (old(self)@.screen[c] != row_hits(
                        loc as int,
                        byte,
                        j as int,
                        c,
                    )),
                self.v@ == (if row_collides(old(self)@.screen, loc as int, byte, j as int) {
                    old(self)@.v.update(0xF, 1)
                } else {
                    old(self)@.v
                }),
                self.draw_flag == (old(self)@.draw_flag || row_touches(loc as int, byte, j as int)),
                self@ == (CpuState {
                    screen: self@.screen,
                    v: self@.v,
                    draw_flag: self@.draw_flag,
                    ..old(self)@
                }),
            decreases 8 - j,
        {
            let c = loc + j as usize;
            let set = byte & (0x80u8 >> j) != 0;
            proof {
                assert(set == bit_of(byte, c - loc));
                assert forall|d: int| #[trigger] row_hits(loc as int, byte, j + 1, d) == (row_hits(
                    loc as int,
                    byte,
                    j as int,
                    d,
                ) || (d == c && set)) by {}
                if row_collides(old(self)@.screen, loc as int, byte, j + 1) {
                    let d = choose|d: int|
                        0 <= d < SCREEN_SIZE && #[trigger] row_hits(loc as int, byte, j + 1, d)
                            && old(self)@.screen[d];
                    if d != c {
                        assert(row_hits(loc as int, byte, j as int, d));
                    }
                }
                if row_collides(old(self)@.screen, loc as int, byte, j as int) {
                    let d = choose|d: int|
                        0 <= d < SCREEN_SIZE && #[trigger] row_hits(loc as int, byte, j as int, d)
                            && old(self)@.screen[d];
                    assert(row_hits(loc as int, byte, j + 1, d));
                }
                if row_touches(loc as int, byte, j + 1) {
                    let d = choose|d: int|
                        0 <= d < SCREEN_SIZE && #[trigger] row_hits(loc as int, byte, j + 1, d);
                    if d != c {
                        assert(row_hits(loc as int, byte, j as int, d));
                    }
                }
                if row_touches(loc as int, byte, j as int) {
                    let d = choose|d: int|
                        0 <= d < SCREEN_SIZE && #[trigger] row_hits(loc as int, byte, j as int, d);
                    assert(row_hits(loc as int, byte, j + 1, d));
                }
                if set && c < SCREEN_SIZE {
                    assert(row_hits(loc as int, byte, j + 1, c as int));
                    assert(!row_hits(loc as int, byte, j as int, c as int));
                }
            }
            if set && c < SCREEN_SIZE {
                self.draw_flag = true;
                if self.screen[c] {
                    self.v[0xF] = 1;
                }
                self.screen[c] = !self.screen[c];
            }
            proof {
                assert(self.v@ =~= (if row_collides(old(self)@.screen, loc as int, byte, j + 1) {
                    old(self)@.v.update(0xF, 1)
                } else {
                    old(self)@.v
                }));
            }
            j = j + 1;
        }
    }

    /// Draws the `height`-row sprite stored at the index register with its
    /// top left corner at (`x`, `y`); see `drawn_screen`. `VF` becomes the
    /// collision flag. Rows below the bottom of the screen are not drawn.
    fn draw_sprite(&mut self, x: usize, y: usize, height: usize, memory: &Memory) -> (r: Result<(), Fault>)
        requires
            x < 0x100,
            y < 0x100,
            height < 0x10,
        ensures
            sprite_fault(old(self)@.index, y as int, height as int) ==> r == Err::<(), Fault>(
                Fault::AddressOutOfRange(old(self)@.index),
            ) && final(self)@ == old(self)@,
            !sprite_fault(old(self)@.index, y as int, height as int) ==> r is Ok && final(self)@ == (
            CpuState {
                screen: drawn_screen(
                    old(self)@.screen,
                    memory@,
                    old(self)@.index,
                    x as int,
                    y as int,
                    height as int,
                ),
                v: old(self)@.v.update(
                    0xF,
                    flag(
                        collides(
                            old(self)@.screen,
                            memory@,
                            old(self)@.index,
                            x as int,
                            y as int,
                            height as int,
                        ),
                    ),
                ),
                draw_flag: old(self)@.draw_flag || touches(
                    memory@,
                    old(self)@.index,
                    x as int,
                    y as int,
                    height as int,
                ),
                ..old(self)@
            }),
    {
        proof {
            use_type_invariant(&*self);
            memory.lemma_len();
        }
        let ghost mem = memory@;
        let ghost s0 = self@;
        let index = self.index;
        let mut i: usize = 0;
        while i < height
            invariant
                i <= height,
                height < 0x10,
                y < 0x100,
                index == s0.index,
                s0 == old(self)@,
                self@ == s0,
                mem.len() == RAM_SIZE,
                forall|q: int|
                    0 <= q < i && y + q < SCREEN_HEIGHT ==> #[trigger] sprite_row_addr(index, q) < RAM_SIZE,
            decreases height - i,
        {
            let addr = index.wrapping_add(i as u16);
            assert(addr == sprite_row_addr(index, i as int));
            if y + i < SCREEN_HEIGHT && addr as usize >= RAM_SIZE {
                assert(sprite_fault(index, y as int, height as int));
                return Err(Fault::AddressOutOfRange(index));
            }
            i = i + 1;
        }
        assert(!sprite_fault(index, y as int, height as int));
        self.v[0xF] = 0;
        let mut i: usize = 0;
        while i < height
            invariant
                i <= height,
                height < 0x10,
                x < 0x100,
                y < 0x100,
                index == s0.index,
                s0 == old(self)@,
                mem == memory@,
                mem.len() == RAM_SIZE,
                s0.screen.len() == SCREEN_SIZE,
                s0.v.len() == 16,
                self.sp == s0.sp,
                self.sp <= 16,
                forall|q: int|
                    0 <= q < height && y + q < SCREEN_HEIGHT ==> #[trigger] sprite_row_addr(index, q)
                        < RAM_SIZE,
                forall|c: int|
                    0 <= c < SCREEN_SIZE ==> self.screen@[c] == (s0.screen[c] != covered(
                        mem,
                        index,
                        x as int,
                        y as int,
                        i as int,
                        c,
                    )),
                self.v@ == s0.v.update(
                    0xF,
                    flag(collides(s0.screen, mem, index, x as int, y as int, i as int)),
                ),
                self.draw_flag == (s0.draw_flag || touches(mem, index, x as int, y as int, i as int)),
                self@ == (CpuState {
                    screen: self@.screen,
                    v: self@.v,
                    draw_flag: self@.draw_flag,
                    ..s0
                }),
            decreases height - i,
        {
            let loc = x + (y + i) * SCREEN_WIDTH;
            let byte = if y + i < SCREEN_HEIGHT {
                let addr = index.wrapping_add(i as u16);
                assert(addr == sprite_row_addr(index, i as int));
                memory.read_memory(addr)
            } else {
                0
            };
            let ghost before = self@;
            proof {
                lemma_row(mem, index, x as int, y as int, i as int, byte, s0.screen);
            }
            self.draw_byte(loc, byte);
            proof {
                assert forall|c: int| 0 <= c < SCREEN_SIZE && #[trigger] row_hits(loc as int, byte, 8, c)
                    implies before.screen[c] == s0.screen[c] by {
                    assert(!covered(mem, index, x as int, y as int, i as int, c));
                }
                assert(row_collides(before.screen, loc as int, byte, 8) == row_collides(
                    s0.screen,
                    loc as int,
                    byte,
                    8,
                ));
                assert(self.v@ =~= s0.v.update(
                    0xF,
                    flag(collides(s0.screen, mem, index, x as int, y as int, i + 1)),
                ));
            }
            i = i + 1;
        }
        proof {
            assert(self@.screen =~= drawn_screen(s0.screen, mem, index, x as int, y as int, height as int));
        }
        Ok(())
    }
}

impl Processor {
    /// Executes screen clear, jumps, calls and returns.
    fn exec_flow(&mut self, memory: &Memory, ins: Instruction) -> (r: Result<(), Fault>)
        requires
            ins.wf(),
            ins is ClearScreen || ins is Return || ins is Jump || ins is Call || ins is JumpOffset,
        ensures
            executed(
                r,
                (old(self)@, memory@),
                (final(self)@, memory@),
                flow_step(old(self)@, memory@, ins),
            ),
    {
        proof {
            use_type_invariant(&*self);
        }
        match ins {
            Instruction::ClearScreen => {
                self.screen = [false; SCREEN_SIZE];
                self.draw_flag = true;
                self.pc = self.pc.wrapping_add(2);
                assert(self@.screen =~= Seq::new(SCREEN_SIZE as nat, |c: int| false));
                assert(self@ =~= (CpuState {
                    screen: Seq::new(SCREEN_SIZE as nat, |c: int| false),
                    draw_flag: true,
                    pc: advance(old(self)@.pc, 2),
                    ..old(self)@
                }));
                Ok(())
            },
            Instruction::Return => {
                if self.sp == 0 {
                    return Err(Fault::StackUnderflow);
                }
                self.sp = self.sp - 1;
                self.pc = self.stack[self.sp as usize].wrapping_add(2);
                assert(self@ =~= (CpuState {
                    sp: (old(self)@.sp - 1) as u16,
                    pc: advance(old(self)@.stack[old(self)@.sp - 1], 2),
                    ..old(self)@
                }));
                Ok(())
            },
            Instruction::Jump { nnn } => {
                self.pc = nnn;
                assert(self@ =~= (CpuState { pc: nnn, ..old(self)@ }));
                Ok(())
            },
            Instruction::Call { nnn } => {
                if self.sp >= 16 {
                    return Err(Fault::StackOverflow);
                }
                self.stack[self.sp as usize] = self.pc;
                self.sp = self.sp + 1;
                self.pc = nnn;
                assert(self@ =~= (CpuState {
                    stack: old(self)@.stack.update(old(self)@.sp as int, old(self)@.pc),
                    sp: (old(self)@.sp + 1) as u16,
                    pc: nnn,
                    ..old(self)@
                }));
                Ok(())
            },
            Instruction::JumpOffset { nnn } => {
                self.pc = nnn + self.v[0] as u16;
                assert(self@ =~= (CpuState { pc: (nnn + reg(old(self)@, 0)) as u16, ..old(self)@ }));
                Ok(())
            },
            _ => Ok(()),
        }
    }

    /// Executes the conditional skips.
    /// Moves the program counter past the next instruction when `skip`
    /// holds, and to it otherwise.
    fn skip_next(&mut self, skip: bool)
        ensures
            final(self)@ == skip_if(old(self)@, skip),
    {
        proof {
            use_type_invariant(&*self);
        }
        if skip {
            self.pc = self.pc.wrapping_add(4);
        } else {
            self.pc = self.pc.wrapping_add(2);
        }
        assert(self@ =~= skip_if(old(self)@, skip));
    }

    fn exec_skip(&mut self, memory: &Memory, ins: Instruction) -> (r: Result<(), Fault>)
        requires
            ins.wf(),
            ins is SkipEqImm || ins is SkipNeImm || ins is SkipEqReg || ins is SkipNeReg
                || ins is SkipKeyDown || ins is SkipKeyUp,
        ensures
            executed(
                r,
                (old(self)@, memory@),
                (final(self)@, memory@),
                skip_step(old(self)@, memory@, ins),
            ),
    {
        proof {
            use_type_invariant(&*self);
        }
        let ghost s = old(self)@;
        match ins {
            Instruction::SkipEqImm { x, nn } => {
                let skip = self.v[x as usize] == nn;
                self.skip_next(skip);
                assert(self@ =~= skip_if(s, reg(s, x) == nn));
                Ok(())
            },
            Instruction::SkipNeImm { x, nn } => {
                let skip = self.v[x as usize] != nn;
                self.skip_next(skip);
                assert(self@ =~= skip_if(s, reg(s, x) != nn));
                Ok(())
            },
            Instruction::SkipEqReg { x, y } => {
                let skip = self.v[x as usize] == self.v[y as usize];
                self.skip_next(skip);
                assert(self@ =~= skip_if(s, reg(s, x) == reg(s, y)));
                Ok(())
            },
            Instruction::SkipNeReg { x, y } => {
                let skip = self.v[x as usize] != self.v[y as usize];
                self.skip_next(skip);
                assert(self@ =~= skip_if(s, reg(s, x) != reg(s, y)));
                Ok(())
            },
            Instruction::SkipKeyDown { x } => {
                let k = self.v[x as usize];
                if k >= 16 {
                    return Err(Fault::InvalidKey(k));
                }
                let down = match self.keys[k as usize] {
                    Key::Down(_) => true,
                    Key::Up => false,
                };
                self.keys[k as usize] = Key::Up;
                self.skip_next(down);
                assert(self@ =~= (CpuState {
                    keys: s.keys.update(k as int, Key::Up),
                    ..skip_if(s, s.keys[k as int] is Down)
                }));
                Ok(())
            },
            Instruction::SkipKeyUp { x } => {
                let k = self.v[x as usize];
                if k >= 16 {
                    return Err(Fault::InvalidKey(k));
                }
                let down = match self.keys[k as usize] {
                    Key::Down(_) => true,
                    Key::Up => false,
                };
                self.keys[k as usize] = Key::Up;
                self.skip_next(!down);
                assert(self@ =~= (CpuState {
                    keys: s.keys.update(k as int, Key::Up),
                    ..skip_if(s, s.keys[k as int] is Up)
                }));
                Ok(())
            },
            _ => Ok(()),
        }
    }

    /// Executes the register-to-register copy and bitwise instructions.
    fn exec_logic(&mut self, memory: &Memory, ins: Instruction) -> (r: Result<(), Fault>)
        requires
            ins.wf(),
            ins is Move || ins is Or || ins is And || ins is Xor,
        ensures
            executed(
                r,
                (old(self)@, memory@),
                (final(self)@, memory@),
                arith_step(old(self)@, memory@, ins),
            ),
    {
        proof {
            use_type_invariant(&*self);
        }
        let ghost s = old(self)@;
        match ins {
            Instruction::Move { x, y } => {
                self.v[x as usize] = self.v[y as usize];
                self.pc = self.pc.wrapping_add(2);
                assert(self@ =~= with_regs(s, s.v.update(x as int, reg(s, y))));
                Ok(())
            },
            Instruction::Or { x, y } => {
                self.v[x as usize] = self.v[x as usize] | self.v[y as usize];
                self.pc = self.pc.wrapping_add(2);
                assert(self@ =~= with_regs(s, s.v.update(x as int, reg(s, x) | reg(s, y))));
                Ok(())
            },
            Instruction::And { x, y } => {
                self.v[x as usize] = self.v[x as usize] & self.v[y as usize];
                self.pc = self.pc.wrapping_add(2);
                assert(self@ =~= with_regs(s, s.v.update(x as int, reg(s, x) & reg(s, y))));
                Ok(())
            },
            Instruction::Xor { x, y } => {
                self.v[x as usize] = self.v[x as usize] ^ self.v[y as usize];
                self.pc = self.pc.wrapping_add(2);
                assert(self@ =~= with_regs(s, s.v.update(x as int, reg(s, x) ^ reg(s, y))));
                Ok(())
            },
            _ => Ok(()),
        }
    }

    /// Executes the register-to-register additions, subtractions and shifts.
    fn exec_arith(&mut self, memory: &Memory, ins: Instruction) -> (r: Result<(), Fault>)
        requires
            ins.wf(),
            ins is AddReg || ins is SubReg || ins is ShiftRight || ins is SubRev || ins is ShiftLeft,
        ensures
            executed(
                r,
                (old(self)@, memory@),
                (final(self)@, memory@),
                arith_step(old(self)@, memory@, ins),
            ),
    {
        proof {
            use_type_invariant(&*self);
        }
        let ghost s = old(self)@;
        match ins {
            Instruction::AddReg { x, y } => {
                let (a, b) = (self.v[x as usize], self.v[y as usize]);
                self.v[x as usize] = a.wrapping_add(b);
                self.v[0xF] = if a as u16 + b as u16 > 0xFF { 1 } else { 0 };
                self.pc = self.pc.wrapping_add(2);
                assert(self@ =~= with_regs(s, s.v.update(x as int, ((a + b) % 0x100) as u8).update(
                    0xF,
                    flag(a + b > 0xFF),
                )));
                Ok(())
            },
            Instruction::SubReg { x, y } => {
                let (a, b) = (self.v[x as usize], self.v[y as usize]);
                self.v[x as usize] = a.wrapping_sub(b);
                self.v[0xF] = if a >= b { 1 } else { 0 };
                self.pc = self.pc.wrapping_add(2);
                assert(self@ =~= with_regs(s, s.v.update(x as int, ((a - b + 0x100) % 0x100) as u8).update(
                    0xF,
                    flag(a >= b),
                )));
                Ok(())
            },
            Instruction::ShiftRight { x, .. } => {
                let a = self.v[x as usize];
                let bit = a & 1;
                self.v[x as usize] = a >> 1u8;
                self.v[0xF] = bit;
                assert(a & 1 == a % 2 && a >> 1u8 == a / 2) by (bit_vector);
                self.pc = self.pc.wrapping_add(2);
                assert(self@ =~= with_regs(s, s.v.update(x as int, a / 2).update(0xF, a % 2)));
                Ok(())
            },
            Instruction::SubRev { x, y } => {
                let (a, b) = (self.v[x as usize], self.v[y as usize]);
                self.v[x as usize] = b.wrapping_sub(a);
                self.v[0xF] = if b >= a { 1 } else { 0 };
                self.pc = self.pc.wrapping_add(2);
                assert(self@ =~= with_regs(s, s.v.update(x as int, ((b - a + 0x100) % 0x100) as u8).update(
                    0xF,
                    flag(b >= a),
                )));
                Ok(())
            },
            Instruction::ShiftLeft { x, .. } => {
                let a = self.v[x as usize];
                let bit = (a >> 7u8) & 1;
                self.v[x as usize] = a << 1u8;
                self.v[0xF] = bit;
                assert((a >> 7u8) & 1 == a / 0x80 && a << 1u8 == ((a * 2) % 0x100) as u8)
                    by (bit_vector);
                self.pc = self.pc.wrapping_add(2);
                assert(self@ =~= with_regs(s, s.v.update(x as int, ((a * 2) % 0x100) as u8).update(0xF, a / 0x80)));
                Ok(())
            },
            _ => Ok(()),
        }
    }

    /// Executes the instructions that load a register from an immediate, a
    /// timer, a key or a random byte.
    fn exec_load(&mut self, memory: &Memory, ins: Instruction, random: u8, key: u8) -> (r: Result<(), Fault>)
        requires
            ins.wf(),
            ins is LoadImm || ins is AddImm || ins is Random || ins is LoadDelay || ins is WaitKey,
        ensures
            executed(
                r,
                (old(self)@, memory@),
                (final(self)@, memory@),
                load_step(old(self)@, memory@, ins, random, key),
            ),
    {
        proof {
            use_type_invariant(&*self);
        }
        let ghost s = old(self)@;
        match ins {
            Instruction::LoadImm { x, nn } => {
                self.v[x as usize] = nn;
                self.pc = self.pc.wrapping_add(2);
                assert(self@ =~= with_regs(s, s.v.update(x as int, nn)));
                Ok(())
            },
            Instruction::AddImm { x, nn } => {
                self.v[x as usize] = self.v[x as usize].wrapping_add(nn);
                self.pc = self.pc.wrapping_add(2);
                assert(self@ =~= with_regs(s, s.v.update(x as int, ((reg(s, x) + nn) % 0x100) as u8)));
                Ok(())
            },
            Instruction::Random { x, nn } => {
                self.v[x as usize] = random & nn;
                self.pc = self.pc.wrapping_add(2);
                assert(self@ =~= with_regs(s, s.v.update(x as int, random & nn)));
                Ok(())
            },
            Instruction::LoadDelay { x } => {
                self.v[x as usize] = self.delay_timer;
                self.pc = self.pc.wrapping_add(2);
                assert(self@ =~= with_regs(s, s.v.update(x as int, s.delay_timer)));
                Ok(())
            },
            Instruction::WaitKey { x } => {
                self.v[x as usize] = key;
                self.pc = self.pc.wrapping_add(2);
                assert(self@ =~= with_regs(s, s.v.update(x as int, key)));
                Ok(())
            },
            _ => Ok(()),
        }
    }

    /// Executes the instructions that set a timer or the index register.
    fn exec_index(&mut self, memory: &Memory, ins: Instruction) -> (r: Result<(), Fault>)
        requires
            ins.wf(),
            ins is LoadIndex || ins is SetDelay || ins is SetSound || ins is AddIndex || ins is FontGlyph,
        ensures
            executed(
                r,
                (old(self)@, memory@),
                (final(self)@, memory@),
                load_step(old(self)@, memory@, ins, 0, 0),
            ),
    {
        proof {
            use_type_invariant(&*self);
        }
        let ghost s = old(self)@;
        match ins {
            Instruction::LoadIndex { nnn } => {
                self.index = nnn;
                self.pc = self.pc.wrapping_add(2);
                assert(self@ =~= (CpuState { index: nnn, ..next(s) }));
                Ok(())
            },
            Instruction::SetDelay { x } => {
                self.delay_timer = self.v[x as usize];
                self.pc = self.pc.wrapping_add(2);
                assert(self@ =~= (CpuState { delay_timer: reg(s, x), ..next(s) }));
                Ok(())
            },
            Instruction::SetSound { x } => {
                self.sound_timer = self.v[x as usize];
                self.pc = self.pc.wrapping_add(2);
                assert(self@ =~= (CpuState { sound_timer: reg(s, x), ..next(s) }));
                Ok(())
            },
            Instruction::AddIndex { x } => {
                let a = self.v[x as usize];
                let carry = self.index as u32 + a as u32 > 0xFFFF;
                self.index = self.index.wrapping_add(a as u16);
                self.v[0xF] = if carry { 1 } else { 0 };
                self.pc = self.pc.wrapping_add(2);
                assert(self@ =~= (CpuState {
                    index: ((s.index + a) % 0x10000) as u16,
                    ..with_regs(s, s.v.update(0xF, flag(s.index + a > 0xFFFF)))
                }));
                Ok(())
            },
            Instruction::FontGlyph { x } => {
                self.index = self.v[x as usize] as u16 * 5;
                self.pc = self.pc.wrapping_add(2);
                assert(self@ =~= (CpuState { index: (reg(s, x) * 5) as u16, ..next(s) }));
                Ok(())
            },
            _ => Ok(()),
        }
    }

    /// Executes an instruction that moves data between registers and memory
    /// at the index register.
    fn exec_memory(&mut self, memory: &mut Memory, ins: Instruction) -> (r: Result<(), Fault>)
        requires
            ins.wf(),
            ins is StoreBcd || ins is StoreRegs || ins is LoadRegs,
        ensures
            executed(
                r,
                (old(self)@, old(memory)@),
                (final(self)@, final(memory)@),
                memory_step(old(self)@, old(memory)@, ins),
            ),
    {
        proof {
            use_type_invariant(&*self);
            memory.lemma_len();
        }
        let index = self.index;
        match ins {
            Instruction::StoreBcd { x } => {
                if index as usize + 2 >= RAM_SIZE {
                    return Err(Fault::AddressOutOfRange(index));
                }
                let a = self.v[x as usize];
                memory.write_memory(index, a / 100);
                memory.write_memory(index + 1, (a / 10) % 100);
                memory.write_memory(index + 2, (a % 100) % 10);
            },
            Instruction::StoreRegs { x } => {
                if index as usize + x as usize >= RAM_SIZE {
                    return Err(Fault::AddressOutOfRange(index));
                }
                let mut j: u16 = 0;
                while j <= x as u16
                    invariant
                        x < 16,
                        index + x < RAM_SIZE,
                        j <= x + 1,
                        self.v@.len() == 16,
                        memory@.len() == RAM_SIZE,
                        forall|a: int|
                            0 <= a < RAM_SIZE ==> memory@[a] == if index <= a < index + j {
                                self.v@[a - index]
                            } else {
                                old(memory)@[a]
                            },
                    decreases x + 1 - j,
                {
                    memory.write_memory(index + j, self.v[j as usize]);
                    j = j + 1;
                }
                assert(memory@ =~= stored_regs(old(memory)@, self@.v, index, x));
            },
            Instruction::LoadRegs { x } => {
                if index as usize + x as usize >= RAM_SIZE {
                    return Err(Fault::AddressOutOfRange(index));
                }
                let mut j: u16 = 0;
                while j <= x as u16
                    invariant
                        x < 16,
                        index + x < RAM_SIZE,
                        j <= x + 1,
                        self.sp == old(self).sp,
                        self.sp <= 16,
                        memory@.len() == RAM_SIZE,
                        self@ == (CpuState { v: self@.v, ..old(self)@ }),
                        self.v@.len() == 16,
                        forall|a: int|
                            0 <= a < 16 ==> self.v@[a] == if a < j {
                                memory@[index + a]
                            } else {
                                old(self)@.v[a]
                            },
                    decreases x + 1 - j,
                {
                    self.v[j as usize] = memory.read_memory(index + j);
                    j = j + 1;
                }
                assert(self@.v =~= loaded_regs(memory@, old(self)@.v, index, x));
            },
            _ => {},
        }
        self.pc = self.pc.wrapping_add(2);
        proof {
            let expected = memory_step(old(self)@, old(memory)@, ins);
            if let Ok((s, m)) = expected {
                assert(self@ =~= s);
                assert(memory@ =~= m);
            }
        }
        Ok(())
    }

    /// Executes one decoded instruction on this processor and `memory`.
    /// `random` is the random byte used by `CXNN` and `key` the key that
    /// `FX0A` stores; other instructions ignore them. On a fault nothing
    /// changes.
    pub fn execute(&mut self, memory: &mut Memory, ins: Instruction, random: u8, key: u8) -> (r: Result<(), Fault>)
        requires
            ins.wf(),
        ensures
            executed(
                r,
                (old(self)@, old(memory)@),
                (final(self)@, final(memory)@),
                step(old(self)@, old(memory)@, ins, random, key),
            ),
            final(self)@.wf(),
    {
        proof {
            use_type_invariant(&*self);
        }
        let r = match ins {
            Instruction::StoreBcd { .. } | Instruction::StoreRegs { .. } | Instruction::LoadRegs { .. } => {
                self.exec_memory(memory, ins)
            },
            Instruction::Draw { x, y, n } => {
                let px = self.v[x as usize] as usize;
                let py = self.v[y as usize] as usize;
                let r = self.draw_sprite(px, py, n as usize, memory);
                if r.is_ok() {
                    self.pc = self.pc.wrapping_add(2);
                    proof {
                        if let Ok((s, m)) = draw_step(old(self)@, old(memory)@, ins) {
                            assert(self@ =~= s);
                        }
                    }
                }
                r
            },
            Instruction::ClearScreen | Instruction::Return | Instruction::Jump { .. }
            | Instruction::Call { .. } | Instruction::JumpOffset { .. } => {
                self.exec_flow(memory, ins)
            },
            Instruction::SkipEqImm { .. } | Instruction::SkipNeImm { .. }
            | Instruction::SkipEqReg { .. } | Instruction::SkipNeReg { .. }
            | Instruction::SkipKeyDown { .. } | Instruction::SkipKeyUp { .. } => {
                self.exec_skip(memory, ins)
            },
            Instruction::Move { .. } | Instruction::Or { .. } | Instruction::And { .. }
            | Instruction::Xor { .. } => self.exec_logic(memory, ins),
            Instruction::AddReg { .. } | Instruction::SubReg { .. } | Instruction::ShiftRight { .. }
            | Instruction::SubRev { .. } | Instruction::ShiftLeft { .. } => self.exec_arith(memory, ins),
            Instruction::LoadIndex { .. } | Instruction::SetDelay { .. } | Instruction::SetSound { .. }
            | Instruction::AddIndex { .. } | Instruction::FontGlyph { .. } => self.exec_index(memory, ins),
            _ => self.exec_load(memory, ins, random, key),
        };
        proof {
            use_type_invariant(&*self);
        }
        r
    }
}

impl Processor {
    /// Hands every pixel of the screen to `display`, row by row, then
    /// refreshes it. Pixels that the display refuses are skipped.
    fn print_screen<D: Display>(&self, display: &mut D)
        ensures
            final(display).sent() == old(display).sent() + frame(self@.screen),
            final(display).refreshes() == old(display).refreshes() + 1,
    {
        let ghost start = display.sent();
        let ghost full = frame(self@.screen);
        let mut row: usize = 0;
        while row < SCREEN_HEIGHT
            invariant
                row <= SCREEN_HEIGHT,
                full == frame(self@.screen),
                display.sent() == start + full.subrange(0, row * SCREEN_WIDTH),
                display.refreshes() == old(display).refreshes(),
                start == old(display).sent(),
            decreases SCREEN_HEIGHT - row,
        {
            let mut col: usize = 0;
            while col < SCREEN_WIDTH
                invariant
                    row < SCREEN_HEIGHT,
                    col <= SCREEN_WIDTH,
                    full == frame(self@.screen),
                    display.sent() == start + full.subrange(0, row * SCREEN_WIDTH + col),
                    display.refreshes() == old(display).refreshes(),
                decreases SCREEN_WIDTH - col,
            {
                let c = SCREEN_WIDTH * row + col;
                let pixel = if self.screen[c] {
                    Pixel::On
                } else {
                    Pixel::Off
                };
                let _ = display.set(row, col, pixel);
                proof {
                    assert(c / 64 == row && c % 64 == col) by (nonlinear_arith)
                        requires
                            c == 64 * row + col,
                            col < 64,
                    ;
                    assert(full[c as int] == (row, col, pixel));
                    assert(full.subrange(0, c + 1) =~= full.subrange(0, c as int).push(full[c as int]));
                    assert(start + full.subrange(0, c + 1) =~= (start + full.subrange(0, c as int)).push(
                        (row, col, pixel),
                    ));
                }
                col = col + 1;
            }
            row = row + 1;
        }
        assert(full.subrange(0, SCREEN_SIZE as int) =~= full);
        display.refresh();
    }

    /// Runs one cycle at time `now` (in milliseconds, from any fixed
    /// origin): fetches, decodes and executes the instruction at the program
    /// counter, ticks both timers (beeping when the sound timer runs out),
    /// polls the keypad, and shows the screen if it changed. Returns whether
    /// the screen was shown, after which the caller should pause for
    /// `FRAME_MILLIS`; or the fault that stops the machine, in which case
    /// nothing has changed. The random byte for `CXNN`, the key awaited by
    /// `FX0A` and the keys reported by the poll come from outside, so the
    /// outcome is `cycle_spec` for some values of them.
    pub fn cycle<A: Audio, D: Display, I: Input>(&mut self, bus: &mut Bus<A, D, I>, now: u64) -> (r: Result<bool, Fault>)
        ensures
            exists|random: u8, key: u8, pressed: Seq<u8>|
                #[trigger] cycle_spec(old(self)@, old(bus).memory@, random, key, pressed, now) == (
                    r,
                    final(self)@,
                    final(bus).memory@,
                ),
            final(self)@.wf(),
            r == Ok::<bool, Fault>(true) ==> final(bus).display.sent() == old(bus).display.sent()
                + frame(final(self)@.screen) && final(bus).display.refreshes() == old(
                bus,
            ).display.refreshes() + 1,
            r != Ok::<bool, Fault>(true) ==> final(bus).display.sent() == old(bus).display.sent()
                && final(bus).display.refreshes() == old(bus).display.refreshes(),
    {
        proof {
            use_type_invariant(&*self);
        }
        let ghost s0 = self@;
        let ghost m0 = bus.memory@;
        let word = match self.load_opcode(&bus.memory) {
            Ok(w) => w,
            Err(f) => {
                assert(cycle_spec(s0, m0, 0, 0, Seq::empty(), now) == (
                    Err::<bool, Fault>(f),
                    self@,
                    bus.memory@,
                ));
                return Err(f);
            },
        };
        let ins = match decode(word) {
            Ok(ins) => ins,
            Err(f) => {
                assert(cycle_spec(s0, m0, 0, 0, Seq::empty(), now) == (
                    Err::<bool, Fault>(f),
                    self@,
                    bus.memory@,
                ));
                return Err(f);
            },
        };
        let random = match ins {
            Instruction::Random { .. } => random_byte(),
            _ => 0,
        };
        let key = match ins {
            Instruction::WaitKey { .. } => bus.input.get_key(),
            _ => 0,
        };
        match self.execute(&mut bus.memory, ins, random, key) {
            Ok(()) => {},
            Err(f) => {
                assert(cycle_spec(s0, m0, random, key, Seq::empty(), now) == (
                    Err::<bool, Fault>(f),
                    self@,
                    bus.memory@,
                ));
                return Err(f);
            },
        }
        let ghost executed_state = self@;
        self.decrement_delay_timer();
        if self.decrement_sound_timer() {
            bus.audio.beep();
        }
        let pressed = bus.input.get_keys();
        self.set_pushed(&pressed, now);
        let drawn = self.draw_flag;
        if drawn {
            self.print_screen(&mut bus.display);
            self.draw_flag = false;
        }
        proof {
            use_type_invariant(&*self);
        }
        assert(self@ =~= finish_cycle(executed_state, pressed@, now));
        assert(cycle_spec(s0, m0, random, key, pressed@, now) == (
            Ok::<bool, Fault>(drawn),
            self@,
            bus.memory@,
        ));
        Ok(drawn)
    }
}

impl Default for Processor {
    fn default() -> (p: Processor)
        ensures
            p@ == initial_state(),
            p@.wf(),
    {
        let mut keys: [Key; 16] = [Key::Up; 16];
        let mut k: usize = 0;
        while k < 16
            invariant
                k <= 16,
                forall|i: int| 0 <= i < k ==> keys@[i] == Key::Up,
            decreases 16 - k,
        {
            keys[k] = Key::Up;
            k = k + 1;
        }
        let p = Processor {
            pc: START_ADDRESS,
            sp: 0,
            index: 0,
            delay_timer: 0,
            sound_timer: 0,
            draw_flag: false,
            v: [0u8; 16],
            stack: [0u16; 16],
            screen: [false; SCREEN_SIZE],
            keys,
        };
        assert(p@.v =~= initial_state().v);
        assert(p@.stack =~= initial_state().stack);
        assert(p@.screen =~= initial_state().screen);
        assert(p@.keys =~= initial_state().keys);
        assert(p@ =~= initial_state());
        p
    }
}

} // verus!
