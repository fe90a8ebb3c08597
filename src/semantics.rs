use vstd::prelude::*;

use crate::fault::Fault;
use crate::instruction::{decode_spec, Instruction};
use crate::io::{SCREEN_HEIGHT, SCREEN_SIZE, SCREEN_WIDTH};
use crate::memory::RAM_SIZE;

verus! {

/// Address at which programs are loaded and execution starts.
pub const START_ADDRESS: u16 = 0x200;

/// How long, in milliseconds, a reported key stays down unless reported again.
pub const KEY_HOLD_MILLIS: u64 = 1000;

/// The state of one keypad key: up, or down since it was last reported at
/// the given time in milliseconds. Keys are debounced: a reported key stays
/// down for `KEY_HOLD_MILLIS` unless reported again, and the two key-test
/// instructions release the key they test.
#[derive(Clone, Copy, Debug, PartialEq, Eq, Structural)]
pub enum Key {
    Up,
    Down(u64),
}

/// The mathematical model of a processor.
#[verifier::ext_equal]
pub struct CpuState {
    pub pc: u16,
    pub sp: u16,
    pub index: u16,
    pub delay_timer: u8,
    pub sound_timer: u8,
    pub draw_flag: bool,
    pub v: Seq<u8>,
    pub stack: Seq<u16>,
    pub screen: Seq<bool>,
    pub keys: Seq<Key>,
}

impl CpuState {
    /// Sixteen registers, sixteen stack entries of which `sp` are in use,
    /// one flag per pixel and sixteen keys.
    pub open spec fn wf(self) -> bool {
        &&& self.v.len() == 16
        &&& self.stack.len() == 16
        &&& self.sp <= 16
        &&& self.screen.len() == SCREEN_SIZE
        &&& self.keys.len() == 16
    }
}

/// The state of a freshly built processor.
pub open spec fn initial_state() -> CpuState {
    CpuState {
        pc: START_ADDRESS,
        sp: 0,
        index: 0,
        delay_timer: 0,
        sound_timer: 0,
        draw_flag: false,
        v: Seq::new(16, |i: int| 0u8),
        stack: Seq::new(16, |i: int| 0u16),
        screen: Seq::new(SCREEN_SIZE as nat, |i: int| false),
        keys: Seq::new(16, |i: int| Key::Up),
    }
}

/// The big-endian word made of the bytes at `a` and `a + 1`.
pub open spec fn word_at(mem: Seq<u8>, a: int) -> u16 {
    (mem[a] as int * 0x100 + mem[a + 1] as int) as u16
}

/// The instruction word at the program counter, or the fault of fetching it.
pub open spec fn fetch(s: CpuState, mem: Seq<u8>) -> Result<u16, Fault> {
    if s.pc + 1 < RAM_SIZE {
        Ok(word_at(mem, s.pc as int))
    } else {
        Err(Fault::AddressOutOfRange(s.pc))
    }
}

/// The delay timer after one tick.
pub open spec fn tick_delay(s: CpuState) -> CpuState {
    if s.delay_timer > 0 {
        CpuState { delay_timer: (s.delay_timer - 1) as u8, ..s }
    } else {
        s
    }
}

/// The sound timer after one tick.
pub open spec fn tick_sound(s: CpuState) -> CpuState {
    if s.sound_timer > 0 {
        CpuState { sound_timer: (s.sound_timer - 1) as u8, ..s }
    } else {
        s
    }
}

/// Whether a key reported down at time `t` has been released by time `now`.
pub open spec fn expired(t: u64, now: u64) -> bool {
    now > t + KEY_HOLD_MILLIS
}

/// The key states after a poll at time `now` that reported `pressed`: a
/// reported key is down as of `now`; any other key that has been down for
/// longer than `KEY_HOLD_MILLIS` is up; the rest keep their state.
pub open spec fn sample_keys(keys: Seq<Key>, pressed: Seq<u8>, now: u64) -> Seq<Key> {
    Seq::new(
        keys.len(),
        |k: int|
            if pressed.contains(k as u8) {
                Key::Down(now)
            } else {
                match keys[k] {
                    Key::Down(t) => if expired(t, now) {
                        Key::Up
                    } else {
                        keys[k]
                    },
                    Key::Up => Key::Up,
                }
            },
    )
}

/// The program counter `k` bytes further on, wrapping at 16 bits.
pub open spec fn advance(pc: u16, k: int) -> u16 {
    ((pc + k) % 0x10000) as u16
}

/// The value of register `x`.
pub open spec fn reg(s: CpuState, x: u8) -> u8 {
    s.v[x as int]
}

/// A flag register value: 1 for true, 0 for false.
pub open spec fn flag(b: bool) -> u8 {
    if b {
        1
    } else {
        0
    }
}

/// `s` with the program counter moved to the next instruction.
pub open spec fn next(s: CpuState) -> CpuState {
    CpuState { pc: advance(s.pc, 2), ..s }
}

/// `s` with the registers replaced by `v` and the program counter moved to
/// the next instruction.
pub open spec fn with_regs(s: CpuState, v: Seq<u8>) -> CpuState {
    CpuState { v, pc: advance(s.pc, 2), ..s }
}

/// `s` with the program counter moved past the next instruction when
/// `skip` holds, and to it otherwise.
pub open spec fn skip_if(s: CpuState, skip: bool) -> CpuState {
    CpuState { pc: advance(s.pc, if skip { 4 } else { 2 }), ..s }
}

/// The address of row `r` of a sprite stored at `index`, wrapping at 16 bits.
pub open spec fn sprite_row_addr(index: u16, r: int) -> int {
    (index + r) % 0x10000
}

/// Whether bit `b` of a sprite row is set, counting from the most significant bit.
pub open spec fn bit_of(byte: u8, b: int) -> bool {
    byte & (0x80u8 >> (b as u8)) != 0
}

/// The screen cell of bit `b` of row `r` of a sprite drawn at (`x`, `y`).
/// Cells are numbered row by row; a bit past the right edge lands on the
/// next row.
pub open spec fn pixel_cell(x: int, y: int, r: int, b: int) -> int {
    x + b + (y + r) * SCREEN_WIDTH
}

/// Whether bit `b` of row `r` of the sprite at `index` is drawn when its top
/// row is `y`: the row is on the screen and the bit is set.
pub open spec fn lit(mem: Seq<u8>, index: u16, y: int, r: int, b: int) -> bool {
    &&& y + r < SCREEN_HEIGHT
    &&& bit_of(mem[sprite_row_addr(index, r)], b)
}

/// Whether a row of an `n`-row sprite that lands on the screen lies outside memory.
pub open spec fn sprite_fault(index: u16, y: int, n: int) -> bool {
    exists|r: int| 0 <= r < n && y + r < SCREEN_HEIGHT && #[trigger] sprite_row_addr(index, r) >= RAM_SIZE
}

/// Whether screen cell `c` is flipped by drawing the `n`-row sprite at `index` at (`x`, `y`).
pub open spec fn covered(mem: Seq<u8>, index: u16, x: int, y: int, n: int, c: int) -> bool {
    exists|r: int, b: int|
        0 <= r < n && 0 <= b < 8 && #[trigger] lit(mem, index, y, r, b) && pixel_cell(x, y, r, b) == c
}

/// Whether drawing the sprite flips a cell of the screen that was on.
pub open spec fn collides(screen: Seq<bool>, mem: Seq<u8>, index: u16, x: int, y: int, n: int) -> bool {
    exists|r: int, b: int|
        0 <= r < n && 0 <= b < 8 && #[trigger] lit(mem, index, y, r, b) && 0 <= pixel_cell(x, y, r, b)
            < SCREEN_SIZE && screen[pixel_cell(x, y, r, b)]
}

/// Whether drawing the sprite flips any cell of the screen.
pub open spec fn touches(mem: Seq<u8>, index: u16, x: int, y: int, n: int) -> bool {
    exists|r: int, b: int|
        0 <= r < n && 0 <= b < 8 && #[trigger] lit(mem, index, y, r, b) && 0 <= pixel_cell(x, y, r, b)
            < SCREEN_SIZE
}

/// The screen after drawing the sprite: each covered cell is flipped.
pub open spec fn drawn_screen(screen: Seq<bool>, mem: Seq<u8>, index: u16, x: int, y: int, n: int) -> Seq<bool> {
    Seq::new(SCREEN_SIZE as nat, |c: int| screen[c] != covered(mem, index, x, y, n, c))
}

/// The memory after writing `v[0..=x]` from `index` onwards.
pub open spec fn stored_regs(mem: Seq<u8>, v: Seq<u8>, index: u16, x: u8) -> Seq<u8> {
    Seq::new(mem.len(), |j: int| if index <= j <= index + x { v[j - index] } else { mem[j] })
}

/// The registers after loading `V0..=VX` from memory at `index` onwards.
pub open spec fn loaded_regs(mem: Seq<u8>, v: Seq<u8>, index: u16, x: u8) -> Seq<u8> {
    Seq::new(v.len(), |j: int| if j <= x { mem[index + j] } else { v[j] })
}

/// The effect of screen clear, jumps, calls and returns; see `step`.
pub open spec fn flow_step(s: CpuState, mem: Seq<u8>, ins: Instruction) -> Result<(CpuState, Seq<u8>), Fault> {
    match ins {
        Instruction::ClearScreen => Ok(
            (
                CpuState {
                    screen: Seq::new(SCREEN_SIZE as nat, |c: int| false),
                    draw_flag: true,
                    pc: advance(s.pc, 2),
                    ..s
                },
                mem,
            ),
        ),
        Instruction::Return => if s.sp == 0 {
            Err(Fault::StackUnderflow)
        } else {
            Ok((CpuState { sp: (s.sp - 1) as u16, pc: advance(s.stack[s.sp - 1], 2), ..s }, mem))
        },
        Instruction::Jump { nnn } => Ok((CpuState { pc: nnn, ..s }, mem)),
        Instruction::Call { nnn } => if s.sp >= 16 {
            Err(Fault::StackOverflow)
        } else {
            Ok(
                (
                    CpuState {
                        stack: s.stack.update(s.sp as int, s.pc),
                        sp: (s.sp + 1) as u16,
                        pc: nnn,
                        ..s
                    },
                    mem,
                ),
            )
        },
        Instruction::JumpOffset { nnn } => Ok((CpuState { pc: (nnn + reg(s, 0)) as u16, ..s }, mem)),
        _ => Err(Fault::UnknownInstruction(0)),
    }
}

/// The effect of the conditional skips; see `step`.
pub open spec fn skip_step(s: CpuState, mem: Seq<u8>, ins: Instruction) -> Result<(CpuState, Seq<u8>), Fault> {
    match ins {
        Instruction::SkipEqImm { x, nn } => Ok((skip_if(s, reg(s, x) == nn), mem)),
        Instruction::SkipNeImm { x, nn } => Ok((skip_if(s, reg(s, x) != nn), mem)),
        Instruction::SkipEqReg { x, y } => Ok((skip_if(s, reg(s, x) == reg(s, y)), mem)),
        Instruction::SkipNeReg { x, y } => Ok((skip_if(s, reg(s, x) != reg(s, y)), mem)),
        Instruction::SkipKeyDown { x } => {
            let k = reg(s, x);
            if k >= 16 {
                Err(Fault::InvalidKey(k))
            } else {
                Ok(
                    (
                        CpuState { keys: s.keys.update(k as int, Key::Up), ..skip_if(s, s.keys[k as int] is Down) },
                        mem,
                    ),
                )
            }
        },
        Instruction::SkipKeyUp { x } => {
            let k = reg(s, x);
            if k >= 16 {
                Err(Fault::InvalidKey(k))
            } else {
                Ok(
                    (
                        CpuState { keys: s.keys.update(k as int, Key::Up), ..skip_if(s, s.keys[k as int] is Up) },
                        mem,
                    ),
                )
            }
        },
        _ => Err(Fault::UnknownInstruction(0)),
    }
}

/// The effect of the register-to-register arithmetic and logic instructions; see `step`.
pub open spec fn arith_step(s: CpuState, mem: Seq<u8>, ins: Instruction) -> Result<(CpuState, Seq<u8>), Fault> {
    match ins {
        Instruction::Move { x, y } => Ok((with_regs(s, s.v.update(x as int, reg(s, y))), mem)),
        Instruction::Or { x, y } => Ok(
            (with_regs(s, s.v.update(x as int, reg(s, x) | reg(s, y))), mem),
        ),
        Instruction::And { x, y } => Ok(
            (with_regs(s, s.v.update(x as int, reg(s, x) & reg(s, y))), mem),
        ),
        Instruction::Xor { x, y } => Ok(
            (with_regs(s, s.v.update(x as int, reg(s, x) ^ reg(s, y))), mem),
        ),
        Instruction::AddReg { x, y } => {
            let sum = reg(s, x) + reg(s, y);
            Ok(
                (
                    with_regs(
                        s,
                        s.v.update(x as int, (sum % 0x100) as u8).update(0xF, flag(sum > 0xFF)),
                    ),
                    mem,
                ),
            )
        },
        Instruction::SubReg { x, y } => {
            let (a, b) = (reg(s, x), reg(s, y));
            Ok(
                (
                    with_regs(
                        s,
                        s.v.update(x as int, ((a - b + 0x100) % 0x100) as u8).update(0xF, flag(a >= b)),
                    ),
                    mem,
                ),
            )
        },
        Instruction::ShiftRight { x, .. } => {
            let a = reg(s, x);
            Ok((with_regs(s, s.v.update(x as int, a / 2).update(0xF, a % 2)), mem))
        },
        Instruction::SubRev { x, y } => {
            let (a, b) = (reg(s, x), reg(s, y));
            Ok(
                (
                    with_regs(
                        s,
                        s.v.update(x as int, ((b - a + 0x100) % 0x100) as u8).update(0xF, flag(b >= a)),
                    ),
                    mem,
                ),
            )
        },
        Instruction::ShiftLeft { x, .. } => {
            let a = reg(s, x);
            Ok(
                (
                    with_regs(s, s.v.update(x as int, ((a * 2) % 0x100) as u8).update(0xF, a / 0x80)),
                    mem,
                ),
            )
        },
        _ => Err(Fault::UnknownInstruction(0)),
    }
}

/// The effect of the instructions that load a register, a timer or the index register; see `step`.
pub open spec fn load_step(s: CpuState, mem: Seq<u8>, ins: Instruction, random: u8, key: u8) -> Result<(CpuState, Seq<u8>), Fault> {
    match ins {
        Instruction::LoadImm { x, nn } => Ok((with_regs(s, s.v.update(x as int, nn)), mem)),
        Instruction::AddImm { x, nn } => Ok(
            (with_regs(s, s.v.update(x as int, ((reg(s, x) + nn) % 0x100) as u8)), mem),
        ),
        Instruction::LoadIndex { nnn } => Ok((CpuState { index: nnn, ..next(s) }, mem)),
        Instruction::Random { x, nn } => Ok((with_regs(s, s.v.update(x as int, random & nn)), mem)),
        Instruction::LoadDelay { x } => Ok((with_regs(s, s.v.update(x as int, s.delay_timer)), mem)),
        Instruction::WaitKey { x } => Ok((with_regs(s, s.v.update(x as int, key)), mem)),
        Instruction::SetDelay { x } => Ok((CpuState { delay_timer: reg(s, x), ..next(s) }, mem)),
        Instruction::SetSound { x } => Ok((CpuState { sound_timer: reg(s, x), ..next(s) }, mem)),
        Instruction::AddIndex { x } => {
            let sum = s.index + reg(s, x);
            Ok(
                (
                    CpuState {
                        index: (sum % 0x10000) as u16,
                        ..with_regs(s, s.v.update(0xF, flag(sum > 0xFFFF)))
                    },
                    mem,
                ),
            )
        },
        Instruction::FontGlyph { x } => Ok((CpuState { index: (reg(s, x) * 5) as u16, ..next(s) }, mem)),
        _ => Err(Fault::UnknownInstruction(0)),
    }
}

/// The effect of the instructions that move data between registers and memory; see `step`.
pub open spec fn memory_step(s: CpuState, mem: Seq<u8>, ins: Instruction) -> Result<(CpuState, Seq<u8>), Fault> {
    match ins {
        Instruction::StoreBcd { x } => {
            let (i, a) = (s.index as int, reg(s, x));
            if i + 2 >= RAM_SIZE {
                Err(Fault::AddressOutOfRange(s.index))
            } else {
                Ok(
                    (
                        next(s),
                        mem.update(i, a / 100).update(i + 1, (a / 10) % 100).update(i + 2, (a % 100) % 10),
                    ),
                )
            }
        },
        Instruction::StoreRegs { x } => if s.index + x >= RAM_SIZE {
            Err(Fault::AddressOutOfRange(s.index))
        } else {
            Ok((next(s), stored_regs(mem, s.v, s.index, x)))
        },
        Instruction::LoadRegs { x } => if s.index + x >= RAM_SIZE {
            Err(Fault::AddressOutOfRange(s.index))
        } else {
            Ok((with_regs(s, loaded_regs(mem, s.v, s.index, x)), mem))
        },
        _ => Err(Fault::UnknownInstruction(0)),
    }
}

/// The effect of sprite drawing; see `step`.
pub open spec fn draw_step(s: CpuState, mem: Seq<u8>, ins: Instruction) -> Result<(CpuState, Seq<u8>), Fault> {
    match ins {
        Instruction::Draw { x, y, n } => {
            let (px, py) = (reg(s, x) as int, reg(s, y) as int);
            if sprite_fault(s.index, py, n as int) {
                Err(Fault::AddressOutOfRange(s.index))
            } else {
                Ok(
                    (
                        CpuState {
                            screen: drawn_screen(s.screen, mem, s.index, px, py, n as int),
                            v: s.v.update(
                                0xF,
                                flag(collides(s.screen, mem, s.index, px, py, n as int)),
                            ),
                            draw_flag: s.draw_flag || touches(mem, s.index, px, py, n as int),
                            pc: advance(s.pc, 2),
                            ..s
                        },
                        mem,
                    ),
                )
            }
        },
        _ => Err(Fault::UnknownInstruction(0)),
    }
}

/// The effect of executing `ins` on state `s` and memory `mem`: the new state
/// and memory, or the fault that stops the machine. `random` is the random
/// byte drawn for `CXNN`; `key` is the key awaited by `FX0A`.
pub open spec fn step(s: CpuState, mem: Seq<u8>, ins: Instruction, random: u8, key: u8) -> Result<(CpuState, Seq<u8>), Fault> {
    match ins {
        Instruction::ClearScreen
        | Instruction::Return
        | Instruction::Jump { .. }
        | Instruction::Call { .. }
        | Instruction::JumpOffset { .. } => flow_step(s, mem, ins),
        Instruction::SkipEqImm { .. }
        | Instruction::SkipNeImm { .. }
        | Instruction::SkipEqReg { .. }
        | Instruction::SkipNeReg { .. }
        | Instruction::SkipKeyDown { .. }
        | Instruction::SkipKeyUp { .. } => skip_step(s, mem, ins),
        Instruction::Move { .. }
        | Instruction::Or { .. }
        | Instruction::And { .. }
        | Instruction::Xor { .. }
        | Instruction::AddReg { .. }
        | Instruction::SubReg { .. }
        | Instruction::ShiftRight { .. }
        | Instruction::SubRev { .. }
        | Instruction::ShiftLeft { .. } => arith_step(s, mem, ins),
        Instruction::StoreBcd { .. }
        | Instruction::StoreRegs { .. }
        | Instruction::LoadRegs { .. } => memory_step(s, mem, ins),
        Instruction::Draw { .. } => draw_step(s, mem, ins),
        _ => load_step(s, mem, ins, random, key),
    }
}

/// Whether an execution that returned `r` and went from `before` to `after`
/// did what `expected` says: on success, `after` is the expected state and
/// memory; on a fault, `r` is that fault and nothing changed.
pub open spec fn executed(
    r: Result<(), Fault>,
    before: (CpuState, Seq<u8>),
    after: (CpuState, Seq<u8>),
    expected: Result<(CpuState, Seq<u8>), Fault>,
) -> bool {
    match expected {
        Ok(next) => r is Ok && after == next,
        Err(f) => r == Err::<(), Fault>(f) && after == before,
    }
}

/// The state at the end of a cycle whose instruction left the processor in
/// state `s`: both timers tick, the draw flag is cleared (the screen has
/// been shown), and the keypad poll at time `now` that reported `pressed` is recorded.
pub open spec fn finish_cycle(s: CpuState, pressed: Seq<u8>, now: u64) -> CpuState {
    let t = tick_sound(tick_delay(s));
    CpuState { draw_flag: false, keys: sample_keys(t.keys, pressed, now), ..t }
}

/// One cycle from state `s` and memory `mem`: fetch, decode, execute, then
/// finish. The result says whether the screen was shown, or which fault
/// stopped the machine; on a fault nothing changes. `random` and `key` are
/// as in `step`; `pressed` is what the keypad poll reported.
pub open spec fn cycle_spec(
    s: CpuState,
    mem: Seq<u8>,
    random: u8,
    key: u8,
    pressed: Seq<u8>,
    now: u64,
) -> (Result<bool, Fault>, CpuState, Seq<u8>) {
    match fetch(s, mem) {
        Err(f) => (Err(f), s, mem),
        Ok(w) => match decode_spec(w) {
            Err(f) => (Err(f), s, mem),
            Ok(ins) => match step(s, mem, ins, random, key) {
                Err(f) => (Err(f), s, mem),
                Ok((t, m)) => (Ok(t.draw_flag), finish_cycle(t, pressed, now), m),
            },
        },
    }
}

} // verus!
