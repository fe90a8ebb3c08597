//! Properties of the instruction set, proved from `step` and `finish_cycle`.

use vstd::prelude::*;

use crate::fault::Fault;
use crate::instruction::{decode_spec, Instruction};
use crate::io::SCREEN_SIZE;
use crate::memory::RAM_SIZE;
use crate::semantics::{
    advance, covered, cycle_spec, fetch, finish_cycle, skip_if, step, touches, word_at, CpuState,
};

verus! {

/// OR, AND and XOR of `VX` with `VY` store `a | b`, `a & b` and `a ^ b` in
/// `VX`, where `a` and `b` are the values before, and leave memory alone.
/// `VY` keeps its value, except under XOR of a register with itself, which
/// clears it.
pub proof fn law_bitwise(s: CpuState, mem: Seq<u8>, x: u8, y: u8, random: u8, key: u8)
    requires
        s.wf(),
        x < 16,
        y < 16,
    ensures
        ({
            let (a, b) = (s.v[x as int], s.v[y as int]);
            &&& step(s, mem, Instruction::Or { x, y }, random, key) matches Ok((t, m)) && t.v[x as int]
                == a | b && t.v[y as int] == b && m == mem
            &&& step(s, mem, Instruction::And { x, y }, random, key) matches Ok((t, m)) && t.v[x as int]
                == a & b && t.v[y as int] == b && m == mem
            &&& step(s, mem, Instruction::Xor { x, y }, random, key) matches Ok((t, m)) && t.v[x as int]
                == a ^ b && (x != y ==> t.v[y as int] == b) && m == mem
        }),
{
    let a = s.v[x as int];
    assert(a | a == a && a & a == a) by (bit_vector);
}

proof fn lemma_add(s: CpuState, mem: Seq<u8>, x: u8, y: u8, random: u8, key: u8)
    requires
        s.wf(),
        x < 16,
        y < 16,
    ensures
        ({
            let (a, b) = (s.v[x as int], s.v[y as int]);
            step(s, mem, Instruction::AddReg { x, y }, random, key) matches Ok((t, m)) && (x != 0xF
                ==> t.v[x as int] == (a + b) % 256) && (t.v[0xF] == 1 <==> a + b > 255) && (t.v[0xF]
                == 0 <==> a + b <= 255) && m == mem
        }),
{
}

proof fn lemma_sub(s: CpuState, mem: Seq<u8>, x: u8, y: u8, random: u8, key: u8)
    requires
        s.wf(),
        x < 16,
        y < 16,
    ensures
        ({
            let (a, b) = (s.v[x as int], s.v[y as int]);
            step(s, mem, Instruction::SubReg { x, y }, random, key) matches Ok((t, m)) && (x != 0xF
                ==> t.v[x as int] == (a - b) % 256) && (t.v[0xF] == 0 <==> a < b) && (t.v[0xF] == 1
                <==> a >= b) && m == mem
        }),
{
    let (a, b) = (s.v[x as int], s.v[y as int]);
    if a >= b {
        assert((a - b + 256) % 256 == a - b && (a - b) % 256 == a - b);
    } else {
        assert((a - b + 256) % 256 == a - b + 256 && (a - b) % 256 == a - b + 256);
    }
}

/// `8XY4` stores `(a + b) mod 256` in `VX` and sets `VF` to 1 exactly when
/// `a + b > 255`; `8XY5` stores `(a - b) mod 256` in `VX` and sets `VF` to 0
/// exactly when `a < b`. The flag is written last, so when `X` is `F` the
/// flag is what remains.
pub proof fn law_add_sub(s: CpuState, mem: Seq<u8>, x: u8, y: u8, random: u8, key: u8)
    requires
        s.wf(),
        x < 16,
        y < 16,
    ensures
        ({
            let (a, b) = (s.v[x as int], s.v[y as int]);
            &&& step(s, mem, Instruction::AddReg { x, y }, random, key) matches Ok((t, m))
                && (x != 0xF ==> t.v[x as int] == (a + b) % 256) && (t.v[0xF] == 1 <==> a + b > 255)
                && (t.v[0xF] == 0 <==> a + b <= 255) && m == mem
            &&& step(s, mem, Instruction::SubReg { x, y }, random, key) matches Ok((t, m))
                && (x != 0xF ==> t.v[x as int] == (a - b) % 256) && (t.v[0xF] == 0 <==> a < b)
                && (t.v[0xF] == 1 <==> a >= b) && m == mem
        }),
{
    lemma_add(s, mem, x, y, random, key);
    lemma_sub(s, mem, x, y, random, key);
}

/// `8XY6` moves the low bit of `VX` into `VF` and shifts `VX` right by one;
/// `8XYE` moves the high bit into `VF` and shifts `VX` left by one, modulo 256.
pub proof fn law_shifts(s: CpuState, mem: Seq<u8>, x: u8, y: u8, random: u8, key: u8)
    requires
        s.wf(),
        x < 16,
        y < 16,
    ensures
        ({
            let a = s.v[x as int];
            &&& step(s, mem, Instruction::ShiftRight { x, y }, random, key) matches Ok((t, m))
                && t.v[0xF] == a & 1 && (x != 0xF ==> t.v[x as int] == a >> 1u8) && m == mem
            &&& step(s, mem, Instruction::ShiftLeft { x, y }, random, key) matches Ok((t, m))
                && t.v[0xF] == a >> 7u8 && (x != 0xF ==> t.v[x as int] == a << 1u8) && m == mem
        }),
{
    let a = s.v[x as int];
    assert(a & 1 == a % 2 && a >> 1u8 == a / 2 && a >> 7u8 == a / 0x80 && a << 1u8 == ((a * 2)
        % 0x100) as u8) by (bit_vector);
}

/// A jump sets the program counter to its target exactly.
pub proof fn law_jump(s: CpuState, mem: Seq<u8>, nnn: u16, random: u8, key: u8)
    requires
        nnn < 0x1000,
    ensures
        step(s, mem, Instruction::Jump { nnn }, random, key) matches Ok((t, m)) && t.pc == nnn && m
            == mem,
{
}

/// A call pushes the address of the call and continues at its target, so
/// the next instruction fetched is the one there. A later return, from any
/// state that has the same stack depth and the same entry at the top,
/// resumes just after the call and restores the depth.
pub proof fn law_call_return(
    s: CpuState,
    mem: Seq<u8>,
    nnn: u16,
    random: u8,
    key: u8,
    later: CpuState,
    later_mem: Seq<u8>,
)
    requires
        s.wf(),
        s.sp < 16,
        s.pc + 1 < RAM_SIZE,
        nnn < 0x1000,
        later.sp == s.sp + 1,
        later.stack[s.sp as int] == s.pc,
    ensures
        step(s, mem, Instruction::Call { nnn }, random, key) matches Ok((t, m)) && t.pc == nnn && t.sp
            == s.sp + 1 && t.stack[s.sp as int] == s.pc && m == mem && (nnn + 1 < RAM_SIZE
            ==> fetch(t, m) == Ok::<u16, Fault>(word_at(mem, nnn as int))),
        step(later, later_mem, Instruction::Return, random, key) matches Ok((u, _)) && u.pc == s.pc + 2
            && u.sp == s.sp,
{
}

/// The program counter `k` bytes on from `s`, for a state whose program
/// counter addresses memory.
pub open spec fn moved(s: CpuState, k: int) -> CpuState {
    CpuState { pc: (s.pc + k) as u16, ..s }
}

/// The four skips move the program counter by 4 when their condition holds
/// and by 2 otherwise, and change nothing else.
pub proof fn law_skips(s: CpuState, mem: Seq<u8>, x: u8, y: u8, nn: u8, random: u8, key: u8)
    requires
        s.wf(),
        x < 16,
        y < 16,
        s.pc + 1 < RAM_SIZE,
    ensures
        ({
            let (a, b) = (s.v[x as int], s.v[y as int]);
            &&& step(s, mem, Instruction::SkipEqImm { x, nn }, random, key) == Ok::<_, Fault>(
                (moved(s, if a == nn { 4 } else { 2 }), mem),
            )
            &&& step(s, mem, Instruction::SkipNeImm { x, nn }, random, key) == Ok::<_, Fault>(
                (moved(s, if a != nn { 4 } else { 2 }), mem),
            )
            &&& step(s, mem, Instruction::SkipEqReg { x, y }, random, key) == Ok::<_, Fault>(
                (moved(s, if a == b { 4 } else { 2 }), mem),
            )
            &&& step(s, mem, Instruction::SkipNeReg { x, y }, random, key) == Ok::<_, Fault>(
                (moved(s, if a != b { 4 } else { 2 }), mem),
            )
        }),
{
    assert(advance(s.pc, 4) == s.pc + 4 && advance(s.pc, 2) == s.pc + 2);
    assert(forall|c: bool| #[trigger] skip_if(s, c) == moved(s, if c { 4 } else { 2 }));
}

/// Clearing the screen turns every one of its cells off.
pub proof fn law_clear_screen(s: CpuState, mem: Seq<u8>, random: u8, key: u8)
    ensures
        step(s, mem, Instruction::ClearScreen, random, key) matches Ok((t, m)) && t.screen.len()
            == SCREEN_SIZE && (forall|c: int| 0 <= c < SCREEN_SIZE ==> !t.screen[c]) && m == mem,
{
}

/// No instruction but a sprite draw or a screen clear changes the screen,
/// and neither does the end of a cycle; so a cleared screen stays clear
/// until the next sprite draw.
pub proof fn law_screen_kept(s: CpuState, mem: Seq<u8>, ins: Instruction, random: u8, key: u8, pressed: Seq<u8>, now: u64)
    requires
        !(ins is Draw),
        !(ins is ClearScreen),
    ensures
        step(s, mem, ins, random, key) matches Ok((t, _)) ==> t.screen == s.screen,
        finish_cycle(s, pressed, now).screen == s.screen,
{
}

/// Drawing the same sprite twice at the same place restores the screen.
/// On a clear screen, the second draw reports a collision whenever the
/// sprite lights any cell.
pub proof fn law_draw_twice(s: CpuState, mem: Seq<u8>, x: u8, y: u8, n: u8, random: u8, key: u8)
    requires
        s.wf(),
        x < 15,
        y < 15,
        n < 16,
        step(s, mem, Instruction::Draw { x, y, n }, random, key) is Ok,
    ensures
        ({
            let t = step(s, mem, Instruction::Draw { x, y, n }, random, key)->Ok_0.0;
            let u = step(t, mem, Instruction::Draw { x, y, n }, random, key);
            &&& u matches Ok((w, m)) && w.screen == s.screen && m == mem
            &&& (forall|c: int| 0 <= c < SCREEN_SIZE ==> !s.screen[c]) && touches(
                mem,
                s.index,
                s.v[x as int] as int,
                s.v[y as int] as int,
                n as int,
            ) ==> (u matches Ok((w, _)) && w.v[0xF] == 1)
        }),
{
    let (px, py) = (s.v[x as int] as int, s.v[y as int] as int);
    let t = step(s, mem, Instruction::Draw { x, y, n }, random, key)->Ok_0.0;
    assert(t.v[x as int] == s.v[x as int] && t.v[y as int] == s.v[y as int]);
    let u = step(t, mem, Instruction::Draw { x, y, n }, random, key);
    let w = u->Ok_0.0;
    assert(w.screen =~= s.screen);
    if (forall|c: int| 0 <= c < SCREEN_SIZE ==> !s.screen[c]) && touches(mem, s.index, px, py, n as int) {
        let (r, b) = choose|r: int, b: int|
            0 <= r < n && 0 <= b < 8 && #[trigger] crate::semantics::lit(mem, s.index, py, r, b) && 0
                <= crate::semantics::pixel_cell(px, py, r, b) < SCREEN_SIZE;
        let c = crate::semantics::pixel_cell(px, py, r, b);
        assert(covered(mem, s.index, px, py, n as int, c));
        assert(t.screen[c]);
    }
}

/// The random-byte instruction stores a value all of whose set bits are
/// set in its mask.
pub proof fn law_random_masked(s: CpuState, mem: Seq<u8>, x: u8, nn: u8, random: u8, key: u8)
    requires
        s.wf(),
        x < 16,
    ensures
        step(s, mem, Instruction::Random { x, nn }, random, key) matches Ok((t, m)) && t.v[x as int]
            & nn == t.v[x as int] && m == mem,
{
    assert((random & nn) & nn == random & nn) by (bit_vector);
}

/// No instruction changes a stack entry below both the old and the new
/// stack pointer: a call writes only at the top, and a return only moves
/// the pointer.
pub proof fn law_stack_kept(s: CpuState, mem: Seq<u8>, ins: Instruction, random: u8, key: u8)
    requires
        s.wf(),
    ensures
        step(s, mem, ins, random, key) matches Ok((t, _)) ==> forall|i: int|
            0 <= i < s.sp && i < t.sp ==> #[trigger] t.stack[i] == s.stack[i],
{
    match ins {
        Instruction::Call { nnn } => {},
        Instruction::Return => {},
        _ => {
            if let Ok((t, _)) = step(s, mem, ins, random, key) {
                law_registers_only(s, mem, ins, random, key);
            }
        },
    }
}

/// Every instruction but a call and a return leaves the stack and the stack
/// pointer as they were.
pub proof fn law_registers_only(s: CpuState, mem: Seq<u8>, ins: Instruction, random: u8, key: u8)
    requires
        !(ins is Call),
        !(ins is Return),
    ensures
        step(s, mem, ins, random, key) matches Ok((t, _)) ==> t.stack == s.stack && t.sp == s.sp,
{
}

/// No cycle changes a stack entry below both the old and the new stack
/// pointer. So over any run of cycles in which the stack pointer stays above
/// `d`, entry `d` (the return address pushed by the call that raised the
/// pointer past `d`) is what the matching return pops.
pub proof fn law_cycle_stack_kept(
    s: CpuState,
    mem: Seq<u8>,
    random: u8,
    key: u8,
    pressed: Seq<u8>,
    now: u64,
)
    requires
        s.wf(),
    ensures
        ({
            let t = cycle_spec(s, mem, random, key, pressed, now).1;
            forall|i: int| 0 <= i < s.sp && i < t.sp ==> #[trigger] t.stack[i] == s.stack[i]
        }),
{
    if let Ok(w) = fetch(s, mem) {
        if let Ok(ins) = decode_spec(w) {
            law_stack_kept(s, mem, ins, random, key);
        }
    }
}

/// A cycle whose instruction is not a sprite draw leaves a clear screen
/// clear; by induction, a cleared screen stays clear until a sprite draw.
pub proof fn law_cycle_keeps_clear_screen(
    s: CpuState,
    mem: Seq<u8>,
    random: u8,
    key: u8,
    pressed: Seq<u8>,
    now: u64,
)
    requires
        s.screen.len() == SCREEN_SIZE,
        forall|c: int| 0 <= c < SCREEN_SIZE ==> !s.screen[c],
        !(fetch(s, mem) matches Ok(w) && decode_spec(w) matches Ok(ins) && ins is Draw),
    ensures
        ({
            let t = cycle_spec(s, mem, random, key, pressed, now).1;
            t.screen.len() == SCREEN_SIZE && forall|c: int| 0 <= c < SCREEN_SIZE ==> !t.screen[c]
        }),
{
    if let Ok(w) = fetch(s, mem) {
        if let Ok(ins) = decode_spec(w) {
            if ins is ClearScreen {
                law_clear_screen(s, mem, random, key);
            } else {
                law_screen_kept(s, mem, ins, random, key, pressed, now);
            }
            if let Ok((t, m)) = step(s, mem, ins, random, key) {
                law_screen_kept(t, m, Instruction::Jump { nnn: 0 }, random, key, pressed, now);
            }
        }
    }
}

} // verus!
