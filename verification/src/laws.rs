//! Laws of the instruction set, proved over the step function: the
//! arithmetic-flag contracts, the call/return round trip, the exact
//! program-counter movement of the skip instructions, and the effect of
//! clearing around a draw.

use crate::display::blank_screen;
use crate::instr::Instruction;
use crate::machine::{inv, step_instr, MachineView};
use vstd::prelude::*;

verus! {

/// After add-with-carry (`8XY4`) on `Vx = a`, `Vy = b`, the target register
/// holds `(a + b) mod 256` and the flag register holds 1 exactly when
/// `a + b >= 256`, else 0. (When `x` names the flag register itself the sum
/// overwrites the flag, so the law is stated for the other registers.)
pub proof fn lemma_add_carry(s: MachineView, x: u8, y: u8, rnd: u8)
    requires
        inv(s),
        x < 16,
        y < 16,
        x != 15,
    ensures
        ({
            let (s2, r) = step_instr(s, Instruction::AddReg { x, y }, rnd);
            let a = s.regs[x as int];
            let b = s.regs[y as int];
            &&& r is Ok
            &&& s2.regs[x as int] == (a + b) % 256
            &&& (s2.regs[15] == 1 <==> a + b >= 256)
            &&& (s2.regs[15] == 0 <==> a + b < 256)
        }),
{
}

/// After subtract-with-borrow (`8XY5`) on `Vx = a`, `Vy = b`, the target
/// register holds `(a - b) mod 256` and the flag register holds 1 exactly
/// when `a >= b` (no borrow), else 0. (Stated for `x` other than the flag
/// register, which the difference would overwrite.)
pub proof fn lemma_sub_borrow(s: MachineView, x: u8, y: u8, rnd: u8)
    requires
        inv(s),
        x < 16,
        y < 16,
        x != 15,
    ensures
        ({
            let (s2, r) = step_instr(s, Instruction::SubReg { x, y }, rnd);
            let a = s.regs[x as int];
            let b = s.regs[y as int];
            &&& r is Ok
            &&& s2.regs[x as int] == (a - b) % 256
            &&& (s2.regs[15] == 1 <==> a >= b)
            &&& (s2.regs[15] == 0 <==> a < b)
        }),
{
}

/// Call/return round trip: a call (`2NNN`) followed by a return (`00EE`)
/// brings the program counter to the instruction after the call and the
/// stack pointer back to its pre-call value.
pub proof fn lemma_call_return(s: MachineView, nnn: u16, rnd1: u8, rnd2: u8)
    requires
        inv(s),
        s.sp < 16,
        s.pc + 2 <= 0xFFFF,
    ensures
        ({
            let (s1, r1) = step_instr(s, Instruction::Call { nnn }, rnd1);
            let (s2, r2) = step_instr(s1, Instruction::Return, rnd2);
            &&& r1 is Ok
            &&& r2 is Ok
            &&& s1.pc == nnn
            &&& s2.pc == s.pc + 2
            &&& s2.sp == s.sp
        }),
{
}

/// A skip-if-equal-byte (`3XNN`) moves the program counter 4 bytes on a
/// taken skip and 2 otherwise, measured from its value before the fetch.
pub proof fn lemma_skip_eq_byte(s: MachineView, x: u8, nn: u8, rnd: u8)
    requires
        inv(s),
        x < 16,
        s.pc + 4 <= 0xFFFF,
    ensures
        ({
            let (s2, r) = step_instr(s, Instruction::SkipEqByte { x, nn }, rnd);
            &&& r is Ok
            &&& (s.regs[x as int] == nn ==> s2.pc == s.pc + 4)
            &&& (s.regs[x as int] != nn ==> s2.pc == s.pc + 2)
        }),
{
}

/// A skip-if-not-equal-byte (`4XNN`) moves the program counter 4 bytes on a
/// taken skip and 2 otherwise.
pub proof fn lemma_skip_ne_byte(s: MachineView, x: u8, nn: u8, rnd: u8)
    requires
        inv(s),
        x < 16,
        s.pc + 4 <= 0xFFFF,
    ensures
        ({
            let (s2, r) = step_instr(s, Instruction::SkipNeByte { x, nn }, rnd);
            &&& r is Ok
            &&& (s.regs[x as int] != nn ==> s2.pc == s.pc + 4)
            &&& (s.regs[x as int] == nn ==> s2.pc == s.pc + 2)
        }),
{
}

/// A skip-if-registers-equal (`5XY0`) moves the program counter 4 bytes on
/// a taken skip and 2 otherwise.
pub proof fn lemma_skip_eq_reg(s: MachineView, x: u8, y: u8, rnd: u8)
    requires
        inv(s),
        x < 16,
        y < 16,
        s.pc + 4 <= 0xFFFF,
    ensures
        ({
            let (s2, r) = step_instr(s, Instruction::SkipEqReg { x, y }, rnd);
            &&& r is Ok
            &&& (s.regs[x as int] == s.regs[y as int] ==> s2.pc == s.pc + 4)
            &&& (s.regs[x as int] != s.regs[y as int] ==> s2.pc == s.pc + 2)
        }),
{
}

/// A skip-if-registers-differ (`9XY0`) moves the program counter 4 bytes on
/// a taken skip and 2 otherwise.
pub proof fn lemma_skip_ne_reg(s: MachineView, x: u8, y: u8, rnd: u8)
    requires
        inv(s),
        x < 16,
        y < 16,
        s.pc + 4 <= 0xFFFF,
    ensures
        ({
            let (s2, r) = step_instr(s, Instruction::SkipNeReg { x, y }, rnd);
            &&& r is Ok
            &&& (s.regs[x as int] != s.regs[y as int] ==> s2.pc == s.pc + 4)
            &&& (s.regs[x as int] == s.regs[y as int] ==> s2.pc == s.pc + 2)
        }),
{
}

/// A clear (`00E0`), then any draw (`DXYN`), then another clear leaves the
/// framebuffer all off, whatever it held before and however the draw went.
pub proof fn lemma_clear_draw_clear(
    s: MachineView,
    x: u8,
    y: u8,
    n: u8,
    rnd1: u8,
    rnd2: u8,
    rnd3: u8,
)
    requires
        inv(s),
        x < 16,
        y < 16,
        n < 16,
    ensures
        ({
            let (s1, r1) = step_instr(s, Instruction::ClearScreen, rnd1);
            let (s2, r2) = step_instr(s1, Instruction::Draw { x, y, n }, rnd2);
            let (s3, r3) = step_instr(s2, Instruction::ClearScreen, rnd3);
            &&& r1 is Ok
            &&& r3 is Ok
            &&& s1.fb == blank_screen()
            &&& s3.fb == blank_screen()
        }),
{
}

} // verus!

