//! The mathematical model of the machine: a ghost view of the whole state and
//! a step function giving the exact effect of every instruction.
//!
//! `step_instr` models one execution of a decoded instruction: the program
//! counter is first advanced past the fetched word, then the instruction's
//! effect is applied. On a failing step (stack overflow or underflow, an
//! unknown opcode, or a memory access past the 4096-byte space) no state is
//! mutated beyond that provisional program-counter advance, and the checks
//! come before any write. `spec_cycle` adds the fetch of the big-endian word
//! at the program counter and, on success, the timer tick.

use crate::display::{blank_screen, draw_buf, draw_collision};
use crate::instr::Instruction;
use crate::keyboard::blank_keys;
use vstd::prelude::*;

verus! {

/// Why a load or an execution step failed.
#[derive(Clone, Copy, Debug, PartialEq, Eq, Structural)]
pub enum Chip8Error {
    /// A program image does not fit in memory from offset `0x200`.
    LoadError,
    /// A subroutine call with the 16-entry stack already full.
    StackOverflow,
    /// A return with the stack empty.
    StackUnderflow,
    /// No entry of the opcode table matches the fetched word.
    UnknownOpcode,
    /// A fetch or an indexed read or write past the 4096-byte memory.
    MemoryOutOfBounds,
}

/// Ghost view of the complete machine state.
#[verifier::ext_equal]
pub ghost struct MachineView {
    pub mem: Seq<u8>,
    pub regs: Seq<u8>,
    pub stack: Seq<u16>,
    pub pc: u16,
    pub index: u16,
    pub sp: u8,
    pub delay: u8,
    pub sound: u8,
    pub fb: Seq<bool>,
    pub keys: Seq<bool>,
}

/// Dimensions of the state: fixed memory, sixteen registers, a 16-entry
/// stack with its pointer in range, the 64x32 framebuffer and sixteen keys.
pub open spec fn inv(s: MachineView) -> bool {
    &&& s.mem.len() == 4096
    &&& s.regs.len() == 16
    &&& s.stack.len() == 16
    &&& s.sp <= 16
    &&& s.fb.len() == 2048
    &&& s.keys.len() == 16
}

pub open spec fn wrap_add16(a: u16, b: u16) -> u16 {
    if a + b > 0xFFFF {
        (a + b - 0x10000) as u16
    } else {
        (a + b) as u16
    }
}

pub open spec fn wrap_add8(a: u8, b: u8) -> u8 {
    if a + b > 0xFF {
        (a + b - 0x100) as u8
    } else {
        (a + b) as u8
    }
}

pub open spec fn wrap_sub8(a: u8, b: u8) -> u8 {
    if a - b < 0 {
        (a - b + 0x100) as u8
    } else {
        (a - b) as u8
    }
}

/// The state with the program counter advanced past the fetched word.
pub open spec fn advanced(s: MachineView) -> MachineView {
    MachineView { pc: wrap_add16(s.pc, 2), ..s }
}

/// Timers each count down by one per completed cycle, floored at zero.
pub open spec fn ticked(s: MachineView) -> MachineView {
    MachineView {
        delay: if s.delay > 0 {
            (s.delay - 1) as u8
        } else {
            0
        },
        sound: if s.sound > 0 {
            (s.sound - 1) as u8
        } else {
            0
        },
        ..s
    }
}

/// The lowest pressed key among `start..15`, if any; keys are scanned in
/// ascending order and key `0xF` is never latched.
pub open spec fn first_pressed(keys: Seq<bool>, start: int) -> Option<u8>
    recommends
        keys.len() == 16,
        0 <= start,
    decreases 15 - start,
{
    if start >= 15 {
        None
    } else if keys[start] {
        Some(start as u8)
    } else {
        first_pressed(keys, start + 1)
    }
}

/// The big-endian instruction word at `mem[i..i+2]`.
pub open spec fn spec_word(mem: Seq<u8>, i: int) -> u16
    recommends
        0 <= i,
        i + 1 < mem.len(),
{
    ((mem[i] as u16) << 8) | (mem[i + 1] as u16)
}

/// Memory with `regs[0..=x]` copied in at `base`.
pub open spec fn mem_with_regs(mem: Seq<u8>, regs: Seq<u8>, base: int, x: int) -> Seq<u8> {
    Seq::new(mem.len(), |i: int| if base <= i <= base + x { regs[i - base] } else { mem[i] })
}

/// Registers with `mem[base..=base+x]` copied into `V0..=Vx`.
pub open spec fn regs_from_mem(regs: Seq<u8>, mem: Seq<u8>, base: int, x: int) -> Seq<u8> {
    Seq::new(regs.len(), |r: int| if 0 <= r <= x { mem[base + r] } else { regs[r] })
}

/// The built-in font: sixteen glyphs `0x0`..=`0xF`, five bytes each, written
/// to `memory[0..80]` on reset.
pub open spec fn font_seq() -> Seq<u8> {
    seq![
        0xF0u8, 0x90, 0x90, 0x90, 0xF0, 0x20, 0x60, 0x20, 0x20, 0x70,
        0xF0, 0x10, 0xF0, 0x80, 0xF0, 0xF0, 0x10, 0xF0, 0x10, 0xF0,
        0x90, 0x90, 0xF0, 0x10, 0x10, 0xF0, 0x80, 0xF0, 0x10, 0xF0,
        0xF0, 0x80, 0xF0, 0x90, 0xF0, 0xF0, 0x10, 0x20, 0x40, 0x40,
        0xF0, 0x90, 0xF0, 0x90, 0xF0, 0xF0, 0x90, 0xF0, 0x10, 0xF0,
        0xF0, 0x90, 0xF0, 0x90, 0x90, 0xE0, 0x90, 0xE0, 0x90, 0xE0,
        0xF0, 0x80, 0x80, 0x80, 0xF0, 0xE0, 0x90, 0x90, 0x90, 0xE0,
        0xF0, 0x80, 0xF0, 0x80, 0xF0, 0xF0, 0x80, 0xF0, 0x80, 0x80,
    ]
}

/// The state of a machine fresh from construction: everything zeroed, the
/// screen blank and no key pressed.
pub open spec fn initial_view() -> MachineView {
    MachineView {
        mem: Seq::new(4096, |i: int| 0u8),
        regs: Seq::new(16, |i: int| 0u8),
        stack: Seq::new(16, |i: int| 0u16),
        pc: 0,
        index: 0,
        sp: 0,
        delay: 0,
        sound: 0,
        fb: blank_screen(),
        keys: blank_keys(),
    }
}

/// The state after a reset: the program counter at `0x200`, index, stack
/// pointer and timers zeroed, screen and keys cleared, and the font written
/// over `memory[0..80]`; the rest of memory, the registers and the stack
/// keep their contents.
pub open spec fn reset_view(s: MachineView) -> MachineView {
    MachineView {
        pc: 0x200,
        index: 0,
        sp: 0,
        delay: 0,
        sound: 0,
        fb: blank_screen(),
        keys: blank_keys(),
        mem: Seq::new(4096, |i: int| if 0 <= i < 80 { font_seq()[i] } else { s.mem[i] }),
        ..s
    }
}

/// The state after loading a program image at `0x200`.
pub open spec fn load_view(s: MachineView, rom: Seq<u8>) -> MachineView {
    MachineView {
        mem: Seq::new(
            4096,
            |i: int| if 0x200 <= i < 0x200 + rom.len() { rom[i - 0x200] } else { s.mem[i] },
        ),
        ..s
    }
}

/// Effect of one decoded instruction on the machine state, as the pair of
/// the next state and the step's outcome. `rnd` is the byte drawn for the
/// random-number instruction and is ignored by every other instruction.
pub open spec fn step_instr(s: MachineView, instr: Instruction, rnd: u8) -> (
    MachineView,
    Result<(), Chip8Error>,
)
    recommends
        inv(s),
        crate::instr::instr_fields_valid(instr),
{
    let t = advanced(s);
    match instr {
        Instruction::ClearScreen => (MachineView { fb: blank_screen(), ..t }, Ok(())),
        Instruction::Return => {
            if t.sp == 0 {
                (t, Err(Chip8Error::StackUnderflow))
            } else {
                (MachineView { sp: (t.sp - 1) as u8, pc: t.stack[t.sp - 1], ..t }, Ok(()))
            }
        },
        Instruction::Jump { nnn } => (MachineView { pc: nnn, ..t }, Ok(())),
        Instruction::Call { nnn } => {
            if t.sp >= 16 {
                (t, Err(Chip8Error::StackOverflow))
            } else {
                (
                    MachineView {
                        stack: t.stack.update(t.sp as int, t.pc),
                        sp: (t.sp + 1) as u8,
                        pc: nnn,
                        ..t
                    },
                    Ok(()),
                )
            }
        },
        Instruction::SkipEqByte { x, nn } => {
            (
                MachineView {
                    pc: if t.regs[x as int] == nn {
                        wrap_add16(t.pc, 2)
                    } else {
                        t.pc
                    },
                    ..t
                },
                Ok(()),
            )
        },
        Instruction::SkipNeByte { x, nn } => {
            (
                MachineView {
                    pc: if t.regs[x as int] != nn {
                        wrap_add16(t.pc, 2)
                    } else {
                        t.pc
                    },
                    ..t
                },
                Ok(()),
            )
        },
        Instruction::SkipEqReg { x, y } => {
            (
                MachineView {
                    pc: if t.regs[x as int] == t.regs[y as int] {
                        wrap_add16(t.pc, 2)
                    } else {
                        t.pc
                    },
                    ..t
                },
                Ok(()),
            )
        },
        Instruction::LoadByte { x, nn } => {
            (MachineView { regs: t.regs.update(x as int, nn), ..t }, Ok(()))
        },
        Instruction::AddByte { x, nn } => {
            (MachineView { regs: t.regs.update(x as int, wrap_add8(t.regs[x as int], nn)), ..t },
            Ok(()))
        },
        Instruction::MoveReg { x, y } => {
            (MachineView { regs: t.regs.update(x as int, t.regs[y as int]), ..t }, Ok(()))
        },
        Instruction::OrReg { x, y } => {
            (MachineView { regs: t.regs.update(x as int, t.regs[x as int] | t.regs[y as int]), ..t },
            Ok(()))
        },
        Instruction::AndReg { x, y } => {
            (MachineView { regs: t.regs.update(x as int, t.regs[x as int] & t.regs[y as int]), ..t },
            Ok(()))
        },
        Instruction::XorReg { x, y } => {
            (MachineView { regs: t.regs.update(x as int, t.regs[x as int] ^ t.regs[y as int]), ..t },
            Ok(()))
        },
        Instruction::AddReg { x, y } => {
            let a = t.regs[x as int];
            let b = t.regs[y as int];
            let flagged = t.regs.update(
                15,
                if a + b > 255 {
                    1u8
                } else {
                    0u8
                },
            );
            (MachineView { regs: flagged.update(x as int, wrap_add8(a, b)), ..t }, Ok(()))
        },
        Instruction::SubReg { x, y } => {
            let a = t.regs[x as int];
            let b = t.regs[y as int];
            let flagged = t.regs.update(
                15,
                if a >= b {
                    1u8
                } else {
                    0u8
                },
            );
            (MachineView { regs: flagged.update(x as int, wrap_sub8(a, b)), ..t }, Ok(()))
        },
        Instruction::ShiftRight { x } => {
            let a = t.regs[x as int];
            let flagged = t.regs.update(15, a & 1);
            (MachineView { regs: flagged.update(x as int, a >> 1u8), ..t }, Ok(()))
        },
        Instruction::SubFrom { x, y } => {
            let a = t.regs[x as int];
            let b = t.regs[y as int];
            let flagged = t.regs.update(
                15,
                if b >= a {
                    1u8
                } else {
                    0u8
                },
            );
            (MachineView { regs: flagged.update(x as int, wrap_sub8(b, a)), ..t }, Ok(()))
        },
        Instruction::ShiftLeft { x } => {
            let a = t.regs[x as int];
            let flagged = t.regs.update(15, a >> 7u8);
            (MachineView { regs: flagged.update(x as int, wrap_add8(a, a)), ..t }, Ok(()))
        },
        Instruction::SkipNeReg { x, y } => {
            (
                MachineView {
                    pc: if t.regs[x as int] != t.regs[y as int] {
                        wrap_add16(t.pc, 2)
                    } else {
                        t.pc
                    },
                    ..t
                },
                Ok(()),
            )
        },
        Instruction::LoadIndex { nnn } => (MachineView { index: nnn, ..t }, Ok(())),
        Instruction::IndexOffset { nnn } => {
            (MachineView { index: (nnn + t.regs[0]) as u16, ..t }, Ok(()))
        },
        Instruction::Random { x, nn } => {
            (MachineView { regs: t.regs.update(x as int, nn & rnd), ..t }, Ok(()))
        },
        Instruction::Draw { x, y, n } => {
            if t.index as int + n as int > 4096 {
                (t, Err(Chip8Error::MemoryOutOfBounds))
            } else {
                let sprite = t.mem.subrange(t.index as int, t.index as int + n as int);
                let px = t.regs[x as int] as int;
                let py = t.regs[y as int] as int;
                let coll = draw_collision(t.fb, px, py, sprite, 8 * n as int);
                (
                    MachineView {
                        fb: draw_buf(t.fb, px, py, sprite, 8 * n as int),
                        regs: t.regs.update(
                            15,
                            if coll {
                                1u8
                            } else {
                                0u8
                            },
                        ),
                        ..t
                    },
                    Ok(()),
                )
            }
        },
        Instruction::SkipKey { x } => {
            (
                MachineView {
                    pc: if t.keys[(t.regs[x as int] & 0xF) as int] {
                        wrap_add16(t.pc, 2)
                    } else {
                        t.pc
                    },
                    ..t
                },
                Ok(()),
            )
        },
        Instruction::SkipNoKey { x } => {
            (
                MachineView {
                    pc: if t.keys[(t.regs[x as int] & 0xF) as int] {
                        t.pc
                    } else {
                        wrap_add16(t.pc, 2)
                    },
                    ..t
                },
                Ok(()),
            )
        },
        Instruction::ReadDelay { x } => {
            (MachineView { regs: t.regs.update(x as int, t.delay), ..t }, Ok(()))
        },
        Instruction::WaitKey { x } => {
            match first_pressed(t.keys, 0) {
                Some(k) => (MachineView { regs: t.regs.update(x as int, k), ..t }, Ok(())),
                None => (MachineView { pc: s.pc, ..t }, Ok(())),
            }
        },
        Instruction::SetDelay { x } => (MachineView { delay: t.regs[x as int], ..t }, Ok(())),
        Instruction::SetSound { x } => (MachineView { sound: t.regs[x as int], ..t }, Ok(())),
        Instruction::AddIndex { x } => {
            (MachineView { index: wrap_add16(t.index, t.regs[x as int] as u16), ..t }, Ok(()))
        },
        Instruction::FontIndex { x } => {
            (MachineView { index: (t.regs[x as int] * 5) as u16, ..t }, Ok(()))
        },
        Instruction::StoreDigits { x } => {
            if t.index as int + 2 >= 4096 {
                (t, Err(Chip8Error::MemoryOutOfBounds))
            } else {
                let v = t.regs[x as int];
                let i = t.index as int;
                (
                    MachineView {
                        mem: t.mem.update(i, (v / 100) as u8).update(
                            i + 1,
                            ((v / 10) % 10) as u8,
                        ).update(i + 2, (v % 10) as u8),
                        ..t
                    },
                    Ok(()),
                )
            }
        },
        Instruction::StoreRegs { x } => {
            if t.index as int + x as int >= 4096 {
                (t, Err(Chip8Error::MemoryOutOfBounds))
            } else {
                (MachineView { mem: mem_with_regs(t.mem, t.regs, t.index as int, x as int), ..t },
                Ok(()))
            }
        },
        Instruction::LoadRegs { x } => {
            if t.index as int + x as int >= 4096 {
                (t, Err(Chip8Error::MemoryOutOfBounds))
            } else {
                (MachineView { regs: regs_from_mem(t.regs, t.mem, t.index as int, x as int), ..t },
                Ok(()))
            }
        },
        Instruction::Unknown => (t, Err(Chip8Error::UnknownOpcode)),
    }
}

/// Effect of executing the instruction word `op`.
pub open spec fn step_opcode(s: MachineView, op: u16, rnd: u8) -> (
    MachineView,
    Result<(), Chip8Error>,
) {
    step_instr(s, crate::instr::spec_decode(op), rnd)
}

/// One full cycle: fetch the word at the program counter, execute it, and on
/// success tick both timers down. A failed fetch leaves the state unchanged;
/// a failed step leaves it as `step_instr` says, with no timer tick.
pub open spec fn spec_cycle(s: MachineView, rnd: u8) -> (MachineView, Result<(), Chip8Error>) {
    if s.pc as int + 1 >= 4096 {
        (s, Err(Chip8Error::MemoryOutOfBounds))
    } else {
        let op = spec_word(s.mem, s.pc as int);
        let stepped = step_opcode(s, op, rnd);
        if stepped.1 is Ok {
            (ticked(stepped.0), Ok(()))
        } else {
            stepped
        }
    }
}

} // verus!
