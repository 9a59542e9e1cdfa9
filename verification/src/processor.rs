//! The interpreter: machine state plus fetch, decode, execute and the timer
//! tick. Every public operation's effect on the state is given exactly by
//! the spec functions of `machine`, over the view of the whole machine.

use crate::display::Display;
use crate::instr::{decode, Instruction};
use crate::keyboard::Keyboard;
use crate::machine::{
    advanced, first_pressed, font_seq, initial_view, inv, load_view, mem_with_regs,
    regs_from_mem, reset_view, spec_cycle, spec_word, step_opcode, ticked, Chip8Error,
    MachineView,
};
use crate::rng::random_byte;
use vstd::prelude::*;

verus! {

pub struct Processor {
    memory: Vec<u8>,
    register: Vec<u8>,
    stack: Vec<u16>,
    program_counter: u16,
    index_register: u16,
    stack_pointer: u8,
    sound_timer: u8,
    delay_timer: u8,
    pub display: Display,
    pub keyboard: Keyboard,
}

impl View for Processor {
    type V = MachineView;

    closed spec fn view(&self) -> MachineView {
        MachineView {
            mem: self.memory@,
            regs: self.register@,
            stack: self.stack@,
            pc: self.program_counter,
            index: self.index_register,
            sp: self.stack_pointer,
            delay: self.delay_timer,
            sound: self.sound_timer,
            fb: self.display@,
            keys: self.keyboard@,
        }
    }
}

/// The big-endian instruction word at `memory[index..index+2]`.
pub fn read_word(memory: &Vec<u8>, index: u16) -> (r: u16)
    requires
        memory@.len() == 4096,
        index as int + 1 < 4096,
    ensures
        r == spec_word(memory@, index as int),
{
    ((memory[index as usize] as u16) << 8u16) | (memory[index as usize + 1] as u16)
}

/// The built-in font glyphs as bytes.
fn font_set() -> (v: Vec<u8>)
    ensures
        v@ == font_seq(),
{
    let v: Vec<u8> = vec![
        0xF0u8, 0x90, 0x90, 0x90, 0xF0, 0x20, 0x60, 0x20, 0x20, 0x70,
        0xF0, 0x10, 0xF0, 0x80, 0xF0, 0xF0, 0x10, 0xF0, 0x10, 0xF0,
        0x90, 0x90, 0xF0, 0x10, 0x10, 0xF0, 0x80, 0xF0, 0x10, 0xF0,
        0xF0, 0x80, 0xF0, 0x90, 0xF0, 0xF0, 0x10, 0x20, 0x40, 0x40,
        0xF0, 0x90, 0xF0, 0x90, 0xF0, 0xF0, 0x90, 0xF0, 0x10, 0xF0,
        0xF0, 0x90, 0xF0, 0x90, 0x90, 0xE0, 0x90, 0xE0, 0x90, 0xE0,
        0xF0, 0x80, 0x80, 0x80, 0xF0, 0xE0, 0x90, 0x90, 0x90, 0xE0,
        0xF0, 0x80, 0xF0, 0x80, 0xF0, 0xF0, 0x80, 0xF0, 0x80, 0x80,
    ];
    proof {
        assert(v@ =~= font_seq());
    }
    v
}

impl Processor {
    pub closed spec fn wf(&self) -> bool {
        &&& inv(self@)
        &&& self.display.wf()
        &&& self.keyboard.wf()
    }

    /// A machine with zeroed memory, registers, stack, counters and timers,
    /// a blank screen and no key pressed. `reset` must run before the first
    /// cycle to install the font and the start address.
    pub fn new() -> (p: Processor)
        ensures
            p.wf(),
            p@ == initial_view(),
    {
        let p = Processor {
            memory: vec![0u8; 4096],
            register: vec![0u8; 16],
            stack: vec![0u16; 16],
            program_counter: 0,
            index_register: 0,
            stack_pointer: 0,
            sound_timer: 0,
            delay_timer: 0,
            display: Display::new(),
            keyboard: Keyboard::new(),
        };
        proof {
            assert(p@ =~= initial_view());
        }
        p
    }

    pub fn get_register(&self, x: u8) -> (r: u8)
        requires
            self.wf(),
            x < 16,
        ensures
            r == self@.regs[x as int],
    {
        self.register[x as usize]
    }

    pub fn set_register(&mut self, x: u8, value: u8)
        requires
            old(self).wf(),
            x < 16,
        ensures
            final(self).wf(),
            final(self)@ == (MachineView { regs: old(self)@.regs.update(x as int, value), ..old(
                self,
            )@ }),
    {
        self.register[x as usize] = value;
        proof {
            assert(self@ =~= (MachineView { regs: old(self)@.regs.update(x as int, value), ..old(
                self,
            )@ }));
        }
    }

    pub fn get_program_counter(&self) -> (r: u16)
        ensures
            r == self@.pc,
    {
        self.program_counter
    }

    pub fn set_program_counter(&mut self, value: u16)
        requires
            old(self).wf(),
        ensures
            final(self).wf(),
            final(self)@ == (MachineView { pc: value, ..old(self)@ }),
    {
        self.program_counter = value;
        proof {
            assert(self@ =~= (MachineView { pc: value, ..old(self)@ }));
        }
    }

    pub fn get_index_register(&self) -> (r: u16)
        ensures
            r == self@.index,
    {
        self.index_register
    }

    pub fn set_index_register(&mut self, value: u16)
        requires
            old(self).wf(),
        ensures
            final(self).wf(),
            final(self)@ == (MachineView { index: value, ..old(self)@ }),
    {
        self.index_register = value;
        proof {
            assert(self@ =~= (MachineView { index: value, ..old(self)@ }));
        }
    }

    pub fn get_stack(&self, i: u8) -> (r: u16)
        requires
            self.wf(),
            i < 16,
        ensures
            r == self@.stack[i as int],
    {
        self.stack[i as usize]
    }

    pub fn get_stack_pointer(&self) -> (r: u8)
        ensures
            r == self@.sp,
    {
        self.stack_pointer
    }

    pub fn get_memory(&self, index: u16) -> (r: u8)
        requires
            self.wf(),
            index < 4096,
        ensures
            r == self@.mem[index as int],
    {
        self.memory[index as usize]
    }

    pub fn set_memory(&mut self, index: u16, value: u8)
        requires
            old(self).wf(),
            index < 4096,
        ensures
            final(self).wf(),
            final(self)@ == (MachineView { mem: old(self)@.mem.update(index as int, value), ..old(
                self,
            )@ }),
    {
        self.memory[index as usize] = value;
        proof {
            assert(self@ =~= (MachineView { mem: old(self)@.mem.update(index as int, value), ..old(
                self,
            )@ }));
        }
    }

    pub fn get_delay_timer(&self) -> (r: u8)
        ensures
            r == self@.delay,
    {
        self.delay_timer
    }

    pub fn get_sound_timer(&self) -> (r: u8)
        ensures
            r == self@.sound,
    {
        self.sound_timer
    }

    /// Install the start address and the font: the program counter goes to
    /// `0x200`, index, stack pointer and timers to zero, the screen and the
    /// keys are cleared, and the 80-byte font is written to `memory[0..80]`.
    pub fn reset(&mut self)
        requires
            old(self).wf(),
        ensures
            final(self).wf(),
            final(self)@ == reset_view(old(self)@),
    {
        self.program_counter = 0x200;
        self.index_register = 0;
        self.stack_pointer = 0;
        self.sound_timer = 0;
        self.delay_timer = 0;
        self.display.clear();
        self.keyboard.clear();
        let ghost base = self@;
        let font = font_set();
        let mut i: usize = 0;
        while i < 80
            invariant
                i <= 80,
                font@ == font_seq(),
                self@ == (MachineView { mem: self.memory@, ..base }),
                self.memory@.len() == 4096,
                self.wf(),
                forall|k: int| 0 <= k < i ==> self.memory@[k] == font_seq()[k],
                forall|k: int| i <= k < 4096 ==> self.memory@[k] == base.mem[k],
            decreases 80 - i,
        {
            self.memory[i] = font[i];
            i += 1;
        }
        proof {
            assert(self@ =~= reset_view(old(self)@));
        }
    }

    /// Copy a program image into memory starting at `0x200`; an image longer
    /// than the remaining 3584 bytes is rejected and nothing is written.
    pub fn load_rom(&mut self, rom: &[u8]) -> (res: Result<(), Chip8Error>)
        requires
            old(self).wf(),
        ensures
            final(self).wf(),
            rom@.len() <= 3584 ==> res == Ok::<(), Chip8Error>(()) && final(self)@ == load_view(
                old(self)@,
                rom@,
            ),
            rom@.len() > 3584 ==> res == Err::<(), Chip8Error>(Chip8Error::LoadError)
                && final(self)@ == old(self)@,
    {
        let n = rom.len();
        if n > 3584 {
            return Err(Chip8Error::LoadError);
        }
        let ghost base = self@;
        let mut i: usize = 0;
        while i < n
            invariant
                i <= n,
                n == rom@.len(),
                n <= 3584,
                self@ == (MachineView { mem: self.memory@, ..base }),
                self.memory@.len() == 4096,
                self.wf(),
                forall|k: int| 0x200 <= k < 0x200 + i ==> self.memory@[k] == rom@[k - 0x200],
                forall|k: int| 0 <= k < 0x200 ==> self.memory@[k] == base.mem[k],
                forall|k: int| 0x200 + i <= k < 4096 ==> self.memory@[k] == base.mem[k],
            decreases n - i,
        {
            self.memory[0x200 + i] = rom[i];
            i += 1;
        }
        proof {
            assert(self@ =~= load_view(old(self)@, rom@));
        }
        Ok(())
    }

    /// Execute one already-fetched instruction word with `rnd` as the byte
    /// the random-number instruction uses: advance the program counter past
    /// the word, decode it, and apply the instruction's exact effect. The
    /// timers do not tick here.
    pub fn execute_opcode_with(&mut self, opcode: u16, rnd: u8) -> (res: Result<(), Chip8Error>)
        requires
            old(self).wf(),
        ensures
            final(self).wf(),
            final(self)@ == step_opcode(old(self)@, opcode, rnd).0,
            res == step_opcode(old(self)@, opcode, rnd).1,
    {
        let ghost pre = self@;
        self.program_counter = self.program_counter.wrapping_add(2);
        let ghost t = advanced(pre);
        proof {
            assert(self@ =~= t);
        }
        let instr = decode(opcode);
        match instr {
            Instruction::ClearScreen => {
                self.display.clear();
                proof {
                    assert(self@ =~= step_opcode(pre, opcode, rnd).0);
                }
                Ok(())
            },
            Instruction::Return => {
                if self.stack_pointer == 0 {
                    proof {
                        assert(self@ =~= step_opcode(pre, opcode, rnd).0);
                    }
                    return Err(Chip8Error::StackUnderflow);
                }
                self.stack_pointer = self.stack_pointer - 1;
                self.program_counter = self.stack[self.stack_pointer as usize];
                proof {
                    assert(self@ =~= step_opcode(pre, opcode, rnd).0);
                }
                Ok(())
            },
            Instruction::Jump { nnn } => {
                self.program_counter = nnn;
                proof {
                    assert(self@ =~= step_opcode(pre, opcode, rnd).0);
                }
                Ok(())
            },
            Instruction::Call { nnn } => {
                if self.stack_pointer >= 16 {
                    proof {
                        assert(self@ =~= step_opcode(pre, opcode, rnd).0);
                    }
                    return Err(Chip8Error::StackOverflow);
                }
                self.stack[self.stack_pointer as usize] = self.program_counter;
                self.stack_pointer = self.stack_pointer + 1;
                self.program_counter = nnn;
                proof {
                    assert(self@ =~= step_opcode(pre, opcode, rnd).0);
                }
                Ok(())
            },
            Instruction::SkipEqByte { x, nn } => {
                if self.register[x as usize] == nn {
                    self.program_counter = self.program_counter.wrapping_add(2);
                }
                proof {
                    assert(self@ =~= step_opcode(pre, opcode, rnd).0);
                }
                Ok(())
            },
            Instruction::SkipNeByte { x, nn } => {
                if self.register[x as usize] != nn {
                    self.program_counter = self.program_counter.wrapping_add(2);
                }
                proof {
                    assert(self@ =~= step_opcode(pre, opcode, rnd).0);
                }
                Ok(())
            },
            Instruction::SkipEqReg { x, y } => {
                if self.register[x as usize] == self.register[y as usize] {
                    self.program_counter = self.program_counter.wrapping_add(2);
                }
                proof {
                    assert(self@ =~= step_opcode(pre, opcode, rnd).0);
                }
                Ok(())
            },
            Instruction::LoadByte { x, nn } => {
                self.register[x as usize] = nn;
                proof {
                    assert(self@ =~= step_opcode(pre, opcode, rnd).0);
                }
                Ok(())
            },
            Instruction::AddByte { x, nn } => {
                let a = self.register[x as usize];
                self.register[x as usize] = a.wrapping_add(nn);
                proof {
                    assert(self@ =~= step_opcode(pre, opcode, rnd).0);
                }
                Ok(())
            },
            Instruction::MoveReg { x, y } => {
                let b = self.register[y as usize];
                self.register[x as usize] = b;
                proof {
                    assert(self@ =~= step_opcode(pre, opcode, rnd).0);
                }
                Ok(())
            },
            Instruction::OrReg { x, y } => {
                let a = self.register[x as usize];
                let b = self.register[y as usize];
                self.register[x as usize] = a | b;
                proof {
                    assert(self@ =~= step_opcode(pre, opcode, rnd).0);
                }
                Ok(())
            },
            Instruction::AndReg { x, y } => {
                let a = self.register[x as usize];
                let b = self.register[y as usize];
                self.register[x as usize] = a & b;
                proof {
                    assert(self@ =~= step_opcode(pre, opcode, rnd).0);
                }
                Ok(())
            },
            Instruction::XorReg { x, y } => {
                let a = self.register[x as usize];
                let b = self.register[y as usize];
                self.register[x as usize] = a ^ b;
                proof {
                    assert(self@ =~= step_opcode(pre, opcode, rnd).0);
                }
                Ok(())
            },
            Instruction::AddReg { x, y } => {
                let a = self.register[x as usize];
                let b = self.register[y as usize];
                self.register[15] = if (a as u16) + (b as u16) > 255 {
                    1
                } else {
                    0
                };
                self.register[x as usize] = a.wrapping_add(b);
                proof {
                    assert(self@ =~= step_opcode(pre, opcode, rnd).0);
                }
                Ok(())
            },
            Instruction::SubReg { x, y } => {
                let a = self.register[x as usize];
                let b = self.register[y as usize];
                self.register[15] = if a >= b {
                    1
                } else {
                    0
                };
                self.register[x as usize] = a.wrapping_sub(b);
                proof {
                    assert(self@ =~= step_opcode(pre, opcode, rnd).0);
                }
                Ok(())
            },
            Instruction::ShiftRight { x } => {
                let a = self.register[x as usize];
                self.register[15] = a & 1;
                self.register[x as usize] = a >> 1u8;
                proof {
                    assert(self@ =~= step_opcode(pre, opcode, rnd).0);
                }
                Ok(())
            },
            Instruction::SubFrom { x, y } => {
                let a = self.register[x as usize];
                let b = self.register[y as usize];
                self.register[15] = if b >= a {
                    1
                } else {
                    0
                };
                self.register[x as usize] = b.wrapping_sub(a);
                proof {
                    assert(self@ =~= step_opcode(pre, opcode, rnd).0);
                }
                Ok(())
            },
            Instruction::ShiftLeft { x } => {
                let a = self.register[x as usize];
                self.register[15] = a >> 7u8;
                self.register[x as usize] = a.wrapping_add(a);
                proof {
                    assert(self@ =~= step_opcode(pre, opcode, rnd).0);
                }
                Ok(())
            },
            Instruction::SkipNeReg { x, y } => {
                if self.register[x as usize] != self.register[y as usize] {
                    self.program_counter = self.program_counter.wrapping_add(2);
                }
                proof {
                    assert(self@ =~= step_opcode(pre, opcode, rnd).0);
                }
                Ok(())
            },
            Instruction::LoadIndex { nnn } => {
                self.index_register = nnn;
                proof {
                    assert(self@ =~= step_opcode(pre, opcode, rnd).0);
                }
                Ok(())
            },
            Instruction::IndexOffset { nnn } => {
                self.index_register = nnn + (self.register[0] as u16);
                proof {
                    assert(self@ =~= step_opcode(pre, opcode, rnd).0);
                }
                Ok(())
            },
            Instruction::Random { x, nn } => {
                self.register[x as usize] = nn & rnd;
                proof {
                    assert(self@ =~= step_opcode(pre, opcode, rnd).0);
                }
                Ok(())
            },
            Instruction::Draw { x, y, n } => {
                let n_us = n as usize;
                let i0 = self.index_register as usize;
                if i0 + n_us > 4096 {
                    proof {
                        assert(self@ =~= step_opcode(pre, opcode, rnd).0);
                    }
                    return Err(Chip8Error::MemoryOutOfBounds);
                }
                let mut sprite: Vec<u8> = Vec::new();
                let mut k: usize = 0;
                while k < n_us
                    invariant
                        k <= n_us,
                        self.wf(),
                        self@ == t,
                        i0 == t.index as usize,
                        i0 + n_us <= 4096,
                        sprite@ == t.mem.subrange(i0 as int, i0 as int + k as int),
                    decreases n_us - k,
                {
                    let byte = self.memory[i0 + k];
                    sprite.push(byte);
                    proof {
                        assert(sprite@ =~= t.mem.subrange(i0 as int, i0 as int + (k + 1)));
                    }
                    k += 1;
                }
                let vx = self.register[x as usize];
                let vy = self.register[y as usize];
                let coll = self.display.draw(vx, vy, sprite.as_slice());
                self.register[15] = if coll {
                    1
                } else {
                    0
                };
                proof {
                    crate::display::lemma_draw_buf_len(
                        t.fb,
                        vx as int,
                        vy as int,
                        sprite@,
                        8 * sprite@.len() as int,
                    );
                    assert(self@ =~= step_opcode(pre, opcode, rnd).0);
                }
                Ok(())
            },
            Instruction::SkipKey { x } => {
                let vx = self.register[x as usize];
                proof {
                    assert(vx & 0xF < 16) by (bit_vector);
                }
                let pressed = self.keyboard.pressed((vx & 0xF) as usize);
                if pressed {
                    self.program_counter = self.program_counter.wrapping_add(2);
                }
                proof {
                    assert(self@ =~= step_opcode(pre, opcode, rnd).0);
                }
                Ok(())
            },
            Instruction::SkipNoKey { x } => {
                let vx = self.register[x as usize];
                proof {
                    assert(vx & 0xF < 16) by (bit_vector);
                }
                let pressed = self.keyboard.pressed((vx & 0xF) as usize);
                if !pressed {
                    self.program_counter = self.program_counter.wrapping_add(2);
                }
                proof {
                    assert(self@ =~= step_opcode(pre, opcode, rnd).0);
                }
                Ok(())
            },
            Instruction::ReadDelay { x } => {
                self.register[x as usize] = self.delay_timer;
                proof {
                    assert(self@ =~= step_opcode(pre, opcode, rnd).0);
                }
                Ok(())
            },
            Instruction::WaitKey { x } => {
                let mut found = false;
                let mut which: u8 = 0;
                let mut key: usize = 0;
                while !found && key < 15
                    invariant
                        key <= 15,
                        self.wf(),
                        self@ == t,
                        !found ==> first_pressed(t.keys, 0) == first_pressed(t.keys, key as int),
                        found ==> first_pressed(t.keys, 0) == Some(which),
                    decreases 15 - key + (if found {
                        0int
                    } else {
                        1int
                    }),
                {
                    let pressed = self.keyboard.pressed(key);
                    if pressed {
                        found = true;
                        which = key as u8;
                    } else {
                        key += 1;
                    }
                }
                if found {
                    self.register[x as usize] = which;
                } else {
                    self.program_counter = self.program_counter.wrapping_sub(2);
                }
                proof {
                    assert(self@ =~= step_opcode(pre, opcode, rnd).0);
                }
                Ok(())
            },
            Instruction::SetDelay { x } => {
                self.delay_timer = self.register[x as usize];
                proof {
                    assert(self@ =~= step_opcode(pre, opcode, rnd).0);
                }
                Ok(())
            },
            Instruction::SetSound { x } => {
                self.sound_timer = self.register[x as usize];
                proof {
                    assert(self@ =~= step_opcode(pre, opcode, rnd).0);
                }
                Ok(())
            },
            Instruction::AddIndex { x } => {
                let vx = self.register[x as usize];
                self.index_register = self.index_register.wrapping_add(vx as u16);
                proof {
                    assert(self@ =~= step_opcode(pre, opcode, rnd).0);
                }
                Ok(())
            },
            Instruction::FontIndex { x } => {
                let vx = self.register[x as usize];
                self.index_register = (vx as u16) * 5;
                proof {
                    assert(self@ =~= step_opcode(pre, opcode, rnd).0);
                }
                Ok(())
            },
            Instruction::StoreDigits { x } => {
                let i0 = self.index_register as usize;
                if i0 + 2 >= 4096 {
                    proof {
                        assert(self@ =~= step_opcode(pre, opcode, rnd).0);
                    }
                    return Err(Chip8Error::MemoryOutOfBounds);
                }
                let v = self.register[x as usize];
                self.memory[i0] = v / 100;
                self.memory[i0 + 1] = (v / 10) % 10;
                self.memory[i0 + 2] = v % 10;
                proof {
                    assert(self@ =~= step_opcode(pre, opcode, rnd).0);
                }
                Ok(())
            },
            Instruction::StoreRegs { x } => {
                let i0 = self.index_register as usize;
                let x_us = x as usize;
                if i0 + x_us >= 4096 {
                    proof {
                        assert(self@ =~= step_opcode(pre, opcode, rnd).0);
                    }
                    return Err(Chip8Error::MemoryOutOfBounds);
                }
                let mut r: usize = 0;
                while r <= x_us
                    invariant
                        r <= x_us + 1,
                        x_us < 16,
                        i0 + x_us < 4096,
                        self@ == (MachineView { mem: self.memory@, ..t }),
                        self.memory@.len() == 4096,
                        self.wf(),
                        i0 == t.index as usize,
                        t.regs.len() == 16,
                        self.register@ == t.regs,
                        forall|q: int| i0 <= q < i0 + r ==> self.memory@[q] == t.regs[q - i0],
                        forall|q: int|
                            (0 <= q < i0 || i0 + r <= q < 4096) ==> self.memory@[q] == t.mem[q],
                    decreases x_us + 1 - r,
                {
                    let value = self.register[r];
                    self.memory[i0 + r] = value;
                    r += 1;
                }
                proof {
                    assert(self.memory@ =~= mem_with_regs(t.mem, t.regs, i0 as int, x as int));
                    assert(self@ =~= step_opcode(pre, opcode, rnd).0);
                }
                Ok(())
            },
            Instruction::LoadRegs { x } => {
                let i0 = self.index_register as usize;
                let x_us = x as usize;
                if i0 + x_us >= 4096 {
                    proof {
                        assert(self@ =~= step_opcode(pre, opcode, rnd).0);
                    }
                    return Err(Chip8Error::MemoryOutOfBounds);
                }
                let mut r: usize = 0;
                while r <= x_us
                    invariant
                        r <= x_us + 1,
                        x_us < 16,
                        i0 + x_us < 4096,
                        self@ == (MachineView { regs: self.register@, ..t }),
                        self.register@.len() == 16,
                        self.wf(),
                        i0 == t.index as usize,
                        t.mem.len() == 4096,
                        self.memory@ == t.mem,
                        forall|q: int| 0 <= q < r ==> self.register@[q] == t.mem[i0 + q],
                        forall|q: int| r <= q < 16 ==> self.register@[q] == t.regs[q],
                    decreases x_us + 1 - r,
                {
                    let value = self.memory[i0 + r];
                    self.register[r] = value;
                    r += 1;
                }
                proof {
                    assert(self.register@ =~= regs_from_mem(t.regs, t.mem, i0 as int, x as int));
                    assert(self@ =~= step_opcode(pre, opcode, rnd).0);
                }
                Ok(())
            },
            Instruction::Unknown => {
                proof {
                    assert(self@ =~= step_opcode(pre, opcode, rnd).0);
                }
                Err(Chip8Error::UnknownOpcode)
            },
        }
    }

    /// Execute one already-fetched instruction word, drawing the byte for
    /// the random-number instruction from the generator: for some byte, the
    /// machine steps exactly as the step function says (every instruction
    /// but `CXNN` ignores that byte). Timers do not tick.
    pub fn execute_opcode(&mut self, opcode: u16) -> (res: Result<(), Chip8Error>)
        requires
            old(self).wf(),
        ensures
            final(self).wf(),
            exists|rnd: u8|
                final(self)@ == (#[trigger] step_opcode(old(self)@, opcode, rnd)).0 && res
                    == step_opcode(old(self)@, opcode, rnd).1,
    {
        let rnd = random_byte();
        let res = self.execute_opcode_with(opcode, rnd);
        proof {
            assert(self@ == step_opcode(old(self)@, opcode, rnd).0 && res == step_opcode(
                old(self)@,
                opcode,
                rnd,
            ).1);
        }
        res
    }

    /// One full cycle: fetch the big-endian word at the program counter,
    /// execute it, and on success count both timers down by one. A fetch
    /// past the end of memory fails with the state unchanged; a failing
    /// instruction leaves the state as the step function says, untimed.
    pub fn execute_cycle(&mut self) -> (res: Result<(), Chip8Error>)
        requires
            old(self).wf(),
        ensures
            final(self).wf(),
            exists|rnd: u8|
                final(self)@ == (#[trigger] spec_cycle(old(self)@, rnd)).0 && res == spec_cycle(
                    old(self)@,
                    rnd,
                ).1,
    {
        let ghost pre = self@;
        if self.program_counter >= 4095 {
            proof {
                assert(self@ == (#[trigger] spec_cycle(pre, 0)).0 && Err::<(), Chip8Error>(
                    Chip8Error::MemoryOutOfBounds,
                ) == spec_cycle(pre, 0).1);
            }
            return Err(Chip8Error::MemoryOutOfBounds);
        }
        let opcode = read_word(&self.memory, self.program_counter);
        let rnd = random_byte();
        let res = self.execute_opcode_with(opcode, rnd);
        match res {
            Err(e) => {
                proof {
                    assert(self@ == (#[trigger] spec_cycle(pre, rnd)).0 && res == spec_cycle(
                        pre,
                        rnd,
                    ).1);
                }
                Err(e)
            },
            Ok(_) => {
                self.decrement_delay_timer();
                self.decrement_sound_timer();
                proof {
                    assert(self@ =~= ticked(step_opcode(pre, spec_word(pre.mem, pre.pc as int), rnd).0));
                    assert(self@ == (#[trigger] spec_cycle(pre, rnd)).0 && Ok::<(), Chip8Error>(())
                        == spec_cycle(pre, rnd).1);
                }
                Ok(())
            },
        }
    }

    fn decrement_delay_timer(&mut self)
        requires
            old(self).wf(),
        ensures
            final(self).wf(),
            final(self)@ == (MachineView {
                delay: if old(self)@.delay > 0 {
                    (old(self)@.delay - 1) as u8
                } else {
                    0
                },
                ..old(self)@
            }),
    {
        if self.delay_timer > 0 {
            self.delay_timer = self.delay_timer - 1;
        }
        proof {
            assert(self@ =~= (MachineView {
                delay: if old(self)@.delay > 0 {
                    (old(self)@.delay - 1) as u8
                } else {
                    0
                },
                ..old(self)@
            }));
        }
    }

    fn decrement_sound_timer(&mut self)
        requires
            old(self).wf(),
        ensures
            final(self).wf(),
            final(self)@ == (MachineView {
                sound: if old(self)@.sound > 0 {
                    (old(self)@.sound - 1) as u8
                } else {
                    0
                },
                ..old(self)@
            }),
    {
        if self.sound_timer > 0 {
            self.sound_timer = self.sound_timer - 1;
        }
        proof {
            assert(self@ =~= (MachineView {
                sound: if old(self)@.sound > 0 {
                    (old(self)@.sound - 1) as u8
                } else {
                    0
                },
                ..old(self)@
            }));
        }
    }
}

} // verus!
