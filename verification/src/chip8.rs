use vstd::prelude::*;
use crate::cpu::Cpu;
use crate::display::{Display, blank_screen};
use crate::keyboard::Keyboard;
use crate::memory::{
    FONT_GLYPH_BYTES, FONT_START, MEMORY_SIZE, Memory, PROGRAM_START, initial_memory, loaded,
    program_fits,
};
use crate::opcode::{
    addr_bits, addr_of, byte_bits, byte_of, family, family_bits, nibble_bits, nibble_of, x_bits,
    x_of, y_bits, y_of,
};
use crate::random::random_byte;
use crate::semantics::{
    MachineState, advanced, alu_effect, draw_effect, effect, misc_effect, next_pc, opcode_at,
    pc_stays_in_range, runs_to, set_reg, set_reg_and_flag, step, wrap_addr,
};
use crate::sprite::draw_sprite;
use crate::stack::{pop_result, push_result};
use crate::timer::Timer;

verus! {

/// The machine at power-on: registers, I and timers zero, the program
/// counter at `PROGRAM_START`, the stack empty, the font in memory, no key
/// held or pressed, the screen dark.
pub open spec fn power_on_state() -> MachineState {
    MachineState {
        v: Seq::new(16, |r: int| 0u8),
        pc: PROGRAM_START as u16,
        i: 0,
        stack: Seq::empty(),
        stack_slots: Seq::new(16, |k: int| 0u16),
        memory: initial_memory(),
        dt: 0,
        st: 0,
        keys: Seq::new(16, |k: int| false),
        pressed: None,
        screen: blank_screen(),
    }
}

/// A complete CHIP-8 machine.
#[derive(Debug)]
pub struct Chip8 {
    pub cpu: Cpu,
    pub memory: Memory,
    pub timer: Timer,
    pub keyboard: Keyboard,
    pub display: Display,
}

impl View for Chip8 {
    type V = MachineState;

    open spec fn view(&self) -> MachineState {
        MachineState {
            v: self.cpu.registers@,
            pc: self.cpu.pc,
            i: self.cpu.i,
            stack: self.cpu.stack@,
            stack_slots: self.cpu.stack.values@,
            memory: self.memory@,
            dt: self.timer.dt,
            st: self.timer.st,
            keys: self.keyboard.keys@,
            pressed: self.keyboard.pressed_this_frame,
            screen: self.display@,
        }
    }
}

/// Only `Cxkk` reads the random byte.
pub proof fn lemma_random_only_for_cxkk(s: MachineState, op: u16, r1: u8, r2: u8)
    requires
        family(op) != 0xC,
    ensures
        step(s, op, r1) == step(s, op, r2),
{
}

impl Chip8 {
    /// The stack pointer stays within the stack.
    pub open spec fn wf(&self) -> bool {
        self.cpu.stack.wf()
    }

    /// The machine at power-on.
    pub fn new() -> (c: Self)
        ensures
            c.wf(),
            c@ == power_on_state(),
    {
        let c = Chip8 {
            cpu: Cpu::new(),
            memory: Memory::new(),
            timer: Timer::new(),
            keyboard: Keyboard::new(),
            display: Display::new(),
        };
        assert(c@.v =~= power_on_state().v);
        assert(c@.keys =~= power_on_state().keys);
        assert(c@.stack_slots =~= power_on_state().stack_slots);
        c
    }

    /// Copies `program` into memory at `PROGRAM_START`.
    pub fn load_program(&mut self, program: &[u8])
        requires
            old(self).wf(),
            program_fits(program@),
        ensures
            final(self).wf(),
            final(self)@ == (MachineState { memory: loaded(old(self)@.memory, program@), ..old(self)@ }),
    {
        self.memory.load_program(program);
    }

    /// The opcode at the program counter: the byte there, then the next.
    pub fn fetch_opcode(&self) -> (op: u16)
        requires
            self.cpu.pc + 1 < MEMORY_SIZE,
        ensures
            op == opcode_at(self@.memory, self@.pc),
    {
        let pc = self.cpu.pc as usize;
        let high = self.memory.values[pc];
        let low = self.memory.values[pc + 1];
        assert(((high as u16) << 8u16) | (low as u16) == high * 256 + low) by (bit_vector);
        ((high as u16) << 8) | (low as u16)
    }

    /// Runs one instruction: fetches the opcode at the program counter,
    /// moves the counter past it and executes it. The random byte that
    /// `Cxkk` needs is drawn from the thread-local generator.
    pub fn cycle(&mut self) -> (r: Result<(), &'static str>)
        requires
            old(self).wf(),
            old(self).cpu.pc + 1 < MEMORY_SIZE,
        ensures
            final(self).wf(),
            exists|random: u8|
                runs_to(
                    advanced(old(self)@),
                    opcode_at(old(self)@.memory, old(self)@.pc),
                    random,
                    final(self)@,
                    r,
                ),
            family(opcode_at(old(self)@.memory, old(self)@.pc)) != 0xC ==> runs_to(
                advanced(old(self)@),
                opcode_at(old(self)@.memory, old(self)@.pc),
                0,
                final(self)@,
                r,
            ),
    {
        let opcode = self.fetch_opcode();
        self.cpu.pc = self.cpu.pc + 2;
        assert(self@ == advanced(old(self)@));
        self.execute_opcode(opcode)
    }

    /// Executes `opcode`, drawing the random byte that `Cxkk` needs from the
    /// thread-local generator.
    pub fn execute_opcode(&mut self, opcode: u16) -> (r: Result<(), &'static str>)
        requires
            old(self).wf(),
            pc_stays_in_range(old(self)@, opcode),
        ensures
            final(self).wf(),
            exists|random: u8| runs_to(old(self)@, opcode, random, final(self)@, r),
            family(opcode) != 0xC ==> runs_to(old(self)@, opcode, 0, final(self)@, r),
    {
        let random: u8 = if family_bits(opcode) == 0xC {
            random_byte()
        } else {
            0
        };
        self.execute_opcode_with_random(opcode, random)
    }

    /// Executes `opcode`, with `random` as the byte that `Cxkk` masks.
    pub fn execute_opcode_with_random(&mut self, opcode: u16, random: u8) -> (r: Result<
        (),
        &'static str,
    >)
        requires
            old(self).wf(),
            pc_stays_in_range(old(self)@, opcode),
        ensures
            final(self).wf(),
            runs_to(old(self)@, opcode, random, final(self)@, r),
    {
        let f = family_bits(opcode);
        if f == 0x0 {
            self.execute_system(opcode)
        } else if f == 0x1 || f == 0x2 || f == 0xB {
            self.execute_jump(opcode)
        } else if f == 0x3 || f == 0x4 || f == 0x5 || f == 0x9 || f == 0xE {
            self.execute_skip(opcode);
            Ok(())
        } else if f == 0x6 || f == 0x7 || f == 0xA || f == 0xC {
            self.execute_load(opcode, random);
            Ok(())
        } else if f == 0x8 {
            self.execute_alu(opcode);
            Ok(())
        } else if f == 0xD {
            self.execute_draw(opcode);
            Ok(())
        } else {
            self.execute_misc(opcode);
            Ok(())
        }
    }

    /// `00E0` clears the screen, `00EE` returns from a subroutine; other
    /// `0nnn` do nothing.
    fn execute_system(&mut self, opcode: u16) -> (r: Result<(), &'static str>)
        requires
            old(self).wf(),
            family(opcode) == 0x0,
        ensures
            final(self).wf(),
            runs_to(old(self)@, opcode, 0, final(self)@, r),
    {
        if opcode == 0x00E0 {
            self.display.clear();
            Ok(())
        } else if opcode == 0x00EE {
            match self.cpu.stack.pop() {
                Ok(addr) => {
                    self.cpu.pc = addr;
                    Ok(())
                },
                Err(e) => Err(e),
            }
        } else {
            Ok(())
        }
    }

    /// `1nnn` jumps, `2nnn` calls a subroutine, `Bnnn` jumps to nnn + V0.
    fn execute_jump(&mut self, opcode: u16) -> (r: Result<(), &'static str>)
        requires
            old(self).wf(),
            family(opcode) == 0x1 || family(opcode) == 0x2 || family(opcode) == 0xB,
        ensures
            final(self).wf(),
            runs_to(old(self)@, opcode, 0, final(self)@, r),
    {
        let f = family_bits(opcode);
        let nnn = addr_bits(opcode);
        if f == 0x1 {
            self.cpu.pc = nnn;
            Ok(())
        } else if f == 0x2 {
            match self.cpu.stack.push(self.cpu.pc) {
                Ok(()) => {
                    self.cpu.pc = nnn;
                    Ok(())
                },
                Err(e) => Err(e),
            }
        } else {
            self.cpu.pc = nnn.wrapping_add(self.cpu.registers[0x0] as u16);
            Ok(())
        }
    }

    /// The conditional skips `3xkk`, `4xkk`, `5xy0`, `9xy0`, `Ex9E` and `ExA1`.
    fn execute_skip(&mut self, opcode: u16)
        requires
            old(self).wf(),
            pc_stays_in_range(old(self)@, opcode),
            family(opcode) == 0x3 || family(opcode) == 0x4 || family(opcode) == 0x5 || family(
                opcode,
            ) == 0x9 || family(opcode) == 0xE,
        ensures
            final(self).wf(),
            runs_to(old(self)@, opcode, 0, final(self)@, Ok(())),
    {
        let f = family_bits(opcode);
        let x = x_bits(opcode);
        let y = y_bits(opcode);
        let kk = byte_bits(opcode);
        let vx = self.cpu.registers[x];
        let vy = self.cpu.registers[y];
        let skip = if f == 0x3 {
            vx == kk
        } else if f == 0x4 {
            vx != kk
        } else if f == 0x5 {
            vx == vy
        } else if f == 0x9 {
            vx != vy
        } else {
            let key = (vx & 0xF) as usize;
            assert(vx & 0xFu8 == vx % 16) by (bit_vector);
            if kk == 0x9E {
                self.keyboard.keys[key]
            } else if kk == 0xA1 {
                !self.keyboard.keys[key]
            } else {
                false
            }
        };
        if skip {
            self.cpu.pc = self.cpu.pc + 2;
        }
    }

    /// `6xkk`, `7xkk`, `Annn` and `Cxkk`, with `random` as the byte `Cxkk` masks.
    fn execute_load(&mut self, opcode: u16, random: u8)
        requires
            old(self).wf(),
            family(opcode) == 0x6 || family(opcode) == 0x7 || family(opcode) == 0xA || family(
                opcode,
            ) == 0xC,
        ensures
            final(self).wf(),
            runs_to(old(self)@, opcode, random, final(self)@, Ok(())),
    {
        let f = family_bits(opcode);
        let x = x_bits(opcode);
        let kk = byte_bits(opcode);
        if f == 0x6 {
            self.cpu.registers[x] = kk;
            assert(self@ =~= set_reg(old(self)@, x as int, kk));
        } else if f == 0x7 {
            let sum = self.cpu.registers[x].wrapping_add(kk);
            self.cpu.registers[x] = sum;
            assert(self@ =~= set_reg(old(self)@, x as int, sum));
        } else if f == 0xA {
            self.cpu.i = addr_bits(opcode);
        } else {
            self.cpu.registers[x] = random & kk;
            assert(self@ =~= set_reg(old(self)@, x as int, random & kk));
        }
    }

    /// The arithmetic and logic instructions `8xyn`.
    fn execute_alu(&mut self, opcode: u16)
        requires
            old(self).wf(),
            family(opcode) == 0x8,
        ensures
            final(self).wf(),
            runs_to(old(self)@, opcode, 0, final(self)@, Ok(())),
    {
        let x = x_bits(opcode);
        let y = y_bits(opcode);
        let n = nibble_bits(opcode);
        let vx = self.cpu.registers[x];
        let vy = self.cpu.registers[y];
        let (value, flag) = alu_compute(vx, vy, n);
        if n <= 0x7 || n == 0xE {
            self.cpu.registers[x] = value;
        }
        match flag {
            Some(f) => {
                self.cpu.registers[0xF] = f;
            },
            None => {},
        }
        assert(self@.v =~= step(old(self)@, opcode, 0)->Ok_0.v);
    }

    /// `Dxyn` draws an n-row sprite from memory at I at (Vx, Vy).
    fn execute_draw(&mut self, opcode: u16)
        requires
            old(self).wf(),
            family(opcode) == 0xD,
        ensures
            final(self).wf(),
            runs_to(old(self)@, opcode, 0, final(self)@, Ok(())),
    {
        let vx = self.cpu.registers[x_bits(opcode)];
        let vy = self.cpu.registers[y_bits(opcode)];
        let n = nibble_bits(opcode);
        self.cpu.registers[0xF] = 0;
        let collision = draw_sprite(&mut self.display, &self.memory, self.cpu.i, vx, vy, n);
        if collision {
            self.cpu.registers[0xF] = 1;
        }
        assert(self@.v =~= step(old(self)@, opcode, 0)->Ok_0.v);
    }

    /// The instructions `Fxkk`: timers, key wait, I arithmetic, font glyphs,
    /// decimal digits and register block transfers.
    fn execute_misc(&mut self, opcode: u16)
        requires
            old(self).wf(),
            pc_stays_in_range(old(self)@, opcode),
            family(opcode) == 0xF,
        ensures
            final(self).wf(),
            runs_to(old(self)@, opcode, 0, final(self)@, Ok(())),
    {
        let x = x_bits(opcode);
        let kk = byte_bits(opcode);
        if kk == 0x07 {
            self.cpu.registers[x] = self.timer.dt;
            assert(self@.v =~= step(old(self)@, opcode, 0)->Ok_0.v);
        } else if kk == 0x0A {
            match self.keyboard.just_pressed() {
                Some(key) => {
                    self.cpu.registers[x] = key;
                    assert(self@.v =~= step(old(self)@, opcode, 0)->Ok_0.v);
                },
                None => {
                    self.cpu.pc = self.cpu.pc - 2;
                },
            }
        } else if kk == 0x15 {
            self.timer.dt = self.cpu.registers[x];
        } else if kk == 0x18 {
            self.timer.st = self.cpu.registers[x];
        } else if kk == 0x1E {
            self.cpu.i = self.cpu.i.wrapping_add(self.cpu.registers[x] as u16);
        } else if kk == 0x29 {
            let vx = self.cpu.registers[x] as usize;
            self.cpu.i = (FONT_START + vx * FONT_GLYPH_BYTES) as u16;
        } else if kk == 0x33 {
            let vx = self.cpu.registers[x];
            let i = self.cpu.i as usize;
            self.memory.values[i % MEMORY_SIZE] = (vx / 100) % 10;
            self.memory.values[(i + 1) % MEMORY_SIZE] = (vx / 10) % 10;
            self.memory.values[(i + 2) % MEMORY_SIZE] = vx % 10;
            assert(self@.memory =~= step(old(self)@, opcode, 0)->Ok_0.memory);
        } else if kk == 0x55 {
            self.store_registers(x);
        } else if kk == 0x65 {
            self.load_registers(x);
        }
    }

    /// `Fx55`: stores V0 to Vx in memory from I on.
    fn store_registers(&mut self, x: usize)
        requires
            x < 16,
        ensures
            final(self)@ == (MachineState {
                memory: Seq::new(
                    MEMORY_SIZE as nat,
                    |a: int|
                        {
                            let r = (a - old(self)@.i) % (MEMORY_SIZE as int);
                            if r <= x {
                                old(self)@.v[r]
                            } else {
                                old(self)@.memory[a]
                            }
                        },
                ),
                ..old(self)@
            }),
            final(self).cpu.stack == old(self).cpu.stack,
    {
        let i = self.cpu.i as usize;
        let mut register: usize = 0;
        while register <= x
            invariant
                x < 16,
                register <= x + 1,
                i == old(self).cpu.i,
                self.cpu == old(self).cpu,
                self.timer == old(self).timer,
                self.keyboard == old(self).keyboard,
                self.display == old(self).display,
                self@.memory.len() == MEMORY_SIZE,
                forall|a: int|
                    0 <= a < MEMORY_SIZE ==> #[trigger] self@.memory[a] == {
                        let r = (a - i) % (MEMORY_SIZE as int);
                        if r < register {
                            old(self)@.v[r]
                        } else {
                            old(self)@.memory[a]
                        }
                    },
            decreases x + 1 - register,
        {
            self.memory.values[(i + register) % MEMORY_SIZE] = self.cpu.registers[register];
            register = register + 1;
        }
        assert(self@.memory =~= Seq::new(
            MEMORY_SIZE as nat,
            |a: int|
                {
                    let r = (a - old(self)@.i) % (MEMORY_SIZE as int);
                    if r <= x {
                        old(self)@.v[r]
                    } else {
                        old(self)@.memory[a]
                    }
                },
        ));
    }

    /// `Fx65`: loads V0 to Vx from memory from I on.
    fn load_registers(&mut self, x: usize)
        requires
            x < 16,
        ensures
            final(self)@ == (MachineState {
                v: Seq::new(
                    16,
                    |r: int|
                        if r <= x {
                            old(self)@.memory[wrap_addr(old(self)@.i, r)]
                        } else {
                            old(self)@.v[r]
                        },
                ),
                ..old(self)@
            }),
            final(self).cpu.stack == old(self).cpu.stack,
    {
        let i = self.cpu.i as usize;
        let mut register: usize = 0;
        while register <= x
            invariant
                x < 16,
                register <= x + 1,
                i == old(self).cpu.i,
                self.cpu.i == old(self).cpu.i,
                self.cpu.pc == old(self).cpu.pc,
                self.cpu.stack == old(self).cpu.stack,
                self.memory == old(self).memory,
                self.timer == old(self).timer,
                self.keyboard == old(self).keyboard,
                self.display == old(self).display,
                self@.v.len() == 16,
                forall|r: int|
                    0 <= r < 16 ==> #[trigger] self@.v[r] == if r < register {
                        old(self)@.memory[wrap_addr(old(self)@.i, r)]
                    } else {
                        old(self)@.v[r]
                    },
            decreases x + 1 - register,
        {
            self.cpu.registers[register] = self.memory.values[(i + register) % MEMORY_SIZE];
            register = register + 1;
        }
        assert(self@.v =~= Seq::new(
            16,
            |r: int|
                if r <= x {
                    old(self)@.memory[wrap_addr(old(self)@.i, r)]
                } else {
                    old(self)@.v[r]
                },
        ));
    }
}

/// The result register value and, where the instruction sets one, the VF
/// flag of `8xyn` on Vx = `vx`, Vy = `vy`.
fn alu_compute(vx: u8, vy: u8, n: u8) -> (res: (u8, Option<u8>))
    requires
        n < 16,
    ensures
        n == 0x0 ==> res == (vy, None::<u8>),
        n == 0x1 ==> res == (vx | vy, None::<u8>),
        n == 0x2 ==> res == (vx & vy, None::<u8>),
        n == 0x3 ==> res == (vx ^ vy, None::<u8>),
        n == 0x4 ==> res == (((vx + vy) % 256) as u8, Some(if vx + vy > 255 { 1u8 } else { 0u8 })),
        n == 0x5 ==> res == (((vx - vy) % 256) as u8, Some(if vx >= vy { 1u8 } else { 0u8 })),
        n == 0x6 ==> res == (vx / 2, Some(vx % 2)),
        n == 0x7 ==> res == (((vy - vx) % 256) as u8, Some(if vy >= vx { 1u8 } else { 0u8 })),
        n == 0xE ==> res == (((vx * 2) % 256) as u8, Some(vx / 128)),
        !(n <= 0x7 || n == 0xE) ==> res.1 is None,
{
    if n == 0x0 {
        (vy, None)
    } else if n == 0x1 {
        (vx | vy, None)
    } else if n == 0x2 {
        (vx & vy, None)
    } else if n == 0x3 {
        (vx ^ vy, None)
    } else if n == 0x4 {
        let carry = vx > 255 - vy;
        (vx.wrapping_add(vy), Some(if carry { 1 } else { 0 }))
    } else if n == 0x5 {
        let borrow = vx < vy;
        (vx.wrapping_sub(vy), Some(if borrow { 0 } else { 1 }))
    } else if n == 0x6 {
        assert(vx & 1u8 == vx % 2) by (bit_vector);
        assert(vx >> 1u8 == vx / 2) by (bit_vector);
        (vx >> 1, Some(vx & 1))
    } else if n == 0x7 {
        let borrow = vy < vx;
        (vy.wrapping_sub(vx), Some(if borrow { 0 } else { 1 }))
    } else if n == 0xE {
        assert((vx & 0x80u8) >> 7u8 == vx / 128) by (bit_vector);
        assert(vx << 1u8 == (vx * 2) % 256) by (bit_vector);
        (vx << 1, Some((vx & 0x80) >> 7))
    } else {
        (vx, None)
    }
}

impl Default for Chip8 {
    fn default() -> (c: Self)
        ensures
            c.wf(),
            c@ == power_on_state(),
    {
        Chip8::new()
    }
}

} // verus!
