use vstd::prelude::*;
use crate::display::blank_screen;
use crate::memory::{FONT_GLYPH_BYTES, FONT_START, MEMORY_SIZE};
use crate::opcode::{addr_of, byte_of, family, nibble_of, x_of, y_of};
use crate::sprite::{collides, drawn};
use crate::stack::{pop_result, push_result};

verus! {

/// The machine as the instructions see it.
pub struct MachineState {
    /// Registers V0 to VF.
    pub v: Seq<u8>,
    /// The program counter.
    pub pc: u16,
    /// The address register I.
    pub i: u16,
    /// The return addresses on the call stack, bottom first.
    pub stack: Seq<u16>,
    /// All sixteen slots of the call stack, the live entries at the bottom;
    /// a slot above them keeps the last address written to it.
    pub stack_slots: Seq<u16>,
    /// The 4096 bytes of memory.
    pub memory: Seq<u8>,
    /// The delay timer.
    pub dt: u8,
    /// The sound timer.
    pub st: u8,
    /// Which of the keys 0 to F are held down.
    pub keys: Seq<bool>,
    /// The key pressed this frame and not yet consumed.
    pub pressed: Option<u8>,
    /// The screen, `screen[y][x]`.
    pub screen: Seq<Seq<bool>>,
}

/// Index of the flag register VF.
pub open spec fn vf() -> int {
    15
}

/// `s` with register `r` set to `value`.
pub open spec fn set_reg(s: MachineState, r: int, value: u8) -> MachineState {
    MachineState { v: s.v.update(r, value), ..s }
}

/// `s` with register `r` set to `value`, then VF set to `flag`.
pub open spec fn set_reg_and_flag(s: MachineState, r: int, value: u8, flag: u8) -> MachineState {
    set_reg(set_reg(s, r, value), vf(), flag)
}

/// The key that register `x` names: its low nibble.
pub open spec fn key_in(s: MachineState, x: int) -> int {
    (s.v[x] % 16) as int
}

/// The program counter after `op` runs in `s`: the target of a jump, call
/// or return, two past it for a skip that is taken, two before it while
/// waiting for a key, and unchanged otherwise.
pub open spec fn next_pc(s: MachineState, op: u16) -> int {
    let f = family(op);
    let x = x_of(op);
    let y = y_of(op);
    let kk = byte_of(op);
    let nnn = addr_of(op);
    let skip = s.pc + 2;
    if op == 0x00EE {
        if s.stack.len() > 0 {
            s.stack.last() as int
        } else {
            s.pc as int
        }
    } else if f == 0x1 {
        nnn as int
    } else if f == 0x2 {
        if push_result(s.stack, s.pc) is Ok {
            nnn as int
        } else {
            s.pc as int
        }
    } else if f == 0x3 {
        if s.v[x] == kk { skip } else { s.pc as int }
    } else if f == 0x4 {
        if s.v[x] != kk { skip } else { s.pc as int }
    } else if f == 0x5 {
        if s.v[x] == s.v[y] { skip } else { s.pc as int }
    } else if f == 0x9 {
        if s.v[x] != s.v[y] { skip } else { s.pc as int }
    } else if f == 0xB {
        nnn + s.v[0]
    } else if f == 0xE && kk == 0x9E {
        if s.keys[key_in(s, x)] { skip } else { s.pc as int }
    } else if f == 0xE && kk == 0xA1 {
        if !s.keys[key_in(s, x)] { skip } else { s.pc as int }
    } else if f == 0xF && kk == 0x0A {
        if s.pressed is None { s.pc - 2 } else { s.pc as int }
    } else {
        s.pc as int
    }
}

/// The arithmetic and logic instructions `8xyn`.
pub open spec fn alu_effect(s: MachineState, op: u16) -> MachineState {
    let x = x_of(op);
    let vx = s.v[x];
    let vy = s.v[y_of(op)];
    let n = nibble_of(op);
    if n == 0x0 {
        set_reg(s, x, vy)
    } else if n == 0x1 {
        set_reg(s, x, vx | vy)
    } else if n == 0x2 {
        set_reg(s, x, vx & vy)
    } else if n == 0x3 {
        set_reg(s, x, vx ^ vy)
    } else if n == 0x4 {
        set_reg_and_flag(s, x, ((vx + vy) % 256) as u8, if vx + vy > 255 { 1 } else { 0 })
    } else if n == 0x5 {
        set_reg_and_flag(s, x, ((vx - vy) % 256) as u8, if vx >= vy { 1 } else { 0 })
    } else if n == 0x6 {
        set_reg_and_flag(s, x, vx / 2, vx % 2)
    } else if n == 0x7 {
        set_reg_and_flag(s, x, ((vy - vx) % 256) as u8, if vy >= vx { 1 } else { 0 })
    } else if n == 0xE {
        set_reg_and_flag(s, x, ((vx * 2) % 256) as u8, vx / 128)
    } else {
        s
    }
}

/// The sprite instruction `Dxyn`: draws `n` rows read from memory at I at
/// (Vx, Vy); VF becomes 1 when a lit pixel was turned off, 0 otherwise.
pub open spec fn draw_effect(s: MachineState, op: u16) -> MachineState {
    let vx = s.v[x_of(op)];
    let vy = s.v[y_of(op)];
    let n = nibble_of(op);
    MachineState {
        screen: drawn(s.screen, s.memory, s.i, vx, vy, n),
        v: s.v.update(vf(), if collides(s.screen, s.memory, s.i, vx, vy, n) { 1u8 } else { 0u8 }),
        ..s
    }
}

/// Memory address `i + offset`, wrapping around the end of memory.
pub open spec fn wrap_addr(i: u16, offset: int) -> int {
    (i + offset) % (MEMORY_SIZE as int)
}

/// The instructions `Fxkk`.
pub open spec fn misc_effect(s: MachineState, op: u16) -> MachineState {
    let x = x_of(op);
    let vx = s.v[x];
    let kk = byte_of(op);
    if kk == 0x07 {
        set_reg(s, x, s.dt)
    } else if kk == 0x0A {
        match s.pressed {
            Some(key) => MachineState { pressed: None, ..set_reg(s, x, key) },
            None => s,
        }
    } else if kk == 0x15 {
        MachineState { dt: vx, ..s }
    } else if kk == 0x18 {
        MachineState { st: vx, ..s }
    } else if kk == 0x1E {
        MachineState { i: ((s.i + vx) % 65536) as u16, ..s }
    } else if kk == 0x29 {
        MachineState { i: (FONT_START + vx * FONT_GLYPH_BYTES) as u16, ..s }
    } else if kk == 0x33 {
        MachineState {
            memory: s.memory.update(wrap_addr(s.i, 0), vx / 100).update(
                wrap_addr(s.i, 1),
                (vx / 10) % 10,
            ).update(wrap_addr(s.i, 2), vx % 10),
            ..s
        }
    } else if kk == 0x55 {
        MachineState {
            memory: Seq::new(
                MEMORY_SIZE as nat,
                |a: int|
                    {
                        let r = (a - s.i) % (MEMORY_SIZE as int);
                        if r <= x {
                            s.v[r]
                        } else {
                            s.memory[a]
                        }
                    },
            ),
            ..s
        }
    } else if kk == 0x65 {
        MachineState {
            v: Seq::new(16, |r: int| if r <= x { s.memory[wrap_addr(s.i, r)] } else { s.v[r] }),
            ..s
        }
    } else {
        s
    }
}

/// What `op` does to `s` apart from the program counter, with `random` as
/// the byte drawn by `Cxkk`; the message of a stack fault instead where a
/// call finds the stack full or a return finds it empty.
pub open spec fn effect(s: MachineState, op: u16, random: u8) -> Result<MachineState, &'static str> {
    let f = family(op);
    let x = x_of(op);
    let kk = byte_of(op);
    if op == 0x00E0 {
        Ok(MachineState { screen: blank_screen(), ..s })
    } else if op == 0x00EE {
        match pop_result(s.stack) {
            Ok((_, rest)) => Ok(MachineState { stack: rest, ..s }),
            Err(msg) => Err(msg),
        }
    } else if f == 0x2 {
        match push_result(s.stack, s.pc) {
            Ok(entries) => Ok(
                MachineState {
                    stack: entries,
                    stack_slots: s.stack_slots.update(s.stack.len() as int, s.pc),
                    ..s
                },
            ),
            Err(msg) => Err(msg),
        }
    } else if f == 0x6 {
        Ok(set_reg(s, x, kk))
    } else if f == 0x7 {
        Ok(set_reg(s, x, ((s.v[x] + kk) % 256) as u8))
    } else if f == 0x8 {
        Ok(alu_effect(s, op))
    } else if f == 0xA {
        Ok(MachineState { i: addr_of(op), ..s })
    } else if f == 0xC {
        Ok(set_reg(s, x, random & kk))
    } else if f == 0xD {
        Ok(draw_effect(s, op))
    } else if f == 0xF {
        Ok(misc_effect(s, op))
    } else {
        Ok(s)
    }
}

/// Running `op` in `s`: the next state, or the message of a stack fault.
pub open spec fn step(s: MachineState, op: u16, random: u8) -> Result<MachineState, &'static str> {
    match effect(s, op, random) {
        Ok(t) => Ok(MachineState { pc: next_pc(s, op) as u16, ..t }),
        Err(msg) => Err(msg),
    }
}

/// `post` and `outcome` are what running `op` in `pre` gives: the next state
/// and `Ok`, or, on a stack fault, `pre` unchanged and the fault's message.
pub open spec fn runs_to(
    pre: MachineState,
    op: u16,
    random: u8,
    post: MachineState,
    outcome: Result<(), &'static str>,
) -> bool {
    match step(pre, op, random) {
        Ok(next) => outcome is Ok && post == next,
        Err(msg) => outcome == Err::<(), &'static str>(msg) && post == pre,
    }
}

/// Whether the program counter that `op` leaves in `s` fits in 16 bits.
pub open spec fn pc_stays_in_range(s: MachineState, op: u16) -> bool {
    0 <= next_pc(s, op) <= u16::MAX
}

/// The opcode stored big-endian at `pc`.
pub open spec fn opcode_at(memory: Seq<u8>, pc: u16) -> u16 {
    (memory[pc as int] * 256 + memory[pc + 1]) as u16
}

/// `s` with the program counter moved past the current instruction.
pub open spec fn advanced(s: MachineState) -> MachineState {
    MachineState { pc: (s.pc + 2) as u16, ..s }
}

} // verus!
