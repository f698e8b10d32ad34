use vstd::prelude::*;
use crate::display::screen_shaped;
use crate::memory::{MEMORY_SIZE, PROGRAM_START, loaded, program_fits};
use crate::opcode::{addr_of, byte_of, family, nibble_of, x_of, y_of};
use crate::semantics::{MachineState, advanced, opcode_at, step, vf, wrap_addr};
use crate::sprite::{drawn, sprite_covers, sprite_pixel};
use crate::stack::{STACK_DEPTH, pop_result, push_result};
use crate::timer::count_down;
use crate::display::{frame_byte, screen_of};
use vstd::bits::lemma_u64_shr_is_div;
use crate::frame::{cycles_outcome, frame_outcome};
use vstd::arithmetic::power2::{lemma2_to64, pow2};

verus! {

/// Whether `s` has the shape of a machine: sixteen registers and keys, a
/// full memory, a stack within its depth and a full screen.
pub open spec fn well_shaped(s: MachineState) -> bool {
    &&& s.v.len() == 16
    &&& s.keys.len() == 16
    &&& s.memory.len() == MEMORY_SIZE
    &&& s.stack.len() <= STACK_DEPTH
    &&& s.stack_slots.len() == STACK_DEPTH
    &&& screen_shaped(s.screen)
}

/// Every instruction that runs keeps the machine's shape.
pub proof fn lemma_step_keeps_shape(s: MachineState, op: u16, random: u8)
    requires
        well_shaped(s),
    ensures
        step(s, op, random) is Ok ==> well_shaped(step(s, op, random)->Ok_0),
{
    if step(s, op, random) is Ok {
        let t = step(s, op, random)->Ok_0;
        if family(op) == 0xD {
            assert(screen_shaped(t.screen));
        }
        if op == 0x00E0 {
            assert(screen_shaped(t.screen));
        }
    }
}

/// Drawing the same sprite twice at the same place erases it: the screen
/// comes back as it was.
pub proof fn lemma_drawn_twice(
    screen: Seq<Seq<bool>>,
    memory: Seq<u8>,
    i: u16,
    vx: u8,
    vy: u8,
    n: int,
)
    requires
        screen_shaped(screen),
    ensures
        drawn(drawn(screen, memory, i, vx, vy, n), memory, i, vx, vy, n) == screen,
{
    let twice = drawn(drawn(screen, memory, i, vx, vy, n), memory, i, vx, vy, n);
    assert forall|py: int| 0 <= py < 32 implies #[trigger] twice[py] =~= screen[py] by {}
    assert(twice =~= screen);
}

/// Running `Dxyn` twice, with neither coordinate in VF, leaves the screen
/// as it was.
pub proof fn lemma_draw_instruction_twice(s: MachineState, op: u16)
    requires
        well_shaped(s),
        family(op) == 0xD,
        x_of(op) != vf(),
        y_of(op) != vf(),
    ensures
        step(s, op, 0) is Ok,
        step(step(s, op, 0)->Ok_0, op, 0) is Ok,
        step(step(s, op, 0)->Ok_0, op, 0)->Ok_0.screen == s.screen,
{
    let s1 = step(s, op, 0)->Ok_0;
    assert(s1.v[x_of(op)] == s.v[x_of(op)]);
    assert(s1.v[y_of(op)] == s.v[y_of(op)]);
    lemma_drawn_twice(s.screen, s.memory, s.i, s.v[x_of(op)], s.v[y_of(op)], nibble_of(op));
}

/// After `Dxyn`, VF is 1 exactly when some pixel that was lit is now dark.
pub proof fn lemma_collision_flag(s: MachineState, op: u16)
    requires
        well_shaped(s),
        family(op) == 0xD,
    ensures
        (step(s, op, 0)->Ok_0.v[vf()] == 1) <==> exists|px: int, py: int|
            0 <= px < 64 && 0 <= py < 32 && s.screen[py][px] && !(#[trigger] step(
                s,
                op,
                0,
            )->Ok_0.screen[py][px]),
        step(s, op, 0)->Ok_0.v[vf()] == 0 || step(s, op, 0)->Ok_0.v[vf()] == 1,
{
    let s1 = step(s, op, 0)->Ok_0;
    let vx = s.v[x_of(op)];
    let vy = s.v[y_of(op)];
    let n = nibble_of(op);
    if s1.v[vf()] == 1 {
        let (wx, wy) = choose|wx: int, wy: int|
            0 <= wx < 64 && 0 <= wy < 32 && #[trigger] sprite_covers(
                s.memory,
                s.i,
                vx,
                vy,
                n,
                wx,
                wy,
            ) && s.screen[wy][wx];
        assert(!s1.screen[wy][wx]);
    }
    if exists|px: int, py: int|
        0 <= px < 64 && 0 <= py < 32 && s.screen[py][px] && !(#[trigger] s1.screen[py][px]) {
        let (wx, wy) = choose|wx: int, wy: int|
            0 <= wx < 64 && 0 <= wy < 32 && s.screen[wy][wx] && !(#[trigger] s1.screen[wy][wx]);
        assert(sprite_covers(s.memory, s.i, vx, vy, n, wx, wy));
    }
}

/// A call `2nnn` followed by a return `00EE` restores the whole machine,
/// the program counter on the instruction after the call, except that the
/// stack slot above the live entries keeps the return address.
pub proof fn lemma_return_undoes_call(s: MachineState, op: u16)
    requires
        well_shaped(s),
        family(op) == 0x2,
        s.stack.len() < STACK_DEPTH,
    ensures
        step(s, op, 0) is Ok,
        step(step(s, op, 0)->Ok_0, 0x00EE, 0) == Ok::<MachineState, &'static str>(
            MachineState { stack_slots: s.stack_slots.update(s.stack.len() as int, s.pc), ..s },
        ),
{
    let s1 = step(s, op, 0)->Ok_0;
    assert(s1.stack == s.stack.push(s.pc));
    assert(s1.stack.drop_last() =~= s.stack);
    let s2 = step(s1, 0x00EE, 0)->Ok_0;
    assert(s2 == MachineState {
        stack_slots: s.stack_slots.update(s.stack.len() as int, s.pc),
        ..s
    });
}

proof fn lemma_wrap_offset(i: u16, r: int)
    requires
        0 <= r < 16,
    ensures
        (wrap_addr(i, r) - i) % 4096 == r,
        0 <= wrap_addr(i, r) < 4096,
{
    let a = (i + r) % 4096;
    let q = (i + r) / 4096;
    assert(i + r == q * 4096 + a);
    assert(a - i == r - q * 4096);
    vstd::arithmetic::div_mod::lemma_mod_multiples_vanish(-q, r, 4096);
}

/// `Fx55` followed by `Fx65` with the same x and I gives back the registers
/// it stored, and changes nothing else.
pub proof fn lemma_store_then_load_registers(s: MachineState, store: u16, load: u16)
    requires
        well_shaped(s),
        family(store) == 0xF,
        byte_of(store) == 0x55,
        family(load) == 0xF,
        byte_of(load) == 0x65,
        x_of(store) == x_of(load),
    ensures
        step(s, store, 0) is Ok,
        step(step(s, store, 0)->Ok_0, load, 0) is Ok,
        step(step(s, store, 0)->Ok_0, load, 0)->Ok_0.v == s.v,
{
    let s1 = step(s, store, 0)->Ok_0;
    let s2 = step(s1, load, 0)->Ok_0;
    let x = x_of(store);
    assert forall|r: int| 0 <= r <= x implies #[trigger] s1.memory[wrap_addr(s.i, r)] == s.v[r] by {
        lemma_wrap_offset(s.i, r);
    }
    assert(s2.v =~= s.v);
}

/// `Fx33` writes the decimal digits of Vx: hundreds at I, tens at I + 1,
/// ones at I + 2, each below ten.
pub proof fn lemma_decimal_digits(s: MachineState, op: u16)
    requires
        well_shaped(s),
        family(op) == 0xF,
        byte_of(op) == 0x33,
    ensures
        ({
            let m = step(s, op, 0)->Ok_0.memory;
            let h = m[wrap_addr(s.i, 0)];
            let t = m[wrap_addr(s.i, 1)];
            let o = m[wrap_addr(s.i, 2)];
            &&& h < 10 && t < 10 && o < 10
            &&& 100 * h + 10 * t + o == s.v[x_of(op)]
        }),
{
}

/// `8xy4` keeps the whole sum: VF is the carry out of Vx.
pub proof fn lemma_add_with_carry(s: MachineState, op: u16)
    requires
        well_shaped(s),
        family(op) == 0x8,
        nibble_of(op) == 0x4,
        x_of(op) != vf(),
    ensures
        ({
            let t = step(s, op, 0)->Ok_0;
            256 * t.v[vf()] + t.v[x_of(op)] == s.v[x_of(op)] + s.v[y_of(op)]
        }),
{
}

/// `8xy5` and `8xy7` keep the whole difference: VF is 0 exactly when the
/// subtraction borrowed.
pub proof fn lemma_subtract_with_borrow(s: MachineState, op: u16)
    requires
        well_shaped(s),
        family(op) == 0x8,
        nibble_of(op) == 0x5 || nibble_of(op) == 0x7,
        x_of(op) != vf(),
    ensures
        ({
            let t = step(s, op, 0)->Ok_0;
            let vx = s.v[x_of(op)];
            let vy = s.v[y_of(op)];
            let diff = if nibble_of(op) == 0x5 { vx - vy } else { vy - vx };
            t.v[x_of(op)] == diff + 256 * (1 - t.v[vf()]) && (t.v[vf()] == 0 || t.v[vf()] == 1)
        }),
{
}

/// While no key has been pressed, a cycle of `Fx0A` leaves the program
/// counter on the same instruction, so the machine waits.
pub proof fn lemma_wait_for_key(s: MachineState, op: u16)
    requires
        well_shaped(s),
        s.pc + 2 <= u16::MAX,
        family(op) == 0xF,
        byte_of(op) == 0x0A,
        s.pressed is None,
    ensures
        step(advanced(s), op, 0) == Ok::<MachineState, &'static str>(s),
{
    let a = advanced(s);
    assert(step(a, op, 0)->Ok_0.pc == s.pc);
}

/// A loaded program reads back at `PROGRAM_START`, and memory outside it is
/// untouched.
pub proof fn lemma_program_reads_back(mem: Seq<u8>, program: Seq<u8>)
    requires
        mem.len() == MEMORY_SIZE,
        program_fits(program),
    ensures
        loaded(mem, program).len() == MEMORY_SIZE,
        forall|k: int|
            0 <= k < program.len() ==> #[trigger] loaded(mem, program)[PROGRAM_START + k]
                == program[k],
        forall|a: int|
            0 <= a < MEMORY_SIZE && !(PROGRAM_START <= a < PROGRAM_START + program.len())
                ==> #[trigger] loaded(mem, program)[a] == mem[a],
{
}

/// `8xy6` shifts Vx right by one: VF receives the bit shifted out (bit 0 of
/// the old Vx), and twice the new Vx plus VF gives the old Vx back.
pub proof fn lemma_shift_right(s: MachineState, op: u16)
    requires
        well_shaped(s),
        family(op) == 0x8,
        nibble_of(op) == 0x6,
        x_of(op) != vf(),
    ensures
        ({
            let t = step(s, op, 0)->Ok_0;
            let old_vx = s.v[x_of(op)];
            &&& t.v[vf()] == old_vx % 2
            &&& 2 * t.v[x_of(op)] + t.v[vf()] == old_vx
        }),
{
}

/// `8xyE` shifts Vx left by one: VF receives the bit shifted out (bit 7 of
/// the old Vx), and the new Vx plus 256 times VF is twice the old Vx.
pub proof fn lemma_shift_left(s: MachineState, op: u16)
    requires
        well_shaped(s),
        family(op) == 0x8,
        nibble_of(op) == 0xE,
        x_of(op) != vf(),
    ensures
        ({
            let t = step(s, op, 0)->Ok_0;
            let old_vx = s.v[x_of(op)];
            &&& t.v[vf()] == (if old_vx >= 128 { 1int } else { 0int })
            &&& t.v[x_of(op)] + 256 * t.v[vf()] == 2 * old_vx
        }),
{
}

/// `Fx15` sets the delay timer to Vx and `Fx18` the sound timer, each
/// leaving the other timer, whatever its value, and the registers as they
/// were; `Fx07` copies the delay timer into Vx.
pub proof fn lemma_timer_transfers(s: MachineState, op: u16)
    requires
        well_shaped(s),
        family(op) == 0xF,
        byte_of(op) == 0x15 || byte_of(op) == 0x18 || byte_of(op) == 0x07,
    ensures
        ({
            let t = step(s, op, 0)->Ok_0;
            let x = x_of(op);
            &&& byte_of(op) == 0x15 ==> t.dt == s.v[x] && t.st == s.st && t.v == s.v
            &&& byte_of(op) == 0x18 ==> t.st == s.v[x] && t.dt == s.dt && t.v == s.v
            &&& byte_of(op) == 0x07 ==> t.v[x] == s.dt && t.dt == s.dt && t.st == s.st
        }),
{
}

/// `Fx65` loads every register V0 through Vx, whatever it held, from the
/// bytes at I, I + 1, ..., I + x (wrapping around memory), and leaves the
/// registers above Vx, memory and I as they were.
pub proof fn lemma_load_registers(s: MachineState, op: u16)
    requires
        well_shaped(s),
        family(op) == 0xF,
        byte_of(op) == 0x65,
    ensures
        ({
            let t = step(s, op, 0)->Ok_0;
            let x = x_of(op);
            &&& forall|r: int| 0 <= r <= x ==> #[trigger] t.v[r] == s.memory[(s.i + r) % 4096]
            &&& forall|r: int| x < r < 16 ==> #[trigger] t.v[r] == s.v[r]
            &&& t.v.len() == 16
            &&& t.memory == s.memory
            &&& t.i == s.i
        }),
{
}

/// `Fx55` stores every register V0 through Vx at I, I + 1, ..., I + x
/// (wrapping around memory), leaves every other byte, the registers and I
/// as they were.
pub proof fn lemma_store_registers(s: MachineState, op: u16)
    requires
        well_shaped(s),
        family(op) == 0xF,
        byte_of(op) == 0x55,
    ensures
        ({
            let t = step(s, op, 0)->Ok_0;
            let x = x_of(op);
            &&& forall|r: int| 0 <= r <= x ==> #[trigger] t.memory[(s.i + r) % 4096] == s.v[r]
            &&& forall|a: int|
                0 <= a < 4096 && (forall|r: int| 0 <= r <= x ==> a != #[trigger] ((s.i + r) % 4096))
                    ==> #[trigger] t.memory[a] == s.memory[a]
            &&& t.memory.len() == 4096
            &&& t.v == s.v
            &&& t.i == s.i
        }),
{
    let t = step(s, op, 0)->Ok_0;
    let x = x_of(op);
    let stored = Seq::new(
        4096,
        |a: int|
            {
                let r = (a - s.i) % 4096;
                if r <= x {
                    s.v[r]
                } else {
                    s.memory[a]
                }
            },
    );
    assert(t.memory == stored);
    assert(t.v == s.v && t.i == s.i);
    lemma_stored_bytes(s.i, x, s.v, s.memory, stored);
}

proof fn lemma_stored_bytes(i: u16, x: int, v: Seq<u8>, memory: Seq<u8>, stored: Seq<u8>)
    requires
        0 <= x < 16,
        memory.len() == 4096,
        stored == Seq::new(
            4096,
            |a: int|
                {
                    let r = (a - i) % 4096;
                    if r <= x {
                        v[r]
                    } else {
                        memory[a]
                    }
                },
        ),
    ensures
        forall|r: int| 0 <= r <= x ==> #[trigger] stored[(i + r) % 4096] == v[r],
        forall|a: int|
            0 <= a < 4096 && (forall|r: int| 0 <= r <= x ==> a != #[trigger] ((i + r) % 4096))
                ==> #[trigger] stored[a] == memory[a],
{
    assert forall|r: int| 0 <= r <= x implies #[trigger] stored[(i + r) % 4096] == v[r] by {
        lemma_wrap_offset(i, r);
    }
    assert forall|a: int|
        0 <= a < 4096 && (forall|r: int| 0 <= r <= x ==> a != #[trigger] ((i + r) % 4096))
            implies #[trigger] stored[a] == memory[a] by {
        let r = (a - i) % 4096;
        if r <= x {
            assert((i + r) % 4096 == a);
        }
    }
}

proof fn lemma_row_bit(b: u8, c: int)
    requires
        0 <= c < 8,
    ensures
        ((b >> ((7 - c) as u8)) & 1u8 == 1u8) == ((b as int / pow2((7 - c) as nat) as int) % 2 == 1),
{
    lemma2_to64();
    if c == 0 {
        assert(((b >> 7u8) & 1u8 == 1u8) == ((b / 128) % 2 == 1)) by (bit_vector);
    } else if c == 1 {
        assert(((b >> 6u8) & 1u8 == 1u8) == ((b / 64) % 2 == 1)) by (bit_vector);
    } else if c == 2 {
        assert(((b >> 5u8) & 1u8 == 1u8) == ((b / 32) % 2 == 1)) by (bit_vector);
    } else if c == 3 {
        assert(((b >> 4u8) & 1u8 == 1u8) == ((b / 16) % 2 == 1)) by (bit_vector);
    } else if c == 4 {
        assert(((b >> 3u8) & 1u8 == 1u8) == ((b / 8) % 2 == 1)) by (bit_vector);
    } else if c == 5 {
        assert(((b >> 2u8) & 1u8 == 1u8) == ((b / 4) % 2 == 1)) by (bit_vector);
    } else if c == 6 {
        assert(((b >> 1u8) & 1u8 == 1u8) == ((b / 2) % 2 == 1)) by (bit_vector);
    } else {
        assert(((b >> 0u8) & 1u8 == 1u8) == ((b / 1) % 2 == 1)) by (bit_vector);
    }
}

proof fn lemma_drawn_pixel(
    screen: Seq<Seq<bool>>,
    memory: Seq<u8>,
    i: u16,
    vx: u8,
    vy: u8,
    n: int,
    r: int,
    c: int,
)
    requires
        0 <= r < n < 16,
        0 <= c < 8,
    ensures
        drawn(screen, memory, i, vx, vy, n)[(vy + r) % 32][(vx + c) % 64] == (screen[(vy + r)
            % 32][(vx + c) % 64] != sprite_pixel(memory[(i + r) % 4096], c)),
{
    let px = (vx + c) % 64;
    let py = (vy + r) % 32;
    assert((px - vx) % 64 == c);
    assert((py - vy) % 32 == r);
}

proof fn lemma_drawn_outside(
    screen: Seq<Seq<bool>>,
    memory: Seq<u8>,
    i: u16,
    vx: u8,
    vy: u8,
    n: int,
    px: int,
    py: int,
)
    requires
        0 <= n < 16,
        0 <= px < 64,
        0 <= py < 32,
        forall|r: int, c: int|
            0 <= r < n && 0 <= c < 8 ==> !(#[trigger] ((vx + c) % 64) == px && #[trigger] ((vy + r)
                % 32) == py),
    ensures
        drawn(screen, memory, i, vx, vy, n)[py][px] == screen[py][px],
{
    let c = (px - vx) % 64;
    let r = (py - vy) % 32;
    if c < 8 && r < n {
        assert((vx + c) % 64 == px);
        assert((vy + r) % 32 == py);
    }
}

/// `Dxyn` draws sprite row r (r < n) from the byte at I + r (wrapping around
/// memory) onto screen row Vy + r, and its column c from bit 7 - c of that
/// byte onto screen column Vx + c (both wrapping around the screen): that
/// pixel is inverted exactly when the bit is set.
pub proof fn lemma_draw_sprite_rows(s: MachineState, op: u16, r: int, c: int)
    requires
        well_shaped(s),
        family(op) == 0xD,
        0 <= r < nibble_of(op),
        0 <= c < 8,
    ensures
        ({
            let t = step(s, op, 0)->Ok_0;
            let px = (s.v[x_of(op)] + c) % 64;
            let py = (s.v[y_of(op)] + r) % 32;
            let byte = s.memory[(s.i + r) % 4096];
            t.screen[py][px] == (s.screen[py][px] != ((byte as int / pow2((7 - c) as nat) as int)
                % 2 == 1))
        }),
{
    let vx = s.v[x_of(op)];
    let vy = s.v[y_of(op)];
    let n = nibble_of(op);
    let t = step(s, op, 0)->Ok_0;
    assert(t.screen == drawn(s.screen, s.memory, s.i, vx, vy, n));
    lemma_drawn_pixel(s.screen, s.memory, s.i, vx, vy, n, r, c);
    lemma_row_bit(s.memory[(s.i + r) % 4096], c);
}

/// `Dxyn` leaves every pixel that no sprite row r < n and column c < 8 lands
/// on as it was.
pub proof fn lemma_draw_outside_unchanged(s: MachineState, op: u16, px: int, py: int)
    requires
        well_shaped(s),
        family(op) == 0xD,
        0 <= px < 64,
        0 <= py < 32,
        forall|r: int, c: int|
            0 <= r < nibble_of(op) && 0 <= c < 8 ==> !(#[trigger] ((s.v[x_of(op)] + c) % 64) == px
                && #[trigger] ((s.v[y_of(op)] + r) % 32) == py),
    ensures
        step(s, op, 0)->Ok_0.screen[py][px] == s.screen[py][px],
{
    let vx = s.v[x_of(op)];
    let vy = s.v[y_of(op)];
    let n = nibble_of(op);
    let t = step(s, op, 0)->Ok_0;
    assert(t.screen == drawn(s.screen, s.memory, s.i, vx, vy, n));
    lemma_drawn_outside(s.screen, s.memory, s.i, vx, vy, n, px, py);
}

/// A frame whose cycles all ran ends with both timers one lower than the
/// cycles left them, stopping at zero, and nothing else changed; a frame
/// that stopped leaves the timers as the cycles left them.
pub proof fn lemma_frame_counts_timers_down(s: MachineState, randoms: Seq<u8>)
    ensures
        ({
            let (mid, r) = cycles_outcome(s, randoms);
            let (end, fr) = frame_outcome(s, randoms);
            &&& fr == r
            &&& r is Ok ==> end == MachineState {
                dt: if mid.dt == 0 { 0u8 } else { (mid.dt - 1) as u8 },
                st: if mid.st == 0 { 0u8 } else { (mid.st - 1) as u8 },
                ..mid
            }
            &&& r is Err ==> end == mid
        }),
{
}

/// `6xkk` puts the opcode's low byte in Vx; `7xkk` adds it to Vx modulo
/// 256 without touching VF; `Cxkk` puts the random byte masked by it in Vx.
/// None of them moves the program counter or touches another register.
pub proof fn lemma_byte_loads(s: MachineState, op: u16, random: u8)
    requires
        well_shaped(s),
        family(op) == 0x6 || family(op) == 0x7 || family(op) == 0xC,
    ensures
        ({
            let t = step(s, op, random)->Ok_0;
            let x = x_of(op);
            let kk = op % 256;
            &&& family(op) == 0x6 ==> t.v[x] == kk
            &&& family(op) == 0x7 ==> t.v[x] == (s.v[x] + kk) % 256
            &&& family(op) == 0xC ==> t.v[x] == (random & (kk as u8))
            &&& forall|r: int| 0 <= r < 16 && r != x ==> #[trigger] t.v[r] == s.v[r]
            &&& t.pc == s.pc
        }),
{
}

/// `8xy0` to `8xy3` copy Vy into Vx, or put Vx OR, AND, XOR Vy there,
/// touching no other register.
pub proof fn lemma_logic_ops(s: MachineState, op: u16)
    requires
        well_shaped(s),
        family(op) == 0x8,
        nibble_of(op) <= 3,
    ensures
        ({
            let t = step(s, op, 0)->Ok_0;
            let x = x_of(op);
            let vx = s.v[x];
            let vy = s.v[y_of(op)];
            &&& nibble_of(op) == 0 ==> t.v[x] == vy
            &&& nibble_of(op) == 1 ==> t.v[x] == (vx | vy)
            &&& nibble_of(op) == 2 ==> t.v[x] == (vx & vy)
            &&& nibble_of(op) == 3 ==> t.v[x] == (vx ^ vy)
            &&& forall|r: int| 0 <= r < 16 && r != x ==> #[trigger] t.v[r] == s.v[r]
        }),
{
}

/// `1nnn` jumps to nnn, `Bnnn` to nnn + V0, and `2nnn` (on a stack that is
/// not full) to nnn with the address after the call on top of the stack.
pub proof fn lemma_jumps(s: MachineState, op: u16)
    requires
        well_shaped(s),
        family(op) == 0x1 || family(op) == 0xB || (family(op) == 0x2 && s.stack.len() < 16),
    ensures
        ({
            let t = step(s, op, 0)->Ok_0;
            let nnn = op % 4096;
            &&& family(op) == 0x1 ==> t.pc == nnn
            &&& family(op) == 0xB ==> t.pc == nnn + s.v[0]
            &&& family(op) == 0x2 ==> t.pc == nnn && t.stack.len() == s.stack.len() + 1
                && t.stack.last() == s.pc && t.stack.drop_last() == s.stack
            &&& t.v == s.v
        }),
{
}

/// The skips move the program counter two bytes on exactly when their
/// condition holds, and leave it otherwise: `3xkk` when Vx = kk, `4xkk`
/// when Vx != kk, `5xy0` when Vx = Vy, `9xy0` when Vx != Vy, `Ex9E` when
/// the key named by Vx's low nibble is held, `ExA1` when it is not.
pub proof fn lemma_skips(s: MachineState, op: u16)
    requires
        well_shaped(s),
        s.pc + 2 <= u16::MAX,
        family(op) == 0x3 || family(op) == 0x4 || family(op) == 0x5 || family(op) == 0x9 || (family(
            op,
        ) == 0xE && (op % 256 == 0x9E || op % 256 == 0xA1)),
    ensures
        ({
            let t = step(s, op, 0)->Ok_0;
            let vx = s.v[x_of(op)];
            let vy = s.v[y_of(op)];
            let kk = op % 256;
            let key_held = s.keys[(vx % 16) as int];
            let taken = if family(op) == 0x3 {
                vx == kk
            } else if family(op) == 0x4 {
                vx != kk
            } else if family(op) == 0x5 {
                vx == vy
            } else if family(op) == 0x9 {
                vx != vy
            } else if kk == 0x9E {
                key_held
            } else {
                !key_held
            };
            &&& t.pc == (if taken { s.pc + 2 } else { s.pc as int })
            &&& t.v == s.v
            &&& t.screen == s.screen
        }),
{
}

/// `Annn` sets I to nnn, `Fx1E` adds Vx to I modulo 65536, and `Fx29` points
/// I at the five-byte glyph of Vx in the font at address 0.
pub proof fn lemma_index_ops(s: MachineState, op: u16)
    requires
        well_shaped(s),
        family(op) == 0xA || (family(op) == 0xF && (op % 256 == 0x1E || op % 256 == 0x29)),
    ensures
        ({
            let t = step(s, op, 0)->Ok_0;
            let vx = s.v[x_of(op)];
            &&& family(op) == 0xA ==> t.i == op % 4096
            &&& family(op) == 0xF && op % 256 == 0x1E ==> t.i == (s.i + vx) % 65536
            &&& family(op) == 0xF && op % 256 == 0x29 ==> t.i == 5 * vx
            &&& t.v == s.v
            &&& t.memory == s.memory
        }),
{
}

/// `00E0` turns every pixel off and changes nothing else.
pub proof fn lemma_clear_screen(s: MachineState)
    requires
        well_shaped(s),
    ensures
        ({
            let t = step(s, 0x00E0, 0)->Ok_0;
            &&& forall|px: int, py: int|
                0 <= px < 64 && 0 <= py < 32 ==> !#[trigger] t.screen[py][px]
            &&& t.v == s.v && t.memory == s.memory && t.pc == s.pc && t.i == s.i
        }),
{
}

/// `Fx0A` with a key pressed puts the key in Vx and consumes it.
pub proof fn lemma_key_arrives(s: MachineState, op: u16, key: u8)
    requires
        well_shaped(s),
        family(op) == 0xF,
        op % 256 == 0x0A,
        s.pressed == Some(key),
    ensures
        ({
            let t = step(s, op, 0)->Ok_0;
            t.v[x_of(op)] == key && t.pressed is None && t.pc == s.pc
        }),
{
}

/// An opcode is read big-endian: its high byte at the program counter, its
/// low byte right after.
pub proof fn lemma_opcode_big_endian(memory: Seq<u8>, pc: u16)
    requires
        pc + 1 < memory.len(),
    ensures
        opcode_at(memory, pc) / 256 == memory[pc as int],
        opcode_at(memory, pc) % 256 == memory[pc + 1],
{
}

/// An opcode splits into four nibbles, most significant first: family, x,
/// y, n; its low byte is y and n, its address operand x, y and n.
pub proof fn lemma_opcode_fields(op: u16)
    ensures
        0 <= family(op) < 16 && 0 <= x_of(op) < 16 && 0 <= y_of(op) < 16 && 0 <= nibble_of(op)
            < 16,
        op == family(op) * 4096 + x_of(op) * 256 + y_of(op) * 16 + nibble_of(op),
        byte_of(op) == y_of(op) * 16 + nibble_of(op),
        addr_of(op) == x_of(op) * 256 + byte_of(op),
{
    let v = op as int;
    assert(v == (v / 4096) * 4096 + ((v / 256) % 16) * 256 + ((v / 16) % 16) * 16 + v % 16
        && v % 256 == ((v / 16) % 16) * 16 + v % 16 && v % 4096 == ((v / 256) % 16) * 256 + v % 256)
        by (nonlinear_arith)
        requires
            0 <= v < 65536,
    ;
}

/// A push appends the value on top of the entries, and fails only on a full
/// stack; a pop takes the top entry off, and fails only on an empty stack.
pub proof fn lemma_push_pop_shape(entries: Seq<u16>, value: u16)
    ensures
        push_result(entries, value) is Ok <==> entries.len() < STACK_DEPTH,
        push_result(entries, value) is Ok ==> ({
            let e = push_result(entries, value)->Ok_0;
            &&& e.len() == entries.len() + 1
            &&& e[entries.len() as int] == value
            &&& forall|k: int| 0 <= k < entries.len() ==> #[trigger] e[k] == entries[k]
        }),
        pop_result(entries) is Ok <==> entries.len() > 0,
        pop_result(entries) is Ok ==> ({
            let (top, rest) = pop_result(entries)->Ok_0;
            &&& top == entries[entries.len() - 1]
            &&& rest.len() == entries.len() - 1
            &&& forall|k: int| 0 <= k < rest.len() ==> #[trigger] rest[k] == entries[k]
        }),
{
}

/// A timer's countdown step lowers it by one, stopping at zero.
pub proof fn lemma_count_down(t: u8)
    ensures
        count_down(t) as int == if t == 0 { 0 } else { t - 1 },
{
}

/// Pixel (x, y) of the screen is bit x of row word y.
pub proof fn lemma_screen_bits(words: Seq<u64>, x: int, y: int)
    requires
        words.len() == 32,
        0 <= x < 64,
        0 <= y < 32,
    ensures
        screen_of(words)[y][x] == ((words[y] as nat / pow2(x as nat)) % 2 == 1),
{
    let w = words[y];
    lemma_u64_shr_is_div(w, x as u64);
    let q = w >> (x as u64);
    assert((q & 1u64 == 1u64) == (q % 2 == 1)) by (bit_vector);
}

/// Each pixel takes four bytes of the RGBA frame, in row-major order: red,
/// green and blue all 255 for a lit pixel and all 0 for a dark one, then
/// alpha 255.
pub proof fn lemma_frame_bytes(screen: Seq<Seq<bool>>, x: int, y: int, j: int)
    requires
        0 <= x < 64,
        0 <= y < 32,
        0 <= j < 4,
    ensures
        frame_byte(screen, 4 * (64 * y + x) + j) == if j == 3 {
            255u8
        } else if screen[y][x] {
            255u8
        } else {
            0u8
        },
{
    let p = 64 * y + x;
    assert((4 * p + j) / 4 == p);
    assert((4 * p + j) % 4 == j);
    assert(p / 64 == y);
    assert(p % 64 == x);
}

} // verus!
