use chip8::chip8::Chip8;
use chip8::frame::FrameStop;
use chip8::display::Display;
use chip8::keyboard::Keyboard;
use chip8::memory::{Memory, FONTSET};
use chip8::stack::Stack;
use chip8::timer::Timer;

fn machine_with(program: &[u8]) -> Chip8 {
    let mut c = Chip8::default();
    c.load_program(program);
    c
}

#[test]
fn power_on_state() {
    let c = Chip8::default();
    assert_eq!(c.cpu.pc, 0x200);
    assert_eq!(c.cpu.i, 0);
    assert_eq!(c.cpu.registers, [0u8; 16]);
    assert_eq!(c.cpu.stack.sp, 0);
    assert_eq!(&c.memory.values[0..80], &FONTSET[..]);
    assert!(c.memory.values[80..].iter().all(|&b| b == 0));
    assert_eq!(c.timer.dt, 0);
    assert_eq!(c.timer.st, 0);
    assert_eq!(c.keyboard.pressed_this_frame, None);
    assert_eq!(c.display.pixels, [0u64; 32]);
}

#[test]
fn load_program_places_bytes_at_0x200() {
    let c = machine_with(&[0x12, 0x34, 0x56]);
    assert_eq!(c.memory.values[0x1FF], 0);
    assert_eq!(&c.memory.values[0x200..0x203], &[0x12, 0x34, 0x56]);
    assert_eq!(c.memory.values[0x203], 0);
    assert_eq!(&c.memory.values[0..80], &FONTSET[..]);
}

#[test]
fn load_program_of_maximal_size() {
    let program = vec![0xAB; 4096 - 0x200];
    let c = machine_with(&program);
    assert_eq!(c.memory.values[0x200], 0xAB);
    assert_eq!(c.memory.values[4095], 0xAB);
}

#[test]
fn fetch_is_big_endian() {
    let c = machine_with(&[0xA2, 0xF0]);
    assert_eq!(c.fetch_opcode(), 0xA2F0);
}

#[test]
fn cycle_advances_and_executes() {
    let mut c = machine_with(&[0x6A, 0x42, 0x7A, 0x01]);
    assert_eq!(c.cycle(), Ok(()));
    assert_eq!(c.cpu.pc, 0x202);
    assert_eq!(c.cpu.registers[0xA], 0x42);
    assert_eq!(c.cycle(), Ok(()));
    assert_eq!(c.cpu.pc, 0x204);
    assert_eq!(c.cpu.registers[0xA], 0x43);
}

#[test]
fn clear_screen() {
    let mut c = Chip8::default();
    c.display.pixels[3] = 0xFFFF;
    assert_eq!(c.execute_opcode(0x00E0), Ok(()));
    assert_eq!(c.display.pixels, [0u64; 32]);
}

#[test]
fn call_and_return() {
    let mut c = machine_with(&[0x23, 0x00]);
    assert_eq!(c.cycle(), Ok(()));
    assert_eq!(c.cpu.pc, 0x300);
    assert_eq!(c.cpu.stack.sp, 1);
    assert_eq!(c.cpu.stack.values[0], 0x202);
    assert_eq!(c.execute_opcode(0x00EE), Ok(()));
    assert_eq!(c.cpu.pc, 0x202);
    assert_eq!(c.cpu.stack.sp, 0);
}

#[test]
fn return_with_empty_stack_fails() {
    let mut c = Chip8::default();
    assert_eq!(
        c.execute_opcode(0x00EE),
        Err("Stack underflow: attempted to return with an empty stack")
    );
    assert_eq!(c.cpu.pc, 0x200);
}

#[test]
fn call_with_full_stack_fails() {
    let mut c = Chip8::default();
    for k in 0..16u16 {
        assert_eq!(c.execute_opcode(0x2400 + k), Ok(()));
    }
    assert_eq!(c.cpu.stack.sp, 16);
    let pc = c.cpu.pc;
    assert_eq!(
        c.execute_opcode(0x2500),
        Err("Stack overflow: attempted to push value when stack is full")
    );
    assert_eq!(c.cpu.pc, pc);
    assert_eq!(c.cpu.stack.sp, 16);
}

#[test]
fn error_from_cycle_keeps_advanced_pc() {
    let mut c = machine_with(&[0x00, 0xEE]);
    assert!(c.cycle().is_err());
    assert_eq!(c.cpu.pc, 0x202);
}

#[test]
fn jumps() {
    let mut c = Chip8::default();
    assert_eq!(c.execute_opcode(0x1ABC), Ok(()));
    assert_eq!(c.cpu.pc, 0xABC);
    c.cpu.registers[0] = 0x10;
    assert_eq!(c.execute_opcode(0xB300), Ok(()));
    assert_eq!(c.cpu.pc, 0x310);
    c.cpu.registers[0] = 0xFF;
    assert_eq!(c.execute_opcode(0xBFFF), Ok(()));
    assert_eq!(c.cpu.pc, 0x10FE);
}

#[test]
fn skips_on_register_and_byte() {
    let mut c = Chip8::default();
    c.cpu.registers[1] = 0x33;
    c.execute_opcode(0x3133).unwrap();
    assert_eq!(c.cpu.pc, 0x202);
    c.execute_opcode(0x3134).unwrap();
    assert_eq!(c.cpu.pc, 0x202);
    c.execute_opcode(0x4134).unwrap();
    assert_eq!(c.cpu.pc, 0x204);
    c.execute_opcode(0x4133).unwrap();
    assert_eq!(c.cpu.pc, 0x204);
}

#[test]
fn skips_on_two_registers() {
    let mut c = Chip8::default();
    c.cpu.registers[1] = 7;
    c.cpu.registers[2] = 7;
    c.cpu.registers[3] = 8;
    c.execute_opcode(0x5120).unwrap();
    assert_eq!(c.cpu.pc, 0x202);
    c.execute_opcode(0x5130).unwrap();
    assert_eq!(c.cpu.pc, 0x202);
    c.execute_opcode(0x9130).unwrap();
    assert_eq!(c.cpu.pc, 0x204);
    c.execute_opcode(0x9120).unwrap();
    assert_eq!(c.cpu.pc, 0x204);
}

#[test]
fn skips_on_keys() {
    let mut c = Chip8::default();
    c.cpu.registers[4] = 0x1B;
    c.keyboard.keys[0xB] = true;
    c.execute_opcode(0xE49E).unwrap();
    assert_eq!(c.cpu.pc, 0x202);
    c.execute_opcode(0xE4A1).unwrap();
    assert_eq!(c.cpu.pc, 0x202);
    c.keyboard.keys[0xB] = false;
    c.execute_opcode(0xE4A1).unwrap();
    assert_eq!(c.cpu.pc, 0x204);
    c.execute_opcode(0xE49E).unwrap();
    assert_eq!(c.cpu.pc, 0x204);
}

#[test]
fn loads_and_adds() {
    let mut c = Chip8::default();
    c.execute_opcode(0x65FE).unwrap();
    assert_eq!(c.cpu.registers[5], 0xFE);
    c.execute_opcode(0x7503).unwrap();
    assert_eq!(c.cpu.registers[5], 0x01);
    assert_eq!(c.cpu.registers[0xF], 0);
    c.execute_opcode(0xA123).unwrap();
    assert_eq!(c.cpu.i, 0x123);
}

#[test]
fn random_with_zero_mask_is_zero() {
    let mut c = Chip8::default();
    c.cpu.registers[2] = 0x55;
    c.execute_opcode(0xC200).unwrap();
    assert_eq!(c.cpu.registers[2], 0);
}

#[test]
fn random_is_masked() {
    let mut c = Chip8::default();
    for _ in 0..64 {
        c.execute_opcode(0xC20F).unwrap();
        assert_eq!(c.cpu.registers[2] & 0xF0, 0);
    }
    c.execute_opcode_with_random(0xC20F, 0xAB).unwrap();
    assert_eq!(c.cpu.registers[2], 0x0B);
}

#[test]
fn logic_operations() {
    let mut c = Chip8::default();
    c.cpu.registers[1] = 0b1100;
    c.cpu.registers[2] = 0b1010;
    c.execute_opcode(0x8121).unwrap();
    assert_eq!(c.cpu.registers[1], 0b1110);
    c.cpu.registers[1] = 0b1100;
    c.execute_opcode(0x8122).unwrap();
    assert_eq!(c.cpu.registers[1], 0b1000);
    c.cpu.registers[1] = 0b1100;
    c.execute_opcode(0x8123).unwrap();
    assert_eq!(c.cpu.registers[1], 0b0110);
    c.execute_opcode(0x8120).unwrap();
    assert_eq!(c.cpu.registers[1], 0b1010);
}

#[test]
fn add_sets_carry() {
    let mut c = Chip8::default();
    c.cpu.registers[1] = 200;
    c.cpu.registers[2] = 100;
    c.execute_opcode(0x8124).unwrap();
    assert_eq!(c.cpu.registers[1], 44);
    assert_eq!(c.cpu.registers[0xF], 1);
    c.execute_opcode(0x8124).unwrap();
    assert_eq!(c.cpu.registers[1], 144);
    assert_eq!(c.cpu.registers[0xF], 0);
}

#[test]
fn subtract_sets_not_borrow() {
    let mut c = Chip8::default();
    c.cpu.registers[1] = 10;
    c.cpu.registers[2] = 3;
    c.execute_opcode(0x8125).unwrap();
    assert_eq!(c.cpu.registers[1], 7);
    assert_eq!(c.cpu.registers[0xF], 1);
    c.execute_opcode(0x8215).unwrap();
    assert_eq!(c.cpu.registers[2], 252);
    assert_eq!(c.cpu.registers[0xF], 0);
    c.cpu.registers[1] = 5;
    c.cpu.registers[2] = 9;
    c.execute_opcode(0x8127).unwrap();
    assert_eq!(c.cpu.registers[1], 4);
    assert_eq!(c.cpu.registers[0xF], 1);
    c.execute_opcode(0x8217).unwrap();
    assert_eq!(c.cpu.registers[2], 251);
    assert_eq!(c.cpu.registers[0xF], 0);
}

#[test]
fn shifts_set_shifted_out_bit() {
    let mut c = Chip8::default();
    c.cpu.registers[3] = 0b1000_0101;
    c.execute_opcode(0x8306).unwrap();
    assert_eq!(c.cpu.registers[3], 0b0100_0010);
    assert_eq!(c.cpu.registers[0xF], 1);
    c.execute_opcode(0x830E).unwrap();
    assert_eq!(c.cpu.registers[3], 0b1000_0100);
    assert_eq!(c.cpu.registers[0xF], 0);
    c.execute_opcode(0x830E).unwrap();
    assert_eq!(c.cpu.registers[3], 0b0000_1000);
    assert_eq!(c.cpu.registers[0xF], 1);
}

#[test]
fn flag_register_as_destination_keeps_flag() {
    let mut c = Chip8::default();
    c.cpu.registers[0xF] = 250;
    c.cpu.registers[1] = 10;
    c.execute_opcode(0x8F14).unwrap();
    assert_eq!(c.cpu.registers[0xF], 1);
}

#[test]
fn unknown_alu_variant_does_nothing() {
    let mut c = Chip8::default();
    c.cpu.registers[1] = 1;
    c.cpu.registers[2] = 2;
    c.execute_opcode(0x8128).unwrap();
    assert_eq!(c.cpu.registers[1], 1);
    assert_eq!(c.cpu.registers[0xF], 0);
    assert_eq!(c.cpu.pc, 0x200);
}

#[test]
fn draw_font_glyph_and_erase() {
    let mut c = Chip8::default();
    // I = 0: the glyph for 0 at (0, 0)
    c.execute_opcode(0xD015).unwrap();
    assert_eq!(c.cpu.registers[0xF], 0);
    assert_eq!(c.display.pixels[0], 0b1111);
    assert_eq!(c.display.pixels[1], 0b1001);
    assert_eq!(c.display.pixels[4], 0b1111);
    assert!(c.display.get_pixel(0, 0));
    assert!(!c.display.get_pixel(4, 0));
    c.execute_opcode(0xD015).unwrap();
    assert_eq!(c.cpu.registers[0xF], 1);
    assert_eq!(c.display.pixels, [0u64; 32]);
}

#[test]
fn draw_wraps_around_edges() {
    let mut c = Chip8::default();
    c.cpu.registers[1] = 62;
    c.cpu.registers[2] = 31;
    c.memory.values[0x300] = 0xFF;
    c.memory.values[0x301] = 0x80;
    c.cpu.i = 0x300;
    c.execute_opcode(0xD122).unwrap();
    assert_eq!(c.display.pixels[31], (1u64 << 62) | (1u64 << 63) | 0b11_1111);
    assert_eq!(c.display.pixels[0], 1u64 << 62);
    assert_eq!(c.cpu.registers[0xF], 0);
}

#[test]
fn draw_collision_on_partial_overlap() {
    let mut c = Chip8::default();
    c.display.pixels[5] = 1 << 10;
    c.cpu.registers[0] = 10;
    c.cpu.registers[1] = 5;
    c.memory.values[0x300] = 0b1100_0000;
    c.cpu.i = 0x300;
    c.execute_opcode(0xD011).unwrap();
    assert_eq!(c.display.pixels[5], 1 << 11);
    assert_eq!(c.cpu.registers[0xF], 1);
}

#[test]
fn draw_zero_rows_clears_flag() {
    let mut c = Chip8::default();
    c.cpu.registers[0xF] = 1;
    c.execute_opcode(0xD010).unwrap();
    assert_eq!(c.cpu.registers[0xF], 0);
    assert_eq!(c.display.pixels, [0u64; 32]);
}

#[test]
fn timers_from_registers() {
    let mut c = Chip8::default();
    c.cpu.registers[6] = 42;
    c.execute_opcode(0xF615).unwrap();
    assert_eq!(c.timer.dt, 42);
    c.execute_opcode(0xF618).unwrap();
    assert_eq!(c.timer.st, 42);
    c.timer.dt = 9;
    c.execute_opcode(0xF707).unwrap();
    assert_eq!(c.cpu.registers[7], 9);
}

#[test]
fn wait_for_key_repeats_until_pressed() {
    let mut c = machine_with(&[0xF3, 0x0A]);
    c.cycle().unwrap();
    assert_eq!(c.cpu.pc, 0x200);
    c.cycle().unwrap();
    assert_eq!(c.cpu.pc, 0x200);
    c.keyboard.pressed_this_frame = Some(0xC);
    c.cycle().unwrap();
    assert_eq!(c.cpu.pc, 0x202);
    assert_eq!(c.cpu.registers[3], 0xC);
    assert_eq!(c.keyboard.pressed_this_frame, None);
}

#[test]
fn index_register_arithmetic() {
    let mut c = Chip8::default();
    c.cpu.i = 0xFFFE;
    c.cpu.registers[2] = 3;
    c.execute_opcode(0xF21E).unwrap();
    assert_eq!(c.cpu.i, 1);
    c.cpu.registers[2] = 0xA;
    c.execute_opcode(0xF229).unwrap();
    assert_eq!(c.cpu.i, 50);
    c.cpu.registers[2] = 0xFF;
    c.execute_opcode(0xF229).unwrap();
    assert_eq!(c.cpu.i, 1275);
}

#[test]
fn decimal_digits() {
    let mut c = Chip8::default();
    c.cpu.registers[0] = 254;
    c.cpu.i = 0x300;
    c.execute_opcode(0xF033).unwrap();
    assert_eq!(&c.memory.values[0x300..0x303], &[2, 5, 4]);
    c.cpu.i = 4095;
    c.cpu.registers[0] = 7;
    c.execute_opcode(0xF033).unwrap();
    assert_eq!(c.memory.values[4095], 0);
    assert_eq!(c.memory.values[0], 0);
    assert_eq!(c.memory.values[1], 7);
}

#[test]
fn store_and_load_registers() {
    let mut c = Chip8::default();
    for r in 0..16 {
        c.cpu.registers[r] = (r as u8) * 3 + 1;
    }
    c.cpu.i = 0x400;
    c.execute_opcode(0xF355).unwrap();
    assert_eq!(&c.memory.values[0x400..0x405], &[1, 4, 7, 10, 0]);
    assert_eq!(c.cpu.i, 0x400);
    let saved = c.cpu.registers;
    c.cpu.registers = [0; 16];
    c.execute_opcode(0xF365).unwrap();
    assert_eq!(&c.cpu.registers[0..4], &saved[0..4]);
    assert_eq!(&c.cpu.registers[4..], &[0u8; 12]);
}

#[test]
fn store_registers_wraps_memory() {
    let mut c = Chip8::default();
    c.cpu.registers[0] = 0xAA;
    c.cpu.registers[1] = 0xBB;
    c.cpu.i = 4095;
    c.execute_opcode(0xF155).unwrap();
    assert_eq!(c.memory.values[4095], 0xAA);
    assert_eq!(c.memory.values[0], 0xBB);
}

#[test]
fn unknown_system_and_misc_opcodes_do_nothing() {
    let mut c = Chip8::default();
    c.execute_opcode(0x0123).unwrap();
    c.execute_opcode(0xE0FF).unwrap();
    c.execute_opcode(0xF0FF).unwrap();
    assert_eq!(c.cpu.pc, 0x200);
    assert_eq!(c.cpu.registers, [0u8; 16]);
}

#[test]
fn stack_push_pop() {
    let mut s = Stack::default();
    assert_eq!(s.pop(), Err("Stack underflow: attempted to return with an empty stack"));
    assert_eq!(s.push(0x123), Ok(()));
    assert_eq!(s.push(0x456), Ok(()));
    assert_eq!(s.pop(), Ok(0x456));
    assert_eq!(s.pop(), Ok(0x123));
    assert_eq!(s.sp, 0);
}

#[test]
fn stack_overflow() {
    let mut s = Stack::new();
    for v in 0..16 {
        assert_eq!(s.push(v), Ok(()));
    }
    assert_eq!(
        s.push(99),
        Err("Stack overflow: attempted to push value when stack is full")
    );
    assert_eq!(s.pop(), Ok(15));
}

#[test]
fn display_toggle_and_get() {
    let mut d = Display::default();
    assert!(!d.toggle_pixel(3, 4));
    assert!(d.get_pixel(3, 4));
    assert!(d.get_pixel(67, 36));
    assert!(d.toggle_pixel(67, 36));
    assert!(!d.get_pixel(3, 4));
    assert_eq!(d.pixels, [0u64; 32]);
}

#[test]
fn display_toggle_twice_restores() {
    let mut d = Display::new();
    d.pixels[7] = 0xDEAD_BEEF;
    let before = d.pixels;
    d.toggle_pixel(63, 7);
    assert_eq!(d.pixels[7], 0xDEAD_BEEF | (1 << 63));
    d.toggle_pixel(63, 7);
    assert_eq!(d.pixels, before);
}

#[test]
fn display_clear() {
    let mut d = Display::new();
    d.pixels = [u64::MAX; 32];
    d.clear();
    assert_eq!(d.pixels, [0u64; 32]);
}

#[test]
fn display_frame_rgba() {
    let mut d = Display::new();
    d.toggle_pixel(1, 0);
    d.toggle_pixel(0, 1);
    let f = d.frame_rgba();
    assert_eq!(f.len(), 64 * 32 * 4);
    assert_eq!(&f[0..4], &[0, 0, 0, 255]);
    assert_eq!(&f[4..8], &[255, 255, 255, 255]);
    assert_eq!(&f[64 * 4..64 * 4 + 4], &[255, 255, 255, 255]);
    assert!(f.chunks(4).all(|p| p[3] == 255));
    assert_eq!(f.iter().filter(|&&b| b == 255).count(), 2048 + 6);
}

#[test]
fn keyboard_just_pressed_consumes() {
    let mut k = Keyboard::default();
    assert_eq!(k.just_pressed(), None);
    k.pressed_this_frame = Some(5);
    assert_eq!(k.just_pressed(), Some(5));
    assert_eq!(k.just_pressed(), None);
}

#[test]
fn timer_counts_down_to_zero() {
    let mut t = Timer::default();
    t.dt = 2;
    t.st = 1;
    t.tick();
    assert_eq!((t.dt, t.st), (1, 0));
    t.tick();
    assert_eq!((t.dt, t.st), (0, 0));
    t.tick();
    assert_eq!((t.dt, t.st), (0, 0));
}

#[test]
fn memory_default_holds_font() {
    let m = Memory::default();
    assert_eq!(m.values[0], 0xF0);
    assert_eq!(m.values[79], 0x80);
    assert_eq!(m.values[80], 0);
}

#[test]
fn cpu_default_state() {
    let c = chip8::cpu::Cpu::default();
    assert_eq!(c.registers, [0u8; 16]);
    assert_eq!(c.pc, 0x200);
    assert_eq!(c.i, 0);
    assert_eq!(c.stack.sp, 0);
    assert_eq!(c.stack.values, [0u16; 16]);
}

#[test]
fn stack_slot_above_pointer_keeps_return_address() {
    let mut c = Chip8::default();
    c.execute_opcode(0x2300).unwrap();
    c.execute_opcode(0x00EE).unwrap();
    assert_eq!(c.cpu.stack.sp, 0);
    assert_eq!(c.cpu.stack.values[0], 0x200);
    assert_eq!(c.execute_opcode(0x00EE).is_err(), true);
    assert_eq!(c.cpu.stack.values[0], 0x200);
}

#[test]
fn run_frame_runs_ten_cycles_then_ticks() {
    let program: Vec<u8> = [0x7A, 0x01].repeat(12);
    let mut c = machine_with(&program);
    c.timer.dt = 5;
    c.timer.st = 0;
    assert_eq!(c.run_frame(), Ok(()));
    assert_eq!(c.cpu.pc, 0x200 + 20);
    assert_eq!(c.cpu.registers[0xA], 10);
    assert_eq!(c.timer.dt, 4);
    assert_eq!(c.timer.st, 0);
}

#[test]
fn run_frame_stops_at_stack_fault() {
    let mut c = machine_with(&[0x7A, 0x01, 0x00, 0xEE, 0x7A, 0x01]);
    c.timer.dt = 5;
    assert_eq!(
        c.run_frame(),
        Err(FrameStop::StackFault(
            "Stack underflow: attempted to return with an empty stack"
        ))
    );
    assert_eq!(c.cpu.pc, 0x204);
    assert_eq!(c.cpu.registers[0xA], 1);
    assert_eq!(c.timer.dt, 5);
}

#[test]
fn run_frame_stops_when_pc_leaves_memory() {
    let mut c = Chip8::default();
    c.memory.values[0xFFC] = 0x7A;
    c.memory.values[0xFFD] = 0x01;
    c.memory.values[0xFFE] = 0x7A;
    c.memory.values[0xFFF] = 0x01;
    c.cpu.pc = 0xFFC;
    assert_eq!(c.run_frame(), Err(FrameStop::PcOutsideMemory));
    assert_eq!(c.cpu.pc, 0x1000);
    assert_eq!(c.cpu.registers[0xA], 2);
}
