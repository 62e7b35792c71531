use chipr::chip8::Chip8;
use chipr::decode::Instruction;
use chipr::machine::{Chip8Error, Flow, Mode};
use chipr::mem::Mem;

fn machine(rom: &[u8]) -> Chip8 {
    let mut m = Mem::new();
    m.load_rom(rom.to_vec());
    Chip8::new(m)
}

fn run(c: &mut Chip8, steps: usize) {
    for _ in 0..steps {
        c.step(0).unwrap();
    }
}

#[test]
fn new_machine_state() {
    let c = machine(&[]);
    assert_eq!(c.pc, 0x200);
    assert_eq!(c.i, 0);
    assert_eq!(c.v, [0; 16]);
    assert!(c.stack.is_empty());
    assert!(c.gfx.iter().all(|p| !*p));
    assert_eq!(c.mode, Mode::Running);
}

#[test]
fn load_then_add_immediate_leaves_flag() {
    // V3 := 0xF0; VF := 7; V3 += 0x20 (wraps to 0x10, VF stays 7)
    let mut c = machine(&[0x63, 0xF0, 0x6F, 0x07, 0x73, 0x20]);
    run(&mut c, 3);
    assert_eq!(c.v[3], 0x10);
    assert_eq!(c.v[0xF], 7);
    assert_eq!(c.pc, 0x206);
}

#[test]
fn add_immediate_without_wrap() {
    let mut c = machine(&[0x61, 0x05, 0x71, 0x03]);
    run(&mut c, 2);
    assert_eq!(c.v[1], 8);
    assert_eq!(c.v[0xF], 0);
}

#[test]
fn sub_sets_no_borrow_flag() {
    let mut c = machine(&[0x81, 0x25]);
    c.v[1] = 200;
    c.v[2] = 100;
    c.step(0).unwrap();
    assert_eq!(c.v[1], 100);
    assert_eq!(c.v[0xF], 1);

    let mut c = machine(&[0x81, 0x25]);
    c.v[1] = 100;
    c.v[2] = 200;
    c.step(0).unwrap();
    assert_eq!(c.v[1], 156);
    assert_eq!(c.v[0xF], 0);
}

#[test]
fn subn_sets_no_borrow_flag() {
    let mut c = machine(&[0x81, 0x27]);
    c.v[1] = 100;
    c.v[2] = 200;
    c.step(0).unwrap();
    assert_eq!(c.v[1], 100);
    assert_eq!(c.v[0xF], 1);

    let mut c = machine(&[0x81, 0x27]);
    c.v[1] = 200;
    c.v[2] = 100;
    c.step(0).unwrap();
    assert_eq!(c.v[1], 156);
    assert_eq!(c.v[0xF], 0);
}

#[test]
fn add_registers_sets_carry() {
    let mut c = machine(&[0x81, 0x24]);
    c.v[1] = 250;
    c.v[2] = 10;
    c.step(0).unwrap();
    assert_eq!(c.v[1], 4);
    assert_eq!(c.v[0xF], 1);

    let mut c = machine(&[0x81, 0x24]);
    c.v[1] = 10;
    c.v[2] = 10;
    c.step(0).unwrap();
    assert_eq!(c.v[1], 20);
    assert_eq!(c.v[0xF], 0);
}

#[test]
fn logic_and_copy() {
    let mut c = machine(&[0x81, 0x21, 0x83, 0x22, 0x85, 0x23, 0x87, 0x20]);
    c.v[1] = 0b1100;
    c.v[2] = 0b1010;
    c.v[3] = 0b1100;
    c.v[5] = 0b1100;
    run(&mut c, 4);
    assert_eq!(c.v[1], 0b1110);
    assert_eq!(c.v[3], 0b1000);
    assert_eq!(c.v[5], 0b0110);
    assert_eq!(c.v[7], 0b1010);
}

#[test]
fn shifts_set_flag_from_shifted_bit() {
    let mut c = machine(&[0x81, 0x06, 0x82, 0x0E]);
    c.v[1] = 0b0000_0101;
    c.v[2] = 0b1000_0001;
    c.step(0).unwrap();
    assert_eq!(c.v[1], 0b0000_0010);
    assert_eq!(c.v[0xF], 1);
    c.step(0).unwrap();
    assert_eq!(c.v[2], 0b0000_0010);
    assert_eq!(c.v[0xF], 1);

    let mut c = machine(&[0x81, 0x06, 0x82, 0x0E]);
    c.v[1] = 0b0000_0100;
    c.v[2] = 0b0100_0000;
    run(&mut c, 1);
    assert_eq!(c.v[0xF], 0);
    run(&mut c, 1);
    assert_eq!(c.v[2], 0b1000_0000);
    assert_eq!(c.v[0xF], 0);
}

#[test]
fn ret_on_empty_stack_is_no_op() {
    let mut c = machine(&[0x00, 0xEE]);
    assert_eq!(c.ret(), Flow::Next);
    assert_eq!(c.pc, 0x200);
    assert!(c.stack.is_empty());
    c.step(0).unwrap();
    assert_eq!(c.pc, 0x202);
    assert!(c.stack.is_empty());
}

#[test]
fn call_then_return() {
    // 0x200: CALL 0x206; 0x202: LD V0, 1; 0x206: RET
    let mut c = machine(&[0x22, 0x06, 0x60, 0x01, 0x00, 0x00, 0x00, 0xEE]);
    c.step(0).unwrap();
    assert_eq!(c.pc, 0x206);
    assert_eq!(c.stack, vec![0x202]);
    c.step(0).unwrap();
    assert_eq!(c.pc, 0x202);
    assert!(c.stack.is_empty());
    c.step(0).unwrap();
    assert_eq!(c.v[0], 1);
}

#[test]
fn call_on_full_stack_is_no_op() {
    let mut c = machine(&[0x23, 0x00]);
    c.stack = vec![0x222; 16];
    c.step(0).unwrap();
    assert_eq!(c.pc, 0x202);
    assert_eq!(c.stack.len(), 16);
}

#[test]
fn jumps() {
    let mut c = machine(&[0x13, 0x45]);
    c.step(0).unwrap();
    assert_eq!(c.pc, 0x345);

    let mut c = machine(&[0xB3, 0x00]);
    c.v[0] = 0x10;
    c.step(0).unwrap();
    assert_eq!(c.pc, 0x310);
}

#[test]
fn skips() {
    let mut c = machine(&[0x31, 0x05]);
    c.v[1] = 5;
    c.step(0).unwrap();
    assert_eq!(c.pc, 0x204);

    let mut c = machine(&[0x31, 0x05]);
    c.step(0).unwrap();
    assert_eq!(c.pc, 0x202);

    let mut c = machine(&[0x41, 0x05]);
    c.step(0).unwrap();
    assert_eq!(c.pc, 0x204);

    let mut c = machine(&[0x51, 0x20]);
    c.step(0).unwrap();
    assert_eq!(c.pc, 0x204);

    let mut c = machine(&[0x91, 0x20]);
    c.step(0).unwrap();
    assert_eq!(c.pc, 0x202);
}

#[test]
fn key_skips_use_value_of_register() {
    let mut c = machine(&[0xE1, 0x9E]);
    c.v[1] = 0xA;
    c.keys[0xA] = true;
    c.step(0).unwrap();
    assert_eq!(c.pc, 0x204);

    let mut c = machine(&[0xE1, 0xA1]);
    c.v[1] = 0xA;
    c.keys[0xA] = true;
    c.step(0).unwrap();
    assert_eq!(c.pc, 0x202);

    let mut c = machine(&[0xE1, 0xA1]);
    c.v[1] = 0x20;
    c.step(0).unwrap();
    assert_eq!(c.pc, 0x204);
}

#[test]
fn draw_twice_restores_framebuffer() {
    // I := font glyph 0; draw it at (62, 30) twice
    let mut c = machine(&[0xA0, 0x50, 0xD1, 0x25, 0xD1, 0x25]);
    c.v[1] = 62;
    c.v[2] = 30;
    c.step(0).unwrap();
    c.step(0).unwrap();
    assert_eq!(c.v[0xF], 0);
    // row 0 of glyph 0 is 0xF0: pixels at x = 62, 63, 0, 1 on y = 30
    assert!(c.gfx[30 * 64 + 62]);
    assert!(c.gfx[30 * 64 + 63]);
    assert!(c.gfx[30 * 64]);
    assert!(c.gfx[30 * 64 + 1]);
    assert!(!c.gfx[30 * 64 + 2]);
    // row 2 wraps to y = 0
    assert!(c.gfx[62]);
    assert_eq!(c.gfx.iter().filter(|p| **p).count(), 14);
    c.step(0).unwrap();
    assert_eq!(c.v[0xF], 1);
    assert!(c.gfx.iter().all(|p| !*p));
}

#[test]
fn draw_collision_only_on_cleared_cell() {
    let mut c = machine(&[0xA0, 0x50, 0xD1, 0x21]);
    c.gfx[5] = true;
    c.step(0).unwrap();
    c.step(0).unwrap();
    assert_eq!(c.v[0xF], 0);
    assert!(c.gfx[5]);
    assert!(c.gfx[0]);

    let mut c = machine(&[0xA0, 0x50, 0xD1, 0x21]);
    c.gfx[2] = true;
    c.v[0xF] = 1;
    run(&mut c, 2);
    assert_eq!(c.v[0xF], 1);
    assert!(!c.gfx[2]);
}

#[test]
fn bcd_of_156() {
    let mut c = machine(&[0xA3, 0x00, 0xF4, 0x33]);
    c.v[4] = 156;
    run(&mut c, 2);
    assert_eq!(c.mem.get(0x300), 1);
    assert_eq!(c.mem.get(0x301), 5);
    assert_eq!(c.mem.get(0x302), 6);
}

#[test]
fn bcd_wraps_at_end_of_memory() {
    let mut c = machine(&[0xAF, 0xFF, 0xF4, 0x33]);
    c.v[4] = 255;
    run(&mut c, 2);
    assert_eq!(c.mem.get(0xFFF), 2);
    assert_eq!(c.mem.get(0x000), 5);
    assert_eq!(c.mem.get(0x001), 5);
}

#[test]
fn cls_program_clears_screen() {
    let mut c = machine(&[0x00, 0xE0]);
    c.gfx[100] = true;
    c.step(0).unwrap();
    assert!(c.gfx.iter().all(|p| !*p));
    assert_eq!(c.pc, 0x202);
}

#[test]
fn timers_stop_at_zero() {
    let mut c = machine(&[]);
    c.delay_timer = 3;
    for _ in 0..5 {
        c.tick_timers();
    }
    assert_eq!(c.delay_timer, 0);
}

#[test]
fn tone_sounds_while_sound_timer_runs() {
    let mut c = machine(&[]);
    c.sound_timer = 2;
    c.delay_timer = 1;
    assert!(c.tick_timers());
    assert_eq!(c.delay_timer, 0);
    assert!(c.tick_timers());
    assert!(!c.tick_timers());
    assert_eq!(c.sound_timer, 0);
}

#[test]
fn timer_registers() {
    let mut c = machine(&[0xF1, 0x15, 0xF2, 0x18, 0xF3, 0x07]);
    c.v[1] = 40;
    c.v[2] = 50;
    run(&mut c, 2);
    assert_eq!(c.delay_timer, 40);
    assert_eq!(c.sound_timer, 50);
    c.tick_timers();
    c.step(0).unwrap();
    assert_eq!(c.v[3], 39);
}

#[test]
fn wait_for_key_blocks_until_new_press() {
    let mut c = machine(&[0xF3, 0x0A, 0x60, 0x05]);
    let mut held = [false; 16];
    held[2] = true;
    c.set_keys(held);
    c.step(0).unwrap();
    assert_eq!(c.mode, Mode::WaitingForKey(3));
    assert_eq!(c.pc, 0x202);
    c.step(0).unwrap();
    c.step(0).unwrap();
    assert_eq!(c.pc, 0x202);
    assert_eq!(c.v[0], 0);
    // a key that stays held is no new press
    c.set_keys(held);
    assert_eq!(c.mode, Mode::WaitingForKey(3));
    c.step(0).unwrap();
    assert_eq!(c.pc, 0x202);
    let mut pressed = held;
    pressed[7] = true;
    pressed[9] = true;
    c.set_keys(pressed);
    assert_eq!(c.mode, Mode::Running);
    assert_eq!(c.v[3], 7);
    assert_eq!(c.keys, pressed);
    c.step(0).unwrap();
    assert_eq!(c.v[0], 5);
    assert_eq!(c.pc, 0x204);
}

#[test]
fn unknown_opcode_is_reported() {
    let mut c = machine(&[0xFF, 0xFF]);
    assert_eq!(c.step(0), Err(Chip8Error::UnknownOpcode(0xFFFF)));
    assert_eq!(c.pc, 0x200);
    let mut c = machine(&[0x51, 0x23]);
    assert_eq!(c.execute(), Err(Chip8Error::UnknownOpcode(0x5123)));
}

#[test]
fn index_register_instructions() {
    let mut c = machine(&[0xA1, 0x23, 0xF1, 0x1E, 0xF2, 0x29]);
    c.v[1] = 0x10;
    c.v[2] = 0x1B;
    run(&mut c, 2);
    assert_eq!(c.i, 0x133);
    c.step(0).unwrap();
    assert_eq!(c.i, 0x50 + 0xB * 5);

    let mut c = machine(&[0xF1, 0x1E]);
    c.i = 0xFFFF;
    c.v[1] = 2;
    c.step(0).unwrap();
    assert_eq!(c.i, 1);
}

#[test]
fn store_and_load_registers() {
    let mut c = machine(&[0xA4, 0x00, 0xF2, 0x55, 0xA4, 0x01, 0xF2, 0x65]);
    c.v[0] = 1;
    c.v[1] = 2;
    c.v[2] = 3;
    c.v[3] = 4;
    run(&mut c, 2);
    assert_eq!(c.mem.read_bytes(0x400, 4), vec![1, 2, 3, 0]);
    run(&mut c, 2);
    assert_eq!(c.v[0], 2);
    assert_eq!(c.v[1], 3);
    assert_eq!(c.v[2], 0);
    assert_eq!(c.v[3], 4);
}

#[test]
fn random_byte_is_masked() {
    let mut c = machine(&[0xC1, 0x00, 0xC2, 0x0F]);
    c.v[1] = 0xAA;
    c.execute().unwrap();
    assert_eq!(c.v[1], 0);
    c.execute().unwrap();
    assert!(c.v[2] <= 0x0F);

    let mut c = machine(&[0xC1, 0x3C]);
    c.step(0xFF).unwrap();
    assert_eq!(c.v[1], 0x3C);
}

#[test]
fn execute_instruction_reports_flow() {
    let mut c = machine(&[]);
    c.v[1] = 9;
    assert_eq!(c.execute_instruction(Instruction::SeVxKk { x: 1, kk: 9 }, 0), Flow::Skip);
    assert_eq!(c.execute_instruction(Instruction::Jp { addr: 0x300 }, 0), Flow::Jump(0x300));
    assert_eq!(c.execute_instruction(Instruction::LdVxKk { x: 2, kk: 4 }, 0), Flow::Next);
    assert_eq!(c.v[2], 4);
    assert_eq!(c.pc, 0x200);
}
