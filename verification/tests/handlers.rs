use chip8emu::instructions;
use chip8emu::{Core, Fault, Memory, Opcode};

fn core_with(x: usize, value: u8) -> Core {
    let mut cpu = Core::new();
    cpu.v[x] = value;
    cpu
}

#[test]
fn load_then_add_wraps() {
    let mut cpu = Core::new();
    instructions::load(&mut cpu, 3, 200);
    instructions::add(&mut cpu, 3, 100);
    assert_eq!(cpu.v[3], 44);
    assert_eq!(cpu.v[0xF], 0);
    instructions::load(&mut cpu, 4, 255);
    instructions::add(&mut cpu, 4, 1);
    assert_eq!(cpu.v[4], 0);
    instructions::load(&mut cpu, 5, 5);
    instructions::add(&mut cpu, 5, 3);
    assert_eq!(cpu.v[5], 8);
}

#[test]
fn addr_sets_carry_only_past_255() {
    let mut cpu = core_with(1, 200);
    cpu.v[2] = 55;
    instructions::addr(&mut cpu, 1, 2);
    assert_eq!(cpu.v[1], 255);
    assert_eq!(cpu.v[0xF], 0);
    cpu.v[2] = 1;
    instructions::addr(&mut cpu, 1, 2);
    assert_eq!(cpu.v[1], 0);
    assert_eq!(cpu.v[0xF], 1);
}

#[test]
fn addr_into_the_flag_register_leaves_the_carry() {
    let mut cpu = core_with(0xF, 250);
    cpu.v[1] = 10;
    instructions::addr(&mut cpu, 0xF, 1);
    assert_eq!(cpu.v[0xF], 1);
}

#[test]
fn sub_flags_no_borrow() {
    let mut cpu = core_with(1, 10);
    cpu.v[2] = 3;
    instructions::sub(&mut cpu, 1, 2);
    assert_eq!(cpu.v[1], 7);
    assert_eq!(cpu.v[0xF], 1);
    cpu.v[1] = 3;
    cpu.v[2] = 10;
    instructions::sub(&mut cpu, 1, 2);
    assert_eq!(cpu.v[1], 249);
    assert_eq!(cpu.v[0xF], 0);
    cpu.v[1] = 6;
    cpu.v[2] = 6;
    instructions::sub(&mut cpu, 1, 2);
    assert_eq!(cpu.v[1], 0);
    assert_eq!(cpu.v[0xF], 1);
}

#[test]
fn subn_takes_x_from_y() {
    let mut cpu = core_with(1, 3);
    cpu.v[2] = 10;
    instructions::subn(&mut cpu, 1, 2);
    assert_eq!(cpu.v[1], 7);
    assert_eq!(cpu.v[2], 10);
    assert_eq!(cpu.v[0xF], 1);
    cpu.v[1] = 10;
    cpu.v[2] = 3;
    instructions::subn(&mut cpu, 1, 2);
    assert_eq!(cpu.v[1], 249);
    assert_eq!(cpu.v[0xF], 0);
}

#[test]
fn shr_keeps_the_low_bit() {
    let mut cpu = core_with(4, 0b1010_0101);
    instructions::shr(&mut cpu, 4, 0);
    assert_eq!(cpu.v[4], 0b0101_0010);
    assert_eq!(cpu.v[0xF], 1);
    instructions::shr(&mut cpu, 4, 0);
    assert_eq!(cpu.v[4], 0b0010_1001);
    assert_eq!(cpu.v[0xF], 0);
}

#[test]
fn shl_keeps_the_high_bit() {
    let mut cpu = core_with(4, 0b1010_0101);
    instructions::shl(&mut cpu, 4, 0);
    assert_eq!(cpu.v[4], 0b0100_1010);
    assert_eq!(cpu.v[0xF], 1);
    instructions::shl(&mut cpu, 4, 0);
    assert_eq!(cpu.v[4], 0b1001_0100);
    assert_eq!(cpu.v[0xF], 0);
}

#[test]
fn shifting_the_flag_register_shifts_the_flag() {
    let mut cpu = core_with(0xF, 3);
    instructions::shr(&mut cpu, 0xF, 0);
    assert_eq!(cpu.v[0xF], 0);
    let mut cpu = core_with(0xF, 0x80);
    instructions::shl(&mut cpu, 0xF, 0);
    assert_eq!(cpu.v[0xF], 2);
}

#[test]
fn bitwise_instructions() {
    let mut cpu = core_with(1, 0b1100);
    cpu.v[2] = 0b1010;
    instructions::or(&mut cpu, 1, 2);
    assert_eq!(cpu.v[1], 0b1110);
    cpu.v[1] = 0b1100;
    instructions::and(&mut cpu, 1, 2);
    assert_eq!(cpu.v[1], 0b1000);
    cpu.v[1] = 0b1100;
    instructions::xor(&mut cpu, 1, 2);
    assert_eq!(cpu.v[1], 0b0110);
    instructions::mov(&mut cpu, 1, 2);
    assert_eq!(cpu.v[1], 0b1010);
    assert_eq!(cpu.v[0xF], 0);
}

#[test]
fn call_then_rts_restores_pc() {
    let mut cpu = Core::new();
    cpu.pc = 0x204;
    assert_eq!(instructions::call(&mut cpu, 0x300), Ok(()));
    assert_eq!(cpu.pc, 0x300);
    assert_eq!(cpu.stack.len(), 1);
    assert_eq!(instructions::rts(&mut cpu), Ok(()));
    assert_eq!(cpu.pc, 0x204);
    assert_eq!(cpu.stack.len(), 0);
}

#[test]
fn sixteen_nested_calls_then_overflow() {
    let mut cpu = Core::new();
    for k in 0..16u16 {
        assert_eq!(instructions::call(&mut cpu, 0x300 + 2 * k), Ok(()));
    }
    let pc = cpu.pc;
    assert_eq!(instructions::call(&mut cpu, 0x400), Err(Fault::StackOverflow));
    assert_eq!(cpu.pc, pc);
    assert_eq!(cpu.stack.len(), 16);
    for k in (1..16u16).rev() {
        assert_eq!(instructions::rts(&mut cpu), Ok(()));
        assert_eq!(cpu.pc, 0x300 + 2 * (k - 1));
    }
    assert_eq!(instructions::rts(&mut cpu), Ok(()));
    assert_eq!(cpu.pc, 0x200);
}

#[test]
fn rts_on_empty_stack_underflows() {
    let mut cpu = Core::new();
    assert_eq!(instructions::rts(&mut cpu), Err(Fault::StackUnderflow));
    assert_eq!(cpu.pc, 0x200);
}

#[test]
fn jumps() {
    let mut cpu = core_with(0, 0x10);
    instructions::jump(&mut cpu, 0x345);
    assert_eq!(cpu.pc, 0x345);
    instructions::jumpi(&mut cpu, 0x400);
    assert_eq!(cpu.pc, 0x410);
    cpu.v[0] = 0xFF;
    instructions::jumpi(&mut cpu, 0xFFF);
    assert_eq!(cpu.pc, 0x10FE);
}

#[test]
fn skips_on_immediates() {
    let mut cpu = core_with(2, 7);
    instructions::ske(&mut cpu, 2, 7);
    assert_eq!(cpu.pc, 0x202);
    instructions::ske(&mut cpu, 2, 8);
    assert_eq!(cpu.pc, 0x202);
    instructions::skne(&mut cpu, 2, 8);
    assert_eq!(cpu.pc, 0x204);
    instructions::skne(&mut cpu, 2, 7);
    assert_eq!(cpu.pc, 0x204);
}

#[test]
fn skips_on_registers() {
    let mut cpu = core_with(2, 7);
    cpu.v[3] = 7;
    cpu.v[4] = 9;
    instructions::skre(&mut cpu, 2, 3);
    assert_eq!(cpu.pc, 0x202);
    instructions::skre(&mut cpu, 2, 4);
    assert_eq!(cpu.pc, 0x202);
    instructions::skrne(&mut cpu, 2, 4);
    assert_eq!(cpu.pc, 0x204);
    instructions::skrne(&mut cpu, 2, 3);
    assert_eq!(cpu.pc, 0x204);
}

#[test]
fn skips_on_keys() {
    let mut mem = Memory::new();
    mem.keys[0xA] = true;
    let mut cpu = core_with(1, 0xA);
    cpu.v[2] = 0xB;
    assert_eq!(instructions::skp(&mut cpu, &mem, 1), Ok(()));
    assert_eq!(cpu.pc, 0x202);
    assert_eq!(instructions::skp(&mut cpu, &mem, 2), Ok(()));
    assert_eq!(cpu.pc, 0x202);
    assert_eq!(instructions::sknp(&mut cpu, &mem, 2), Ok(()));
    assert_eq!(cpu.pc, 0x204);
    assert_eq!(instructions::sknp(&mut cpu, &mem, 1), Ok(()));
    assert_eq!(cpu.pc, 0x204);
}

#[test]
fn a_key_outside_the_keypad_is_a_fault() {
    let mem = Memory::new();
    let mut cpu = core_with(1, 16);
    assert_eq!(instructions::skp(&mut cpu, &mem, 1), Err(Fault::OutOfBounds));
    assert_eq!(instructions::sknp(&mut cpu, &mem, 1), Err(Fault::OutOfBounds));
    assert_eq!(cpu.pc, 0x200);
}

#[test]
fn keyd_takes_the_lowest_pressed_key() {
    let mut mem = Memory::new();
    mem.keys[9] = true;
    mem.keys[4] = true;
    mem.keys[0xF] = true;
    let mut cpu = Core::new();
    cpu.pc = 0x202;
    instructions::keyd(&mut cpu, &mem, 6);
    assert_eq!(cpu.v[6], 4);
    assert_eq!(cpu.pc, 0x202);
    mem.keys[0] = true;
    instructions::keyd(&mut cpu, &mem, 6);
    assert_eq!(cpu.v[6], 0);
}

#[test]
fn keyd_with_no_key_steps_back() {
    let mem = Memory::new();
    let mut cpu = core_with(6, 0x77);
    cpu.pc = 0x202;
    instructions::keyd(&mut cpu, &mem, 6);
    assert_eq!(cpu.pc, 0x200);
    assert_eq!(cpu.v[6], 0x77);
}

#[test]
fn rand_masks_the_byte() {
    let mut cpu = Core::new();
    instructions::rand(&mut cpu, 2, 0x0F, 0xA7);
    assert_eq!(cpu.v[2], 0x07);
    instructions::rand(&mut cpu, 2, 0xFF, 0xA7);
    assert_eq!(cpu.v[2], 0xA7);
    instructions::rand(&mut cpu, 2, 0x00, 0xA7);
    assert_eq!(cpu.v[2], 0);
}

#[test]
fn timers_and_index() {
    let mut cpu = core_with(1, 30);
    instructions::loadd(&mut cpu, 1);
    assert_eq!(cpu.dt, 30);
    cpu.v[1] = 40;
    instructions::loads(&mut cpu, 1);
    assert_eq!(cpu.st, 40);
    instructions::moved(&mut cpu, 5);
    assert_eq!(cpu.v[5], 30);
    instructions::loadi(&mut cpu, 0x123);
    assert_eq!(cpu.i, 0x123);
    assert_eq!(instructions::addi(&mut cpu, 1), Ok(()));
    assert_eq!(cpu.i, 0x123 + 40);
    assert_eq!(cpu.v[0xF], 0);
    cpu.v[2] = 0xA;
    instructions::ldspr(&mut cpu, 2);
    assert_eq!(cpu.i, 50);
    cpu.v[2] = 255;
    instructions::ldspr(&mut cpu, 2);
    assert_eq!(cpu.i, 1275);
}

#[test]
fn addi_past_sixteen_bits_is_a_fault() {
    let mut cpu = core_with(1, 1);
    cpu.i = 0xFFFF;
    assert_eq!(instructions::addi(&mut cpu, 1), Err(Fault::OutOfBounds));
    assert_eq!(cpu.i, 0xFFFF);
    cpu.i = 0xFFFE;
    assert_eq!(instructions::addi(&mut cpu, 1), Ok(()));
    assert_eq!(cpu.i, 0xFFFF);
    cpu.i = 0xFFF;
    cpu.v[1] = 0xFF;
    assert_eq!(instructions::addi(&mut cpu, 1), Ok(()));
    assert_eq!(cpu.i, 0x10FE);
    assert_eq!(cpu.v[0xF], 0);
}

#[test]
fn bcd_round_trip() {
    let mut mem = Memory::new();
    let mut cpu = Core::new();
    cpu.i = 0x300;
    for value in 0..=255u8 {
        cpu.v[7] = value;
        assert_eq!(instructions::bcd(&cpu, &mut mem, 7), Ok(()));
        let h = mem.ram[0x300] as u32;
        let t = mem.ram[0x301] as u32;
        let u = mem.ram[0x302] as u32;
        assert!(h < 10 && t < 10 && u < 10);
        assert_eq!(100 * h + 10 * t + u, value as u32);
    }
    cpu.v[7] = 254;
    instructions::bcd(&cpu, &mut mem, 7).unwrap();
    assert_eq!(mem.ram[0x300..0x303], [2, 5, 4]);
    assert_eq!(mem.ram[0x2FF], 0);
    assert_eq!(mem.ram[0x303], 0);
}

#[test]
fn bcd_at_the_end_of_memory() {
    let mut mem = Memory::new();
    let mut cpu = core_with(0, 123);
    cpu.i = 4093;
    assert_eq!(instructions::bcd(&cpu, &mut mem, 0), Ok(()));
    assert_eq!(mem.ram[4093..], [1, 2, 3]);
    cpu.i = 4094;
    assert_eq!(instructions::bcd(&cpu, &mut mem, 0), Err(Fault::OutOfBounds));
    assert_eq!(mem.ram[4093..], [1, 2, 3]);
}

#[test]
fn stor_excludes_register_x() {
    let mut mem = Memory::new();
    let mut cpu = Core::new();
    for r in 0..16 {
        cpu.v[r] = 0x10 + r as u8;
    }
    cpu.i = 0x400;
    assert_eq!(instructions::stor(&cpu, &mut mem, 3), Ok(()));
    assert_eq!(mem.ram[0x400..0x405], [0x10, 0x11, 0x12, 0, 0]);
    assert_eq!(mem.ram[0x3FF], 0);
    assert_eq!(cpu.i, 0x400);
}

#[test]
fn stor_of_register_zero_writes_nothing() {
    let mut mem = Memory::new();
    let cpu = core_with(0, 0x99);
    let before = mem.ram;
    assert_eq!(instructions::stor(&cpu, &mut mem, 0), Ok(()));
    assert_eq!(mem.ram[..], before[..]);
}

#[test]
fn read_includes_register_x() {
    let mut mem = Memory::new();
    for k in 0..16 {
        mem.ram[0x400 + k] = 0x20 + k as u8;
    }
    let mut cpu = Core::new();
    for r in 0..16 {
        cpu.v[r] = 0xEE;
    }
    cpu.i = 0x400;
    assert_eq!(instructions::read(&mut cpu, &mem, 3), Ok(()));
    assert_eq!(cpu.v[..6], [0x20, 0x21, 0x22, 0x23, 0xEE, 0xEE]);
    assert_eq!(instructions::read(&mut cpu, &mem, 0), Ok(()));
    assert_eq!(cpu.v[..2], [0x20, 0x21]);
}

#[test]
fn stor_and_read_differ_by_one_at_the_end_of_memory() {
    let mut mem = Memory::new();
    let mut cpu = Core::new();
    cpu.i = 4096 - 3;
    assert_eq!(instructions::stor(&cpu, &mut mem, 3), Ok(()));
    assert_eq!(instructions::read(&mut cpu, &mem, 3), Err(Fault::OutOfBounds));
    assert_eq!(instructions::read(&mut cpu, &mem, 2), Ok(()));
    assert_eq!(instructions::stor(&cpu, &mut mem, 4), Err(Fault::OutOfBounds));
    cpu.i = 0xFFFF;
    assert_eq!(instructions::stor(&cpu, &mut mem, 0), Ok(()));
    assert_eq!(instructions::read(&mut cpu, &mem, 0), Err(Fault::OutOfBounds));
}

fn lit(mem: &Memory) -> Vec<usize> {
    (0..2048).filter(|&p| mem.video[p]).collect()
}

#[test]
fn draw_a_glyph() {
    let mut mem = Memory::new();
    let mut cpu = Core::new();
    cpu.i = 0;
    cpu.v[0xF] = 9;
    assert_eq!(instructions::draw(&mut cpu, &mut mem, 0, 1, 5), Ok(()));
    assert_eq!(cpu.v[0xF], 0);
    assert_eq!(
        lit(&mem),
        vec![0, 1, 2, 3, 64, 67, 128, 131, 192, 195, 256, 257, 258, 259]
    );
}

#[test]
fn draw_twice_restores_and_collides() {
    let mut mem = Memory::new();
    mem.video[5] = true;
    mem.video[700] = true;
    let before = mem.video;
    let mut cpu = Core::new();
    cpu.i = 10;
    cpu.v[1] = 20;
    cpu.v[2] = 9;
    assert_eq!(instructions::draw(&mut cpu, &mut mem, 1, 2, 5), Ok(()));
    assert_eq!(cpu.v[0xF], 0);
    assert_ne!(mem.video[..], before[..]);
    assert_eq!(instructions::draw(&mut cpu, &mut mem, 1, 2, 5), Ok(()));
    assert_eq!(cpu.v[0xF], 1);
    assert_eq!(mem.video[..], before[..]);
}

#[test]
fn draw_wraps_round_both_edges() {
    let mut mem = Memory::new();
    mem.ram[0x300] = 0xFF;
    mem.ram[0x301] = 0x81;
    let mut cpu = Core::new();
    cpu.i = 0x300;
    cpu.v[0] = 62;
    cpu.v[1] = 31;
    assert_eq!(instructions::draw(&mut cpu, &mut mem, 0, 1, 2), Ok(()));
    let row = 31 * 64;
    assert_eq!(
        lit(&mem),
        vec![5, 62, row, row + 1, row + 2, row + 3, row + 4, row + 5, row + 62, row + 63]
    );
}

#[test]
fn draw_takes_the_position_modulo_the_screen() {
    let mut mem = Memory::new();
    mem.ram[0x300] = 0x80;
    let mut cpu = Core::new();
    cpu.i = 0x300;
    cpu.v[0] = 64 + 2;
    cpu.v[1] = 32 * 3 + 1;
    assert_eq!(instructions::draw(&mut cpu, &mut mem, 0, 1, 1), Ok(()));
    assert_eq!(lit(&mem), vec![64 + 2]);
}

#[test]
fn draw_reports_a_collision_and_clears_the_pixel() {
    let mut mem = Memory::new();
    mem.ram[0x300] = 0b1100_0000;
    mem.video[1] = true;
    mem.video[2] = true;
    let mut cpu = Core::new();
    cpu.i = 0x300;
    assert_eq!(instructions::draw(&mut cpu, &mut mem, 0, 0, 1), Ok(()));
    assert_eq!(cpu.v[0xF], 1);
    assert_eq!(lit(&mem), vec![0, 2]);
}

#[test]
fn draw_clears_a_stale_flag() {
    let mut mem = Memory::new();
    let mut cpu = Core::new();
    cpu.i = 0x300;
    cpu.v[0xF] = 1;
    assert_eq!(instructions::draw(&mut cpu, &mut mem, 0, 0, 3), Ok(()));
    assert_eq!(cpu.v[0xF], 0);
    assert!(lit(&mem).is_empty());
}

#[test]
fn draw_places_the_sprite_where_the_registers_said_before() {
    let mut mem = Memory::new();
    mem.ram[0x300] = 0x80;
    let mut cpu = Core::new();
    cpu.i = 0x300;
    cpu.v[0xF] = 7;
    assert_eq!(instructions::draw(&mut cpu, &mut mem, 0xF, 0, 1), Ok(()));
    assert_eq!(lit(&mem), vec![7]);
    assert_eq!(cpu.v[0xF], 0);
}

#[test]
fn draw_past_the_end_of_memory_is_a_fault() {
    let mut mem = Memory::new();
    mem.video[3] = true;
    let mut cpu = Core::new();
    cpu.i = 4095;
    cpu.v[0xF] = 5;
    assert_eq!(instructions::draw(&mut cpu, &mut mem, 0, 0, 2), Err(Fault::OutOfBounds));
    assert_eq!(cpu.v[0xF], 5);
    assert_eq!(lit(&mem), vec![3]);
    assert_eq!(instructions::draw(&mut cpu, &mut mem, 0, 0, 1), Ok(()));
    cpu.i = 5000;
    assert_eq!(instructions::draw(&mut cpu, &mut mem, 0, 0, 0), Ok(()));
    assert_eq!(cpu.v[0xF], 0);
}

#[test]
fn clr_blanks_the_screen() {
    let mut mem = Memory::new();
    mem.video[0] = true;
    mem.video[1000] = true;
    instructions::clr(&mut mem);
    assert!(lit(&mem).is_empty());
}

fn exec_word(cpu: &mut Core, mem: &mut Memory, word: u16) -> Result<(), Fault> {
    instructions::exec(cpu, mem, Opcode(word), 0x5A)
}

#[test]
fn dispatch_selects_each_instruction() {
    let mut mem = Memory::new();
    let mut cpu = Core::new();
    cpu.pc = 0x202;
    assert_eq!(exec_word(&mut cpu, &mut mem, 0x6A12), Ok(()));
    assert_eq!(cpu.v[0xA], 0x12);
    assert_eq!(exec_word(&mut cpu, &mut mem, 0x7A01), Ok(()));
    assert_eq!(cpu.v[0xA], 0x13);
    assert_eq!(exec_word(&mut cpu, &mut mem, 0x8BA0), Ok(()));
    assert_eq!(cpu.v[0xB], 0x13);
    assert_eq!(exec_word(&mut cpu, &mut mem, 0x8BA4), Ok(()));
    assert_eq!(cpu.v[0xB], 0x26);
    assert_eq!(exec_word(&mut cpu, &mut mem, 0x8BA5), Ok(()));
    assert_eq!(cpu.v[0xB], 0x13);
    assert_eq!(exec_word(&mut cpu, &mut mem, 0x8BA7), Ok(()));
    assert_eq!(cpu.v[0xB], 0);
    assert_eq!(exec_word(&mut cpu, &mut mem, 0x8AB1), Ok(()));
    assert_eq!(cpu.v[0xA], 0x13);
    assert_eq!(exec_word(&mut cpu, &mut mem, 0x8AB2), Ok(()));
    assert_eq!(cpu.v[0xA], 0);
    assert_eq!(exec_word(&mut cpu, &mut mem, 0x6A03), Ok(()));
    assert_eq!(exec_word(&mut cpu, &mut mem, 0x8AB3), Ok(()));
    assert_eq!(cpu.v[0xA], 3);
    assert_eq!(exec_word(&mut cpu, &mut mem, 0x8A06), Ok(()));
    assert_eq!((cpu.v[0xA], cpu.v[0xF]), (1, 1));
    assert_eq!(exec_word(&mut cpu, &mut mem, 0x8A0E), Ok(()));
    assert_eq!((cpu.v[0xA], cpu.v[0xF]), (2, 0));
    assert_eq!(exec_word(&mut cpu, &mut mem, 0xC10F), Ok(()));
    assert_eq!(cpu.v[1], 0x0A);
    assert_eq!(exec_word(&mut cpu, &mut mem, 0xA123), Ok(()));
    assert_eq!(cpu.i, 0x123);
    assert_eq!(exec_word(&mut cpu, &mut mem, 0xFA1E), Ok(()));
    assert_eq!(cpu.i, 0x125);
    assert_eq!(exec_word(&mut cpu, &mut mem, 0xFA29), Ok(()));
    assert_eq!(cpu.i, 10);
    assert_eq!(exec_word(&mut cpu, &mut mem, 0xFA15), Ok(()));
    assert_eq!(cpu.dt, 2);
    assert_eq!(exec_word(&mut cpu, &mut mem, 0xFA18), Ok(()));
    assert_eq!(cpu.st, 2);
    assert_eq!(exec_word(&mut cpu, &mut mem, 0xF307), Ok(()));
    assert_eq!(cpu.v[3], 2);
    assert_eq!(exec_word(&mut cpu, &mut mem, 0x1300), Ok(()));
    assert_eq!(cpu.pc, 0x300);
    assert_eq!(exec_word(&mut cpu, &mut mem, 0x2400), Ok(()));
    assert_eq!(cpu.pc, 0x400);
    assert_eq!(exec_word(&mut cpu, &mut mem, 0x00EE), Ok(()));
    assert_eq!(cpu.pc, 0x300);
    assert_eq!(exec_word(&mut cpu, &mut mem, 0xB010), Ok(()));
    assert_eq!(cpu.pc, 0x10);
    assert_eq!(exec_word(&mut cpu, &mut mem, 0x3302), Ok(()));
    assert_eq!(cpu.pc, 0x12);
    assert_eq!(exec_word(&mut cpu, &mut mem, 0x4302), Ok(()));
    assert_eq!(cpu.pc, 0x12);
    assert_eq!(exec_word(&mut cpu, &mut mem, 0x53A0), Ok(()));
    assert_eq!(cpu.pc, 0x14);
    assert_eq!(exec_word(&mut cpu, &mut mem, 0x93A0), Ok(()));
    assert_eq!(cpu.pc, 0x14);
    assert_eq!(exec_word(&mut cpu, &mut mem, 0xE39E), Ok(()));
    assert_eq!(cpu.pc, 0x14);
    assert_eq!(exec_word(&mut cpu, &mut mem, 0xE3A1), Ok(()));
    assert_eq!(cpu.pc, 0x16);
}

#[test]
fn dispatch_reaches_memory_instructions() {
    let mut mem = Memory::new();
    let mut cpu = Core::new();
    cpu.pc = 0x202;
    cpu.i = 0x300;
    cpu.v[0] = 0xAB;
    cpu.v[1] = 0xCD;
    cpu.v[2] = 234;
    assert_eq!(exec_word(&mut cpu, &mut mem, 0xF255), Ok(()));
    assert_eq!(mem.ram[0x300..0x303], [0xAB, 0xCD, 0]);
    assert_eq!(exec_word(&mut cpu, &mut mem, 0xF233), Ok(()));
    assert_eq!(mem.ram[0x300..0x303], [2, 3, 4]);
    assert_eq!(exec_word(&mut cpu, &mut mem, 0xF165), Ok(()));
    assert_eq!(cpu.v[..3], [2, 3, 234]);
    cpu.i = 0;
    cpu.v[0] = 0;
    cpu.v[1] = 0;
    assert_eq!(exec_word(&mut cpu, &mut mem, 0xD011), Ok(()));
    assert_eq!(lit(&mem), vec![0, 1, 2, 3]);
    assert_eq!(exec_word(&mut cpu, &mut mem, 0x00E0), Ok(()));
    assert!(lit(&mem).is_empty());
    assert_eq!(exec_word(&mut cpu, &mut mem, 0xF50A), Ok(()));
    assert_eq!(cpu.pc, 0x200);
    mem.keys[0xC] = true;
    assert_eq!(exec_word(&mut cpu, &mut mem, 0xF50A), Ok(()));
    assert_eq!(cpu.v[5], 0xC);
}

#[test]
fn group_zero_is_selected_by_its_low_byte() {
    let mut mem = Memory::new();
    mem.video[9] = true;
    let mut cpu = Core::new();
    assert_eq!(exec_word(&mut cpu, &mut mem, 0x0FE0), Ok(()));
    assert!(lit(&mem).is_empty());
}

#[test]
fn unknown_instructions_are_faults() {
    let words = [
        0x0000u16, 0x00E1, 0x00EF, 0x0123, 0x5001, 0x500F, 0x8008, 0x800D, 0x800F, 0x9001, 0xE000,
        0xE09F, 0xE0A0, 0xF000, 0xF008, 0xF0FF, 0xF056, 0xF064,
    ];
    for word in words {
        let mut mem = Memory::new();
        let mut cpu = Core::new();
        cpu.v[3] = 3;
        assert_eq!(exec_word(&mut cpu, &mut mem, word), Err(Fault::UnknownInstruction));
        assert_eq!(cpu.pc, 0x200);
        assert_eq!(cpu.v[3], 3);
    }
}

#[test]
fn faults_pass_through_the_dispatcher() {
    let mut mem = Memory::new();
    let mut cpu = Core::new();
    assert_eq!(exec_word(&mut cpu, &mut mem, 0x00EE), Err(Fault::StackUnderflow));
    for _ in 0..16 {
        assert_eq!(exec_word(&mut cpu, &mut mem, 0x2300), Ok(()));
    }
    assert_eq!(exec_word(&mut cpu, &mut mem, 0x2300), Err(Fault::StackOverflow));
    cpu.i = 4095;
    assert_eq!(exec_word(&mut cpu, &mut mem, 0xF033), Err(Fault::OutOfBounds));
    assert_eq!(exec_word(&mut cpu, &mut mem, 0xF255), Err(Fault::OutOfBounds));
    assert_eq!(exec_word(&mut cpu, &mut mem, 0xF165), Err(Fault::OutOfBounds));
    assert_eq!(exec_word(&mut cpu, &mut mem, 0xD002), Err(Fault::OutOfBounds));
    cpu.v[4] = 0x10;
    assert_eq!(exec_word(&mut cpu, &mut mem, 0xE49E), Err(Fault::OutOfBounds));
    assert_eq!(exec_word(&mut cpu, &mut mem, 0xE4A1), Err(Fault::OutOfBounds));
}

#[test]
fn ldspr_points_at_the_glyph_of_each_digit() {
    let mem = Memory::new();
    let glyph_of_a = [0xF0, 0x90, 0xF0, 0x90, 0x90];
    let glyph_of_7 = [0xF0, 0x10, 0x20, 0x40, 0x40];
    let mut cpu = core_with(3, 0xA);
    instructions::ldspr(&mut cpu, 3);
    assert_eq!(mem.ram[cpu.i as usize..cpu.i as usize + 5], glyph_of_a);
    cpu.v[3] = 7;
    instructions::ldspr(&mut cpu, 3);
    assert_eq!(mem.ram[cpu.i as usize..cpu.i as usize + 5], glyph_of_7);
    cpu.v[3] = 0;
    instructions::ldspr(&mut cpu, 3);
    assert_eq!(cpu.i, 0);
}
