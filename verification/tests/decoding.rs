use chip8emu::{Fault, Memory, Opcode, Stack};
use chip8emu::memory::FONTS;

#[test]
fn read_needs_two_bytes() {
    assert!(Opcode::read(&[]).is_none());
    assert!(Opcode::read(&[0x12]).is_none());
    assert_eq!(Opcode::read(&[0x12, 0x34]), Some(Opcode(0x1234)));
    assert_eq!(Opcode::read(&[0xAB, 0xCD, 0xEF]), Some(Opcode(0xABCD)));
}

#[test]
fn read_puts_the_first_byte_high() {
    assert_eq!(Opcode::read(&[0x00, 0xE0]), Some(Opcode(0x00E0)));
    assert_eq!(Opcode::read(&[0xE0, 0x00]), Some(Opcode(0xE000)));
    assert_eq!(Opcode::read(&[0xFF, 0xFF]), Some(Opcode(0xFFFF)));
}

#[test]
fn opcode_fields() {
    let op = Opcode(0xD123);
    assert_eq!(op.group(), 0xD);
    assert_eq!(op.x(), 0x1);
    assert_eq!(op.y(), 0x2);
    assert_eq!(op.n(), 0x3);
    assert_eq!(op.nn(), 0x23);
    assert_eq!(op.nnn(), 0x123);
}

#[test]
fn opcode_fields_at_the_extremes() {
    let top = Opcode(0xFFFF);
    assert_eq!(top.group(), 0xF);
    assert_eq!(top.x(), 0xF);
    assert_eq!(top.y(), 0xF);
    assert_eq!(top.n(), 0xF);
    assert_eq!(top.nn(), 0xFF);
    assert_eq!(top.nnn(), 0xFFF);
    let zero = Opcode(0);
    assert_eq!(zero.group(), 0);
    assert_eq!(zero.nnn(), 0);
}

#[test]
fn new_memory_holds_the_font_and_nothing_else() {
    let mem = Memory::new();
    assert_eq!(mem.ram[..80], FONTS[..]);
    assert_eq!(mem.ram[0], 0xF0);
    assert_eq!(mem.ram[5], 0x20);
    assert_eq!(mem.ram[79], 0x80);
    assert!(mem.ram[80..].iter().all(|&b| b == 0));
    assert!(mem.video.iter().all(|&p| !p));
    assert!(mem.keys.iter().all(|&k| !k));
}

#[test]
fn load_program_writes_from_the_load_offset() {
    let mut mem = Memory::new();
    assert_eq!(mem.load_program(&[1, 2, 3]), Ok(()));
    assert_eq!(mem.ram[0x1FF], 0);
    assert_eq!(mem.ram[0x200], 1);
    assert_eq!(mem.ram[0x201], 2);
    assert_eq!(mem.ram[0x202], 3);
    assert_eq!(mem.ram[0x203], 0);
    assert_eq!(mem.ram[..80], FONTS[..]);
}

#[test]
fn load_program_takes_a_program_that_just_fits() {
    let mut mem = Memory::new();
    let program = vec![0xAAu8; 4096 - 0x200];
    assert_eq!(mem.load_program(&program), Ok(()));
    assert_eq!(mem.ram[0x200], 0xAA);
    assert_eq!(mem.ram[4095], 0xAA);
    assert_eq!(mem.ram[0x1FF], 0);
}

#[test]
fn load_program_refuses_a_program_too_large() {
    let mut mem = Memory::new();
    let program = vec![0xAAu8; 4096 - 0x200 + 1];
    assert_eq!(mem.load_program(&program), Err(Fault::ProgramTooLarge));
    assert!(mem.ram[0x200..].iter().all(|&b| b == 0));
}

#[test]
fn load_program_of_nothing_changes_nothing() {
    let mut mem = Memory::new();
    assert_eq!(mem.load_program(&[]), Ok(()));
    assert!(mem.ram[80..].iter().all(|&b| b == 0));
}

#[test]
fn reset_keeps_the_program_and_restores_the_rest() {
    let mut mem = Memory::new();
    mem.load_program(&[9, 8, 7]).unwrap();
    mem.ram[3] = 0x55;
    mem.ram[100] = 0x66;
    mem.video[17] = true;
    mem.keys[4] = true;
    mem.reset();
    assert_eq!(mem.ram[..80], FONTS[..]);
    assert_eq!(mem.ram[100], 0x66);
    assert_eq!(mem.ram[0x200], 9);
    assert!(mem.video.iter().all(|&p| !p));
    assert!(mem.keys.iter().all(|&k| !k));
}

#[test]
fn clear_video_touches_only_the_screen() {
    let mut mem = Memory::new();
    mem.video[0] = true;
    mem.video[2047] = true;
    mem.keys[1] = true;
    mem.clear_video();
    assert!(mem.video.iter().all(|&p| !p));
    assert!(mem.keys[1]);
    assert_eq!(mem.ram[0], 0xF0);
}

#[test]
fn stack_is_last_in_first_out() {
    let mut stack = Stack::new();
    assert_eq!(stack.len(), 0);
    assert_eq!(stack.push(0x200), Ok(()));
    assert_eq!(stack.push(0x300), Ok(()));
    assert_eq!(stack.len(), 2);
    assert_eq!(stack.pop(), Ok(0x300));
    assert_eq!(stack.pop(), Ok(0x200));
    assert_eq!(stack.pop(), Err(()));
    assert_eq!(stack.len(), 0);
}

#[test]
fn stack_holds_sixteen_and_no_more() {
    let mut stack = Stack::new();
    for k in 0..16u16 {
        assert_eq!(stack.push(k), Ok(()));
    }
    assert_eq!(stack.len(), 16);
    assert_eq!(stack.push(99), Err(()));
    assert_eq!(stack.len(), 16);
    assert_eq!(stack.pop(), Ok(15));
}

#[test]
fn stack_clear_empties_it() {
    let mut stack = Stack::new();
    stack.push(1).unwrap();
    stack.push(2).unwrap();
    stack.clear();
    assert_eq!(stack.len(), 0);
    assert_eq!(stack.pop(), Err(()));
}

#[test]
fn decode_faults_are_told_apart() {
    assert!(Fault::InsufficientBytes.is_decode());
    assert!(Fault::UnknownInstruction.is_decode());
    assert!(!Fault::StackOverflow.is_decode());
    assert!(!Fault::StackUnderflow.is_decode());
    assert!(!Fault::ProgramTooLarge.is_decode());
    assert!(!Fault::OutOfBounds.is_decode());
}
