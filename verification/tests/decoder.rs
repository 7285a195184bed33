use chip8::cpu::Cpu;
use chip8::instruction::Instruction;

#[test]
fn decode_splits_a_word_into_its_fields() {
    let ins = Instruction::from(0xD12F);
    assert_eq!(ins.full, 0xD12F);
    assert_eq!(ins.op, 0xD);
    assert_eq!(ins.x, 0x1);
    assert_eq!(ins.y, 0x2);
    assert_eq!(ins.n, 0xF);
    assert_eq!(ins.nn, 0x2F);
    assert_eq!(ins.nnn, 0x12F);
}

#[test]
fn decode_of_zero_and_of_all_ones() {
    let zero = Instruction::from(0x0000);
    assert_eq!((zero.op, zero.x, zero.y, zero.n, zero.nn, zero.nnn), (0, 0, 0, 0, 0, 0));
    let ones = Instruction::from(0xFFFF);
    assert_eq!(
        (ones.op, ones.x, ones.y, ones.n, ones.nn, ones.nnn),
        (0xF, 0xF, 0xF, 0xF, 0xFF, 0xFFF)
    );
}

#[test]
fn decode_fields_recompose_the_word() {
    let mut word: u32 = 0;
    while word <= 0xFFFF {
        let ins = Instruction::from(word as u16);
        assert_eq!(ins.op as u32 * 4096 + ins.nnn as u32, word);
        assert_eq!(ins.x as u32 * 256 + ins.nn as u32, ins.nnn as u32);
        assert_eq!(ins.y as u32 * 16 + ins.n as u32, ins.nn as u32);
        word += 257;
    }
}

#[test]
fn fetch_reads_the_word_big_endian() {
    let mut cpu = Cpu::new();
    cpu.load_rom(&[0x6A, 0x3F]).unwrap();
    let ins = cpu.decode().unwrap();
    assert_eq!(ins.full, 0x6A3F);
    assert_eq!(ins.op, 0x6);
    assert_eq!(ins.x, 0xA);
    assert_eq!(ins.nn, 0x3F);
}

#[test]
fn fetch_does_not_move_the_program_counter() {
    let mut cpu = Cpu::new();
    cpu.load_rom(&[0x12, 0x34]).unwrap();
    let first = cpu.decode().unwrap();
    let second = cpu.decode().unwrap();
    assert_eq!(first.full, 0x1234);
    assert_eq!(second.full, 0x1234);
    assert_eq!(cpu.pc(), 0x200);
}
