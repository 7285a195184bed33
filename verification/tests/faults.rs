use chip8::cpu::Cpu;
use chip8::fault::Fault;
use chip8::instruction::Instruction;

const NO_KEYS: [bool; 16] = [false; 16];

fn machine_with(rom: &[u8]) -> Cpu {
    let mut cpu = Cpu::new();
    cpu.load_rom(rom).unwrap();
    cpu
}

fn run(cpu: &mut Cpu, steps: usize) {
    for _ in 0..steps {
        cpu.tick(&NO_KEYS).unwrap();
    }
}

fn unchanged_after(cpu: &mut Cpu, expected: Fault) {
    let pc = cpu.pc();
    let index = cpu.index();
    let memory = cpu.memory().clone();
    let pixels = cpu.pixels().clone();
    let stack = cpu.stack().clone();
    let registers: Vec<u8> = (0..16).map(|x| cpu.register(x)).collect();
    assert_eq!(cpu.tick(&NO_KEYS), Err(expected));
    assert_eq!(cpu.pc(), pc);
    assert_eq!(cpu.index(), index);
    assert_eq!(cpu.memory(), &memory);
    assert_eq!(cpu.pixels(), &pixels);
    assert_eq!(cpu.stack(), &stack);
    let after: Vec<u8> = (0..16).map(|x| cpu.register(x)).collect();
    assert_eq!(after, registers);
}

#[test]
fn return_on_an_empty_stack_is_a_stack_underflow() {
    let mut cpu = machine_with(&[0x00, 0xEE]);
    unchanged_after(&mut cpu, Fault::StackUnderflow { pc: 0x200 });
}

#[test]
fn undefined_words_are_decode_faults() {
    for &word in &[
        0x0000u16, 0x00E1, 0x0123, 0x5121, 0x512F, 0x8128, 0x8129, 0x812A, 0x812B, 0x812C, 0x812D,
        0x812F, 0x9121, 0xE100, 0xE19F, 0xE1A2, 0xF100, 0xF108, 0xF116, 0xF130, 0xF156, 0xF166,
        0xF1FF,
    ] {
        let mut cpu = machine_with(&[(word >> 8) as u8, (word & 0xFF) as u8]);
        unchanged_after(&mut cpu, Fault::Decode { pc: 0x200, opcode: word });
    }
}

#[test]
fn clear_and_return_ignore_the_second_nibble() {
    let mut cpu = Cpu::new();
    assert_eq!(cpu.execute(Instruction::from(0x03E0), &NO_KEYS, 0), Ok(()));
    assert_eq!(cpu.pc(), 0x202);
    assert!(cpu.update_display());
    assert_eq!(
        cpu.execute(Instruction::from(0x03EE), &NO_KEYS, 0),
        Err(Fault::StackUnderflow { pc: 0x202 })
    );
}

#[test]
fn a_decode_fault_names_the_program_counter() {
    let mut cpu = machine_with(&[0x12, 0x04, 0x00, 0x00, 0xFF, 0xFF]);
    run(&mut cpu, 1);
    unchanged_after(&mut cpu, Fault::Decode { pc: 0x204, opcode: 0xFFFF });
}

#[test]
fn fetch_beyond_memory_is_a_memory_fault() {
    let mut cpu = machine_with(&[0x1F, 0xFF]);
    run(&mut cpu, 1);
    assert_eq!(cpu.pc(), 0xFFF);
    assert_eq!(cpu.decode().err(), Some(Fault::Memory { pc: 0xFFF, address: 0x1000 }));
    unchanged_after(&mut cpu, Fault::Memory { pc: 0xFFF, address: 0x1000 });
    assert_eq!(
        cpu.execute(Instruction::from(0x6A3F), &NO_KEYS, 0),
        Err(Fault::Memory { pc: 0xFFF, address: 0x1000 })
    );
    assert_eq!(cpu.register(10), 0);
}

#[test]
fn running_off_the_end_of_memory_is_a_memory_fault() {
    let mut cpu = machine_with(&[0x1F, 0xFE]);
    run(&mut cpu, 1);
    assert_eq!(cpu.pc(), 0xFFE);
    cpu.execute(Instruction::from(0x6A3F), &NO_KEYS, 0).unwrap();
    assert_eq!(cpu.pc(), 0x1000);
    unchanged_after(&mut cpu, Fault::Memory { pc: 0x1000, address: 0x1001 });
}

#[test]
fn the_last_instruction_of_memory_can_run() {
    let mut rom = vec![0u8; 4096 - 0x200];
    rom[0] = 0x1F;
    rom[1] = 0xFE;
    rom[0xFFE - 0x200] = 0x6A;
    rom[0xFFF - 0x200] = 0x3F;
    let mut cpu = machine_with(&rom);
    run(&mut cpu, 2);
    assert_eq!(cpu.register(10), 0x3F);
    assert_eq!(cpu.pc(), 0x1000);
}

#[test]
fn decimal_digits_beyond_memory_are_a_memory_fault() {
    let mut cpu = machine_with(&[0xAF, 0xFE, 0xF1, 0x33]);
    run(&mut cpu, 1);
    unchanged_after(&mut cpu, Fault::Memory { pc: 0x202, address: 0x1000 });
    let mut cpu = machine_with(&[0x61, 123, 0xAF, 0xFD, 0xF1, 0x33]);
    run(&mut cpu, 3);
    assert_eq!(&cpu.memory()[0xFFD..], &[1, 2, 3]);
}

#[test]
fn storing_registers_beyond_memory_is_a_memory_fault() {
    let mut cpu = machine_with(&[0xAF, 0xFE, 0xF2, 0x55]);
    run(&mut cpu, 1);
    unchanged_after(&mut cpu, Fault::Memory { pc: 0x202, address: 0x1000 });
    let mut cpu = machine_with(&[0x60, 0x07, 0x61, 0x08, 0xAF, 0xFE, 0xF1, 0x55]);
    run(&mut cpu, 4);
    assert_eq!(&cpu.memory()[0xFFE..], &[7, 8]);
}

#[test]
fn loading_registers_beyond_memory_is_a_memory_fault() {
    let mut cpu = machine_with(&[0xAF, 0xFF, 0xF1, 0x65]);
    run(&mut cpu, 1);
    unchanged_after(&mut cpu, Fault::Memory { pc: 0x202, address: 0x1000 });
    let mut cpu = machine_with(&[0xAF, 0xFF, 0xF0, 0x65]);
    run(&mut cpu, 2);
    assert_eq!(cpu.register(0), 0);
}

#[test]
fn an_index_driven_past_memory_faults_with_its_address() {
    let mut cpu = machine_with(&[0xAF, 0xFF, 0x61, 0x10, 0xF1, 0x1E, 0xF0, 0x65]);
    run(&mut cpu, 3);
    assert_eq!(cpu.index(), 0x100F);
    unchanged_after(&mut cpu, Fault::Memory { pc: 0x206, address: 0x100F });
}

#[test]
fn a_sprite_read_beyond_memory_is_a_memory_fault() {
    let mut cpu = machine_with(&[0xAF, 0xFE, 0xD0, 0x03]);
    run(&mut cpu, 1);
    unchanged_after(&mut cpu, Fault::Memory { pc: 0x202, address: 0x1000 });
    let mut cpu = machine_with(&[0xAF, 0xFE, 0xD0, 0x02]);
    run(&mut cpu, 2);
    assert_eq!(cpu.pc(), 0x204);
}

#[test]
fn a_clipped_sprite_row_beyond_memory_is_still_a_memory_fault() {
    let mut cpu = machine_with(&[0x61, 31, 0xAF, 0xFF, 0xD0, 0x12]);
    run(&mut cpu, 2);
    unchanged_after(&mut cpu, Fault::Memory { pc: 0x204, address: 0x1000 });
}

#[test]
fn a_program_too_long_for_memory_is_refused() {
    let mut cpu = Cpu::new();
    let rom = vec![0xAB; 4096 - 0x200 + 1];
    assert_eq!(cpu.load_rom(&rom), Err(Fault::Memory { pc: 0x200, address: 4096 }));
    assert!(cpu.memory()[0x200..].iter().all(|b| *b == 0));
    assert_eq!(cpu.memory()[0x50], 0xF0);
}

#[test]
fn an_empty_program_changes_nothing() {
    let mut cpu = Cpu::new();
    assert_eq!(cpu.load_rom(&[]), Ok(()));
    assert!(cpu.memory()[0x200..].iter().all(|b| *b == 0));
    unchanged_after(&mut cpu, Fault::Decode { pc: 0x200, opcode: 0 });
}
