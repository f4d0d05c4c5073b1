use lc3_vm::cpu::{
    ConditionFlag, Cpu, Fault, FaultKind, Opcode, Register, RunOutcome, StepOutcome, Trapcode,
};
use lc3_vm::isa::{decode, sign_extend, Instruction, Operand};
use lc3_vm::memory::Memory;

const HALT: u16 = 0xF025;

fn load(program: &[u16]) -> (Cpu, Memory) {
    let cpu = Cpu::new();
    let mut memory = Memory::new();
    memory.write_at(program, 0x3000);
    (cpu, memory)
}

fn text(out: &[char]) -> String {
    out.iter().collect()
}

#[test]
fn new_cpu_starts_at_program_origin_with_zero_flag() {
    let cpu = Cpu::new();
    assert_eq!(cpu.register(Register::PC), 0x3000);
    assert_eq!(cpu.register(Register::COND), 0b010);
    assert_eq!(cpu.condition(), Some(ConditionFlag::ZRO));
    assert_eq!(cpu.register(Register::R0), 0);
    assert_eq!(cpu.register(Register::R7), 0);
    assert!(!cpu.is_halted());
}

#[test]
fn new_memory_is_zero_and_write_at_copies_block() {
    let mut memory = Memory::new();
    assert_eq!(memory.read(0), 0);
    assert_eq!(memory.read(0xFFFF), 0);
    memory.write_at(&[1, 2, 3], 0xFFFD);
    assert_eq!(memory.read(0xFFFC), 0);
    assert_eq!(memory.read(0xFFFD), 1);
    assert_eq!(memory.read(0xFFFE), 2);
    assert_eq!(memory.read(0xFFFF), 3);
    memory.write_at(&[], 0x10000);
    assert_eq!(memory.read(0), 0);
}

#[test]
fn add_immediate_then_halt() {
    let (mut cpu, mut memory) = load(&[0x1025, HALT]);
    let mut out = Vec::new();
    let r = cpu.execute(&mut memory, &[], &mut out, 100);
    assert_eq!(r, RunOutcome::Halted);
    assert_eq!(cpu.register(Register::R0), 5);
    assert_eq!(cpu.condition(), Some(ConditionFlag::POS));
    assert!(cpu.is_halted());
    assert_eq!(text(&out), "HALT\n");
    assert_eq!(cpu.register(Register::R7), 0x3002);
}

#[test]
fn puts_writes_exactly_the_string() {
    // LEA R0, #2 ; TRAP PUTS ; HALT ; "HI" 0
    let (mut cpu, mut memory) = load(&[0xE002, 0xF022, HALT, 'H' as u16, 'I' as u16, 0]);
    let mut out = Vec::new();
    let r = cpu.execute(&mut memory, &[], &mut out, 2);
    assert_eq!(r, RunOutcome::StepLimit);
    assert_eq!(text(&out), "HI");
    let r = cpu.execute(&mut memory, &[], &mut out, 10);
    assert_eq!(r, RunOutcome::Halted);
    assert_eq!(text(&out), "HIHALT\n");
}

#[test]
fn ldi_loads_through_the_pointer() {
    // LDI R1, #1 ; HALT ; pointer 0x4000
    let (mut cpu, mut memory) = load(&[0xA201, HALT, 0x4000]);
    memory.write(0x4000, 0x1234);
    let mut out = Vec::new();
    assert_eq!(cpu.execute(&mut memory, &[], &mut out, 10), RunOutcome::Halted);
    assert_eq!(cpu.register(Register::R1), 0x1234);
    assert_ne!(cpu.register(Register::R1), 0x4000);
    assert_eq!(cpu.condition(), Some(ConditionFlag::POS));
}

#[test]
fn sign_extend_reads_twos_complement() {
    assert_eq!(sign_extend(0b111111110, 9), 0xFFFE);
    assert_eq!(sign_extend(0b011111111, 9), 0x00FF);
    assert_eq!(sign_extend(0b10000, 5), 0xFFF0);
    assert_eq!(sign_extend(0b01111, 5), 0x000F);
    assert_eq!(sign_extend(0b100000, 6), 0xFFE0);
    assert_eq!(sign_extend(0x400, 11), 0xFC00);
    assert_eq!(sign_extend(0, 9), 0);
}

#[test]
fn decode_splits_fields() {
    assert_eq!(decode(0x1025), Instruction::Add { dr: 0, sr1: 0, src: Operand::Imm(5) });
    assert_eq!(decode(0x1242), Instruction::Add { dr: 1, sr1: 1, src: Operand::Reg(2) });
    assert_eq!(decode(0x5FFF), Instruction::And { dr: 7, sr1: 7, src: Operand::Imm(0x1F) });
    assert_eq!(decode(0x0E05), Instruction::Br { cond: 0b111, offset: 5 });
    assert_eq!(decode(0x4FFF), Instruction::Jsr { offset: 0x7FF });
    assert_eq!(decode(0x4080), Instruction::Jsrr { base: 2 });
    assert_eq!(decode(0x6A7F), Instruction::Ldr { dr: 5, base: 1, offset: 0x3F });
    assert_eq!(decode(0x7A7F), Instruction::Str { sr: 5, base: 1, offset: 0x3F });
    assert_eq!(decode(0x967F), Instruction::Not { dr: 3, sr: 1 });
    assert_eq!(decode(0xC1C0), Instruction::Jmp { base: 7 });
    assert_eq!(decode(0x8000), Instruction::Rti);
    assert_eq!(decode(0xD000), Instruction::Res);
    assert_eq!(decode(0xF025), Instruction::Trap { vector: 0x25 });
    assert_eq!(decode(0x2DFF), Instruction::Ld { dr: 6, offset: 0x1FF });
    assert_eq!(decode(0x3200), Instruction::St { sr: 1, offset: 0 });
    assert_eq!(decode(0xA401), Instruction::Ldi { dr: 2, offset: 1 });
    assert_eq!(decode(0xB401), Instruction::Sti { sr: 2, offset: 1 });
    assert_eq!(decode(0xE1FF), Instruction::Lea { dr: 0, offset: 0x1FF });
}

#[test]
fn opcode_from_top_nibble() {
    assert_eq!(Opcode::from(0x0000), Opcode::BR);
    assert_eq!(Opcode::from(0x1FFF), Opcode::ADD);
    assert_eq!(Opcode::from(0xF025), Opcode::TRAP);
    assert_eq!(Opcode::from(0xD123), Opcode::RES);
    assert_eq!(Opcode::TRAP.bits(), 15);
    assert_eq!(Opcode::LEA.bits(), 14);
}

#[test]
fn trapcodes_and_flags_round_trip() {
    assert_eq!(Trapcode::from_code(0x20), Some(Trapcode::GETC));
    assert_eq!(Trapcode::from_code(0x25), Some(Trapcode::HALT));
    assert_eq!(Trapcode::from_code(0x26), None);
    assert_eq!(ConditionFlag::from_bits(0b100), Some(ConditionFlag::NEG));
    assert_eq!(ConditionFlag::from_bits(0b011), None);
    assert_eq!(ConditionFlag::from_bits(0), None);
    assert_eq!(ConditionFlag::POS.bits(), 1);
    assert_eq!(ConditionFlag::ZRO.bits(), 2);
    assert_eq!(ConditionFlag::NEG.bits(), 4);
}

#[test]
fn flags_follow_the_written_register() {
    // NOT R1, R0 (R0 = 0) ; AND R2, R1, #0 ; ADD R3, R2, #1
    let (mut cpu, mut memory) = load(&[0x923F, 0x5460, 0x16A1]);
    let mut out = Vec::new();
    assert_eq!(cpu.step(&mut memory, None, &mut out), StepOutcome::Running);
    assert_eq!(cpu.register(Register::R1), 0xFFFF);
    assert_eq!(cpu.condition(), Some(ConditionFlag::NEG));
    assert_eq!(cpu.step(&mut memory, None, &mut out), StepOutcome::Running);
    assert_eq!(cpu.register(Register::R2), 0);
    assert_eq!(cpu.condition(), Some(ConditionFlag::ZRO));
    assert_eq!(cpu.step(&mut memory, None, &mut out), StepOutcome::Running);
    assert_eq!(cpu.register(Register::R3), 1);
    assert_eq!(cpu.condition(), Some(ConditionFlag::POS));
    assert!(out.is_empty());
}

#[test]
fn update_flags_reads_the_sign_bit() {
    let mut cpu = Cpu::new();
    cpu.set_register(Register::R4, 0x8000);
    cpu.update_flags(4);
    assert_eq!(cpu.register(Register::COND), 0b100);
    cpu.set_register(Register::R4, 0x7FFF);
    cpu.update_flags(4);
    assert_eq!(cpu.register(Register::COND), 0b001);
    cpu.set_register(Register::R4, 0);
    cpu.update_flags(4);
    assert_eq!(cpu.register(Register::COND), 0b010);
}

#[test]
fn branch_taken_on_matching_mask() {
    // BRn #2
    let (mut cpu, mut memory) = load(&[0x0802]);
    cpu.set_register(Register::COND, 0b100);
    let mut out = Vec::new();
    assert_eq!(cpu.step(&mut memory, None, &mut out), StepOutcome::Running);
    assert_eq!(cpu.register(Register::PC), 0x3003);
}

#[test]
fn branch_not_taken_on_disjoint_mask() {
    // BRzp #2
    let (mut cpu, mut memory) = load(&[0x0602]);
    cpu.set_register(Register::COND, 0b100);
    let mut out = Vec::new();
    assert_eq!(cpu.step(&mut memory, None, &mut out), StepOutcome::Running);
    assert_eq!(cpu.register(Register::PC), 0x3001);
}

#[test]
fn branch_backwards_with_negative_offset() {
    // BRnzp #-2
    let (mut cpu, mut memory) = load(&[0x0FFE]);
    let mut out = Vec::new();
    cpu.step(&mut memory, None, &mut out);
    assert_eq!(cpu.register(Register::PC), 0x2FFF);
}

#[test]
fn memory_top_and_bottom_are_distinct() {
    let mut memory = Memory::new();
    memory.write(0xFFFF, 7);
    assert_eq!(memory.read(0x0000), 0);
    assert_eq!(memory.read(0xFFFF), 7);
}

#[test]
fn pc_wraps_past_the_last_address() {
    let mut cpu = Cpu::new();
    let mut memory = Memory::new();
    memory.write(0xFFFF, 0x1021); // ADD R0, R0, #1
    cpu.set_register(Register::PC, 0xFFFF);
    let mut out = Vec::new();
    assert_eq!(cpu.step(&mut memory, None, &mut out), StepOutcome::Running);
    assert_eq!(cpu.register(Register::PC), 0x0000);
    assert_eq!(cpu.register(Register::R0), 1);
}

#[test]
fn fetch_reads_and_advances() {
    let mut cpu = Cpu::new();
    let mut memory = Memory::new();
    memory.write(0x3000, 0xABCD);
    assert_eq!(cpu.fetch(&memory), 0xABCD);
    assert_eq!(cpu.register(Register::PC), 0x3001);
    cpu.set_register(Register::PC, 0xFFFF);
    cpu.fetch(&memory);
    assert_eq!(cpu.register(Register::PC), 0);
}

#[test]
fn add_wraps_at_sixteen_bits() {
    // ADD R0, R0, #-1 with R0 = 0
    let (mut cpu, mut memory) = load(&[0x103F]);
    let mut out = Vec::new();
    cpu.step(&mut memory, None, &mut out);
    assert_eq!(cpu.register(Register::R0), 0xFFFF);
    assert_eq!(cpu.condition(), Some(ConditionFlag::NEG));
}

#[test]
fn add_register_mode() {
    // ADD R2, R0, R1
    let (mut cpu, mut memory) = load(&[0x1401]);
    cpu.set_register(Register::R0, 40);
    cpu.set_register(Register::R1, 2);
    let mut out = Vec::new();
    cpu.step(&mut memory, None, &mut out);
    assert_eq!(cpu.register(Register::R2), 42);
}

#[test]
fn load_and_store_relative_to_pc() {
    // LD R3, #2 ; ST R3, #2 ; HALT ; 0x00AA ; (dest)
    let (mut cpu, mut memory) = load(&[0x2602, 0x3602, HALT, 0x00AA, 0]);
    let mut out = Vec::new();
    assert_eq!(cpu.execute(&mut memory, &[], &mut out, 10), RunOutcome::Halted);
    assert_eq!(cpu.register(Register::R3), 0x00AA);
    assert_eq!(memory.read(0x3004), 0x00AA);
}

#[test]
fn load_and_store_relative_to_base_register() {
    // LDR R1, R0, #-1 ; STR R1, R0, #1
    let (mut cpu, mut memory) = load(&[0x623F, 0x7201]);
    cpu.set_register(Register::R0, 0x5000);
    memory.write(0x4FFF, 0x0BAD);
    let mut out = Vec::new();
    cpu.step(&mut memory, None, &mut out);
    assert_eq!(cpu.register(Register::R1), 0x0BAD);
    cpu.step(&mut memory, None, &mut out);
    assert_eq!(memory.read(0x5001), 0x0BAD);
}

#[test]
fn store_indirect_through_pointer() {
    // STI R2, #1 ; HALT ; pointer 0x6000
    let (mut cpu, mut memory) = load(&[0xB401, HALT, 0x6000]);
    cpu.set_register(Register::R2, 99);
    let mut out = Vec::new();
    cpu.step(&mut memory, None, &mut out);
    assert_eq!(memory.read(0x6000), 99);
    assert_eq!(memory.read(0x3002), 0x6000);
}

#[test]
fn lea_computes_address() {
    // LEA R4, #-3
    let (mut cpu, mut memory) = load(&[0xE9FD]);
    let mut out = Vec::new();
    cpu.step(&mut memory, None, &mut out);
    assert_eq!(cpu.register(Register::R4), 0x2FFE);
    assert_eq!(cpu.condition(), Some(ConditionFlag::POS));
}

#[test]
fn jsr_links_and_jumps() {
    // JSR #4
    let (mut cpu, mut memory) = load(&[0x4804]);
    let mut out = Vec::new();
    cpu.step(&mut memory, None, &mut out);
    assert_eq!(cpu.register(Register::R7), 0x3001);
    assert_eq!(cpu.register(Register::PC), 0x3005);
}

#[test]
fn jsrr_reads_base_before_linking() {
    // JSRR R7
    let (mut cpu, mut memory) = load(&[0x41C0]);
    cpu.set_register(Register::R7, 0x4000);
    let mut out = Vec::new();
    cpu.step(&mut memory, None, &mut out);
    assert_eq!(cpu.register(Register::PC), 0x4000);
    assert_eq!(cpu.register(Register::R7), 0x3001);
}

#[test]
fn jmp_and_ret() {
    // JMP R3 ; at 0x4000: RET
    let (mut cpu, mut memory) = load(&[0xC0C0]);
    memory.write(0x4000, 0xC1C0);
    cpu.set_register(Register::R3, 0x4000);
    cpu.set_register(Register::R7, 0x1234);
    let mut out = Vec::new();
    cpu.step(&mut memory, None, &mut out);
    assert_eq!(cpu.register(Register::PC), 0x4000);
    cpu.step(&mut memory, None, &mut out);
    assert_eq!(cpu.register(Register::PC), 0x1234);
}

#[test]
fn illegal_opcodes_are_fatal_and_change_nothing() {
    for word in [0x8000u16, 0xD000] {
        let (mut cpu, mut memory) = load(&[word]);
        let mut out = Vec::new();
        let r = cpu.step(&mut memory, None, &mut out);
        assert_eq!(
            r,
            StepOutcome::Fatal(Fault { kind: FaultKind::IllegalOpcode, word, pc: 0x3000 })
        );
        assert_eq!(cpu.register(Register::PC), 0x3000);
        assert!(out.is_empty());
    }
}

#[test]
fn unknown_trap_is_fatal() {
    let (mut cpu, mut memory) = load(&[0xF030]);
    let mut out = Vec::new();
    let r = cpu.execute(&mut memory, &[], &mut out, 10);
    assert_eq!(
        r,
        RunOutcome::Fatal(Fault { kind: FaultKind::UnknownTrap, word: 0xF030, pc: 0x3000 })
    );
    assert_eq!(cpu.register(Register::R7), 0);
}

#[test]
fn out_writes_one_character() {
    // OUT ; HALT
    let (mut cpu, mut memory) = load(&[0xF021, HALT]);
    cpu.set_register(Register::R0, 'Z' as u16);
    let mut out = Vec::new();
    assert_eq!(cpu.execute(&mut memory, &[], &mut out, 10), RunOutcome::Halted);
    assert_eq!(text(&out), "ZHALT\n");
}

#[test]
fn out_of_a_surrogate_is_fatal() {
    let (mut cpu, mut memory) = load(&[0xF021]);
    cpu.set_register(Register::R0, 0xD800);
    let mut out = Vec::new();
    let r = cpu.step(&mut memory, None, &mut out);
    assert_eq!(
        r,
        StepOutcome::Fatal(Fault { kind: FaultKind::BadCharacter, word: 0xF021, pc: 0x3000 })
    );
    assert!(out.is_empty());
}

#[test]
fn puts_of_a_surrogate_is_fatal() {
    let (mut cpu, mut memory) = load(&[0xF022]);
    cpu.set_register(Register::R0, 0x4000);
    memory.write_at(&['o' as u16, 0xDFFF, 0], 0x4000);
    let mut out = Vec::new();
    let r = cpu.step(&mut memory, None, &mut out);
    assert_eq!(
        r,
        StepOutcome::Fatal(Fault { kind: FaultKind::BadCharacter, word: 0xF022, pc: 0x3000 })
    );
    assert!(out.is_empty());
}

#[test]
fn puts_without_terminator_is_fatal() {
    let mut memory = Memory::new();
    let all = vec![1u16; 0x10000];
    memory.write_at(&all, 0);
    memory.write(0x3000, 0xF022);
    let mut cpu = Cpu::new();
    let mut out = Vec::new();
    let r = cpu.step(&mut memory, None, &mut out);
    assert_eq!(
        r,
        StepOutcome::Fatal(Fault { kind: FaultKind::UnterminatedString, word: 0xF022, pc: 0x3000 })
    );
}

#[test]
fn puts_wraps_round_the_end_of_memory() {
    let (mut cpu, mut memory) = load(&[0xF022]);
    cpu.set_register(Register::R0, 0xFFFF);
    memory.write(0xFFFF, 'o' as u16);
    memory.write(0x0000, 'k' as u16);
    memory.write(0x0001, 0);
    let mut out = Vec::new();
    cpu.step(&mut memory, None, &mut out);
    assert_eq!(text(&out), "ok");
}

#[test]
fn putsp_unpacks_two_characters_per_word() {
    // PUTSP with R0 = 0x4000 -> "HI!"
    let (mut cpu, mut memory) = load(&[0xF024]);
    cpu.set_register(Register::R0, 0x4000);
    memory.write_at(&[0x4948, 0x0021, 0], 0x4000);
    let mut out = Vec::new();
    assert_eq!(cpu.step(&mut memory, None, &mut out), StepOutcome::Running);
    assert_eq!(text(&out), "HI!");
    assert_eq!(cpu.register(Register::R7), 0x3001);
}

#[test]
fn getc_waits_for_input_then_stores_it() {
    let (mut cpu, mut memory) = load(&[0xF020]);
    let mut out = Vec::new();
    let r = cpu.step(&mut memory, None, &mut out);
    assert_eq!(r, StepOutcome::NeedsInput { prompt: false });
    assert_eq!(cpu.register(Register::PC), 0x3000);
    let r = cpu.step(&mut memory, Some(b'A'), &mut out);
    assert_eq!(r, StepOutcome::Running);
    assert_eq!(cpu.register(Register::R0), 65);
    assert_eq!(cpu.register(Register::PC), 0x3001);
    assert_eq!(cpu.condition(), Some(ConditionFlag::ZRO));
    assert!(out.is_empty());
}

#[test]
fn in_prompts_reads_and_sets_flags() {
    // IN ; HALT
    let (mut cpu, mut memory) = load(&[0xF023, HALT]);
    let mut out = Vec::new();
    let r = cpu.execute(&mut memory, b"x", &mut out, 10);
    assert_eq!(r, RunOutcome::Halted);
    assert_eq!(cpu.register(Register::R0), 'x' as u16);
    assert_eq!(cpu.condition(), Some(ConditionFlag::POS));
    assert_eq!(text(&out), "Enter a character: HALT\n");
}

#[test]
fn input_at_its_end_is_fatal() {
    let (mut cpu, mut memory) = load(&[0xF020]);
    let mut out = Vec::new();
    let r = cpu.execute(&mut memory, &[], &mut out, 10);
    assert_eq!(
        r,
        RunOutcome::Fatal(Fault { kind: FaultKind::EndOfInput, word: 0xF020, pc: 0x3000 })
    );
    assert_eq!(cpu.register(Register::PC), 0x3000);
}

#[test]
fn halted_cpu_stays_halted() {
    let (mut cpu, mut memory) = load(&[HALT, 0x1025]);
    let mut out = Vec::new();
    assert_eq!(cpu.step(&mut memory, None, &mut out), StepOutcome::Halted);
    assert_eq!(cpu.step(&mut memory, None, &mut out), StepOutcome::Halted);
    assert_eq!(cpu.register(Register::R0), 0);
    assert_eq!(cpu.register(Register::PC), 0x3001);
    assert_eq!(text(&out), "HALT\n");
}

#[test]
fn run_stops_at_step_limit() {
    // BRnzp #-1 loops forever
    let (mut cpu, mut memory) = load(&[0x0FFF]);
    let mut out = Vec::new();
    assert_eq!(cpu.execute(&mut memory, &[], &mut out, 50), RunOutcome::StepLimit);
    assert_eq!(cpu.register(Register::PC), 0x3000);
    assert!(!cpu.is_halted());
}

#[test]
fn chars_from_words() {
    assert_eq!(lc3_vm::cpu::char_from_word(0x41), Some('A'));
    assert_eq!(lc3_vm::cpu::char_from_word(0xD800), None);
    assert_eq!(lc3_vm::cpu::char_from_word(0xE000), Some('\u{E000}'));
}
