use vstd::prelude::*;

use crate::cpu::{add16, step_spec, CpuState, StepOutcome};
use crate::isa::{
    decode_spec, flag_bits, flag_of, sext, signed16, Instruction, COND_SLOT, PC_SLOT,
    REGISTER_COUNT,
};

verus! {

/// COND holds exactly one of the three flag bits.
pub open spec fn cond_is_valid(v: u16) -> bool {
    v == 0b001 || v == 0b010 || v == 0b100
}

/// The register that instruction `i` writes and sets the flags from, if it is one that does.
pub open spec fn defined_register(i: Instruction) -> Option<u16> {
    match i {
        Instruction::Add { dr, .. } => Some(dr),
        Instruction::And { dr, .. } => Some(dr),
        Instruction::Not { dr, .. } => Some(dr),
        Instruction::Ld { dr, .. } => Some(dr),
        Instruction::Ldr { dr, .. } => Some(dr),
        Instruction::Ldi { dr, .. } => Some(dr),
        Instruction::Lea { dr, .. } => Some(dr),
        _ => None,
    }
}

/// After an instruction that writes a register and sets the flags, COND holds
/// exactly one flag, and that flag is ZERO, NEGATIVE or POSITIVE as the
/// written value, read as a signed number, is zero, below zero or above zero.
pub proof fn lemma_flags_follow_result(s: CpuState, mem: Seq<u16>, input: Option<u8>)
    requires
        s.regs.len() == REGISTER_COUNT,
        mem.len() == 0x10000,
        !s.halted,
        defined_register(decode_spec(mem[s.regs[PC_SLOT as int] as int])) is Some,
    ensures
        ({
            let e = step_spec(s, mem, input);
            let dr = defined_register(decode_spec(mem[s.regs[PC_SLOT as int] as int]))->0;
            let v = e.cpu.regs[dr as int];
            let c = e.cpu.regs[COND_SLOT as int];
            &&& e.outcome == StepOutcome::Running
            &&& cond_is_valid(c)
            &&& c == flag_bits(flag_of(v))
            &&& (c == 0b010 <==> v == 0)
            &&& (c == 0b100 <==> signed16(v) < 0)
            &&& (c == 0b001 <==> signed16(v) > 0)
        }),
{
    crate::isa::lemma_decode_fields(mem[s.regs[PC_SLOT as int] as int]);
}

/// No instruction cycle leaves COND without exactly one flag, once it has one.
pub proof fn lemma_cond_stays_valid(s: CpuState, mem: Seq<u16>, input: Option<u8>)
    requires
        s.regs.len() == REGISTER_COUNT,
        mem.len() == 0x10000,
        cond_is_valid(s.regs[COND_SLOT as int]),
    ensures
        cond_is_valid(step_spec(s, mem, input).cpu.regs[COND_SLOT as int]),
{
    crate::isa::lemma_decode_fields(mem[s.regs[PC_SLOT as int] as int]);
}

/// A BR is taken exactly when its mask shares a bit with COND: with COND =
/// NEGATIVE, mask 0b100 jumps by the sign-extended offset from the next
/// address, and mask 0b011 falls through to the next address.
pub proof fn lemma_branch_on_negative(s: CpuState, mem: Seq<u16>, input: Option<u8>, cond: u16, offset: u16)
    requires
        s.regs.len() == REGISTER_COUNT,
        mem.len() == 0x10000,
        !s.halted,
        s.regs[COND_SLOT as int] == 0b100,
        decode_spec(mem[s.regs[PC_SLOT as int] as int]) == (Instruction::Br { cond, offset }),
        cond == 0b100 || cond == 0b011,
    ensures
        ({
            let e = step_spec(s, mem, input);
            let npc = add16(s.regs[PC_SLOT as int], 1);
            &&& e.outcome == StepOutcome::Running
            &&& cond == 0b100 ==> e.cpu.regs[PC_SLOT as int] == add16(npc, sext(offset, 9))
            &&& cond == 0b011 ==> e.cpu.regs[PC_SLOT as int] == npc
        }),
{
    assert(0b100u16 & 0b100u16 != 0 && 0b011u16 & 0b100u16 == 0) by (bit_vector);
}

/// The instructions that neither jump nor trap.
pub open spec fn is_sequential(i: Instruction) -> bool {
    defined_register(i) is Some || i is St || i is Str || i is Sti
}

/// An instruction that neither jumps nor traps moves PC on by one, and the
/// address after 0xFFFF is 0x0000.
pub proof fn lemma_pc_wraps(s: CpuState, mem: Seq<u16>, input: Option<u8>)
    requires
        s.regs.len() == REGISTER_COUNT,
        mem.len() == 0x10000,
        !s.halted,
        is_sequential(decode_spec(mem[s.regs[PC_SLOT as int] as int])),
    ensures
        step_spec(s, mem, input).cpu.regs[PC_SLOT as int] == add16(s.regs[PC_SLOT as int], 1),
        s.regs[PC_SLOT as int] == 0xFFFF ==> step_spec(s, mem, input).cpu.regs[PC_SLOT as int] == 0,
{
    crate::isa::lemma_decode_fields(mem[s.regs[PC_SLOT as int] as int]);
}

/// Cells 0xFFFF and 0x0000 are distinct: writing one leaves the other as it was.
pub proof fn lemma_no_wrap_aliasing(mem: Seq<u16>, value: u16)
    requires
        mem.len() == 0x10000,
    ensures
        mem.update(0xFFFF, value)[0] == mem[0],
        mem.update(0, value)[0xFFFF] == mem[0xFFFF],
        mem.update(0xFFFF, value)[0xFFFF] == value,
{
}

} // verus!
