use vstd::prelude::*;

use crate::isa::{
    decode, decode_spec, flag_bits, flag_of, sext, sign_extend, slot, trapcode_of, Instruction,
    Operand, COND_SLOT, PC_SLOT, REGISTER_COUNT,
};
use crate::memory::{lemma_memory_len, Memory};

pub use crate::isa::{ConditionFlag, Opcode, Register, Trapcode};

verus! {

broadcast use lemma_memory_len;

/// Where execution starts in a fresh CPU.
pub const PC_START: u16 = 0x3000;

/// `a + b` wrapped to 16 bits.
pub open spec fn add16(a: u16, b: u16) -> u16 {
    if a + b > 0xFFFF {
        (a + b - 0x10000) as u16
    } else {
        (a + b) as u16
    }
}

/// The character whose code point is `code`.
pub open spec fn char_of(code: u16) -> char {
    (code as u32) as char
}

/// `code` is a Unicode scalar value (no surrogate).
pub open spec fn is_char_code(code: u16) -> bool {
    code < 0xD800 || code >= 0xE000
}

/// The cell `k` places after `start`, counting round the end of memory.
pub open spec fn cell_after(mem: Seq<u16>, start: u16, k: int) -> u16 {
    mem[(start + k) % 0x10000]
}

/// The first zero cell at or after `start` is `k` places on.
pub open spec fn string_ends_at(mem: Seq<u16>, start: u16, k: int) -> bool {
    &&& 0 <= k < 0x10000
    &&& cell_after(mem, start, k) == 0
    &&& forall|j: int| 0 <= j < k ==> cell_after(mem, start, j) != 0
}

/// The cells from `start` up to the first zero cell, or `None` when no cell is zero.
pub open spec fn string_at(mem: Seq<u16>, start: u16) -> Option<Seq<u16>> {
    if exists|k: int| string_ends_at(mem, start, k) {
        let k = choose|k: int| string_ends_at(mem, start, k);
        Some(Seq::new(k as nat, |j: int| cell_after(mem, start, j)))
    } else {
        None
    }
}

/// The characters of a string held one per cell.
pub open spec fn plain_chars(words: Seq<u16>) -> Seq<char> {
    Seq::new(words.len(), |j: int| char_of(words[j]))
}

/// The characters of one cell that holds two: low byte, then high byte unless zero.
pub open spec fn packed_pair(w: u16) -> Seq<char> {
    if w >> 8u16 != 0 {
        seq![char_of(w & 0xFF), char_of(w >> 8u16)]
    } else {
        seq![char_of(w & 0xFF)]
    }
}

/// The characters of a string held two per cell.
pub open spec fn packed_chars(words: Seq<u16>) -> Seq<char>
    decreases words.len(),
{
    if words.len() == 0 {
        Seq::empty()
    } else {
        packed_chars(words.drop_last()) + packed_pair(words.last())
    }
}

/// The notice written when the machine halts.
pub open spec fn halt_text() -> Seq<char> {
    seq!['H', 'A', 'L', 'T', '\n']
}

/// What went wrong in an instruction that cannot be carried out.
#[derive(Clone, Copy, Debug, PartialEq, Eq, Structural)]
pub enum FaultKind {
    /// RTI or the reserved opcode.
    IllegalOpcode,
    /// TRAP with a vector that names no service routine.
    UnknownTrap,
    /// A character to print whose code is a surrogate.
    BadCharacter,
    /// A string to print with no zero cell anywhere after it.
    UnterminatedString,
    /// An input routine found the input at its end.
    EndOfInput,
}

/// A fatal error: what went wrong, the instruction word, and its address.
#[derive(Clone, Copy, Debug, PartialEq, Eq, Structural)]
pub struct Fault {
    pub kind: FaultKind,
    pub word: u16,
    pub pc: u16,
}

/// What one instruction cycle came to.
#[derive(Clone, Copy, Debug, PartialEq, Eq, Structural)]
pub enum StepOutcome {
    /// The instruction was carried out; the machine goes on.
    Running,
    /// The machine is halted.
    Halted,
    /// The instruction is an input routine and no byte was given; nothing changed.
    /// `prompt` is set for IN, which asks for the byte before reading it.
    NeedsInput { prompt: bool },
    /// The instruction cannot be carried out; nothing changed.
    Fatal(Fault),
}

/// The CPU as a value: its ten registers and whether it has halted.
pub struct CpuState {
    pub regs: Seq<u16>,
    pub halted: bool,
}

/// What one cycle does: the CPU and memory after it, the characters it
/// writes, and its outcome.
pub struct Effect {
    pub cpu: CpuState,
    pub mem: Seq<u16>,
    pub out: Seq<char>,
    pub outcome: StepOutcome,
}

/// `regs` with `value` written to register `r` and COND set from it.
pub open spec fn define(regs: Seq<u16>, r: u16, value: u16) -> Seq<u16> {
    regs.update(r as int, value).update(COND_SLOT as int, flag_bits(flag_of(value)))
}

/// The second operand of ADD or AND.
pub open spec fn operand_value(regs: Seq<u16>, src: Operand) -> u16 {
    match src {
        Operand::Reg(r) => regs[r as int],
        Operand::Imm(v) => sext(v, 5),
    }
}

/// A cycle that goes on with the given registers and memory and writes nothing.
pub open spec fn running(regs: Seq<u16>, mem: Seq<u16>) -> Effect {
    Effect {
        cpu: CpuState { regs, halted: false },
        mem,
        out: Seq::empty(),
        outcome: StepOutcome::Running,
    }
}

/// A cycle that changes nothing and ends in `outcome`.
pub open spec fn stays(s: CpuState, mem: Seq<u16>, outcome: StepOutcome) -> Effect {
    Effect { cpu: s, mem, out: Seq::empty(), outcome }
}

/// A cycle that changes nothing and fails with `kind` on the word at PC.
pub open spec fn fails(s: CpuState, mem: Seq<u16>, kind: FaultKind) -> Effect {
    let pc = s.regs[PC_SLOT as int];
    stays(s, mem, StepOutcome::Fatal(Fault { kind, word: mem[pc as int], pc }))
}

/// A TRAP cycle: `regs` already hold the return address in R7.
pub open spec fn trap_spec(
    s: CpuState,
    regs: Seq<u16>,
    mem: Seq<u16>,
    vector: u16,
    input: Option<u8>,
) -> Effect {
    let r0 = regs[0];
    match trapcode_of(vector) {
        None => fails(s, mem, FaultKind::UnknownTrap),
        Some(Trapcode::GETC) => match input {
            None => stays(s, mem, StepOutcome::NeedsInput { prompt: false }),
            Some(b) => running(regs.update(0, b as u16), mem),
        },
        Some(Trapcode::IN) => match input {
            None => stays(s, mem, StepOutcome::NeedsInput { prompt: true }),
            Some(b) => running(define(regs, 0, b as u16), mem),
        },
        Some(Trapcode::OUT) => if is_char_code(r0) {
            Effect { out: seq![char_of(r0)], ..running(regs, mem) }
        } else {
            fails(s, mem, FaultKind::BadCharacter)
        },
        Some(Trapcode::PUTS) => match string_at(mem, r0) {
            None => fails(s, mem, FaultKind::UnterminatedString),
            Some(words) => if forall|j: int| 0 <= j < words.len() ==> is_char_code(words[j]) {
                Effect { out: plain_chars(words), ..running(regs, mem) }
            } else {
                fails(s, mem, FaultKind::BadCharacter)
            },
        },
        Some(Trapcode::PUTSP) => match string_at(mem, r0) {
            None => fails(s, mem, FaultKind::UnterminatedString),
            Some(words) => Effect { out: packed_chars(words), ..running(regs, mem) },
        },
        Some(Trapcode::HALT) => Effect {
            cpu: CpuState { regs, halted: true },
            mem,
            out: halt_text(),
            outcome: StepOutcome::Halted,
        },
    }
}

/// One instruction cycle from CPU `s` and memory `mem`, with `input` the byte
/// offered to an input routine.
pub open spec fn step_spec(s: CpuState, mem: Seq<u16>, input: Option<u8>) -> Effect {
    let pc = s.regs[PC_SLOT as int];
    let word = mem[pc as int];
    let npc = add16(pc, 1);
    let r = s.regs.update(PC_SLOT as int, npc);
    if s.halted {
        stays(s, mem, StepOutcome::Halted)
    } else {
        match decode_spec(word) {
            Instruction::Br { cond, offset } => if cond & s.regs[COND_SLOT as int] != 0 {
                running(r.update(PC_SLOT as int, add16(npc, sext(offset, 9))), mem)
            } else {
                running(r, mem)
            },
            Instruction::Add { dr, sr1, src } => running(
                define(r, dr, add16(r[sr1 as int], operand_value(r, src))),
                mem,
            ),
            Instruction::Ld { dr, offset } => running(
                define(r, dr, mem[add16(npc, sext(offset, 9)) as int]),
                mem,
            ),
            Instruction::St { sr, offset } => running(
                r,
                mem.update(add16(npc, sext(offset, 9)) as int, r[sr as int]),
            ),
            Instruction::Jsr { offset } => running(
                r.update(7, npc).update(PC_SLOT as int, add16(npc, sext(offset, 11))),
                mem,
            ),
            Instruction::Jsrr { base } => running(
                r.update(7, npc).update(PC_SLOT as int, r[base as int]),
                mem,
            ),
            Instruction::And { dr, sr1, src } => running(
                define(r, dr, r[sr1 as int] & operand_value(r, src)),
                mem,
            ),
            Instruction::Ldr { dr, base, offset } => running(
                define(r, dr, mem[add16(r[base as int], sext(offset, 6)) as int]),
                mem,
            ),
            Instruction::Str { sr, base, offset } => running(
                r,
                mem.update(add16(r[base as int], sext(offset, 6)) as int, r[sr as int]),
            ),
            Instruction::Rti | Instruction::Res => fails(s, mem, FaultKind::IllegalOpcode),
            Instruction::Not { dr, sr } => running(define(r, dr, !r[sr as int]), mem),
            Instruction::Ldi { dr, offset } => running(
                define(r, dr, mem[mem[add16(npc, sext(offset, 9)) as int] as int]),
                mem,
            ),
            Instruction::Sti { sr, offset } => running(
                r,
                mem.update(mem[add16(npc, sext(offset, 9)) as int] as int, r[sr as int]),
            ),
            Instruction::Jmp { base } => running(r.update(PC_SLOT as int, r[base as int]), mem),
            Instruction::Lea { dr, offset } => running(
                define(r, dr, add16(npc, sext(offset, 9))),
                mem,
            ),
            Instruction::Trap { vector } => trap_spec(s, r.update(7, npc), mem, vector, input),
        }
    }
}

/// The register file, and whether the machine has halted.
pub struct Cpu {
    registers: [u16; REGISTER_COUNT],
    halted: bool,
}

impl View for Cpu {
    type V = CpuState;

    closed spec fn view(&self) -> CpuState {
        CpuState { regs: self.registers@, halted: self.halted }
    }
}

impl Cpu {
    /// A running CPU with COND = ZERO, PC at the program start, and all else zero.
    pub fn new() -> (c: Cpu)
        ensures
            c@.regs == seq![0u16, 0, 0, 0, 0, 0, 0, 0, PC_START, flag_bits(ConditionFlag::ZRO)],
            !c@.halted,
    {
        let mut registers = [0u16; REGISTER_COUNT];
        registers[COND_SLOT] = ConditionFlag::ZRO.bits();
        registers[PC_SLOT] = PC_START;
        let c = Cpu { registers, halted: false };
        assert(c@.regs =~= seq![0u16, 0, 0, 0, 0, 0, 0, 0, PC_START, flag_bits(ConditionFlag::ZRO)]);
        c
    }

    /// The value of register `r`.
    pub fn register(&self, r: Register) -> (v: u16)
        ensures
            v == self@.regs[slot(r)],
    {
        self.registers[r.index()]
    }

    /// Sets register `r` to `value`.
    pub fn set_register(&mut self, r: Register, value: u16)
        ensures
            final(self)@ == (CpuState { regs: old(self)@.regs.update(slot(r), value), ..old(self)@ }),
    {
        self.registers[r.index()] = value;
    }

    /// The flag that COND holds, if it holds exactly one.
    pub fn condition(&self) -> (f: Option<ConditionFlag>)
        ensures
            f matches Some(g) ==> flag_bits(g) == self@.regs[COND_SLOT as int],
            f is None <==> !(exists|g: ConditionFlag| flag_bits(g) == self@.regs[COND_SLOT as int]),
    {
        let r = ConditionFlag::from_bits(self.registers[COND_SLOT]);
        proof {
            if r is None {
                assert forall|g: ConditionFlag| flag_bits(g) != self@.regs[COND_SLOT as int] by {
                    match g {
                        ConditionFlag::POS => {},
                        ConditionFlag::ZRO => {},
                        ConditionFlag::NEG => {},
                    }
                }
            }
        }
        r
    }

    /// Whether the machine has halted.
    pub fn is_halted(&self) -> (h: bool)
        ensures
            h == self@.halted,
    {
        self.halted
    }

    /// Reads the word at PC and moves PC on by one, wrapping past the last address.
    pub fn fetch(&mut self, memory: &Memory) -> (w: u16)
        ensures
            w == memory@[old(self)@.regs[PC_SLOT as int] as int],
            final(self)@ == (CpuState {
                regs: old(self)@.regs.update(
                    PC_SLOT as int,
                    add16(old(self)@.regs[PC_SLOT as int], 1),
                ),
                ..old(self)@
            }),
    {
        let pc = self.registers[PC_SLOT];
        let w = memory.read(pc);
        self.registers[PC_SLOT] = pc.wrapping_add(1);
        w
    }

    /// Sets COND from the value of general register `r`.
    pub fn update_flags(&mut self, r: u16)
        requires
            r < 8,
        ensures
            final(self)@ == (CpuState {
                regs: old(self)@.regs.update(
                    COND_SLOT as int,
                    flag_bits(flag_of(old(self)@.regs[r as int])),
                ),
                ..old(self)@
            }),
    {
        let v = self.registers[r as usize];
        let f = if v == 0 {
            ConditionFlag::ZRO
        } else if v >> 15u16 == 1 {
            ConditionFlag::NEG
        } else {
            ConditionFlag::POS
        };
        assert((v >> 15u16 == 1) == (v >= 0x8000)) by (bit_vector);
        self.registers[COND_SLOT] = f.bits();
    }
}

/// Relies on `char::from_u32`: `Some` exactly for Unicode scalar values
/// (below 0xD800, or from 0xE000 to 0x10FFFF), holding the character with that code.
#[verifier::external_body]
fn char_from_code(code: u32) -> (r: Option<char>)
    ensures
        r is Some <==> (code < 0xD800 || (0xE000 <= code && code <= 0x10FFFF)),
        r matches Some(c) ==> c as u32 == code,
{
    char::from_u32(code)
}

/// The character whose code point is `code`, unless `code` is a surrogate.
pub fn char_from_word(code: u16) -> (r: Option<char>)
    ensures
        r is Some <==> is_char_code(code),
        r matches Some(c) ==> c == char_of(code),
{
    let r = char_from_code(code as u32);
    proof {
        if let Some(c) = r {
            vstd::utf8::char_u32_cast(c, code as u32);
        }
    }
    r
}

/// The cells from `start` up to the first zero cell (excluded), or `None`
/// when no cell of memory is zero.
pub fn read_string(memory: &Memory, start: u16) -> (r: Option<Vec<u16>>)
    ensures
        match r {
            Some(v) => string_at(memory@, start) == Some(v@),
            None => string_at(memory@, start) is None,
        },
{
    let ghost mem = memory@;
    let mut words: Vec<u16> = Vec::new();
    let mut addr: u16 = start;
    let mut k: u32 = 0;
    while k < 0x10000
        invariant
            k <= 0x10000,
            addr as int == (start + k) % 0x10000,
            words@ =~= Seq::new(k as nat, |j: int| cell_after(mem, start, j)),
            forall|j: int| 0 <= j < k ==> cell_after(mem, start, j) != 0,
            mem == memory@,
        decreases 0x10000 - k,
    {
        let w = memory.read(addr);
        if w == 0 {
            proof {
                assert(string_ends_at(mem, start, k as int));
                assert forall|k2: int| string_ends_at(mem, start, k2) implies k2 == k by {
                    if k2 < k {
                        assert(cell_after(mem, start, k2) != 0);
                    } else if k2 > k {
                        assert(cell_after(mem, start, k as int) != 0);
                    }
                }
            }
            return Some(words);
        }
        words.push(w);
        addr = addr.wrapping_add(1);
        k = k + 1;
    }
    proof {
        assert forall|k2: int| !string_ends_at(mem, start, k2) by {
            if 0 <= k2 < 0x10000 {
                assert(cell_after(mem, start, k2) != 0);
            }
        }
    }
    None
}

/// The characters of a string held one per cell, unless one of them is a surrogate.
pub fn plain_text(words: &Vec<u16>) -> (r: Option<Vec<char>>)
    ensures
        r is Some <==> forall|j: int| 0 <= j < words@.len() ==> is_char_code(words@[j]),
        r matches Some(t) ==> t@ == plain_chars(words@),
{
    let mut text: Vec<char> = Vec::new();
    let mut i: usize = 0;
    while i < words.len()
        invariant
            i <= words@.len(),
            text@ =~= plain_chars(words@.subrange(0, i as int)),
            forall|j: int| 0 <= j < i ==> is_char_code(words@[j]),
        decreases words@.len() - i,
    {
        match char_from_word(words[i]) {
            Some(c) => text.push(c),
            None => return None,
        }
        i = i + 1;
    }
    assert(words@.subrange(0, i as int) =~= words@);
    Some(text)
}

/// The characters of a string held two per cell.
pub fn packed_text(words: &Vec<u16>) -> (t: Vec<char>)
    ensures
        t@ == packed_chars(words@),
{
    let mut text: Vec<char> = Vec::new();
    let mut i: usize = 0;
    while i < words.len()
        invariant
            i <= words@.len(),
            text@ == packed_chars(words@.subrange(0, i as int)),
        decreases words@.len() - i,
    {
        let w = words[i];
        assert(w & 0xFF < 0x100 && w >> 8u16 < 0x100) by (bit_vector);
        let lo = char_from_word(w & 0xFF);
        let hi = char_from_word(w >> 8u16);
        if let Some(c) = lo {
            text.push(c);
        }
        if w >> 8u16 != 0 {
            if let Some(c) = hi {
                text.push(c);
            }
        }
        assert(words@.subrange(0, i + 1).drop_last() =~= words@.subrange(0, i as int));
        i = i + 1;
    }
    assert(words@.subrange(0, i as int) =~= words@);
    text
}

/// Appends the characters of `text` to `out`.
pub fn push_chars(out: &mut Vec<char>, text: &Vec<char>)
    ensures
        final(out)@ == old(out)@ + text@,
{
    let mut i: usize = 0;
    while i < text.len()
        invariant
            i <= text@.len(),
            out@ =~= old(out)@ + text@.subrange(0, i as int),
        decreases text@.len() - i,
    {
        out.push(text[i]);
        i = i + 1;
    }
    assert(text@.subrange(0, i as int) =~= text@);
}

/// The bounds that the offset fields must stay under.
proof fn lemma_field_widths()
    ensures
        1u16 << 5u16 == 0x20,
        1u16 << 6u16 == 0x40,
        1u16 << 9u16 == 0x200,
        1u16 << 11u16 == 0x800,
{
    assert(1u16 << 5u16 == 0x20 && 1u16 << 6u16 == 0x40 && 1u16 << 9u16 == 0x200 && 1u16 << 11u16
        == 0x800) by (bit_vector);
}

impl Cpu {
    /// Writes `value` to general register `r` and sets COND from it.
    fn define_register(&mut self, r: u16, value: u16)
        requires
            r < 8,
        ensures
            final(self)@ == (CpuState { regs: define(old(self)@.regs, r, value), ..old(self)@ }),
    {
        self.registers[r as usize] = value;
        self.update_flags(r);
        assert(self@.regs =~= define(old(self)@.regs, r, value));
    }

    /// The value of the second operand of ADD or AND.
    fn operand(&self, src: Operand) -> (v: u16)
        requires
            match src {
                Operand::Reg(r) => r < 8,
                Operand::Imm(x) => x < 0x20,
            },
        ensures
            v == operand_value(self@.regs, src),
    {
        proof {
            lemma_field_widths();
        }
        match src {
            Operand::Reg(r) => self.registers[r as usize],
            Operand::Imm(x) => sign_extend(x, 5),
        }
    }
}

impl Cpu {
    /// Moves PC past the TRAP at PC and keeps the return address in R7.
    fn link(&mut self)
        ensures
            ({
                let regs = old(self)@.regs;
                let npc = add16(regs[PC_SLOT as int], 1);
                final(self)@ == (CpuState {
                    regs: regs.update(PC_SLOT as int, npc).update(7, npc),
                    ..old(self)@
                })
            }),
    {
        let npc = self.registers[PC_SLOT].wrapping_add(1);
        self.registers[PC_SLOT] = npc;
        self.registers[7] = npc;
    }

    /// The fault of kind `kind` on the instruction at PC.
    fn fault(&self, memory: &Memory, kind: FaultKind) -> (f: Fault)
        ensures
            StepOutcome::Fatal(f) == fails(self@, memory@, kind).outcome,
    {
        let pc = self.registers[PC_SLOT];
        Fault { kind, word: memory.read(pc), pc }
    }

    /// Carries out the service routine `vector` for the TRAP at PC.
    fn trap(&mut self, memory: &Memory, vector: u16, input: Option<u8>, out: &mut Vec<char>) -> (r:
        StepOutcome)
        requires
            !old(self)@.halted,
        ensures
            ({
                let s = old(self)@;
                let npc = add16(s.regs[PC_SLOT as int], 1);
                let e = trap_spec(
                    s,
                    s.regs.update(PC_SLOT as int, npc).update(7, npc),
                    memory@,
                    vector,
                    input,
                );
                &&& final(self)@ == e.cpu
                &&& memory@ == e.mem
                &&& final(out)@ == old(out)@ + e.out
                &&& r == e.outcome
            }),
    {
        let r0 = self.registers[0];
        match Trapcode::from_code(vector) {
            None => StepOutcome::Fatal(self.fault(memory, FaultKind::UnknownTrap)),
            Some(Trapcode::GETC) => match input {
                None => StepOutcome::NeedsInput { prompt: false },
                Some(b) => {
                    self.link();
                    self.registers[0] = b as u16;
                    StepOutcome::Running
                },
            },
            Some(Trapcode::IN) => match input {
                None => StepOutcome::NeedsInput { prompt: true },
                Some(b) => {
                    self.link();
                    self.define_register(0, b as u16);
                    StepOutcome::Running
                },
            },
            Some(Trapcode::OUT) => match char_from_word(r0) {
                None => StepOutcome::Fatal(self.fault(memory, FaultKind::BadCharacter)),
                Some(c) => {
                    self.link();
                    out.push(c);
                    StepOutcome::Running
                },
            },
            Some(Trapcode::PUTS) => match read_string(memory, r0) {
                None => StepOutcome::Fatal(self.fault(memory, FaultKind::UnterminatedString)),
                Some(words) => match plain_text(&words) {
                    None => StepOutcome::Fatal(self.fault(memory, FaultKind::BadCharacter)),
                    Some(text) => {
                        self.link();
                        push_chars(out, &text);
                        StepOutcome::Running
                    },
                },
            },
            Some(Trapcode::PUTSP) => match read_string(memory, r0) {
                None => StepOutcome::Fatal(self.fault(memory, FaultKind::UnterminatedString)),
                Some(words) => {
                    let text = packed_text(&words);
                    self.link();
                    push_chars(out, &text);
                    StepOutcome::Running
                },
            },
            Some(Trapcode::HALT) => {
                self.link();
                out.push('H');
                out.push('A');
                out.push('L');
                out.push('T');
                out.push('\n');
                self.halted = true;
                assert(out@ =~= old(out)@ + halt_text());
                StepOutcome::Halted
            },
        }
    }
}

impl Cpu {
    /// Runs one instruction cycle: fetch the word at PC, decode it, carry it out.
    /// `input` is the byte for GETC or IN; without one they report
    /// `NeedsInput` and change nothing. A fatal error changes nothing either.
    pub fn step(&mut self, memory: &mut Memory, input: Option<u8>, out: &mut Vec<char>) -> (r:
        StepOutcome)
        ensures
            ({
                let e = step_spec(old(self)@, old(memory)@, input);
                &&& final(self)@ == e.cpu
                &&& final(memory)@ == e.mem
                &&& final(out)@ == old(out)@ + e.out
                &&& r == e.outcome
            }),
    {
        if self.halted {
            return StepOutcome::Halted;
        }
        proof {
            lemma_field_widths();
        }
        let pc = self.registers[PC_SLOT];
        let word = memory.read(pc);
        let npc = pc.wrapping_add(1);
        match decode(word) {
            Instruction::Br { cond, offset } => {
                let flags = self.registers[COND_SLOT];
                self.registers[PC_SLOT] = npc;
                if cond & flags != 0 {
                    self.registers[PC_SLOT] = npc.wrapping_add(sign_extend(offset, 9));
                }
                StepOutcome::Running
            },
            Instruction::Add { dr, sr1, src } => {
                self.registers[PC_SLOT] = npc;
                let v = self.registers[sr1 as usize].wrapping_add(self.operand(src));
                self.define_register(dr, v);
                StepOutcome::Running
            },
            Instruction::Ld { dr, offset } => {
                self.registers[PC_SLOT] = npc;
                let v = memory.read(npc.wrapping_add(sign_extend(offset, 9)));
                self.define_register(dr, v);
                StepOutcome::Running
            },
            Instruction::St { sr, offset } => {
                self.registers[PC_SLOT] = npc;
                memory.write(npc.wrapping_add(sign_extend(offset, 9)), self.registers[sr as usize]);
                StepOutcome::Running
            },
            Instruction::Jsr { offset } => {
                self.registers[PC_SLOT] = npc;
                self.registers[7] = npc;
                self.registers[PC_SLOT] = npc.wrapping_add(sign_extend(offset, 11));
                StepOutcome::Running
            },
            Instruction::Jsrr { base } => {
                let target = self.registers[base as usize];
                self.registers[PC_SLOT] = npc;
                self.registers[7] = npc;
                self.registers[PC_SLOT] = target;
                StepOutcome::Running
            },
            Instruction::And { dr, sr1, src } => {
                self.registers[PC_SLOT] = npc;
                let v = self.registers[sr1 as usize] & self.operand(src);
                self.define_register(dr, v);
                StepOutcome::Running
            },
            Instruction::Ldr { dr, base, offset } => {
                self.registers[PC_SLOT] = npc;
                let addr = self.registers[base as usize].wrapping_add(sign_extend(offset, 6));
                let v = memory.read(addr);
                self.define_register(dr, v);
                StepOutcome::Running
            },
            Instruction::Str { sr, base, offset } => {
                self.registers[PC_SLOT] = npc;
                let addr = self.registers[base as usize].wrapping_add(sign_extend(offset, 6));
                memory.write(addr, self.registers[sr as usize]);
                StepOutcome::Running
            },
            Instruction::Rti | Instruction::Res => StepOutcome::Fatal(self.fault(memory, FaultKind::IllegalOpcode)),
            Instruction::Not { dr, sr } => {
                self.registers[PC_SLOT] = npc;
                let v = !self.registers[sr as usize];
                self.define_register(dr, v);
                StepOutcome::Running
            },
            Instruction::Ldi { dr, offset } => {
                self.registers[PC_SLOT] = npc;
                let pointer = memory.read(npc.wrapping_add(sign_extend(offset, 9)));
                let v = memory.read(pointer);
                self.define_register(dr, v);
                StepOutcome::Running
            },
            Instruction::Sti { sr, offset } => {
                self.registers[PC_SLOT] = npc;
                let pointer = memory.read(npc.wrapping_add(sign_extend(offset, 9)));
                memory.write(pointer, self.registers[sr as usize]);
                StepOutcome::Running
            },
            Instruction::Jmp { base } => {
                self.registers[PC_SLOT] = npc;
                self.registers[PC_SLOT] = self.registers[base as usize];
                StepOutcome::Running
            },
            Instruction::Lea { dr, offset } => {
                self.registers[PC_SLOT] = npc;
                self.define_register(dr, npc.wrapping_add(sign_extend(offset, 9)));
                StepOutcome::Running
            },
            Instruction::Trap { vector } => self.trap(memory, vector, input, out),
        }
    }
}

/// The question that IN writes before it reads a byte.
pub open spec fn prompt_text() -> Seq<char> {
    seq![
        'E', 'n', 't', 'e', 'r', ' ', 'a', ' ', 'c', 'h', 'a', 'r', 'a', 'c', 't', 'e', 'r', ':', ' '
    ]
}

/// Writes the question that IN asks before it reads a byte.
pub fn write_prompt(out: &mut Vec<char>)
    ensures
        final(out)@ == old(out)@ + prompt_text(),
{
    let text = vec![
        'E', 'n', 't', 'e', 'r', ' ', 'a', ' ', 'c', 'h', 'a', 'r', 'a', 'c', 't', 'e', 'r', ':', ' '
    ];
    assert(text@ =~= prompt_text());
    push_chars(out, &text);
}

/// How a bounded run ended.
#[derive(Clone, Copy, Debug, PartialEq, Eq, Structural)]
pub enum RunOutcome {
    /// A HALT was carried out (or the machine had halted before).
    Halted,
    /// An instruction could not be carried out.
    Fatal(Fault),
    /// The allowed number of cycles ran out first.
    StepLimit,
}

/// The machine, the memory and the characters written at the end of a run.
pub struct Run {
    pub cpu: CpuState,
    pub mem: Seq<u16>,
    pub out: Seq<char>,
    pub outcome: RunOutcome,
}

/// One cycle that takes its input from the front of `input`: the effect, and
/// the input left after it. An input routine writes its prompt, if any, and
/// takes the next byte; with no byte left it fails.
pub open spec fn cycle(s: CpuState, mem: Seq<u16>, input: Seq<u8>) -> (Effect, Seq<u8>) {
    let e = step_spec(s, mem, None);
    match e.outcome {
        StepOutcome::NeedsInput { prompt } => if input.len() == 0 {
            (fails(s, mem, FaultKind::EndOfInput), input)
        } else {
            let e2 = step_spec(s, mem, Some(input[0]));
            let asked = if prompt {
                prompt_text()
            } else {
                Seq::empty()
            };
            (Effect { out: asked + e2.out, ..e2 }, input.drop_first())
        },
        _ => (e, input),
    }
}

/// At most `fuel` cycles from `s` and `mem`, reading from `input`; the run
/// stops at the first halt or fatal error.
pub open spec fn run_spec(s: CpuState, mem: Seq<u16>, input: Seq<u8>, fuel: nat) -> Run
    decreases fuel,
{
    if fuel == 0 {
        Run { cpu: s, mem, out: Seq::empty(), outcome: RunOutcome::StepLimit }
    } else {
        let (e, rest) = cycle(s, mem, input);
        match e.outcome {
            StepOutcome::Halted => Run {
                cpu: e.cpu,
                mem: e.mem,
                out: e.out,
                outcome: RunOutcome::Halted,
            },
            StepOutcome::Fatal(f) => Run {
                cpu: e.cpu,
                mem: e.mem,
                out: e.out,
                outcome: RunOutcome::Fatal(f),
            },
            _ => {
                let r = run_spec(e.cpu, e.mem, rest, (fuel - 1) as nat);
                Run { out: e.out + r.out, ..r }
            },
        }
    }
}

impl Cpu {
    /// Runs at most `max_steps` instruction cycles, feeding GETC and IN from
    /// `input` in order and writing characters to `out`, until HALT or a fatal error.
    pub fn execute(&mut self, memory: &mut Memory, input: &[u8], out: &mut Vec<char>, max_steps: usize) -> (r:
        RunOutcome)
        ensures
            ({
                let run = run_spec(old(self)@, old(memory)@, input@, max_steps as nat);
                &&& final(self)@ == run.cpu
                &&& final(memory)@ == run.mem
                &&& final(out)@ == old(out)@ + run.out
                &&& r == run.outcome
            }),
    {
        let ghost total = run_spec(old(self)@, old(memory)@, input@, max_steps as nat);
        let ghost done: Seq<char> = Seq::empty();
        let mut pos: usize = 0;
        let mut steps: usize = 0;
        assert(input@.subrange(0, input@.len() as int) =~= input@);
        assert(done + total.out =~= total.out);
        while steps < max_steps
            invariant
                pos <= input@.len(),
                steps <= max_steps,
                out@ == old(out)@ + done,
                total == run_spec(old(self)@, old(memory)@, input@, max_steps as nat),
                total == (Run {
                    out: done + run_spec(
                        self@,
                        memory@,
                        input@.subrange(pos as int, input@.len() as int),
                        (max_steps - steps) as nat,
                    ).out,
                    ..run_spec(
                        self@,
                        memory@,
                        input@.subrange(pos as int, input@.len() as int),
                        (max_steps - steps) as nat,
                    )
                }),
            decreases max_steps - steps,
        {
            let ghost s0 = self@;
            let ghost m0 = memory@;
            let ghost rest0 = input@.subrange(pos as int, input@.len() as int);
            let ghost out0 = out@;
            let ghost fuel = (max_steps - steps) as nat;
            let ghost cyc = cycle(s0, m0, rest0);
            let ghost next = run_spec(cyc.0.cpu, cyc.0.mem, cyc.1, (fuel - 1) as nat);
            assert(rest0.len() > 0 ==> rest0[0] == input@[pos as int]);
            let mut r = self.step(memory, None, out);
            if let StepOutcome::NeedsInput { prompt } = r {
                if pos >= input.len() {
                    assert(out@ =~= old(out)@ + total.out);
                    return RunOutcome::Fatal(self.fault(memory, FaultKind::EndOfInput));
                }
                if prompt {
                    write_prompt(out);
                }
                r = self.step(memory, Some(input[pos]), out);
                assert(rest0.drop_first() =~= input@.subrange(pos + 1, input@.len() as int));
                pos = pos + 1;
            }
            steps = steps + 1;
            assert(out@ =~= out0 + cyc.0.out);
            match r {
                StepOutcome::Halted => {
                    assert(out@ =~= old(out)@ + total.out);
                    return RunOutcome::Halted;
                },
                StepOutcome::Fatal(f) => {
                    assert(out@ =~= old(out)@ + total.out);
                    return RunOutcome::Fatal(f);
                },
                _ => {},
            }
            proof {
                assert(done + (cyc.0.out + next.out) =~= (done + cyc.0.out) + next.out);
                done = done + cyc.0.out;
            }
        }
        assert(out@ =~= old(out)@ + total.out);
        RunOutcome::StepLimit
    }
}

} // verus!
