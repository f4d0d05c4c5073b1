use vstd::prelude::*;

verus! {

/// One of the three mutually exclusive condition codes held in COND.
#[derive(Clone, Copy, Debug, PartialEq, Eq, Structural)]
pub enum ConditionFlag {
    POS,
    ZRO,
    NEG,
}

/// The bit that stands for `f` in the condition register.
pub open spec fn flag_bits(f: ConditionFlag) -> u16 {
    match f {
        ConditionFlag::POS => 0b001,
        ConditionFlag::ZRO => 0b010,
        ConditionFlag::NEG => 0b100,
    }
}

impl ConditionFlag {
    /// The bit pattern of this flag as stored in COND.
    pub fn bits(self) -> (r: u16)
        ensures
            r == flag_bits(self),
    {
        match self {
            ConditionFlag::POS => 0b001,
            ConditionFlag::ZRO => 0b010,
            ConditionFlag::NEG => 0b100,
        }
    }

    /// The flag whose bit pattern is `value`, if there is one.
    pub fn from_bits(value: u16) -> (r: Option<ConditionFlag>)
        ensures
            r matches Some(f) ==> flag_bits(f) == value,
            r is None <==> (value != 0b001 && value != 0b010 && value != 0b100),
    {
        match value {
            0b001 => Some(ConditionFlag::POS),
            0b010 => Some(ConditionFlag::ZRO),
            0b100 => Some(ConditionFlag::NEG),
            _ => None,
        }
    }
}

/// The flag that describes `value` read as a signed 16-bit number.
pub open spec fn flag_of(value: u16) -> ConditionFlag {
    if value == 0 {
        ConditionFlag::ZRO
    } else if value >= 0x8000 {
        ConditionFlag::NEG
    } else {
        ConditionFlag::POS
    }
}

/// The slots of the register file.
#[derive(Clone, Copy, Debug, PartialEq, Eq, Structural)]
pub enum Register {
    R0,
    R1,
    R2,
    R3,
    R4,
    R5,
    R6,
    R7,
    PC,
    COND,
}

/// Number of slots in the register file.
pub const REGISTER_COUNT: usize = 10;

/// Slot of the program counter.
pub const PC_SLOT: usize = 8;

/// Slot of the condition register.
pub const COND_SLOT: usize = 9;

/// Position of `r` in the register file.
pub open spec fn slot(r: Register) -> int {
    match r {
        Register::R0 => 0,
        Register::R1 => 1,
        Register::R2 => 2,
        Register::R3 => 3,
        Register::R4 => 4,
        Register::R5 => 5,
        Register::R6 => 6,
        Register::R7 => 7,
        Register::PC => 8,
        Register::COND => 9,
    }
}

impl Register {
    /// Position of this register in the register file.
    pub fn index(self) -> (r: usize)
        ensures
            r == slot(self),
            r < REGISTER_COUNT,
    {
        match self {
            Register::R0 => 0,
            Register::R1 => 1,
            Register::R2 => 2,
            Register::R3 => 3,
            Register::R4 => 4,
            Register::R5 => 5,
            Register::R6 => 6,
            Register::R7 => 7,
            Register::PC => 8,
            Register::COND => 9,
        }
    }
}

/// The service routines reachable through TRAP.
#[derive(Clone, Copy, Debug, PartialEq, Eq, Structural)]
pub enum Trapcode {
    GETC,
    OUT,
    PUTS,
    IN,
    PUTSP,
    HALT,
}

/// The service routine that answers trap vector `code`, if any.
pub open spec fn trapcode_of(code: u16) -> Option<Trapcode> {
    if code == 0x20 {
        Some(Trapcode::GETC)
    } else if code == 0x21 {
        Some(Trapcode::OUT)
    } else if code == 0x22 {
        Some(Trapcode::PUTS)
    } else if code == 0x23 {
        Some(Trapcode::IN)
    } else if code == 0x24 {
        Some(Trapcode::PUTSP)
    } else if code == 0x25 {
        Some(Trapcode::HALT)
    } else {
        None
    }
}

impl Trapcode {
    /// The service routine for trap vector `code`; `None` for an unknown vector.
    pub fn from_code(code: u16) -> (r: Option<Trapcode>)
        ensures
            r == trapcode_of(code),
    {
        match code {
            0x20 => Some(Trapcode::GETC),
            0x21 => Some(Trapcode::OUT),
            0x22 => Some(Trapcode::PUTS),
            0x23 => Some(Trapcode::IN),
            0x24 => Some(Trapcode::PUTSP),
            0x25 => Some(Trapcode::HALT),
            _ => None,
        }
    }
}

/// The sixteen operations, selected by the top four bits of a word.
#[derive(Clone, Copy, Debug, PartialEq, Eq, Structural)]
pub enum Opcode {
    BR,
    ADD,
    LD,
    ST,
    JSR,
    AND,
    LDR,
    STR,
    RTI,
    NOT,
    LDI,
    STI,
    JMP,
    RES,
    LEA,
    TRAP,
}

/// The operation selected by the four-bit code `n`.
pub open spec fn opcode_of_nibble(n: u16) -> Opcode {
    if n == 0 {
        Opcode::BR
    } else if n == 1 {
        Opcode::ADD
    } else if n == 2 {
        Opcode::LD
    } else if n == 3 {
        Opcode::ST
    } else if n == 4 {
        Opcode::JSR
    } else if n == 5 {
        Opcode::AND
    } else if n == 6 {
        Opcode::LDR
    } else if n == 7 {
        Opcode::STR
    } else if n == 8 {
        Opcode::RTI
    } else if n == 9 {
        Opcode::NOT
    } else if n == 10 {
        Opcode::LDI
    } else if n == 11 {
        Opcode::STI
    } else if n == 12 {
        Opcode::JMP
    } else if n == 13 {
        Opcode::RES
    } else if n == 14 {
        Opcode::LEA
    } else {
        Opcode::TRAP
    }
}

/// The four-bit code of `op`.
pub open spec fn opcode_bits(op: Opcode) -> u16 {
    match op {
        Opcode::BR => 0,
        Opcode::ADD => 1,
        Opcode::LD => 2,
        Opcode::ST => 3,
        Opcode::JSR => 4,
        Opcode::AND => 5,
        Opcode::LDR => 6,
        Opcode::STR => 7,
        Opcode::RTI => 8,
        Opcode::NOT => 9,
        Opcode::LDI => 10,
        Opcode::STI => 11,
        Opcode::JMP => 12,
        Opcode::RES => 13,
        Opcode::LEA => 14,
        Opcode::TRAP => 15,
    }
}

impl Opcode {
    /// The four-bit code of this operation.
    pub fn bits(self) -> (r: u16)
        ensures
            r == opcode_bits(self),
            opcode_of_nibble(r) == self,
    {
        match self {
            Opcode::BR => 0,
            Opcode::ADD => 1,
            Opcode::LD => 2,
            Opcode::ST => 3,
            Opcode::JSR => 4,
            Opcode::AND => 5,
            Opcode::LDR => 6,
            Opcode::STR => 7,
            Opcode::RTI => 8,
            Opcode::NOT => 9,
            Opcode::LDI => 10,
            Opcode::STI => 11,
            Opcode::JMP => 12,
            Opcode::RES => 13,
            Opcode::LEA => 14,
            Opcode::TRAP => 15,
        }
    }
}

impl From<u16> for Opcode {
    /// The operation named by the top four bits of the instruction word `value`.
    fn from(value: u16) -> (r: Opcode) {
        let n = value >> 12u16;
        if n == 0 {
            Opcode::BR
        } else if n == 1 {
            Opcode::ADD
        } else if n == 2 {
            Opcode::LD
        } else if n == 3 {
            Opcode::ST
        } else if n == 4 {
            Opcode::JSR
        } else if n == 5 {
            Opcode::AND
        } else if n == 6 {
            Opcode::LDR
        } else if n == 7 {
            Opcode::STR
        } else if n == 8 {
            Opcode::RTI
        } else if n == 9 {
            Opcode::NOT
        } else if n == 10 {
            Opcode::LDI
        } else if n == 11 {
            Opcode::STI
        } else if n == 12 {
            Opcode::JMP
        } else if n == 13 {
            Opcode::RES
        } else if n == 14 {
            Opcode::LEA
        } else {
            Opcode::TRAP
        }
    }
}

impl vstd::std_specs::convert::FromSpecImpl<u16> for Opcode {
    open spec fn obeys_from_spec() -> bool {
        true
    }

    open spec fn from_spec(value: u16) -> Opcode {
        opcode_of_nibble(value >> 12u16)
    }
}

/// `v` read as a signed 16-bit number.
pub open spec fn signed16(v: u16) -> int {
    if v >= 0x8000 {
        v - 0x10000
    } else {
        v as int
    }
}

/// The `width`-bit field `field` read as a two's-complement number.
pub open spec fn signed_field(field: u16, width: u16) -> int {
    if field >= (1u16 << ((width - 1) as u16)) {
        field - (1u32 << width) as int
    } else {
        field as int
    }
}

/// Widening a field of 1 to 15 bits by copying its top bit keeps its signed value.
proof fn lemma_sign_extend(field: u16, width: u16)
    by (bit_vector)
    requires
        1 <= width <= 15,
        field < (1u16 << width),
    ensures
        ((field >> ((width - 1) as u16)) & 1 == 1) <==> field >= (1u16 << ((width - 1) as u16)),
        field >= (1u16 << ((width - 1) as u16)) ==> signed16(field | (0xFFFFu16 << width))
            == field - (1u32 << width) as int,
        field < (1u16 << ((width - 1) as u16)) ==> signed16(field) == field as int,
        (1u16 << width) as int == (1u32 << width) as int,
{
}

/// The 16-bit word that holds the `width`-bit field `field` sign-extended.
pub open spec fn sext(field: u16, width: u16) -> u16 {
    if field >= (1u16 << ((width - 1) as u16)) {
        (field - (1u32 << width) as int + 0x10000) as u16
    } else {
        field
    }
}

/// Widens the `width`-bit two's-complement field `field` to 16 bits.
pub fn sign_extend(field: u16, width: u16) -> (r: u16)
    requires
        1 <= width <= 15,
        field < (1u16 << width),
    ensures
        signed16(r) == signed_field(field, width),
        r == sext(field, width),
{
    proof {
        lemma_sign_extend(field, width);
    }
    if (field >> (width - 1)) & 1 == 1 {
        field | (0xFFFFu16 << width)
    } else {
        field
    }
}

/// Second operand of ADD and AND: a register, or a raw 5-bit immediate field.
#[derive(Clone, Copy, Debug, PartialEq, Eq, Structural)]
pub enum Operand {
    Reg(u16),
    Imm(u16),
}

/// An instruction word split into its operation and raw (not yet extended) fields.
#[derive(Clone, Copy, Debug, PartialEq, Eq, Structural)]
pub enum Instruction {
    Br { cond: u16, offset: u16 },
    Add { dr: u16, sr1: u16, src: Operand },
    Ld { dr: u16, offset: u16 },
    St { sr: u16, offset: u16 },
    Jsr { offset: u16 },
    Jsrr { base: u16 },
    And { dr: u16, sr1: u16, src: Operand },
    Ldr { dr: u16, base: u16, offset: u16 },
    Str { sr: u16, base: u16, offset: u16 },
    Rti,
    Not { dr: u16, sr: u16 },
    Ldi { dr: u16, offset: u16 },
    Sti { sr: u16, offset: u16 },
    Jmp { base: u16 },
    Res,
    Lea { dr: u16, offset: u16 },
    Trap { vector: u16 },
}

/// The bits of `w` from `lo` up, under `mask`.
pub open spec fn bits_of(w: u16, lo: u16, mask: u16) -> u16 {
    (w >> lo) & mask
}

/// Second operand of an ADD or AND word: bit 5 picks the immediate.
pub open spec fn operand_of(w: u16) -> Operand {
    if bits_of(w, 5, 1) == 1 {
        Operand::Imm(bits_of(w, 0, 0x1F))
    } else {
        Operand::Reg(bits_of(w, 0, 0x7))
    }
}

/// The instruction that the word `w` encodes, field by field.
pub open spec fn decode_spec(w: u16) -> Instruction {
    let dr = bits_of(w, 9, 0x7);
    let r1 = bits_of(w, 6, 0x7);
    let off9 = bits_of(w, 0, 0x1FF);
    match opcode_of_nibble(w >> 12u16) {
        Opcode::BR => Instruction::Br { cond: dr, offset: off9 },
        Opcode::ADD => Instruction::Add { dr, sr1: r1, src: operand_of(w) },
        Opcode::LD => Instruction::Ld { dr, offset: off9 },
        Opcode::ST => Instruction::St { sr: dr, offset: off9 },
        Opcode::JSR => if bits_of(w, 11, 1) == 1 {
            Instruction::Jsr { offset: bits_of(w, 0, 0x7FF) }
        } else {
            Instruction::Jsrr { base: r1 }
        },
        Opcode::AND => Instruction::And { dr, sr1: r1, src: operand_of(w) },
        Opcode::LDR => Instruction::Ldr { dr, base: r1, offset: bits_of(w, 0, 0x3F) },
        Opcode::STR => Instruction::Str { sr: dr, base: r1, offset: bits_of(w, 0, 0x3F) },
        Opcode::RTI => Instruction::Rti,
        Opcode::NOT => Instruction::Not { dr, sr: r1 },
        Opcode::LDI => Instruction::Ldi { dr, offset: off9 },
        Opcode::STI => Instruction::Sti { sr: dr, offset: off9 },
        Opcode::JMP => Instruction::Jmp { base: r1 },
        Opcode::RES => Instruction::Res,
        Opcode::LEA => Instruction::Lea { dr, offset: off9 },
        Opcode::TRAP => Instruction::Trap { vector: bits_of(w, 0, 0xFF) },
    }
}

/// Every field of `i` fits the width that its slot in a word gives it.
pub open spec fn fields_fit(i: Instruction) -> bool {
    match i {
        Instruction::Br { cond, offset } => cond < 8 && offset < 0x200,
        Instruction::Add { dr, sr1, src } | Instruction::And { dr, sr1, src } => dr < 8 && sr1 < 8
            && match src {
            Operand::Reg(r) => r < 8,
            Operand::Imm(v) => v < 0x20,
        },
        Instruction::Ld { dr, offset } | Instruction::Ldi { dr, offset } | Instruction::Lea {
            dr,
            offset,
        } => dr < 8 && offset < 0x200,
        Instruction::St { sr, offset } | Instruction::Sti { sr, offset } => sr < 8 && offset
            < 0x200,
        Instruction::Jsr { offset } => offset < 0x800,
        Instruction::Jsrr { base } | Instruction::Jmp { base } => base < 8,
        Instruction::Ldr { dr, base, offset } => dr < 8 && base < 8 && offset < 0x40,
        Instruction::Str { sr, base, offset } => sr < 8 && base < 8 && offset < 0x40,
        Instruction::Not { dr, sr } => dr < 8 && sr < 8,
        Instruction::Trap { vector } => vector < 0x100,
        Instruction::Rti | Instruction::Res => true,
    }
}

/// Second operand of ADD or AND placed in the low six bits.
pub open spec fn encode_operand(src: Operand) -> u16 {
    match src {
        Operand::Reg(r) => r,
        Operand::Imm(v) => 0x20 | v,
    }
}

/// The word that holds `i`, with the bits that no field uses set as the
/// architecture writes them (all zero, but the low six bits of NOT, all one).
pub open spec fn encode_spec(i: Instruction) -> u16 {
    match i {
        Instruction::Br { cond, offset } => (cond << 9u16) | offset,
        Instruction::Add { dr, sr1, src } => 0x1000 | (dr << 9u16) | (sr1 << 6u16)
            | encode_operand(src),
        Instruction::Ld { dr, offset } => 0x2000 | (dr << 9u16) | offset,
        Instruction::St { sr, offset } => 0x3000 | (sr << 9u16) | offset,
        Instruction::Jsr { offset } => 0x4800 | offset,
        Instruction::Jsrr { base } => 0x4000 | (base << 6u16),
        Instruction::And { dr, sr1, src } => 0x5000 | (dr << 9u16) | (sr1 << 6u16)
            | encode_operand(src),
        Instruction::Ldr { dr, base, offset } => 0x6000 | (dr << 9u16) | (base << 6u16) | offset,
        Instruction::Str { sr, base, offset } => 0x7000 | (sr << 9u16) | (base << 6u16) | offset,
        Instruction::Rti => 0x8000,
        Instruction::Not { dr, sr } => 0x9000 | (dr << 9u16) | (sr << 6u16) | 0x3F,
        Instruction::Ldi { dr, offset } => 0xA000 | (dr << 9u16) | offset,
        Instruction::Sti { sr, offset } => 0xB000 | (sr << 9u16) | offset,
        Instruction::Jmp { base } => 0xC000 | (base << 6u16),
        Instruction::Res => 0xD000,
        Instruction::Lea { dr, offset } => 0xE000 | (dr << 9u16) | offset,
        Instruction::Trap { vector } => 0xF000 | vector,
    }
}

/// `w` sets the bits that its operation leaves unused as the architecture writes them.
pub open spec fn is_canonical(w: u16) -> bool {
    match opcode_of_nibble(w >> 12u16) {
        Opcode::ADD | Opcode::AND => bits_of(w, 5, 1) == 0 ==> bits_of(w, 3, 0x3) == 0,
        Opcode::JSR => bits_of(w, 11, 1) == 0 ==> bits_of(w, 9, 0x3) == 0 && bits_of(w, 0, 0x3F)
            == 0,
        Opcode::RTI | Opcode::RES => w & 0xFFF == 0,
        Opcode::NOT => bits_of(w, 0, 0x3F) == 0x3F,
        Opcode::JMP => bits_of(w, 9, 0x7) == 0 && bits_of(w, 0, 0x3F) == 0,
        Opcode::TRAP => bits_of(w, 8, 0xF) == 0,
        _ => true,
    }
}

/// Every field that `decode_spec` pulls out of a word fits its width.
pub proof fn lemma_decode_fields(w: u16)
    ensures
        fields_fit(decode_spec(w)),
{
    lemma_fields_fit(w);
}

/// Every field that `decode_spec` pulls out of a word fits its width, and
/// the opcode is one of sixteen.
proof fn lemma_fields_fit(w: u16)
    ensures
        fields_fit(decode_spec(w)),
        w >> 12u16 < 16,
{
    assert((w >> 9u16) & 0x7 < 8 && (w >> 6u16) & 0x7 < 8 && w & 0x7 < 8 && w & 0x1F < 0x20
        && w & 0x1FF < 0x200 && w & 0x7FF < 0x800 && w & 0x3F < 0x40 && w & 0xFF < 0x100
        && w >> 12u16 < 16) by (bit_vector);
    assert((w >> 0u16) == w) by (bit_vector);
}

/// Splits an instruction word into its operation and fields.
pub fn decode(word: u16) -> (r: Instruction)
    ensures
        r == decode_spec(word),
        fields_fit(r),
{
    proof {
        lemma_fields_fit(word);
    }
    let dr = (word >> 9u16) & 0x7;
    let r1 = (word >> 6u16) & 0x7;
    let off9 = (word >> 0u16) & 0x1FF;
    let src = if (word >> 5u16) & 1 == 1 {
        Operand::Imm((word >> 0u16) & 0x1F)
    } else {
        Operand::Reg((word >> 0u16) & 0x7)
    };
    match Opcode::from(word) {
        Opcode::BR => Instruction::Br { cond: dr, offset: off9 },
        Opcode::ADD => Instruction::Add { dr, sr1: r1, src },
        Opcode::LD => Instruction::Ld { dr, offset: off9 },
        Opcode::ST => Instruction::St { sr: dr, offset: off9 },
        Opcode::JSR => if (word >> 11u16) & 1 == 1 {
            Instruction::Jsr { offset: (word >> 0u16) & 0x7FF }
        } else {
            Instruction::Jsrr { base: r1 }
        },
        Opcode::AND => Instruction::And { dr, sr1: r1, src },
        Opcode::LDR => Instruction::Ldr { dr, base: r1, offset: (word >> 0u16) & 0x3F },
        Opcode::STR => Instruction::Str { sr: dr, base: r1, offset: (word >> 0u16) & 0x3F },
        Opcode::RTI => Instruction::Rti,
        Opcode::NOT => Instruction::Not { dr, sr: r1 },
        Opcode::LDI => Instruction::Ldi { dr, offset: off9 },
        Opcode::STI => Instruction::Sti { sr: dr, offset: off9 },
        Opcode::JMP => Instruction::Jmp { base: r1 },
        Opcode::RES => Instruction::Res,
        Opcode::LEA => Instruction::Lea { dr, offset: off9 },
        Opcode::TRAP => Instruction::Trap { vector: (word >> 0u16) & 0xFF },
    }
}

/// Decoding a canonical word and writing its fields back at their bit
/// positions gives the word again: decoding loses nothing.
pub proof fn lemma_decode_round_trip(w: u16)
    requires
        is_canonical(w),
    ensures
        fields_fit(decode_spec(w)),
        encode_spec(decode_spec(w)) == w,
{
    lemma_fields_fit(w);
    let n = w >> 12u16;
    assert(w >> 0u16 == w) by (bit_vector);
    assert(n << 12u16 == n * 4096) by (bit_vector)
        requires
            n < 16,
    ;
    if n == 0 {
        assert((((w >> 9u16) & 7) << 9u16) | (w & 0x1FF) == w) by (bit_vector)
            requires
                w >> 12u16 == 0,
        ;
    } else if n == 1 || n == 5 {
        if (w >> 5u16) & 1 == 1 {
            assert(((n << 12u16) | (((w >> 9u16) & 7) << 9u16) | (((w >> 6u16) & 7) << 6u16) | (0x20
                | (w & 0x1F))) == w) by (bit_vector)
                requires
                    n == w >> 12u16,
                    (w >> 5u16) & 1 == 1,
            ;
        } else {
            assert((w >> 5u16) & 1 == 0) by (bit_vector)
                requires
                    (w >> 5u16) & 1 != 1,
            ;
            assert(((n << 12u16) | (((w >> 9u16) & 7) << 9u16) | (((w >> 6u16) & 7) << 6u16) | (w
                & 7)) == w) by (bit_vector)
                requires
                    n == w >> 12u16,
                    (w >> 5u16) & 1 == 0,
                    (w >> 3u16) & 3 == 0,
            ;
        }
    } else if n == 4 {
        if (w >> 11u16) & 1 == 1 {
            assert((0x4800 | (w & 0x7FF)) == w) by (bit_vector)
                requires
                    w >> 12u16 == 4,
                    (w >> 11u16) & 1 == 1,
            ;
        } else {
            assert((w >> 11u16) & 1 == 0) by (bit_vector)
                requires
                    (w >> 11u16) & 1 != 1,
            ;
            assert((0x4000 | (((w >> 6u16) & 7) << 6u16)) == w) by (bit_vector)
                requires
                    w >> 12u16 == 4,
                    (w >> 11u16) & 1 == 0,
                    (w >> 9u16) & 3 == 0,
                    w & 0x3F == 0,
            ;
        }
    } else if n == 6 || n == 7 {
        assert(((n << 12u16) | (((w >> 9u16) & 7) << 9u16) | (((w >> 6u16) & 7) << 6u16) | (w
            & 0x3F)) == w) by (bit_vector)
            requires
                n == w >> 12u16,
        ;
    } else if n == 8 || n == 13 {
        assert((n << 12u16) == w) by (bit_vector)
            requires
                n == w >> 12u16,
                w & 0xFFF == 0,
        ;
    } else if n == 9 {
        assert((0x9000 | (((w >> 9u16) & 7) << 9u16) | (((w >> 6u16) & 7) << 6u16) | 0x3F) == w)
            by (bit_vector)
            requires
                w >> 12u16 == 9,
                w & 0x3F == 0x3F,
        ;
    } else if n == 12 {
        assert((0xC000 | (((w >> 6u16) & 7) << 6u16)) == w) by (bit_vector)
            requires
                w >> 12u16 == 12,
                (w >> 9u16) & 7 == 0,
                w & 0x3F == 0,
        ;
    } else if n == 15 {
        assert((0xF000 | (w & 0xFF)) == w) by (bit_vector)
            requires
                w >> 12u16 == 15,
                (w >> 8u16) & 0xF == 0,
        ;
    } else {
        assert(((n << 12u16) | (((w >> 9u16) & 7) << 9u16) | (w & 0x1FF)) == w) by (bit_vector)
            requires
                n == w >> 12u16,
        ;
    }
}

/// Writing an instruction's fields at their bit positions and decoding the
/// word gives the same instruction back, for every instruction whose fields fit.
pub proof fn lemma_encode_round_trip(i: Instruction)
    requires
        fields_fit(i),
    ensures
        decode_spec(encode_spec(i)) == i,
{
    match i {
        Instruction::Br { cond, offset } => {
            assert(((cond << 9u16) | offset) >> 12u16 == 0 && (((cond << 9u16) | offset) >> 9u16) & 0x7 == cond && (((cond << 9u16) | offset) >> 0u16)
                & 0x1FF == offset) by (bit_vector)
                requires
                    cond < 8,
                    offset < 0x200,
            ;
        },
        Instruction::Add { dr, sr1, src } => {
            match src {
                Operand::Reg(r) => {
                    assert((0x1000 | (dr << 9u16) | (sr1 << 6u16) | r) >> 12u16 == 1 && ((0x1000 | (dr << 9u16) | (sr1 << 6u16) | r) >> 9u16) & 0x7 == dr && ((0x1000 | (dr << 9u16) | (sr1 << 6u16) | r) >> 6u16)
                        & 0x7 == sr1 && ((0x1000 | (dr << 9u16) | (sr1 << 6u16) | r) >> 5u16) & 1 == 0 && ((0x1000 | (dr << 9u16) | (sr1 << 6u16) | r) >> 0u16) & 0x7 == r)
                        by (bit_vector)
                        requires
                            dr < 8,
                            sr1 < 8,
                            r < 8,
                    ;
                },
                Operand::Imm(v) => {
                    assert((0x1000 | (dr << 9u16) | (sr1 << 6u16) | (0x20 | v)) >> 12u16 == 1 && ((0x1000 | (dr << 9u16) | (sr1 << 6u16) | (0x20 | v)) >> 9u16) & 0x7 == dr && ((0x1000 | (dr << 9u16) | (sr1 << 6u16) | (0x20 | v)) >> 6u16)
                        & 0x7 == sr1 && ((0x1000 | (dr << 9u16) | (sr1 << 6u16) | (0x20 | v)) >> 5u16) & 1 == 1 && ((0x1000 | (dr << 9u16) | (sr1 << 6u16) | (0x20 | v)) >> 0u16) & 0x1F == v)
                        by (bit_vector)
                        requires
                            dr < 8,
                            sr1 < 8,
                            v < 0x20,
                    ;
                },
            }
        },
        Instruction::Ld { dr, offset } => {
            assert((0x2000 | (dr << 9u16) | offset) >> 12u16 == 2 && ((0x2000 | (dr << 9u16) | offset) >> 9u16) & 0x7 == dr && ((0x2000 | (dr << 9u16) | offset) >> 0u16)
                & 0x1FF == offset) by (bit_vector)
                requires
                    dr < 8,
                    offset < 0x200,
            ;
        },
        Instruction::St { sr, offset } => {
            assert((0x3000 | (sr << 9u16) | offset) >> 12u16 == 3 && ((0x3000 | (sr << 9u16) | offset) >> 9u16) & 0x7 == sr && ((0x3000 | (sr << 9u16) | offset) >> 0u16)
                & 0x1FF == offset) by (bit_vector)
                requires
                    sr < 8,
                    offset < 0x200,
            ;
        },
        Instruction::Jsr { offset } => {
            assert((0x4800 | offset) >> 12u16 == 4 && ((0x4800 | offset) >> 11u16) & 1 == 1 && ((0x4800
                | offset) >> 0u16) & 0x7FF == offset) by (bit_vector)
                requires
                    offset < 0x800,
            ;
        },
        Instruction::Jsrr { base } => {
            assert((0x4000 | (base << 6u16)) >> 12u16 == 4 && ((0x4000 | (base << 6u16)) >> 11u16) & 1
                == 0 && ((0x4000 | (base << 6u16)) >> 6u16) & 0x7 == base) by (bit_vector)
                requires
                    base < 8,
            ;
        },
        Instruction::And { dr, sr1, src } => {
            match src {
                Operand::Reg(r) => {
                    assert((0x5000 | (dr << 9u16) | (sr1 << 6u16) | r) >> 12u16 == 5 && ((0x5000 | (dr << 9u16) | (sr1 << 6u16) | r) >> 9u16) & 0x7 == dr && ((0x5000 | (dr << 9u16) | (sr1 << 6u16) | r) >> 6u16)
                        & 0x7 == sr1 && ((0x5000 | (dr << 9u16) | (sr1 << 6u16) | r) >> 5u16) & 1 == 0 && ((0x5000 | (dr << 9u16) | (sr1 << 6u16) | r) >> 0u16) & 0x7 == r)
                        by (bit_vector)
                        requires
                            dr < 8,
                            sr1 < 8,
                            r < 8,
                    ;
                },
                Operand::Imm(v) => {
                    assert((0x5000 | (dr << 9u16) | (sr1 << 6u16) | (0x20 | v)) >> 12u16 == 5 && ((0x5000 | (dr << 9u16) | (sr1 << 6u16) | (0x20 | v)) >> 9u16) & 0x7 == dr && ((0x5000 | (dr << 9u16) | (sr1 << 6u16) | (0x20 | v)) >> 6u16)
                        & 0x7 == sr1 && ((0x5000 | (dr << 9u16) | (sr1 << 6u16) | (0x20 | v)) >> 5u16) & 1 == 1 && ((0x5000 | (dr << 9u16) | (sr1 << 6u16) | (0x20 | v)) >> 0u16) & 0x1F == v)
                        by (bit_vector)
                        requires
                            dr < 8,
                            sr1 < 8,
                            v < 0x20,
                    ;
                },
            }
        },
        Instruction::Ldr { dr, base, offset } => {
            assert((0x6000 | (dr << 9u16) | (base << 6u16) | offset) >> 12u16 == 6 && ((0x6000 | (dr << 9u16) | (base << 6u16) | offset) >> 9u16) & 0x7 == dr && ((0x6000 | (dr << 9u16) | (base << 6u16) | offset) >> 6u16) & 0x7
                == base && ((0x6000 | (dr << 9u16) | (base << 6u16) | offset) >> 0u16) & 0x3F == offset) by (bit_vector)
                requires
                    dr < 8,
                    base < 8,
                    offset < 0x40,
            ;
        },
        Instruction::Str { sr, base, offset } => {
            assert((0x7000 | (sr << 9u16) | (base << 6u16) | offset) >> 12u16 == 7 && ((0x7000 | (sr << 9u16) | (base << 6u16) | offset) >> 9u16) & 0x7 == sr && ((0x7000 | (sr << 9u16) | (base << 6u16) | offset) >> 6u16) & 0x7
                == base && ((0x7000 | (sr << 9u16) | (base << 6u16) | offset) >> 0u16) & 0x3F == offset) by (bit_vector)
                requires
                    sr < 8,
                    base < 8,
                    offset < 0x40,
            ;
        },
        Instruction::Rti => {
            assert(0x8000u16 >> 12u16 == 8) by (bit_vector);
        },
        Instruction::Not { dr, sr } => {
            assert((0x9000 | (dr << 9u16) | (sr << 6u16) | 0x3F) >> 12u16 == 9 && ((0x9000 | (dr << 9u16)
                | (sr << 6u16) | 0x3F) >> 9u16) & 0x7 == dr && ((0x9000 | (dr << 9u16) | (sr << 6u16)
                | 0x3F) >> 6u16) & 0x7 == sr) by (bit_vector)
                requires
                    dr < 8,
                    sr < 8,
            ;
        },
        Instruction::Ldi { dr, offset } => {
            assert((0xA000 | (dr << 9u16) | offset) >> 12u16 == 10 && ((0xA000 | (dr << 9u16) | offset) >> 9u16) & 0x7 == dr && ((0xA000 | (dr << 9u16) | offset) >> 0u16)
                & 0x1FF == offset) by (bit_vector)
                requires
                    dr < 8,
                    offset < 0x200,
            ;
        },
        Instruction::Sti { sr, offset } => {
            assert((0xB000 | (sr << 9u16) | offset) >> 12u16 == 11 && ((0xB000 | (sr << 9u16) | offset) >> 9u16) & 0x7 == sr && ((0xB000 | (sr << 9u16) | offset) >> 0u16)
                & 0x1FF == offset) by (bit_vector)
                requires
                    sr < 8,
                    offset < 0x200,
            ;
        },
        Instruction::Jmp { base } => {
            assert((0xC000 | (base << 6u16)) >> 12u16 == 12 && ((0xC000 | (base << 6u16)) >> 6u16) & 0x7
                == base) by (bit_vector)
                requires
                    base < 8,
            ;
        },
        Instruction::Res => {
            assert(0xD000u16 >> 12u16 == 13) by (bit_vector);
        },
        Instruction::Lea { dr, offset } => {
            assert((0xE000 | (dr << 9u16) | offset) >> 12u16 == 14 && ((0xE000 | (dr << 9u16) | offset) >> 9u16) & 0x7 == dr && ((0xE000 | (dr << 9u16) | offset) >> 0u16)
                & 0x1FF == offset) by (bit_vector)
                requires
                    dr < 8,
                    offset < 0x200,
            ;
        },
        Instruction::Trap { vector } => {
            assert((0xF000 | vector) >> 12u16 == 15 && ((0xF000 | vector) >> 0u16) & 0xFF == vector)
                by (bit_vector)
                requires
                    vector < 0x100,
            ;
        },
    }
}

} // verus!
