//! Decoding of 32-bit R3000A machine words into instructions.
use vstd::prelude::*;

verus! {

// ---------------------------------------------------------------------------
// Bit fields of an instruction word, stated arithmetically.
// ---------------------------------------------------------------------------

/// Bits 31..26: the primary opcode.
pub open spec fn primary_field(op: u32) -> u8 {
    (op / 0x0400_0000) as u8
}

/// Bits 25..21: the `rs` register.
pub open spec fn rs_field(op: u32) -> u8 {
    ((op / 0x0020_0000) % 32) as u8
}

/// Bits 20..16: the `rt` register.
pub open spec fn rt_field(op: u32) -> u8 {
    ((op / 0x0001_0000) % 32) as u8
}

/// Bits 15..11: the `rd` register.
pub open spec fn rd_field(op: u32) -> u8 {
    ((op / 0x0800) % 32) as u8
}

/// Bits 10..6: the shift amount.
pub open spec fn imm5_field(op: u32) -> u8 {
    ((op / 0x40) % 32) as u8
}

/// Bits 15..0: the 16-bit immediate.
pub open spec fn imm16_field(op: u32) -> u16 {
    (op % 0x1_0000) as u16
}

/// Bits 24..0: the coprocessor command.
pub open spec fn imm25_field(op: u32) -> u32 {
    op % 0x0200_0000
}

/// Bits 25..0: the jump target.
pub open spec fn imm26_field(op: u32) -> u32 {
    op % 0x0400_0000
}

/// Bits 25..6: the comment of SYSCALL and BREAK.
pub open spec fn comment_field(op: u32) -> u32 {
    (op / 0x40) % 0x10_0000
}

/// Bits 5..0: the secondary opcode (function code).
pub open spec fn secondary_field(op: u32) -> u8 {
    (op % 64) as u8
}

fn get_rs(opcode: u32) -> (r: u8)
    ensures
        r == rs_field(opcode),
{
    assert(((opcode >> 21u32) & 0x1f) == (opcode / 0x0020_0000) % 32 && ((opcode >> 21u32) & 0x1f)
        < 32) by (bit_vector);
    ((opcode >> 21u32) & 0x1f) as u8
}

fn get_rt(opcode: u32) -> (r: u8)
    ensures
        r == rt_field(opcode),
{
    assert(((opcode >> 16u32) & 0x1f) == (opcode / 0x0001_0000) % 32 && ((opcode >> 16u32) & 0x1f)
        < 32) by (bit_vector);
    ((opcode >> 16u32) & 0x1f) as u8
}

fn get_rd(opcode: u32) -> (r: u8)
    ensures
        r == rd_field(opcode),
{
    assert(((opcode >> 11u32) & 0x1f) == (opcode / 0x0800) % 32 && ((opcode >> 11u32) & 0x1f) < 32)
        by (bit_vector);
    ((opcode >> 11u32) & 0x1f) as u8
}

fn get_imm5(opcode: u32) -> (r: u8)
    ensures
        r == imm5_field(opcode),
{
    assert(((opcode >> 6u32) & 0x1f) == (opcode / 0x40) % 32 && ((opcode >> 6u32) & 0x1f) < 32)
        by (bit_vector);
    ((opcode >> 6u32) & 0x1f) as u8
}

fn get_imm16(opcode: u32) -> (r: u16)
    ensures
        r == imm16_field(opcode),
{
    assert((opcode & 0xffff) == opcode % 0x1_0000) by (bit_vector);
    (opcode & 0xffff) as u16
}

fn get_imm25(opcode: u32) -> (r: u32)
    ensures
        r == imm25_field(opcode),
{
    assert((opcode & 0x01ff_ffff) == opcode % 0x0200_0000) by (bit_vector);
    opcode & 0x01ff_ffff
}

fn get_imm26(opcode: u32) -> (r: u32)
    ensures
        r == imm26_field(opcode),
{
    assert((opcode & 0x03ff_ffff) == opcode % 0x0400_0000) by (bit_vector);
    opcode & 0x03ff_ffff
}

fn get_comment(opcode: u32) -> (r: u32)
    ensures
        r == comment_field(opcode),
{
    assert(((opcode >> 6u32) & 0x000f_ffff) == (opcode / 0x40) % 0x10_0000) by (bit_vector);
    (opcode >> 6u32) & 0x000f_ffff
}

fn get_primary(opcode: u32) -> (r: u8)
    ensures
        r == primary_field(opcode),
        r < 64,
{
    assert(((opcode >> 26u32) & 0x3f) == opcode / 0x0400_0000 && opcode / 0x0400_0000 < 64)
        by (bit_vector);
    ((opcode >> 26u32) & 0x3f) as u8
}

fn get_secondary(opcode: u32) -> (r: u8)
    ensures
        r == secondary_field(opcode),
{
    assert((opcode & 0x3f) == opcode % 64) by (bit_vector);
    (opcode & 0x3f) as u8
}


// ---------------------------------------------------------------------------
// Instructions
// ---------------------------------------------------------------------------

/// An instruction addressed to one of the coprocessors.
#[allow(clippy::upper_case_acronyms)]
#[derive(Debug, Clone, Copy, PartialEq, Eq, Structural)]
pub enum CopInstruction {
    MFC { rt: u8, rd: u8 },
    CFC { rt: u8, rd: u8 },
    MTC { rt: u8, rd: u8 },
    CTC { rt: u8, rd: u8 },
    BCF { imm: u16 },
    BCT { imm: u16 },
    LWC { rs: u8, rt: u8, imm: u16 },
    SWC { rs: u8, rt: u8, imm: u16 },
    // Only COP0
    RFE,
    TLBR,
    TLBWI,
    TLBWR,
    TLBP,
}

/// A decoded R3000A instruction.
#[allow(clippy::upper_case_acronyms)]
#[derive(Debug, Clone, Copy, PartialEq, Eq, Structural)]
pub enum Instruction {
    BLTZ { rs: u8, imm: u16 },
    BGEZ { rs: u8, imm: u16 },
    BLTZAL { rs: u8, imm: u16 },
    BGEZAL { rs: u8, imm: u16 },
    J { imm: u32 },
    JAL { imm: u32 },
    BEQ { rs: u8, rt: u8, imm: u16 },
    BNE { rs: u8, rt: u8, imm: u16 },
    BLEZ { rs: u8, imm: u16 },
    BGTZ { rs: u8, imm: u16 },
    ADDI { rs: u8, rt: u8, imm: u16 },
    ADDIU { rs: u8, rt: u8, imm: u16 },
    SLTI { rs: u8, rt: u8, imm: u16 },
    SLTIU { rs: u8, rt: u8, imm: u16 },
    ANDI { rs: u8, rt: u8, imm: u16 },
    ORI { rs: u8, rt: u8, imm: u16 },
    XORI { rs: u8, rt: u8, imm: u16 },
    LUI { rt: u8, imm: u16 },
    COP { n: u8, instr: CopInstruction },
    LB { rs: u8, rt: u8, imm: u16 },
    LH { rs: u8, rt: u8, imm: u16 },
    LWL { rs: u8, rt: u8, imm: u16 },
    LW { rs: u8, rt: u8, imm: u16 },
    LBU { rs: u8, rt: u8, imm: u16 },
    LHU { rs: u8, rt: u8, imm: u16 },
    LWR { rs: u8, rt: u8, imm: u16 },
    SB { rs: u8, rt: u8, imm: u16 },
    SH { rs: u8, rt: u8, imm: u16 },
    SWL { rs: u8, rt: u8, imm: u16 },
    SW { rs: u8, rt: u8, imm: u16 },
    SWR { rs: u8, rt: u8, imm: u16 },
    // Special instructions
    SLL { rt: u8, rd: u8, imm: u8 },
    SRL { rt: u8, rd: u8, imm: u8 },
    SRA { rt: u8, rd: u8, imm: u8 },
    SLLV { rs: u8, rt: u8, rd: u8 },
    SRLV { rs: u8, rt: u8, rd: u8 },
    SRAV { rs: u8, rt: u8, rd: u8 },
    JR { rs: u8 },
    JALR { rs: u8, rd: u8 },
    SYSCALL { comment: u32 },
    BREAK { comment: u32 },
    MFHI { rd: u8 },
    MTHI { rs: u8 },
    MFLO { rd: u8 },
    MTLO { rs: u8 },
    MULT { rs: u8, rt: u8 },
    MULTU { rs: u8, rt: u8 },
    DIV { rs: u8, rt: u8 },
    DIVU { rs: u8, rt: u8 },
    ADD { rs: u8, rt: u8, rd: u8 },
    ADDU { rs: u8, rt: u8, rd: u8 },
    SUB { rs: u8, rt: u8, rd: u8 },
    SUBU { rs: u8, rt: u8, rd: u8 },
    AND { rs: u8, rt: u8, rd: u8 },
    OR { rs: u8, rt: u8, rd: u8 },
    XOR { rs: u8, rt: u8, rd: u8 },
    NOR { rs: u8, rt: u8, rd: u8 },
    SLT { rs: u8, rt: u8, rd: u8 },
    SLTU { rs: u8, rt: u8, rd: u8 },
    ILLEGAL,
    RESERVED,
}

// ---------------------------------------------------------------------------
// The decoding table
// ---------------------------------------------------------------------------

/// Primary opcode 0x00: the instruction is selected by the secondary opcode.
pub open spec fn special_spec(op: u32) -> Instruction {
    let rs = rs_field(op);
    let rt = rt_field(op);
    let rd = rd_field(op);
    let f = secondary_field(op);
    if f == 0x00 {
        Instruction::SLL { rt, rd, imm: imm5_field(op) }
    } else if f == 0x02 {
        Instruction::SRL { rt, rd, imm: imm5_field(op) }
    } else if f == 0x03 {
        Instruction::SRA { rt, rd, imm: imm5_field(op) }
    } else if f == 0x04 {
        Instruction::SLLV { rs, rt, rd }
    } else if f == 0x06 {
        Instruction::SRLV { rs, rt, rd }
    } else if f == 0x07 {
        Instruction::SRAV { rs, rt, rd }
    } else if f == 0x08 {
        Instruction::JR { rs }
    } else if f == 0x09 {
        Instruction::JALR { rs, rd }
    } else if f == 0x0c {
        Instruction::SYSCALL { comment: comment_field(op) }
    } else if f == 0x0d {
        Instruction::BREAK { comment: comment_field(op) }
    } else if f == 0x10 {
        Instruction::MFHI { rd }
    } else if f == 0x11 {
        Instruction::MTHI { rs }
    } else if f == 0x12 {
        Instruction::MFLO { rd }
    } else if f == 0x13 {
        Instruction::MTLO { rs }
    } else if f == 0x18 {
        Instruction::MULT { rs, rt }
    } else if f == 0x19 {
        Instruction::MULTU { rs, rt }
    } else if f == 0x1a {
        Instruction::DIV { rs, rt }
    } else if f == 0x1b {
        Instruction::DIVU { rs, rt }
    } else if f == 0x20 {
        Instruction::ADD { rs, rt, rd }
    } else if f == 0x21 {
        Instruction::ADDU { rs, rt, rd }
    } else if f == 0x22 {
        Instruction::SUB { rs, rt, rd }
    } else if f == 0x23 {
        Instruction::SUBU { rs, rt, rd }
    } else if f == 0x24 {
        Instruction::AND { rs, rt, rd }
    } else if f == 0x25 {
        Instruction::OR { rs, rt, rd }
    } else if f == 0x26 {
        Instruction::XOR { rs, rt, rd }
    } else if f == 0x27 {
        Instruction::NOR { rs, rt, rd }
    } else if f == 0x2a {
        Instruction::SLT { rs, rt, rd }
    } else if f == 0x2b {
        Instruction::SLTU { rs, rt, rd }
    } else {
        Instruction::ILLEGAL
    }
}

/// Primary opcode 0x01: conditional branches selected by the `rt` field.
pub open spec fn bcondz_spec(op: u32) -> Instruction {
    let rs = rs_field(op);
    let imm = imm16_field(op);
    let c = rt_field(op);
    if c == 0x00 {
        Instruction::BLTZ { rs, imm }
    } else if c == 0x01 {
        Instruction::BGEZ { rs, imm }
    } else if c == 0x10 {
        Instruction::BLTZAL { rs, imm }
    } else if c == 0x11 {
        Instruction::BGEZAL { rs, imm }
    } else {
        Instruction::ILLEGAL
    }
}

/// Primary opcodes 0x08..=0x0e: arithmetic and logic with an immediate.
pub open spec fn aluimm_spec(op: u32) -> Instruction {
    let rs = rs_field(op);
    let rt = rt_field(op);
    let imm = imm16_field(op);
    let p = primary_field(op);
    if p == 0x08 {
        Instruction::ADDI { rs, rt, imm }
    } else if p == 0x09 {
        Instruction::ADDIU { rs, rt, imm }
    } else if p == 0x0a {
        Instruction::SLTI { rs, rt, imm }
    } else if p == 0x0b {
        Instruction::SLTIU { rs, rt, imm }
    } else if p == 0x0c {
        Instruction::ANDI { rs, rt, imm }
    } else if p == 0x0d {
        Instruction::ORI { rs, rt, imm }
    } else {
        Instruction::XORI { rs, rt, imm }
    }
}

/// Primary opcodes 0x20..=0x27: loads.
pub open spec fn load_spec(op: u32) -> Instruction {
    let rs = rs_field(op);
    let rt = rt_field(op);
    let imm = imm16_field(op);
    let p = primary_field(op);
    if p == 0x20 {
        Instruction::LB { rs, rt, imm }
    } else if p == 0x21 {
        Instruction::LH { rs, rt, imm }
    } else if p == 0x22 {
        Instruction::LWL { rs, rt, imm }
    } else if p == 0x23 {
        Instruction::LW { rs, rt, imm }
    } else if p == 0x24 {
        Instruction::LBU { rs, rt, imm }
    } else if p == 0x25 {
        Instruction::LHU { rs, rt, imm }
    } else if p == 0x26 {
        Instruction::LWR { rs, rt, imm }
    } else {
        Instruction::ILLEGAL
    }
}

/// Primary opcodes 0x28..=0x2f: stores.
pub open spec fn store_spec(op: u32) -> Instruction {
    let rs = rs_field(op);
    let rt = rt_field(op);
    let imm = imm16_field(op);
    let p = primary_field(op);
    if p == 0x28 {
        Instruction::SB { rs, rt, imm }
    } else if p == 0x29 {
        Instruction::SH { rs, rt, imm }
    } else if p == 0x2a {
        Instruction::SWL { rs, rt, imm }
    } else if p == 0x2b {
        Instruction::SW { rs, rt, imm }
    } else if p == 0x2e {
        Instruction::SWR { rs, rt, imm }
    } else {
        Instruction::ILLEGAL
    }
}

/// The coprocessor operation of an instruction with primary opcode 0x10..=0x17,
/// or `None` where the word names no operation that is decoded.
pub open spec fn cop_op_spec(op: u32) -> Option<CopInstruction> {
    let rs = rs_field(op);
    let rt = rt_field(op);
    let rd = rd_field(op);
    let n = primary_field(op) % 4;
    if rs == 0 {
        Some(CopInstruction::MFC { rt, rd })
    } else if rs == 2 {
        Some(CopInstruction::CFC { rt, rd })
    } else if rs == 4 {
        Some(CopInstruction::MTC { rt, rd })
    } else if rs == 6 {
        Some(CopInstruction::CTC { rt, rd })
    } else if rs == 8 {
        if rt == 0 {
            Some(CopInstruction::BCF { imm: imm16_field(op) })
        } else if rt == 1 {
            Some(CopInstruction::BCT { imm: imm16_field(op) })
        } else {
            None
        }
    } else if 0x10 <= rs && n == 0 {
        let f = secondary_field(op);
        if f == 1 {
            Some(CopInstruction::TLBR)
        } else if f == 2 {
            Some(CopInstruction::TLBWI)
        } else if f == 6 {
            Some(CopInstruction::TLBWR)
        } else if f == 8 {
            Some(CopInstruction::TLBP)
        } else if f == 16 {
            Some(CopInstruction::RFE)
        } else {
            None
        }
    } else {
        None
    }
}

/// Primary opcodes 0x10..=0x1f and 0x30..=0x3f: coprocessor instructions.
/// `None` for the words that name no decoded coprocessor instruction.
pub open spec fn cop_spec(op: u32) -> Option<Instruction> {
    let p = primary_field(op);
    let n = (p % 4) as u8;
    let group = p / 8;
    if group == 2 {
        match cop_op_spec(op) {
            Some(instr) => Some(Instruction::COP { n, instr }),
            None => None,
        }
    } else if group == 6 {
        Some(
            Instruction::COP {
                n,
                instr: CopInstruction::LWC { rs: rs_field(op), rt: rt_field(op), imm: imm16_field(op) },
            },
        )
    } else if group == 7 {
        Some(
            Instruction::COP {
                n,
                instr: CopInstruction::SWC { rs: rs_field(op), rt: rt_field(op), imm: imm16_field(op) },
            },
        )
    } else {
        None
    }
}

/// The instruction that a word encodes, or `None` for the words that the
/// decoder does not accept.
pub open spec fn decode_spec(op: u32) -> Option<Instruction> {
    let p = primary_field(op);
    if p == 0x00 {
        Some(special_spec(op))
    } else if p == 0x01 {
        Some(bcondz_spec(op))
    } else if p == 0x02 {
        Some(Instruction::J { imm: imm26_field(op) })
    } else if p == 0x03 {
        Some(Instruction::JAL { imm: imm26_field(op) })
    } else if p == 0x04 {
        Some(Instruction::BEQ { rs: rs_field(op), rt: rt_field(op), imm: imm16_field(op) })
    } else if p == 0x05 {
        Some(Instruction::BNE { rs: rs_field(op), rt: rt_field(op), imm: imm16_field(op) })
    } else if p == 0x06 {
        Some(Instruction::BLEZ { rs: rs_field(op), imm: imm16_field(op) })
    } else if p == 0x07 {
        Some(Instruction::BGTZ { rs: rs_field(op), imm: imm16_field(op) })
    } else if 0x08 <= p <= 0x0e {
        Some(aluimm_spec(op))
    } else if p == 0x0f {
        Some(Instruction::LUI { rt: rt_field(op), imm: imm16_field(op) })
    } else if 0x20 <= p <= 0x27 {
        Some(load_spec(op))
    } else if 0x28 <= p <= 0x2f {
        Some(store_spec(op))
    } else {
        cop_spec(op)
    }
}


impl Instruction {
    /// Decodes an instruction word. The word must be one that the decoder
    /// accepts (see [`Instruction::try_decode`]).
    pub fn decode(opcode: u32) -> (r: Self)
        requires
            decode_spec(opcode) is Some,
        ensures
            decode_spec(opcode) == Some(r),
    {
        match Self::try_decode(opcode) {
            Some(instr) => instr,
            None => {
                proof {
                    assert(false);
                }
                Instruction::ILLEGAL
            },
        }
    }

    /// Decodes an instruction word, or returns `None` for a word that names
    /// no instruction the decoder accepts.
    pub fn try_decode(opcode: u32) -> (r: Option<Self>)
        ensures
            r == decode_spec(opcode),
    {
        match get_primary(opcode) {
            0x00 => Some(Self::decode_special(opcode)),
            0x01 => Some(Self::decode_bcondz(opcode)),
            0x02 => Some(Self::J { imm: get_imm26(opcode) }),
            0x03 => Some(Self::JAL { imm: get_imm26(opcode) }),
            0x04 => Some(
                Self::BEQ { rs: get_rs(opcode), rt: get_rt(opcode), imm: get_imm16(opcode) },
            ),
            0x05 => Some(
                Self::BNE { rs: get_rs(opcode), rt: get_rt(opcode), imm: get_imm16(opcode) },
            ),
            0x06 => Some(Self::BLEZ { rs: get_rs(opcode), imm: get_imm16(opcode) }),
            0x07 => Some(Self::BGTZ { rs: get_rs(opcode), imm: get_imm16(opcode) }),
            0x08..=0x0e => Some(Self::decode_aluimm(opcode)),
            0x0f => Some(Self::LUI { rt: get_rt(opcode), imm: get_imm16(opcode) }),
            0x20..=0x27 => Some(Self::decode_load(opcode)),
            0x28..=0x2f => Some(Self::decode_store(opcode)),
            _ => Self::decode_cop(opcode),
        }
    }

    fn decode_special(opcode: u32) -> (r: Self)
        ensures
            r == special_spec(opcode),
    {
        match get_secondary(opcode) {
            0x00 => Self::SLL { rt: get_rt(opcode), rd: get_rd(opcode), imm: get_imm5(opcode) },
            0x02 => Self::SRL { rt: get_rt(opcode), rd: get_rd(opcode), imm: get_imm5(opcode) },
            0x03 => Self::SRA { rt: get_rt(opcode), rd: get_rd(opcode), imm: get_imm5(opcode) },
            0x04 => Self::SLLV { rt: get_rt(opcode), rd: get_rd(opcode), rs: get_rs(opcode) },
            0x06 => Self::SRLV { rt: get_rt(opcode), rd: get_rd(opcode), rs: get_rs(opcode) },
            0x07 => Self::SRAV { rt: get_rt(opcode), rd: get_rd(opcode), rs: get_rs(opcode) },
            0x08 => Self::JR { rs: get_rs(opcode) },
            0x09 => Self::JALR { rs: get_rs(opcode), rd: get_rd(opcode) },
            0x0c => Self::SYSCALL { comment: get_comment(opcode) },
            0x0d => Self::BREAK { comment: get_comment(opcode) },
            0x10 => Self::MFHI { rd: get_rd(opcode) },
            0x11 => Self::MTHI { rs: get_rs(opcode) },
            0x12 => Self::MFLO { rd: get_rd(opcode) },
            0x13 => Self::MTLO { rs: get_rs(opcode) },
            0x18 => Self::MULT { rs: get_rs(opcode), rt: get_rt(opcode) },
            0x19 => Self::MULTU { rs: get_rs(opcode), rt: get_rt(opcode) },
            0x1a => Self::DIV { rs: get_rs(opcode), rt: get_rt(opcode) },
            0x1b => Self::DIVU { rs: get_rs(opcode), rt: get_rt(opcode) },
            0x20 => Self::ADD { rs: get_rs(opcode), rt: get_rt(opcode), rd: get_rd(opcode) },
            0x21 => Self::ADDU { rs: get_rs(opcode), rt: get_rt(opcode), rd: get_rd(opcode) },
            0x22 => Self::SUB { rs: get_rs(opcode), rt: get_rt(opcode), rd: get_rd(opcode) },
            0x23 => Self::SUBU { rs: get_rs(opcode), rt: get_rt(opcode), rd: get_rd(opcode) },
            0x24 => Self::AND { rs: get_rs(opcode), rt: get_rt(opcode), rd: get_rd(opcode) },
            0x25 => Self::OR { rs: get_rs(opcode), rt: get_rt(opcode), rd: get_rd(opcode) },
            0x26 => Self::XOR { rs: get_rs(opcode), rt: get_rt(opcode), rd: get_rd(opcode) },
            0x27 => Self::NOR { rs: get_rs(opcode), rt: get_rt(opcode), rd: get_rd(opcode) },
            0x2a => Self::SLT { rs: get_rs(opcode), rt: get_rt(opcode), rd: get_rd(opcode) },
            0x2b => Self::SLTU { rs: get_rs(opcode), rt: get_rt(opcode), rd: get_rd(opcode) },
            _ => Self::ILLEGAL,
        }
    }

    fn decode_bcondz(opcode: u32) -> (r: Self)
        ensures
            r == bcondz_spec(opcode),
    {
        match get_rt(opcode) {
            0x00 => Self::BLTZ { rs: get_rs(opcode), imm: get_imm16(opcode) },
            0x01 => Self::BGEZ { rs: get_rs(opcode), imm: get_imm16(opcode) },
            0x10 => Self::BLTZAL { rs: get_rs(opcode), imm: get_imm16(opcode) },
            0x11 => Self::BGEZAL { rs: get_rs(opcode), imm: get_imm16(opcode) },
            _ => Self::ILLEGAL,
        }
    }

    fn decode_aluimm(opcode: u32) -> (r: Self)
        requires
            0x08 <= primary_field(opcode) <= 0x0e,
        ensures
            r == aluimm_spec(opcode),
    {
        let rs = get_rs(opcode);
        let rt = get_rt(opcode);
        let imm = get_imm16(opcode);
        match get_primary(opcode) {
            0x08 => Self::ADDI { rs, rt, imm },
            0x09 => Self::ADDIU { rs, rt, imm },
            0x0a => Self::SLTI { rs, rt, imm },
            0x0b => Self::SLTIU { rs, rt, imm },
            0x0c => Self::ANDI { rs, rt, imm },
            0x0d => Self::ORI { rs, rt, imm },
            _ => Self::XORI { rs, rt, imm },
        }
    }

    fn decode_load(opcode: u32) -> (r: Self)
        ensures
            r == load_spec(opcode),
    {
        let rs = get_rs(opcode);
        let rt = get_rt(opcode);
        let imm = get_imm16(opcode);
        match get_primary(opcode) {
            0x20 => Self::LB { rs, rt, imm },
            0x21 => Self::LH { rs, rt, imm },
            0x22 => Self::LWL { rs, rt, imm },
            0x23 => Self::LW { rs, rt, imm },
            0x24 => Self::LBU { rs, rt, imm },
            0x25 => Self::LHU { rs, rt, imm },
            0x26 => Self::LWR { rs, rt, imm },
            _ => Self::ILLEGAL,
        }
    }

    fn decode_store(opcode: u32) -> (r: Self)
        ensures
            r == store_spec(opcode),
    {
        let rs = get_rs(opcode);
        let rt = get_rt(opcode);
        let imm = get_imm16(opcode);
        match get_primary(opcode) {
            0x28 => Self::SB { rs, rt, imm },
            0x29 => Self::SH { rs, rt, imm },
            0x2a => Self::SWL { rs, rt, imm },
            0x2b => Self::SW { rs, rt, imm },
            0x2e => Self::SWR { rs, rt, imm },
            _ => Self::ILLEGAL,
        }
    }

    fn decode_cop_op(opcode: u32) -> (r: Option<CopInstruction>)
        ensures
            r == cop_op_spec(opcode),
    {
        let rt = get_rt(opcode);
        let rd = get_rd(opcode);
        let primary = get_primary(opcode);
        let n = primary & 3;
        assert(primary & 3 == primary % 4) by (bit_vector);
        match get_rs(opcode) {
            0 => Some(CopInstruction::MFC { rt, rd }),
            2 => Some(CopInstruction::CFC { rt, rd }),
            4 => Some(CopInstruction::MTC { rt, rd }),
            6 => Some(CopInstruction::CTC { rt, rd }),
            8 => match rt {
                0 => Some(CopInstruction::BCF { imm: get_imm16(opcode) }),
                1 => Some(CopInstruction::BCT { imm: get_imm16(opcode) }),
                _ => None,
            },
            0x10..=0x1f => if n == 0 {
                match get_secondary(opcode) {
                    1 => Some(CopInstruction::TLBR),
                    2 => Some(CopInstruction::TLBWI),
                    6 => Some(CopInstruction::TLBWR),
                    8 => Some(CopInstruction::TLBP),
                    16 => Some(CopInstruction::RFE),
                    _ => None,
                }
            } else {
                None
            },
            _ => None,
        }
    }

    fn decode_cop(opcode: u32) -> (r: Option<Self>)
        ensures
            r == cop_spec(opcode),
    {
        let rs = get_rs(opcode);
        let primary = get_primary(opcode);
        let n = primary & 3;
        assert(primary & 3 == primary % 4 && primary & 0x38 == (primary / 8) * 8) by (bit_vector)
            requires
                primary < 64,
        ;
        match primary & 0x38 {
            0x10 => match Self::decode_cop_op(opcode) {
                Some(instr) => Some(Instruction::COP { n, instr }),
                None => None,
            },
            0x30 => Some(
                Instruction::COP {
                    n,
                    instr: CopInstruction::LWC { rs, rt: get_rt(opcode), imm: get_imm16(opcode) },
                },
            ),
            0x38 => Some(
                Instruction::COP {
                    n,
                    instr: CopInstruction::SWC { rs, rt: get_rt(opcode), imm: get_imm16(opcode) },
                },
            ),
            _ => None,
        }
    }
}


// ---------------------------------------------------------------------------
// Properties of decoding
// ---------------------------------------------------------------------------

/// The general-purpose or coprocessor register numbers that an instruction names.
pub open spec fn register_operands(i: Instruction) -> Seq<u8> {
    match i {
        Instruction::BLTZ { rs, .. } => seq![rs],
        Instruction::BGEZ { rs, .. } => seq![rs],
        Instruction::BLTZAL { rs, .. } => seq![rs],
        Instruction::BGEZAL { rs, .. } => seq![rs],
        Instruction::BLEZ { rs, .. } => seq![rs],
        Instruction::BGTZ { rs, .. } => seq![rs],
        Instruction::BEQ { rs, rt, .. } => seq![rs, rt],
        Instruction::BNE { rs, rt, .. } => seq![rs, rt],
        Instruction::ADDI { rs, rt, .. } => seq![rs, rt],
        Instruction::ADDIU { rs, rt, .. } => seq![rs, rt],
        Instruction::SLTI { rs, rt, .. } => seq![rs, rt],
        Instruction::SLTIU { rs, rt, .. } => seq![rs, rt],
        Instruction::ANDI { rs, rt, .. } => seq![rs, rt],
        Instruction::ORI { rs, rt, .. } => seq![rs, rt],
        Instruction::XORI { rs, rt, .. } => seq![rs, rt],
        Instruction::LUI { rt, .. } => seq![rt],
        Instruction::COP { instr, .. } => match instr {
            CopInstruction::MFC { rt, rd } => seq![rt, rd],
            CopInstruction::CFC { rt, rd } => seq![rt, rd],
            CopInstruction::MTC { rt, rd } => seq![rt, rd],
            CopInstruction::CTC { rt, rd } => seq![rt, rd],
            CopInstruction::LWC { rs, rt, .. } => seq![rs, rt],
            CopInstruction::SWC { rs, rt, .. } => seq![rs, rt],
            _ => seq![],
        },
        Instruction::LB { rs, rt, .. } => seq![rs, rt],
        Instruction::LH { rs, rt, .. } => seq![rs, rt],
        Instruction::LWL { rs, rt, .. } => seq![rs, rt],
        Instruction::LW { rs, rt, .. } => seq![rs, rt],
        Instruction::LBU { rs, rt, .. } => seq![rs, rt],
        Instruction::LHU { rs, rt, .. } => seq![rs, rt],
        Instruction::LWR { rs, rt, .. } => seq![rs, rt],
        Instruction::SB { rs, rt, .. } => seq![rs, rt],
        Instruction::SH { rs, rt, .. } => seq![rs, rt],
        Instruction::SWL { rs, rt, .. } => seq![rs, rt],
        Instruction::SW { rs, rt, .. } => seq![rs, rt],
        Instruction::SWR { rs, rt, .. } => seq![rs, rt],
        Instruction::SLL { rt, rd, .. } => seq![rt, rd],
        Instruction::SRL { rt, rd, .. } => seq![rt, rd],
        Instruction::SRA { rt, rd, .. } => seq![rt, rd],
        Instruction::SLLV { rs, rt, rd } => seq![rs, rt, rd],
        Instruction::SRLV { rs, rt, rd } => seq![rs, rt, rd],
        Instruction::SRAV { rs, rt, rd } => seq![rs, rt, rd],
        Instruction::JR { rs } => seq![rs],
        Instruction::JALR { rs, rd } => seq![rs, rd],
        Instruction::MFHI { rd } => seq![rd],
        Instruction::MTHI { rs } => seq![rs],
        Instruction::MFLO { rd } => seq![rd],
        Instruction::MTLO { rs } => seq![rs],
        Instruction::MULT { rs, rt } => seq![rs, rt],
        Instruction::MULTU { rs, rt } => seq![rs, rt],
        Instruction::DIV { rs, rt } => seq![rs, rt],
        Instruction::DIVU { rs, rt } => seq![rs, rt],
        Instruction::ADD { rs, rt, rd } => seq![rs, rt, rd],
        Instruction::ADDU { rs, rt, rd } => seq![rs, rt, rd],
        Instruction::SUB { rs, rt, rd } => seq![rs, rt, rd],
        Instruction::SUBU { rs, rt, rd } => seq![rs, rt, rd],
        Instruction::AND { rs, rt, rd } => seq![rs, rt, rd],
        Instruction::OR { rs, rt, rd } => seq![rs, rt, rd],
        Instruction::XOR { rs, rt, rd } => seq![rs, rt, rd],
        Instruction::NOR { rs, rt, rd } => seq![rs, rt, rd],
        Instruction::SLT { rs, rt, rd } => seq![rs, rt, rd],
        Instruction::SLTU { rs, rt, rd } => seq![rs, rt, rd],
        _ => seq![],
    }
}

/// Every register number in a decoded instruction indexes one of the 32
/// registers, and every shift amount is below 32: an instruction word can
/// never name a register outside the register file.
pub proof fn lemma_decoded_operands_in_range(op: u32)
    requires
        decode_spec(op) is Some,
    ensures
        forall|k: int|
            0 <= k < register_operands(decode_spec(op)->0).len() ==> #[trigger] register_operands(
                decode_spec(op)->0,
            )[k] < 32,
        decode_spec(op)->0 matches Instruction::SLL { imm, .. } ==> imm < 32,
        decode_spec(op)->0 matches Instruction::SRL { imm, .. } ==> imm < 32,
        decode_spec(op)->0 matches Instruction::SRA { imm, .. } ==> imm < 32,
        decode_spec(op)->0 matches Instruction::COP { n, .. } ==> n < 4,
{
}

/// Every word outside the coprocessor opcode space decodes: only primary
/// opcodes 0x10..=0x1f and 0x30..=0x3f can name a word that the decoder
/// refuses.
pub proof fn lemma_decode_total_outside_coprocessor_space(op: u32)
    requires
        !(0x10 <= primary_field(op) <= 0x1f),
        !(0x30 <= primary_field(op) <= 0x3f),
    ensures
        decode_spec(op) is Some,
{
}

/// The loads and stores of coprocessor registers (LWCn, SWCn) decode for
/// every word, and a word of the group 0x18..=0x1f never does.
pub proof fn lemma_decode_coprocessor_groups(op: u32)
    ensures
        0x30 <= primary_field(op) <= 0x3f ==> decode_spec(op) is Some,
        0x18 <= primary_field(op) <= 0x1f ==> decode_spec(op) is None,
{
}


// ---------------------------------------------------------------------------
// The instruction set, stated by encoding
// ---------------------------------------------------------------------------

/// The word with these fields: primary opcode (bits 31..26), `rs`, `rt`,
/// `rd`, shift amount and secondary opcode (bits 5..0).
pub open spec fn r_word(p: u32, rs: u32, rt: u32, rd: u32, sh: u32, f: u32) -> u32 {
    (p * 0x0400_0000 + rs * 0x0020_0000 + rt * 0x0001_0000 + rd * 0x0800 + sh * 0x40 + f) as u32
}

/// The word with a primary opcode, `rs`, `rt` and a 16-bit immediate.
pub open spec fn i_word(p: u32, rs: u32, rt: u32, imm: u32) -> u32 {
    (p * 0x0400_0000 + rs * 0x0020_0000 + rt * 0x0001_0000 + imm) as u32
}

/// The word with a primary opcode and a 26-bit jump target.
pub open spec fn j_word(p: u32, target: u32) -> u32 {
    (p * 0x0400_0000 + target) as u32
}

/// Every field of a word built by [`r_word`] is read back by the field
/// functions.
pub proof fn lemma_r_word_fields(p: u32, rs: u32, rt: u32, rd: u32, sh: u32, f: u32)
    requires
        p < 64,
        rs < 32,
        rt < 32,
        rd < 32,
        sh < 32,
        f < 64,
    ensures
        primary_field(r_word(p, rs, rt, rd, sh, f)) == p,
        rs_field(r_word(p, rs, rt, rd, sh, f)) == rs,
        rt_field(r_word(p, rs, rt, rd, sh, f)) == rt,
        rd_field(r_word(p, rs, rt, rd, sh, f)) == rd,
        imm5_field(r_word(p, rs, rt, rd, sh, f)) == sh,
        secondary_field(r_word(p, rs, rt, rd, sh, f)) == f,
        imm16_field(r_word(p, rs, rt, rd, sh, f)) == rd * 0x800 + sh * 0x40 + f,
{
    let w = r_word(p, rs, rt, rd, sh, f);
    assert(w == p * 0x0400_0000 + rs * 0x0020_0000 + rt * 0x0001_0000 + rd * 0x0800 + sh * 0x40 + f);
    assert(p < 64 && rs < 32 && rt < 32 && rd < 32 && sh < 32 && f < 64 && w == p * 0x0400_0000
        + rs * 0x0020_0000 + rt * 0x0001_0000 + rd * 0x0800 + sh * 0x40 + f ==> w / 0x0400_0000 == p
        && (w / 0x0020_0000) % 32 == rs && (w / 0x0001_0000) % 32 == rt && (w / 0x0800) % 32 == rd
        && (w / 0x40) % 32 == sh && w % 64 == f && w % 0x1_0000 == rd * 0x800 + sh * 0x40 + f)
        by (bit_vector);
}

/// Every field of a word built by [`i_word`] is read back by the field
/// functions.
pub proof fn lemma_i_word_fields(p: u32, rs: u32, rt: u32, imm: u32)
    requires
        p < 64,
        rs < 32,
        rt < 32,
        imm < 0x1_0000,
    ensures
        primary_field(i_word(p, rs, rt, imm)) == p,
        rs_field(i_word(p, rs, rt, imm)) == rs,
        rt_field(i_word(p, rs, rt, imm)) == rt,
        imm16_field(i_word(p, rs, rt, imm)) == imm,
{
    let w = i_word(p, rs, rt, imm);
    assert(w == p * 0x0400_0000 + rs * 0x0020_0000 + rt * 0x0001_0000 + imm);
    assert(p < 64 && rs < 32 && rt < 32 && imm < 0x1_0000 && w == p * 0x0400_0000 + rs
        * 0x0020_0000 + rt * 0x0001_0000 + imm ==> w / 0x0400_0000 == p && (w / 0x0020_0000) % 32
        == rs && (w / 0x0001_0000) % 32 == rt && w % 0x1_0000 == imm) by (bit_vector);
}

/// The instructions of primary opcode 0: each function code names one
/// instruction, whose operands are the fields of the word.
pub proof fn lemma_special_encodings(rs: u8, rt: u8, rd: u8, sh: u8)
    requires
        rs < 32,
        rt < 32,
        rd < 32,
        sh < 32,
    ensures
        decode_spec(r_word(0, rs as u32, rt as u32, rd as u32, sh as u32, 0x00)) == Some(Instruction::SLL { rt, rd, imm: sh }),
        decode_spec(r_word(0, rs as u32, rt as u32, rd as u32, sh as u32, 0x02)) == Some(Instruction::SRL { rt, rd, imm: sh }),
        decode_spec(r_word(0, rs as u32, rt as u32, rd as u32, sh as u32, 0x03)) == Some(Instruction::SRA { rt, rd, imm: sh }),
        decode_spec(r_word(0, rs as u32, rt as u32, rd as u32, sh as u32, 0x04)) == Some(Instruction::SLLV { rs, rt, rd }),
        decode_spec(r_word(0, rs as u32, rt as u32, rd as u32, sh as u32, 0x06)) == Some(Instruction::SRLV { rs, rt, rd }),
        decode_spec(r_word(0, rs as u32, rt as u32, rd as u32, sh as u32, 0x07)) == Some(Instruction::SRAV { rs, rt, rd }),
        decode_spec(r_word(0, rs as u32, rt as u32, rd as u32, sh as u32, 0x08)) == Some(Instruction::JR { rs }),
        decode_spec(r_word(0, rs as u32, rt as u32, rd as u32, sh as u32, 0x09)) == Some(Instruction::JALR { rs, rd }),
        decode_spec(r_word(0, rs as u32, rt as u32, rd as u32, sh as u32, 0x10)) == Some(Instruction::MFHI { rd }),
        decode_spec(r_word(0, rs as u32, rt as u32, rd as u32, sh as u32, 0x11)) == Some(Instruction::MTHI { rs }),
        decode_spec(r_word(0, rs as u32, rt as u32, rd as u32, sh as u32, 0x12)) == Some(Instruction::MFLO { rd }),
        decode_spec(r_word(0, rs as u32, rt as u32, rd as u32, sh as u32, 0x13)) == Some(Instruction::MTLO { rs }),
        decode_spec(r_word(0, rs as u32, rt as u32, rd as u32, sh as u32, 0x18)) == Some(Instruction::MULT { rs, rt }),
        decode_spec(r_word(0, rs as u32, rt as u32, rd as u32, sh as u32, 0x19)) == Some(Instruction::MULTU { rs, rt }),
        decode_spec(r_word(0, rs as u32, rt as u32, rd as u32, sh as u32, 0x1a)) == Some(Instruction::DIV { rs, rt }),
        decode_spec(r_word(0, rs as u32, rt as u32, rd as u32, sh as u32, 0x1b)) == Some(Instruction::DIVU { rs, rt }),
        decode_spec(r_word(0, rs as u32, rt as u32, rd as u32, sh as u32, 0x20)) == Some(Instruction::ADD { rs, rt, rd }),
        decode_spec(r_word(0, rs as u32, rt as u32, rd as u32, sh as u32, 0x21)) == Some(Instruction::ADDU { rs, rt, rd }),
        decode_spec(r_word(0, rs as u32, rt as u32, rd as u32, sh as u32, 0x22)) == Some(Instruction::SUB { rs, rt, rd }),
        decode_spec(r_word(0, rs as u32, rt as u32, rd as u32, sh as u32, 0x23)) == Some(Instruction::SUBU { rs, rt, rd }),
        decode_spec(r_word(0, rs as u32, rt as u32, rd as u32, sh as u32, 0x24)) == Some(Instruction::AND { rs, rt, rd }),
        decode_spec(r_word(0, rs as u32, rt as u32, rd as u32, sh as u32, 0x25)) == Some(Instruction::OR { rs, rt, rd }),
        decode_spec(r_word(0, rs as u32, rt as u32, rd as u32, sh as u32, 0x26)) == Some(Instruction::XOR { rs, rt, rd }),
        decode_spec(r_word(0, rs as u32, rt as u32, rd as u32, sh as u32, 0x27)) == Some(Instruction::NOR { rs, rt, rd }),
        decode_spec(r_word(0, rs as u32, rt as u32, rd as u32, sh as u32, 0x2a)) == Some(Instruction::SLT { rs, rt, rd }),
        decode_spec(r_word(0, rs as u32, rt as u32, rd as u32, sh as u32, 0x2b)) == Some(Instruction::SLTU { rs, rt, rd }),
{
    lemma_r_word_fields(0, rs as u32, rt as u32, rd as u32, sh as u32, 0x00);
    lemma_r_word_fields(0, rs as u32, rt as u32, rd as u32, sh as u32, 0x02);
    lemma_r_word_fields(0, rs as u32, rt as u32, rd as u32, sh as u32, 0x03);
    lemma_r_word_fields(0, rs as u32, rt as u32, rd as u32, sh as u32, 0x04);
    lemma_r_word_fields(0, rs as u32, rt as u32, rd as u32, sh as u32, 0x06);
    lemma_r_word_fields(0, rs as u32, rt as u32, rd as u32, sh as u32, 0x07);
    lemma_r_word_fields(0, rs as u32, rt as u32, rd as u32, sh as u32, 0x08);
    lemma_r_word_fields(0, rs as u32, rt as u32, rd as u32, sh as u32, 0x09);
    lemma_r_word_fields(0, rs as u32, rt as u32, rd as u32, sh as u32, 0x10);
    lemma_r_word_fields(0, rs as u32, rt as u32, rd as u32, sh as u32, 0x11);
    lemma_r_word_fields(0, rs as u32, rt as u32, rd as u32, sh as u32, 0x12);
    lemma_r_word_fields(0, rs as u32, rt as u32, rd as u32, sh as u32, 0x13);
    lemma_r_word_fields(0, rs as u32, rt as u32, rd as u32, sh as u32, 0x18);
    lemma_r_word_fields(0, rs as u32, rt as u32, rd as u32, sh as u32, 0x19);
    lemma_r_word_fields(0, rs as u32, rt as u32, rd as u32, sh as u32, 0x1a);
    lemma_r_word_fields(0, rs as u32, rt as u32, rd as u32, sh as u32, 0x1b);
    lemma_r_word_fields(0, rs as u32, rt as u32, rd as u32, sh as u32, 0x20);
    lemma_r_word_fields(0, rs as u32, rt as u32, rd as u32, sh as u32, 0x21);
    lemma_r_word_fields(0, rs as u32, rt as u32, rd as u32, sh as u32, 0x22);
    lemma_r_word_fields(0, rs as u32, rt as u32, rd as u32, sh as u32, 0x23);
    lemma_r_word_fields(0, rs as u32, rt as u32, rd as u32, sh as u32, 0x24);
    lemma_r_word_fields(0, rs as u32, rt as u32, rd as u32, sh as u32, 0x25);
    lemma_r_word_fields(0, rs as u32, rt as u32, rd as u32, sh as u32, 0x26);
    lemma_r_word_fields(0, rs as u32, rt as u32, rd as u32, sh as u32, 0x27);
    lemma_r_word_fields(0, rs as u32, rt as u32, rd as u32, sh as u32, 0x2a);
    lemma_r_word_fields(0, rs as u32, rt as u32, rd as u32, sh as u32, 0x2b);
}

/// SYSCALL and BREAK carry the 20 bits between the opcodes as a comment.
pub proof fn lemma_trap_encodings(comment: u32)
    requires
        comment < 0x10_0000,
    ensures
        decode_spec((comment * 0x40 + 0x0c) as u32) == Some(Instruction::SYSCALL { comment }),
        decode_spec((comment * 0x40 + 0x0d) as u32) == Some(Instruction::BREAK { comment }),
{
    let a = (comment * 0x40 + 0x0c) as u32;
    let b = (comment * 0x40 + 0x0d) as u32;
    assert(comment < 0x10_0000 && a == comment * 0x40 + 0x0c && b == comment * 0x40 + 0x0d ==> a
        / 0x0400_0000 == 0 && a % 64 == 0x0c && (a / 0x40) % 0x10_0000 == comment && b / 0x0400_0000
        == 0 && b % 64 == 0x0d && (b / 0x40) % 0x10_0000 == comment) by (bit_vector);
}

/// The instructions with a 16-bit immediate, and the conditional branches of
/// primary opcode 1, which the `rt` field selects.
pub proof fn lemma_immediate_encodings(rs: u8, rt: u8, imm: u16)
    requires
        rs < 32,
        rt < 32,
    ensures
        decode_spec(i_word(0x04, rs as u32, rt as u32, imm as u32)) == Some(Instruction::BEQ { rs, rt, imm }),
        decode_spec(i_word(0x05, rs as u32, rt as u32, imm as u32)) == Some(Instruction::BNE { rs, rt, imm }),
        decode_spec(i_word(0x06, rs as u32, rt as u32, imm as u32)) == Some(Instruction::BLEZ { rs, imm }),
        decode_spec(i_word(0x07, rs as u32, rt as u32, imm as u32)) == Some(Instruction::BGTZ { rs, imm }),
        decode_spec(i_word(0x08, rs as u32, rt as u32, imm as u32)) == Some(Instruction::ADDI { rs, rt, imm }),
        decode_spec(i_word(0x09, rs as u32, rt as u32, imm as u32)) == Some(Instruction::ADDIU { rs, rt, imm }),
        decode_spec(i_word(0x0a, rs as u32, rt as u32, imm as u32)) == Some(Instruction::SLTI { rs, rt, imm }),
        decode_spec(i_word(0x0b, rs as u32, rt as u32, imm as u32)) == Some(Instruction::SLTIU { rs, rt, imm }),
        decode_spec(i_word(0x0c, rs as u32, rt as u32, imm as u32)) == Some(Instruction::ANDI { rs, rt, imm }),
        decode_spec(i_word(0x0d, rs as u32, rt as u32, imm as u32)) == Some(Instruction::ORI { rs, rt, imm }),
        decode_spec(i_word(0x0e, rs as u32, rt as u32, imm as u32)) == Some(Instruction::XORI { rs, rt, imm }),
        decode_spec(i_word(0x0f, rs as u32, rt as u32, imm as u32)) == Some(Instruction::LUI { rt, imm }),
        decode_spec(i_word(0x20, rs as u32, rt as u32, imm as u32)) == Some(Instruction::LB { rs, rt, imm }),
        decode_spec(i_word(0x21, rs as u32, rt as u32, imm as u32)) == Some(Instruction::LH { rs, rt, imm }),
        decode_spec(i_word(0x22, rs as u32, rt as u32, imm as u32)) == Some(Instruction::LWL { rs, rt, imm }),
        decode_spec(i_word(0x23, rs as u32, rt as u32, imm as u32)) == Some(Instruction::LW { rs, rt, imm }),
        decode_spec(i_word(0x24, rs as u32, rt as u32, imm as u32)) == Some(Instruction::LBU { rs, rt, imm }),
        decode_spec(i_word(0x25, rs as u32, rt as u32, imm as u32)) == Some(Instruction::LHU { rs, rt, imm }),
        decode_spec(i_word(0x26, rs as u32, rt as u32, imm as u32)) == Some(Instruction::LWR { rs, rt, imm }),
        decode_spec(i_word(0x28, rs as u32, rt as u32, imm as u32)) == Some(Instruction::SB { rs, rt, imm }),
        decode_spec(i_word(0x29, rs as u32, rt as u32, imm as u32)) == Some(Instruction::SH { rs, rt, imm }),
        decode_spec(i_word(0x2a, rs as u32, rt as u32, imm as u32)) == Some(Instruction::SWL { rs, rt, imm }),
        decode_spec(i_word(0x2b, rs as u32, rt as u32, imm as u32)) == Some(Instruction::SW { rs, rt, imm }),
        decode_spec(i_word(0x2e, rs as u32, rt as u32, imm as u32)) == Some(Instruction::SWR { rs, rt, imm }),
        decode_spec(i_word(0x01, rs as u32, 0x00, imm as u32)) == Some(Instruction::BLTZ { rs, imm }),
        decode_spec(i_word(0x01, rs as u32, 0x01, imm as u32)) == Some(Instruction::BGEZ { rs, imm }),
        decode_spec(i_word(0x01, rs as u32, 0x10, imm as u32)) == Some(Instruction::BLTZAL { rs, imm }),
        decode_spec(i_word(0x01, rs as u32, 0x11, imm as u32)) == Some(Instruction::BGEZAL { rs, imm }),
{
    lemma_i_word_fields(0x04, rs as u32, rt as u32, imm as u32);
    lemma_i_word_fields(0x05, rs as u32, rt as u32, imm as u32);
    lemma_i_word_fields(0x06, rs as u32, rt as u32, imm as u32);
    lemma_i_word_fields(0x07, rs as u32, rt as u32, imm as u32);
    lemma_i_word_fields(0x08, rs as u32, rt as u32, imm as u32);
    lemma_i_word_fields(0x09, rs as u32, rt as u32, imm as u32);
    lemma_i_word_fields(0x0a, rs as u32, rt as u32, imm as u32);
    lemma_i_word_fields(0x0b, rs as u32, rt as u32, imm as u32);
    lemma_i_word_fields(0x0c, rs as u32, rt as u32, imm as u32);
    lemma_i_word_fields(0x0d, rs as u32, rt as u32, imm as u32);
    lemma_i_word_fields(0x0e, rs as u32, rt as u32, imm as u32);
    lemma_i_word_fields(0x0f, rs as u32, rt as u32, imm as u32);
    lemma_i_word_fields(0x20, rs as u32, rt as u32, imm as u32);
    lemma_i_word_fields(0x21, rs as u32, rt as u32, imm as u32);
    lemma_i_word_fields(0x22, rs as u32, rt as u32, imm as u32);
    lemma_i_word_fields(0x23, rs as u32, rt as u32, imm as u32);
    lemma_i_word_fields(0x24, rs as u32, rt as u32, imm as u32);
    lemma_i_word_fields(0x25, rs as u32, rt as u32, imm as u32);
    lemma_i_word_fields(0x26, rs as u32, rt as u32, imm as u32);
    lemma_i_word_fields(0x28, rs as u32, rt as u32, imm as u32);
    lemma_i_word_fields(0x29, rs as u32, rt as u32, imm as u32);
    lemma_i_word_fields(0x2a, rs as u32, rt as u32, imm as u32);
    lemma_i_word_fields(0x2b, rs as u32, rt as u32, imm as u32);
    lemma_i_word_fields(0x2e, rs as u32, rt as u32, imm as u32);
    lemma_i_word_fields(0x01, rs as u32, 0x00, imm as u32);
    lemma_i_word_fields(0x01, rs as u32, 0x01, imm as u32);
    lemma_i_word_fields(0x01, rs as u32, 0x10, imm as u32);
    lemma_i_word_fields(0x01, rs as u32, 0x11, imm as u32);
}

/// J and JAL carry a 26-bit target.
pub proof fn lemma_jump_encodings(target: u32)
    requires
        target < 0x0400_0000,
    ensures
        decode_spec(j_word(2, target)) == Some(Instruction::J { imm: target }),
        decode_spec(j_word(3, target)) == Some(Instruction::JAL { imm: target }),
{
    let a = j_word(2, target);
    let b = j_word(3, target);
    assert(a == 2 * 0x0400_0000 + target && b == 3 * 0x0400_0000 + target);
    assert(target < 0x0400_0000 && a == 2 * 0x0400_0000 + target && b == 3 * 0x0400_0000 + target
        ==> a / 0x0400_0000 == 2 && a % 0x0400_0000 == target && b / 0x0400_0000 == 3 && b
        % 0x0400_0000 == target) by (bit_vector);
}

/// The coprocessor instructions: moves to and from coprocessor `n`, its
/// branches, the COP0 TLB operations and RFE, and LWCn/SWCn.
pub proof fn lemma_coprocessor_encodings(n: u8, rs: u8, rt: u8, rd: u8, imm: u16)
    requires
        n < 4,
        rs < 32,
        rt < 32,
        rd < 32,
    ensures
        decode_spec(r_word((0x10 + n) as u32, 0, rt as u32, rd as u32, 0, 0)) == Some(Instruction::COP { n, instr: CopInstruction::MFC { rt, rd } }),
        decode_spec(r_word((0x10 + n) as u32, 2, rt as u32, rd as u32, 0, 0)) == Some(Instruction::COP { n, instr: CopInstruction::CFC { rt, rd } }),
        decode_spec(r_word((0x10 + n) as u32, 4, rt as u32, rd as u32, 0, 0)) == Some(Instruction::COP { n, instr: CopInstruction::MTC { rt, rd } }),
        decode_spec(r_word((0x10 + n) as u32, 6, rt as u32, rd as u32, 0, 0)) == Some(Instruction::COP { n, instr: CopInstruction::CTC { rt, rd } }),
        decode_spec(i_word((0x10 + n) as u32, 8, 0, imm as u32)) == Some(Instruction::COP { n, instr: CopInstruction::BCF { imm } }),
        decode_spec(i_word((0x10 + n) as u32, 8, 1, imm as u32)) == Some(Instruction::COP { n, instr: CopInstruction::BCT { imm } }),
        decode_spec(r_word(0x10, 0x10, 0, 0, 0, 1)) == Some(Instruction::COP { n: 0, instr: CopInstruction::TLBR }),
        decode_spec(r_word(0x10, 0x10, 0, 0, 0, 2)) == Some(Instruction::COP { n: 0, instr: CopInstruction::TLBWI }),
        decode_spec(r_word(0x10, 0x10, 0, 0, 0, 6)) == Some(Instruction::COP { n: 0, instr: CopInstruction::TLBWR }),
        decode_spec(r_word(0x10, 0x10, 0, 0, 0, 8)) == Some(Instruction::COP { n: 0, instr: CopInstruction::TLBP }),
        decode_spec(r_word(0x10, 0x10, 0, 0, 0, 0x10)) == Some(Instruction::COP { n: 0, instr: CopInstruction::RFE }),
        decode_spec(i_word((0x30 + n) as u32, rs as u32, rt as u32, imm as u32)) == Some(Instruction::COP { n, instr: CopInstruction::LWC { rs, rt, imm } }),
        decode_spec(i_word((0x38 + n) as u32, rs as u32, rt as u32, imm as u32)) == Some(Instruction::COP { n, instr: CopInstruction::SWC { rs, rt, imm } }),
{
    let p = (0x10 + n) as u32;
    lemma_r_word_fields(p, 0, rt as u32, rd as u32, 0, 0);
    lemma_r_word_fields(p, 2, rt as u32, rd as u32, 0, 0);
    lemma_r_word_fields(p, 4, rt as u32, rd as u32, 0, 0);
    lemma_r_word_fields(p, 6, rt as u32, rd as u32, 0, 0);
    lemma_i_word_fields(p, 8, 0, imm as u32);
    lemma_i_word_fields(p, 8, 1, imm as u32);
    lemma_r_word_fields(0x10, 0x10, 0, 0, 0, 1);
    lemma_r_word_fields(0x10, 0x10, 0, 0, 0, 2);
    lemma_r_word_fields(0x10, 0x10, 0, 0, 0, 6);
    lemma_r_word_fields(0x10, 0x10, 0, 0, 0, 8);
    lemma_r_word_fields(0x10, 0x10, 0, 0, 0, 0x10);
    lemma_i_word_fields((0x30 + n) as u32, rs as u32, rt as u32, imm as u32);
    lemma_i_word_fields((0x38 + n) as u32, rs as u32, rt as u32, imm as u32);
}


/// The words that name no instruction: function codes of primary opcode 0
/// and `rt` values of primary opcode 1 that are not assigned, and the
/// unassigned load and store opcodes 0x27, 0x2c, 0x2d and 0x2f, decode as
/// ILLEGAL.
pub proof fn lemma_illegal_encodings(rs: u8, rt: u8, rd: u8, sh: u8, f: u8, imm: u16)
    requires
        rs < 32,
        rt < 32,
        rd < 32,
        sh < 32,
        f < 64,
    ensures
        (f != 0x00 && f != 0x02 && f != 0x03 && f != 0x04 && f != 0x06 && f != 0x07 && f != 0x08 && f != 0x09 && f != 0x0c && f != 0x0d && f != 0x10 && f != 0x11 && f != 0x12 && f != 0x13 && f != 0x18 && f != 0x19 && f != 0x1a && f != 0x1b && f != 0x20 && f != 0x21 && f != 0x22 && f != 0x23 && f != 0x24 && f != 0x25 && f != 0x26 && f != 0x27 && f != 0x2a && f != 0x2b) ==> decode_spec(r_word(0, rs as u32, rt as u32, rd as u32, sh as u32, f as u32))
            == Some(Instruction::ILLEGAL),
        (rt != 0x00 && rt != 0x01 && rt != 0x10 && rt != 0x11) ==> decode_spec(
            i_word(0x01, rs as u32, rt as u32, imm as u32),
        ) == Some(Instruction::ILLEGAL),
        decode_spec(i_word(0x27, rs as u32, rt as u32, imm as u32)) == Some(Instruction::ILLEGAL),
        decode_spec(i_word(0x2c, rs as u32, rt as u32, imm as u32)) == Some(Instruction::ILLEGAL),
        decode_spec(i_word(0x2d, rs as u32, rt as u32, imm as u32)) == Some(Instruction::ILLEGAL),
        decode_spec(i_word(0x2f, rs as u32, rt as u32, imm as u32)) == Some(Instruction::ILLEGAL),
{
    lemma_r_word_fields(0, rs as u32, rt as u32, rd as u32, sh as u32, f as u32);
    lemma_i_word_fields(0x01, rs as u32, rt as u32, imm as u32);
    lemma_i_word_fields(0x27, rs as u32, rt as u32, imm as u32);
    lemma_i_word_fields(0x2c, rs as u32, rt as u32, imm as u32);
    lemma_i_word_fields(0x2d, rs as u32, rt as u32, imm as u32);
    lemma_i_word_fields(0x2f, rs as u32, rt as u32, imm as u32);
}

/// The coprocessor words that the decoder refuses: a coprocessor branch whose
/// `rt` is neither 0 nor 1, a `rs` of 1, 3, 5, 7 or 9..=15, a command
/// (`rs` 16..=31) to a coprocessor other than COP0, and a COP0 command other
/// than TLBR, TLBWI, TLBWR, TLBP and RFE.
pub proof fn lemma_refused_coprocessor_encodings(n: u8, rs: u8, rt: u8, rd: u8, sh: u8, f: u8)
    requires
        n < 4,
        rs < 32,
        rt < 32,
        rd < 32,
        sh < 32,
        f < 64,
    ensures
        rs == 8 && rt > 1 ==> decode_spec(r_word((0x10 + n) as u32, 8, rt as u32, rd as u32, sh as u32, f as u32)) is None,
        (rs == 1 || rs == 3 || rs == 5 || rs == 7 || 9 <= rs < 16) ==> decode_spec(
            r_word((0x10 + n) as u32, rs as u32, rt as u32, rd as u32, sh as u32, f as u32),
        ) is None,
        n != 0 && rs >= 16 ==> decode_spec(
            r_word((0x10 + n) as u32, rs as u32, rt as u32, rd as u32, sh as u32, f as u32),
        ) is None,
        rs >= 16 && f != 1 && f != 2 && f != 6 && f != 8 && f != 16 ==> decode_spec(
            r_word(0x10, rs as u32, rt as u32, rd as u32, sh as u32, f as u32),
        ) is None,
        decode_spec(r_word((0x18 + n) as u32, rs as u32, rt as u32, rd as u32, sh as u32, f as u32)) is None,
        decode_spec(r_word((0x1c + n) as u32, rs as u32, rt as u32, rd as u32, sh as u32, f as u32)) is None,
{
    lemma_r_word_fields((0x10 + n) as u32, 8, rt as u32, rd as u32, sh as u32, f as u32);
    lemma_r_word_fields((0x10 + n) as u32, rs as u32, rt as u32, rd as u32, sh as u32, f as u32);
    lemma_r_word_fields(0x10, rs as u32, rt as u32, rd as u32, sh as u32, f as u32);
    lemma_r_word_fields((0x18 + n) as u32, rs as u32, rt as u32, rd as u32, sh as u32, f as u32);
    lemma_r_word_fields((0x1c + n) as u32, rs as u32, rt as u32, rd as u32, sh as u32, f as u32);
}

} // verus!
