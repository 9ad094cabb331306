use psx_core::cpu::instrs::{CopInstruction, Instruction};

#[test]
fn decodes_lui() {
    assert_eq!(Instruction::decode(0x3c08_0013), Instruction::LUI { rt: 8, imm: 0x13 });
}

#[test]
fn decodes_register_alu() {
    assert_eq!(Instruction::decode(0x0109_5021), Instruction::ADDU { rs: 8, rt: 9, rd: 10 });
    assert_eq!(Instruction::decode(0x0022_182a), Instruction::SLT { rs: 1, rt: 2, rd: 3 });
}

#[test]
fn decodes_shifts_with_amount() {
    assert_eq!(Instruction::decode(0x0009_5100), Instruction::SLL { rt: 9, rd: 10, imm: 4 });
    assert_eq!(Instruction::decode(0x0009_57c3), Instruction::SRA { rt: 9, rd: 10, imm: 31 });
}

#[test]
fn nop_is_sll_of_r0() {
    assert_eq!(Instruction::decode(0), Instruction::SLL { rt: 0, rd: 0, imm: 0 });
}

#[test]
fn decodes_loads_and_stores() {
    assert_eq!(Instruction::decode(0x8fbf_0010), Instruction::LW { rs: 29, rt: 31, imm: 0x10 });
    assert_eq!(Instruction::decode(0xafbf_fff0), Instruction::SW { rs: 29, rt: 31, imm: 0xfff0 });
}

#[test]
fn decodes_jump_target() {
    assert_eq!(Instruction::decode(0x0bff_ffff), Instruction::J { imm: 0x03ff_ffff });
}

#[test]
fn decodes_conditional_branches() {
    assert_eq!(Instruction::decode(0x0490_8000), Instruction::BLTZAL { rs: 4, imm: 0x8000 });
    assert_eq!(Instruction::decode(0x0482_0005), Instruction::ILLEGAL);
}

#[test]
fn decodes_syscall_comment() {
    assert_eq!(Instruction::decode(0x02af_378c), Instruction::SYSCALL { comment: 0xabcde });
}

#[test]
fn decodes_coprocessor_moves() {
    assert_eq!(
        Instruction::decode(0x400c_6000),
        Instruction::COP { n: 0, instr: CopInstruction::MFC { rt: 12, rd: 12 } }
    );
    assert_eq!(
        Instruction::decode(0x408c_6800),
        Instruction::COP { n: 0, instr: CopInstruction::MTC { rt: 12, rd: 13 } }
    );
}

#[test]
fn decodes_rfe_and_coprocessor_branch() {
    assert_eq!(
        Instruction::decode(0x4200_0010),
        Instruction::COP { n: 0, instr: CopInstruction::RFE }
    );
    assert_eq!(
        Instruction::decode(0x4100_0040),
        Instruction::COP { n: 0, instr: CopInstruction::BCF { imm: 0x40 } }
    );
}

#[test]
fn decodes_coprocessor_loads_and_stores() {
    assert_eq!(
        Instruction::decode(0xc865_0020),
        Instruction::COP { n: 2, instr: CopInstruction::LWC { rs: 3, rt: 5, imm: 0x20 } }
    );
    assert_eq!(
        Instruction::decode(0xe865_0024),
        Instruction::COP { n: 2, instr: CopInstruction::SWC { rs: 3, rt: 5, imm: 0x24 } }
    );
}

#[test]
fn unassigned_opcodes_are_illegal() {
    assert_eq!(Instruction::decode(0x9c22_0003), Instruction::ILLEGAL);
    assert_eq!(Instruction::decode(0x0000_0001), Instruction::ILLEGAL);
    assert_eq!(Instruction::decode(0xb000_0000), Instruction::ILLEGAL);
}

#[test]
fn words_that_are_not_decoded() {
    // primary opcode 0x18
    assert_eq!(Instruction::try_decode(0x6000_0000), None);
    // coprocessor branch with a condition other than false/true
    assert_eq!(Instruction::try_decode(0x4102_0000), None);
    // command to COP2
    assert_eq!(Instruction::try_decode(0x4a00_0001), None);
    // COP0 command that is not a TLB operation or RFE
    assert_eq!(Instruction::try_decode(0x4200_0003), None);
}

#[test]
fn try_decode_agrees_with_decode() {
    for w in [0x3c08_0013u32, 0x0109_5021, 0x4200_0010, 0xc865_0020, 0x9c22_0003] {
        assert_eq!(Instruction::try_decode(w), Some(Instruction::decode(w)));
    }
}
