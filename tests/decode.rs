use gba_core::arm7::constants::{
    AluOpcode, HalfwordTransferType, Operand2Type, ShiftType, to_alu_opcode, to_halfword_transfer_type,
    to_shift_type,
};
use gba_core::arm7::lut::{build_condition_lut, decode_arm, evaluate_condition, instruction_lut, Instruction};
use gba_core::arm7::thumb_lut::{decode_thumb, thumb_instruction_lut, ThumbInstruction};

fn expected_condition(code: u32, flags: u32) -> bool {
    let n = flags & 8 != 0;
    let z = flags & 4 != 0;
    let c = flags & 2 != 0;
    let v = flags & 1 != 0;
    match code {
        0x0 => z,
        0x1 => !z,
        0x2 => c,
        0x3 => !c,
        0x4 => n,
        0x5 => !n,
        0x6 => v,
        0x7 => !v,
        0x8 => c && !z,
        0x9 => !c || z,
        0xA => n == v,
        0xB => n != v,
        0xC => !z && n == v,
        0xD => z || n != v,
        _ => true,
    }
}

#[test]
fn condition_table_matches_the_truth_table() {
    let table = build_condition_lut();
    assert_eq!(table.len(), 256);
    for code in 0..16u32 {
        for flags in 0..16u32 {
            assert_eq!(table[(code * 16 + flags) as usize], expected_condition(code, flags));
            assert_eq!(evaluate_condition(code, flags), expected_condition(code, flags));
        }
    }
    // EQ holds iff Z; GE iff N == V.
    assert!(table[0x04]);
    assert!(!table[0x00]);
    assert!(table[0xA9]);
    assert!(!table[0xA8]);
}

#[test]
fn codes_convert_to_enums() {
    assert_eq!(to_alu_opcode(0x4), AluOpcode::Add);
    assert_eq!(to_alu_opcode(0xF), AluOpcode::MoveNot);
    assert_eq!(to_shift_type(3), ShiftType::RotateRight);
    assert_eq!(to_halfword_transfer_type(2), HalfwordTransferType::SignedByte);
}

#[test]
fn arm_shapes() {
    assert_eq!(decode_arm(0x12, 0x1), Instruction::BranchAndExchange);
    assert_eq!(decode_arm(0xA0, 0x0), Instruction::Branch { link: false });
    assert_eq!(decode_arm(0xB0, 0x0), Instruction::Branch { link: true });
    assert_eq!(decode_arm(0x02, 0x9), Instruction::Multiply { accumulate: true, set_conditions: false });
    assert_eq!(
        decode_arm(0x0C, 0x9),
        Instruction::MultiplyLong { signed: true, accumulate: false, set_conditions: false }
    );
    assert_eq!(decode_arm(0x14, 0x9), Instruction::SingleDataSwap { transfer_byte: true });
    assert_eq!(decode_arm(0x18, 0x9), Instruction::Undefined);
    assert_eq!(decode_arm(0x10, 0x0), Instruction::MRSTransfer { source_is_spsr: false });
    assert_eq!(
        decode_arm(0x32, 0x0),
        Instruction::MSRTransfer { operand2_type: Operand2Type::ImmediateWithRotation, destination_is_spsr: false }
    );
    assert_eq!(decode_arm(0x7F, 0xF), Instruction::Undefined);
    assert_eq!(decode_arm(0xF0, 0x0), Instruction::SoftwareInterrupt);
    assert_eq!(
        decode_arm(0x3F, 0x0),
        Instruction::Alu {
            operand2_type: Operand2Type::ImmediateWithRotation,
            opcode: AluOpcode::MoveNot,
            set_conditions: true,
            shift_type: ShiftType::LogicalLeft,
        }
    );
    assert_eq!(
        decode_arm(0x1D, 0xB),
        Instruction::HalfwordTransfer {
            immediate: true,
            pre_indexing: true,
            add_offset: true,
            write_back: false,
            load: true,
            halfword_transfer_type: HalfwordTransferType::UnsignedHalfwords,
        }
    );
}

#[test]
fn arm_table_is_the_decoder_everywhere() {
    let table = instruction_lut();
    assert_eq!(table.len(), 4096);
    for key in 0..4096usize {
        assert_eq!(table[key], decode_arm((key >> 4) as u8, (key & 0xF) as u8));
    }
}

#[test]
fn thumb_shapes() {
    assert_eq!(decode_thumb(0x18), ThumbInstruction::AddSubtract);
    assert_eq!(decode_thumb(0x08), ThumbInstruction::MoveShiftedRegister);
    assert_eq!(decode_thumb(0x47), ThumbInstruction::HiRegisterOperation);
    assert_eq!(decode_thumb(0x48), ThumbInstruction::PcRelativeLoad);
    assert_eq!(decode_thumb(0xB0), ThumbInstruction::AddOffsetToStackPointer);
    assert_eq!(decode_thumb(0xB5), ThumbInstruction::PushPop);
    assert_eq!(decode_thumb(0xB2), ThumbInstruction::Undefined);
    assert_eq!(decode_thumb(0xDF), ThumbInstruction::SoftwareInterrupt);
    assert_eq!(decode_thumb(0xD0), ThumbInstruction::ConditionalBranch);
    assert_eq!(decode_thumb(0xE8), ThumbInstruction::Undefined);
    assert_eq!(decode_thumb(0xF0), ThumbInstruction::LongBranchWithLink);
    let table = thumb_instruction_lut();
    for key in 0..256usize {
        assert_eq!(table[key], decode_thumb(key as u8));
    }
}
