use vstd::prelude::*;

use super::constants::{
    AluOpcode, HalfwordTransferType, Operand2Type, ShiftType, alu_code, halfword_code, shift_code,
    to_alu_opcode, to_halfword_transfer_type, to_shift_type,
};

verus! {

/// The shape of a 32-bit instruction, as far as bits 27-20 and 7-4 tell it.
#[derive(Clone, Copy, Debug, PartialEq, Eq, Structural)]
pub enum Instruction {
    BranchAndExchange,
    Alu { operand2_type: Operand2Type, opcode: AluOpcode, set_conditions: bool, shift_type: ShiftType },
    Branch { link: bool },
    MRSTransfer { source_is_spsr: bool },
    MSRTransfer { operand2_type: Operand2Type, destination_is_spsr: bool },
    Multiply { accumulate: bool, set_conditions: bool },
    MultiplyLong { signed: bool, accumulate: bool, set_conditions: bool },
    SingleDataTransfer {
        operand2_type: Operand2Type,
        pre_indexing: bool,
        add_offset: bool,
        transfer_byte: bool,
        write_back: bool,
        load: bool,
        shift_type: ShiftType,
    },
    HalfwordTransfer {
        immediate: bool,
        pre_indexing: bool,
        add_offset: bool,
        write_back: bool,
        load: bool,
        halfword_transfer_type: HalfwordTransferType,
    },
    BlockDataTransfer { pre_indexing: bool, add_offset: bool, load_psr: bool, write_back: bool, load: bool },
    SingleDataSwap { transfer_byte: bool },
    SoftwareInterrupt,
    Undefined,
}

pub open spec fn bit8(x: u8, n: u8) -> bool {
    (x >> n) & 1 == 1
}

/// Operand 2 of a data-processing or status-register instruction.
pub open spec fn alu_operand_shape(b: u8, l: u8) -> Operand2Type {
    if bit8(b, 5) {
        Operand2Type::ImmediateWithRotation
    } else if bit8(l, 0) {
        Operand2Type::RegisterWithRegisterShift
    } else {
        Operand2Type::RegisterWithImmediateShift
    }
}

/// Shape of a status-register transfer or data-processing instruction.
pub open spec fn sr_alu_shape(b: u8, l: u8) -> Instruction {
    if b & 0x1F == 0x12 || b & 0x1F == 0x16 {
        Instruction::MSRTransfer {
            operand2_type: if bit8(b, 5) {
                Operand2Type::ImmediateWithRotation
            } else {
                Operand2Type::RegisterWithImmediateShift
            },
            destination_is_spsr: bit8(b, 2),
        }
    } else if b & 0x1F == 0x10 || b & 0x1F == 0x14 {
        Instruction::MRSTransfer { source_is_spsr: bit8(b, 2) }
    } else {
        Instruction::Alu {
            operand2_type: alu_operand_shape(b, l),
            opcode: choose|op: AluOpcode| alu_code(op) == ((b >> 1) & 0xF) as u32,
            set_conditions: bit8(b, 0),
            shift_type: choose|s: ShiftType| shift_code(s) == ((l >> 1) & 0x3) as u32,
        }
    }
}

/// Shape of the 32-bit instruction whose bits 27-20 are `b` and bits 7-4 are `l`.
pub open spec fn arm_shape(b: u8, l: u8) -> Instruction {
    if b & 0xC0 == 0 {
        if b == 0x12 && l == 0x1 {
            Instruction::BranchAndExchange
        } else if l & 0x9 == 0x9 && b & 0x20 == 0 {
            if l & 0x6 == 0 {
                if b & 0x18 == 0 {
                    Instruction::Multiply { accumulate: bit8(b, 1), set_conditions: bit8(b, 0) }
                } else if b & 0x18 == 0x8 {
                    Instruction::MultiplyLong {
                        signed: bit8(b, 2),
                        accumulate: bit8(b, 1),
                        set_conditions: bit8(b, 0),
                    }
                } else if b & 0x18 == 0x10 {
                    Instruction::SingleDataSwap { transfer_byte: bit8(b, 2) }
                } else {
                    Instruction::Undefined
                }
            } else {
                Instruction::HalfwordTransfer {
                    immediate: bit8(b, 2),
                    pre_indexing: bit8(b, 4),
                    add_offset: bit8(b, 3),
                    write_back: bit8(b, 1),
                    load: bit8(b, 0),
                    halfword_transfer_type: choose|h: HalfwordTransferType|
                        halfword_code(h) == ((l >> 1) & 0x3) as u32,
                }
            }
        } else {
            sr_alu_shape(b, l)
        }
    } else if b & 0xC0 == 0x40 {
        if bit8(b, 5) && bit8(l, 0) {
            Instruction::Undefined
        } else {
            Instruction::SingleDataTransfer {
                operand2_type: if !bit8(b, 5) {
                    Operand2Type::Immediate
                } else {
                    Operand2Type::RegisterWithImmediateShift
                },
                pre_indexing: bit8(b, 4),
                add_offset: bit8(b, 3),
                transfer_byte: bit8(b, 2),
                write_back: bit8(b, 1),
                load: bit8(b, 0),
                shift_type: choose|s: ShiftType| shift_code(s) == ((l >> 1) & 0x3) as u32,
            }
        }
    } else if b & 0xC0 == 0x80 {
        if b & 0x20 == 0 {
            Instruction::BlockDataTransfer {
                pre_indexing: bit8(b, 4),
                add_offset: bit8(b, 3),
                load_psr: bit8(b, 2),
                write_back: bit8(b, 1),
                load: bit8(b, 0),
            }
        } else {
            Instruction::Branch { link: bit8(b, 4) }
        }
    } else {
        Instruction::SoftwareInterrupt
    }
}

/// The decode key of a 32-bit opcode: bits 27-20, then bits 7-4.
pub open spec fn arm_key(opcode: u32) -> int {
    (((opcode >> 20u32) & 0xFF) * 16 + ((opcode >> 4u32) & 0xF)) as int
}

/// The shape under a 12-bit key.
pub open spec fn arm_key_shape(key: int) -> Instruction {
    arm_shape((key / 16) as u8, (key % 16) as u8)
}

proof fn lemma_codes_unique()
    ensures
        forall|a: AluOpcode, b: AluOpcode| alu_code(a) == alu_code(b) ==> a == b,
        forall|a: ShiftType, b: ShiftType| shift_code(a) == shift_code(b) ==> a == b,
        forall|a: HalfwordTransferType, b: HalfwordTransferType|
            halfword_code(a) == halfword_code(b) ==> a == b,
{
}

fn bit8_exec(x: u8, n: u8) -> (r: bool)
    requires
        n < 8,
    ensures
        r == bit8(x, n),
{
    (x >> n) & 1 == 1
}

fn decode_sr_alu(bits27_20: u8, bits7_4: u8) -> (r: Instruction)
    ensures
        r == sr_alu_shape(bits27_20, bits7_4),
{
    proof {
        lemma_codes_unique();
    }
    match bits27_20 & 0x1F {
        0x12 | 0x16 => Instruction::MSRTransfer {
            operand2_type: if bit8_exec(bits27_20, 5) {
                Operand2Type::ImmediateWithRotation
            } else {
                Operand2Type::RegisterWithImmediateShift
            },
            destination_is_spsr: bit8_exec(bits27_20, 2),
        },
        0x10 | 0x14 => Instruction::MRSTransfer { source_is_spsr: bit8_exec(bits27_20, 2) },
        _ => {
            let operand2_type = if bit8_exec(bits27_20, 5) {
                Operand2Type::ImmediateWithRotation
            } else if bit8_exec(bits7_4, 0) {
                Operand2Type::RegisterWithRegisterShift
            } else {
                Operand2Type::RegisterWithImmediateShift
            };
            let op = ((bits27_20 >> 1u8) & 0xF) as u32;
            let sh = ((bits7_4 >> 1u8) & 0x3) as u32;
            assert(op < 16) by (bit_vector) requires op == ((bits27_20 >> 1u8) & 0xF) as u32;
            assert(sh < 4) by (bit_vector) requires sh == ((bits7_4 >> 1u8) & 0x3) as u32;
            Instruction::Alu {
                operand2_type,
                opcode: to_alu_opcode(op),
                set_conditions: bit8_exec(bits27_20, 0),
                shift_type: to_shift_type(sh),
            }
        },
    }
}

fn decode_arm_0x0_start(bits27_20: u8, bits7_4: u8) -> (r: Instruction)
    requires
        bits27_20 & 0xC0 == 0,
    ensures
        r == arm_shape(bits27_20, bits7_4),
{
    proof {
        lemma_codes_unique();
    }
    if bits27_20 == 0x12 && bits7_4 == 0x1 {
        Instruction::BranchAndExchange
    } else if bits7_4 & 0x9 == 0x9 && bits27_20 & 0x20 == 0 {
        if bits7_4 & 0x6 == 0 {
            match bits27_20 & 0x18 {
                0x0 => Instruction::Multiply {
                    accumulate: bit8_exec(bits27_20, 1),
                    set_conditions: bit8_exec(bits27_20, 0),
                },
                0x8 => Instruction::MultiplyLong {
                    signed: bit8_exec(bits27_20, 2),
                    accumulate: bit8_exec(bits27_20, 1),
                    set_conditions: bit8_exec(bits27_20, 0),
                },
                0x10 => Instruction::SingleDataSwap { transfer_byte: bit8_exec(bits27_20, 2) },
                _ => Instruction::Undefined,
            }
        } else {
            let h = ((bits7_4 >> 1u8) & 0x3) as u32;
            assert(h < 4) by (bit_vector) requires h == ((bits7_4 >> 1u8) & 0x3) as u32;
            Instruction::HalfwordTransfer {
                immediate: bit8_exec(bits27_20, 2),
                pre_indexing: bit8_exec(bits27_20, 4),
                add_offset: bit8_exec(bits27_20, 3),
                write_back: bit8_exec(bits27_20, 1),
                load: bit8_exec(bits27_20, 0),
                halfword_transfer_type: to_halfword_transfer_type(h),
            }
        }
    } else {
        decode_sr_alu(bits27_20, bits7_4)
    }
}

fn decode_arm_0x40_start(bits27_20: u8, bits7_4: u8) -> (r: Instruction)
    requires
        bits27_20 & 0xC0 == 0x40,
    ensures
        r == arm_shape(bits27_20, bits7_4),
{
    proof {
        lemma_codes_unique();
    }
    if bit8_exec(bits27_20, 5) && bit8_exec(bits7_4, 0) {
        Instruction::Undefined
    } else {
        let sh = ((bits7_4 >> 1u8) & 0x3) as u32;
        assert(sh < 4) by (bit_vector) requires sh == ((bits7_4 >> 1u8) & 0x3) as u32;
        Instruction::SingleDataTransfer {
            operand2_type: if !bit8_exec(bits27_20, 5) {
                Operand2Type::Immediate
            } else {
                Operand2Type::RegisterWithImmediateShift
            },
            pre_indexing: bit8_exec(bits27_20, 4),
            add_offset: bit8_exec(bits27_20, 3),
            transfer_byte: bit8_exec(bits27_20, 2),
            write_back: bit8_exec(bits27_20, 1),
            load: bit8_exec(bits27_20, 0),
            shift_type: to_shift_type(sh),
        }
    }
}

fn decode_arm_0x80_start(bits27_20: u8) -> (r: Instruction)
    requires
        bits27_20 & 0xC0 == 0x80,
    ensures
        forall|l: u8| r == arm_shape(bits27_20, l),
{
    if bits27_20 & 0x20 == 0 {
        Instruction::BlockDataTransfer {
            pre_indexing: bit8_exec(bits27_20, 4),
            add_offset: bit8_exec(bits27_20, 3),
            load_psr: bit8_exec(bits27_20, 2),
            write_back: bit8_exec(bits27_20, 1),
            load: bit8_exec(bits27_20, 0),
        }
    } else {
        Instruction::Branch { link: bit8_exec(bits27_20, 4) }
    }
}

/// Decodes the shape of a 32-bit instruction from its bits 27-20 and 7-4.
pub fn decode_arm(bits27_20: u8, bits7_4: u8) -> (r: Instruction)
    ensures
        r == arm_shape(bits27_20, bits7_4),
{
    match bits27_20 & 0xC0 {
        0x0 => decode_arm_0x0_start(bits27_20, bits7_4),
        0x40 => decode_arm_0x40_start(bits27_20, bits7_4),
        0x80 => decode_arm_0x80_start(bits27_20),
        _ => Instruction::SoftwareInterrupt,
    }
}

/// The decode table of 32-bit instructions, indexed by the 12-bit key
/// (bits 27-20 above bits 7-4).
pub fn instruction_lut() -> (r: Vec<Instruction>)
    ensures
        r@.len() == 4096,
        forall|key: int| 0 <= key < 4096 ==> #[trigger] r@[key] == arm_key_shape(key),
{
    let mut table: Vec<Instruction> = Vec::with_capacity(4096);
    let mut key: usize = 0;
    while key < 4096
        invariant
            key <= 4096,
            table@.len() == key,
            forall|k: int| 0 <= k < key ==> #[trigger] table@[k] == arm_key_shape(k),
        decreases 4096 - key,
    {
        table.push(decode_arm((key / 16) as u8, (key % 16) as u8));
        key += 1;
    }
    table
}

/// The condition under the 4-bit code holds of the flag nibble
/// (bit 3 negative, bit 2 zero, bit 1 carry, bit 0 overflow).
pub open spec fn condition_passed(code: u32, flags: u32) -> bool {
    let n = flags & 0x8 != 0;
    let z = flags & 0x4 != 0;
    let c = flags & 0x2 != 0;
    let v = flags & 0x1 != 0;
    if code == 0x0 {
        z
    } else if code == 0x1 {
        !z
    } else if code == 0x2 {
        c
    } else if code == 0x3 {
        !c
    } else if code == 0x4 {
        n
    } else if code == 0x5 {
        !n
    } else if code == 0x6 {
        v
    } else if code == 0x7 {
        !v
    } else if code == 0x8 {
        c && !z
    } else if code == 0x9 {
        !c || z
    } else if code == 0xA {
        n == v
    } else if code == 0xB {
        n != v
    } else if code == 0xC {
        !z && n == v
    } else if code == 0xD {
        z || n != v
    } else {
        true
    }
}

/// Evaluates a condition code against a flag nibble.
pub fn evaluate_condition(code: u32, flags: u32) -> (r: bool)
    ensures
        r == condition_passed(code, flags),
{
    let n = flags & 0x8 != 0;
    let z = flags & 0x4 != 0;
    let c = flags & 0x2 != 0;
    let v = flags & 0x1 != 0;
    match code {
        0x0 => z,
        0x1 => !z,
        0x2 => c,
        0x3 => !c,
        0x4 => n,
        0x5 => !n,
        0x6 => v,
        0x7 => !v,
        0x8 => c && !z,
        0x9 => !c || z,
        0xA => n == v,
        0xB => n != v,
        0xC => !z && n == v,
        0xD => z || n != v,
        _ => true,
    }
}

/// The condition table: entry `code * 16 + flags` tells whether the condition
/// holds of the flag nibble, for all sixteen codes and all sixteen nibbles.
pub fn build_condition_lut() -> (r: Vec<bool>)
    ensures
        r@.len() == 256,
        forall|code: u32, flags: u32|
            code < 16 && flags < 16 ==> #[trigger] r@[code * 16 + flags] == condition_passed(code, flags),
{
    let mut table: Vec<bool> = Vec::with_capacity(256);
    let mut index: u32 = 0;
    while index < 256
        invariant
            index <= 256,
            table@.len() == index,
            forall|i: u32| i < index ==> #[trigger] table@[i as int] == condition_passed(i / 16, i % 16),
        decreases 256 - index,
    {
        table.push(evaluate_condition(index / 16, index % 16));
        index += 1;
    }
    assert forall|code: u32, flags: u32| code < 16 && flags < 16 implies #[trigger] table@[code * 16 + flags]
        == condition_passed(code, flags) by {
        let i = (code * 16 + flags) as u32;
        assert(i / 16 == code && i % 16 == flags);
        assert(table@[i as int] == condition_passed(i / 16, i % 16));
    }
    table
}

} // verus!
