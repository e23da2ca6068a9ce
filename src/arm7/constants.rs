use vstd::prelude::*;

verus! {

// Processor modes, as held in the low five bits of the CPSR.
pub const USER_MODE: u32 = 0x10;
pub const FIQ_MODE: u32 = 0x11;
pub const IRQ_MODE: u32 = 0x12;
pub const SUPERVISOR_MODE: u32 = 0x13;
pub const ABORT_MODE: u32 = 0x17;
pub const UNDEFINED_MODE: u32 = 0x1B;
pub const SYSTEM_MODE: u32 = 0x1F;

// Start-up values of the program counter and the stack pointers.
pub const START_PC: u32 = 0x800_0000;
pub const STACK_USER_SYSTEM_START: u32 = 0x300_7F00;
pub const STACK_IRQ_START: u32 = 0x300_7FA0;
pub const STACK_SUPERVISOR_START: u32 = 0x0300_7FE0;

// Bits of the CPSR.
pub const SIGN_FLAG: u32 = 0x8000_0000;
pub const ZERO_FLAG: u32 = 0x4000_0000;
pub const CARRY_FLAG: u32 = 0x2000_0000;
pub const OVERFLOW_FLAG: u32 = 0x1000_0000;
pub const IRQ_BIT: u32 = 0x80;
pub const FIQ_BIT: u32 = 0x40;
pub const STATE_BIT: u32 = 0x20;
pub const MODE_MASK: u32 = 0x1F;

/// The sixteen data-processing operations, in the order of their 4-bit code.
#[derive(Clone, Copy, Debug, PartialEq, Eq, Structural)]
pub enum AluOpcode {
    And,
    ExclusiveOr,
    Subtract,
    RightSubtract,
    Add,
    AddCarry,
    SubtractCarry,
    RightSubtractCarry,
    TestAnd,
    TestExclusiveOr,
    CompareSubtract,
    CompareAdd,
    Or,
    Move,
    BitClear,
    MoveNot,
}

/// The 4-bit code of a data-processing operation.
pub open spec fn alu_code(op: AluOpcode) -> u32 {
    match op {
        AluOpcode::And => 0x0,
        AluOpcode::ExclusiveOr => 0x1,
        AluOpcode::Subtract => 0x2,
        AluOpcode::RightSubtract => 0x3,
        AluOpcode::Add => 0x4,
        AluOpcode::AddCarry => 0x5,
        AluOpcode::SubtractCarry => 0x6,
        AluOpcode::RightSubtractCarry => 0x7,
        AluOpcode::TestAnd => 0x8,
        AluOpcode::TestExclusiveOr => 0x9,
        AluOpcode::CompareSubtract => 0xA,
        AluOpcode::CompareAdd => 0xB,
        AluOpcode::Or => 0xC,
        AluOpcode::Move => 0xD,
        AluOpcode::BitClear => 0xE,
        AluOpcode::MoveNot => 0xF,
    }
}

pub fn to_alu_opcode(value: u32) -> (r: AluOpcode)
    requires
        value < 16,
    ensures
        alu_code(r) == value,
{
    match value {
        0x0 => AluOpcode::And,
        0x1 => AluOpcode::ExclusiveOr,
        0x2 => AluOpcode::Subtract,
        0x3 => AluOpcode::RightSubtract,
        0x4 => AluOpcode::Add,
        0x5 => AluOpcode::AddCarry,
        0x6 => AluOpcode::SubtractCarry,
        0x7 => AluOpcode::RightSubtractCarry,
        0x8 => AluOpcode::TestAnd,
        0x9 => AluOpcode::TestExclusiveOr,
        0xA => AluOpcode::CompareSubtract,
        0xB => AluOpcode::CompareAdd,
        0xC => AluOpcode::Or,
        0xD => AluOpcode::Move,
        0xE => AluOpcode::BitClear,
        _ => AluOpcode::MoveNot,
    }
}

/// The four modes of the barrel shifter, in the order of their 2-bit code.
#[derive(Clone, Copy, Debug, PartialEq, Eq, Structural)]
pub enum ShiftType {
    LogicalLeft,
    LogicalRight,
    ArithmeticRight,
    RotateRight,
}

pub open spec fn shift_code(s: ShiftType) -> u32 {
    match s {
        ShiftType::LogicalLeft => 0,
        ShiftType::LogicalRight => 1,
        ShiftType::ArithmeticRight => 2,
        ShiftType::RotateRight => 3,
    }
}

pub fn to_shift_type(value: u32) -> (r: ShiftType)
    requires
        value < 4,
    ensures
        shift_code(r) == value,
{
    match value {
        0x0 => ShiftType::LogicalLeft,
        0x1 => ShiftType::LogicalRight,
        0x2 => ShiftType::ArithmeticRight,
        _ => ShiftType::RotateRight,
    }
}

/// The halfword and signed transfer kinds, in the order of their 2-bit code
/// (bits 6-5 of the instruction).
#[derive(Clone, Copy, Debug, PartialEq, Eq, Structural)]
pub enum HalfwordTransferType {
    NoOp,
    UnsignedHalfwords,
    SignedByte,
    SignedHalfwords,
}

pub open spec fn halfword_code(h: HalfwordTransferType) -> u32 {
    match h {
        HalfwordTransferType::NoOp => 0,
        HalfwordTransferType::UnsignedHalfwords => 1,
        HalfwordTransferType::SignedByte => 2,
        HalfwordTransferType::SignedHalfwords => 3,
    }
}

pub fn to_halfword_transfer_type(value: u32) -> (r: HalfwordTransferType)
    requires
        value < 4,
    ensures
        halfword_code(r) == value,
{
    match value {
        0x0 => HalfwordTransferType::NoOp,
        0x1 => HalfwordTransferType::UnsignedHalfwords,
        0x2 => HalfwordTransferType::SignedByte,
        _ => HalfwordTransferType::SignedHalfwords,
    }
}

/// Where the second operand of an instruction comes from.
#[derive(Clone, Copy, Debug, PartialEq, Eq, Structural)]
pub enum Operand2Type {
    /// A register shifted by the low byte of another register.
    RegisterWithRegisterShift,
    /// A register shifted by a 5-bit immediate amount.
    RegisterWithImmediateShift,
    /// An 8-bit immediate rotated right by twice a 4-bit amount.
    ImmediateWithRotation,
    /// A plain immediate (the 12-bit offset of a single data transfer).
    Immediate,
}

} // verus!
