use vstd::prelude::*;

use super::constants::{AluOpcode, ShiftType};

verus! {

/// Bit `n` of `x`.
pub open spec fn bit(x: u32, n: u32) -> bool {
    (x >> n) & 1 == 1
}

/// `x` rotated right by `n` places, `0 < n < 32`.
pub open spec fn ror(x: u32, n: u32) -> u32 {
    ((x >> n) | (x << (32 - n) as u32)) as u32
}

/// `x` shifted right by `n < 32` places, copies of bit 31 coming in at the top.
pub open spec fn asr(x: u32, n: u32) -> u32 {
    if bit(x, 31) {
        !((!x) >> n)
    } else {
        x >> n
    }
}

/// Result and carry-out of the barrel shifter. `register_specified` tells
/// whether the amount came from a register; from an immediate field, an amount
/// of 0 means a shift by 32 for the right shifts and a rotate right through
/// carry by one place for the rotation. A shift by 0 leaves value and carry as
/// they are.
pub open spec fn shift_spec(
    shift_type: ShiftType,
    amount: u32,
    value: u32,
    carry_in: bool,
    register_specified: bool,
) -> (u32, bool) {
    let a: u32 = if amount == 0 && !register_specified { 32 } else { amount };
    match shift_type {
        ShiftType::LogicalLeft => {
            if amount == 0 {
                (value, carry_in)
            } else if amount < 32 {
                ((value << amount) as u32, bit(value, (32 - amount) as u32))
            } else if amount == 32 {
                (0, bit(value, 0))
            } else {
                (0, false)
            }
        },
        ShiftType::LogicalRight => {
            if a == 0 {
                (value, carry_in)
            } else if a < 32 {
                (value >> a, bit(value, (a - 1) as u32))
            } else if a == 32 {
                (0, bit(value, 31))
            } else {
                (0, false)
            }
        },
        ShiftType::ArithmeticRight => {
            if a == 0 {
                (value, carry_in)
            } else if a < 32 {
                (asr(value, a), bit(value, (a - 1) as u32))
            } else {
                (if bit(value, 31) { 0xFFFF_FFFFu32 } else { 0u32 }, bit(value, 31))
            }
        },
        ShiftType::RotateRight => {
            if amount == 0 && !register_specified {
                ((value >> 1) | (if carry_in { 0x8000_0000u32 } else { 0u32 }), bit(value, 0))
            } else if amount == 0 {
                (value, carry_in)
            } else if amount % 32 == 0 {
                (value, bit(value, 31))
            } else {
                (ror(value, amount % 32), bit(value, (amount % 32 - 1) as u32))
            }
        },
    }
}

fn bit_exec(x: u32, n: u32) -> (r: bool)
    requires
        n < 32,
    ensures
        r == bit(x, n),
{
    (x >> n) & 1 == 1
}

/// The barrel shifter on plain values: the shifted value and the carry-out.
pub fn shift(
    shift_type: ShiftType,
    amount: u32,
    value: u32,
    carry_in: bool,
    register_specified: bool,
) -> (r: (u32, bool))
    ensures
        r == shift_spec(shift_type, amount, value, carry_in, register_specified),
{
    let a: u32 = if amount == 0 && !register_specified { 32 } else { amount };
    match shift_type {
        ShiftType::LogicalLeft => {
            if amount == 0 {
                (value, carry_in)
            } else if amount < 32 {
                (value << amount, bit_exec(value, 32 - amount))
            } else if amount == 32 {
                (0, bit_exec(value, 0))
            } else {
                (0, false)
            }
        },
        ShiftType::LogicalRight => {
            if a == 0 {
                (value, carry_in)
            } else if a < 32 {
                (value >> a, bit_exec(value, a - 1))
            } else if a == 32 {
                (0, bit_exec(value, 31))
            } else {
                (0, false)
            }
        },
        ShiftType::ArithmeticRight => {
            if a == 0 {
                (value, carry_in)
            } else if a < 32 {
                let shifted = if bit_exec(value, 31) { !((!value) >> a) } else { value >> a };
                (shifted, bit_exec(value, a - 1))
            } else {
                (if bit_exec(value, 31) { 0xFFFF_FFFFu32 } else { 0u32 }, bit_exec(value, 31))
            }
        },
        ShiftType::RotateRight => {
            if amount == 0 && !register_specified {
                ((value >> 1) | (if carry_in { 0x8000_0000u32 } else { 0u32 }), bit_exec(value, 0))
            } else if amount == 0 {
                (value, carry_in)
            } else if amount % 32 == 0 {
                (value, bit_exec(value, 31))
            } else {
                let n = amount % 32;
                ((value >> n) | (value << (32 - n)), bit_exec(value, n - 1))
            }
        },
    }
}

/// `x` read as a two's complement number.
pub open spec fn signed(x: u32) -> int {
    if x < 0x8000_0000 {
        x as int
    } else {
        x as int - 0x1_0000_0000
    }
}

/// The low 32 bits of an integer.
pub open spec fn wrap(x: int) -> u32 {
    (x % 0x1_0000_0000) as u32
}

pub open spec fn signed_overflow(x: int) -> bool {
    !(-0x8000_0000 <= x < 0x8000_0000)
}

/// Result, carry and signed overflow of `a + b + carry_in`.
pub open spec fn add_spec(a: u32, b: u32, carry_in: bool) -> (u32, bool, bool) {
    let c: int = if carry_in { 1 } else { 0 };
    (wrap(a + b + c), a + b + c > u32::MAX, signed_overflow(signed(a) + signed(b) + c))
}

/// Result, carry (no borrow) and signed overflow of `a - b - !carry_in`.
pub open spec fn sub_spec(a: u32, b: u32, carry_in: bool) -> (u32, bool, bool) {
    let borrow: int = if carry_in { 0 } else { 1 };
    (wrap(a - b - borrow), a - b - borrow >= 0, signed_overflow(signed(a) - signed(b) - borrow))
}

/// The operations that set carry and overflow from the arithmetic.
pub open spec fn is_arithmetic(op: AluOpcode) -> bool {
    match op {
        AluOpcode::Subtract | AluOpcode::RightSubtract | AluOpcode::Add | AluOpcode::AddCarry
        | AluOpcode::SubtractCarry | AluOpcode::RightSubtractCarry | AluOpcode::CompareSubtract
        | AluOpcode::CompareAdd => true,
        _ => false,
    }
}

/// The operations that only set flags and write no register.
pub open spec fn is_test(op: AluOpcode) -> bool {
    match op {
        AluOpcode::TestAnd | AluOpcode::TestExclusiveOr | AluOpcode::CompareSubtract
        | AluOpcode::CompareAdd => true,
        _ => false,
    }
}

/// Result, carry and overflow of a data-processing operation; carry and
/// overflow are `false` for the logical ones, which do not set them.
pub open spec fn alu_spec(op: AluOpcode, a: u32, b: u32, carry_in: bool) -> (u32, bool, bool) {
    match op {
        AluOpcode::And | AluOpcode::TestAnd => (a & b, false, false),
        AluOpcode::ExclusiveOr | AluOpcode::TestExclusiveOr => (a ^ b, false, false),
        AluOpcode::Subtract | AluOpcode::CompareSubtract => sub_spec(a, b, true),
        AluOpcode::RightSubtract => sub_spec(b, a, true),
        AluOpcode::Add | AluOpcode::CompareAdd => add_spec(a, b, false),
        AluOpcode::AddCarry => add_spec(a, b, carry_in),
        AluOpcode::SubtractCarry => sub_spec(a, b, carry_in),
        AluOpcode::RightSubtractCarry => sub_spec(b, a, carry_in),
        AluOpcode::Or => (a | b, false, false),
        AluOpcode::Move => (b, false, false),
        AluOpcode::BitClear => (a & !b, false, false),
        AluOpcode::MoveNot => (!b, false, false),
    }
}

fn signed_exec(x: u32) -> (r: i64)
    ensures
        r == signed(x),
{
    if x < 0x8000_0000 {
        x as i64
    } else {
        x as i64 - 0x1_0000_0000
    }
}

proof fn lemma_wrap(x: int)
    requires
        -0x1_0000_0000 <= x < 0x2_0000_0000,
    ensures
        wrap(x) == (if x < 0 { x + 0x1_0000_0000 } else if x > u32::MAX { x - 0x1_0000_0000 } else { x }),
{
}

pub fn add_with_carry(a: u32, b: u32, carry_in: bool) -> (r: (u32, bool, bool))
    ensures
        r == add_spec(a, b, carry_in),
{
    let c: u64 = if carry_in { 1 } else { 0 };
    let wide: u64 = a as u64 + b as u64 + c;
    proof {
        lemma_wrap(a + b + c);
    }
    let result: u32 = if wide > 0xFFFF_FFFF { (wide - 0x1_0000_0000) as u32 } else { wide as u32 };
    let s: i64 = signed_exec(a) + signed_exec(b) + c as i64;
    (result, wide > 0xFFFF_FFFF, s < -0x8000_0000 || s >= 0x8000_0000)
}

pub fn subtract_with_carry(a: u32, b: u32, carry_in: bool) -> (r: (u32, bool, bool))
    ensures
        r == sub_spec(a, b, carry_in),
{
    let borrow: i64 = if carry_in { 0 } else { 1 };
    let wide: i64 = a as i64 - b as i64 - borrow;
    proof {
        lemma_wrap(a - b - borrow);
    }
    let result: u32 = if wide < 0 { (wide + 0x1_0000_0000) as u32 } else { wide as u32 };
    let s: i64 = signed_exec(a) - signed_exec(b) - borrow;
    (result, wide >= 0, s < -0x8000_0000 || s >= 0x8000_0000)
}

/// A data-processing operation on plain values.
pub fn alu_operation(op: AluOpcode, a: u32, b: u32, carry_in: bool) -> (r: (u32, bool, bool))
    ensures
        r == alu_spec(op, a, b, carry_in),
{
    match op {
        AluOpcode::And | AluOpcode::TestAnd => (a & b, false, false),
        AluOpcode::ExclusiveOr | AluOpcode::TestExclusiveOr => (a ^ b, false, false),
        AluOpcode::Subtract | AluOpcode::CompareSubtract => subtract_with_carry(a, b, true),
        AluOpcode::RightSubtract => subtract_with_carry(b, a, true),
        AluOpcode::Add | AluOpcode::CompareAdd => add_with_carry(a, b, false),
        AluOpcode::AddCarry => add_with_carry(a, b, carry_in),
        AluOpcode::SubtractCarry => subtract_with_carry(a, b, carry_in),
        AluOpcode::RightSubtractCarry => subtract_with_carry(b, a, carry_in),
        AluOpcode::Or => (a | b, false, false),
        AluOpcode::Move => (b, false, false),
        AluOpcode::BitClear => (a & !b, false, false),
        AluOpcode::MoveNot => (!b, false, false),
    }
}

} // verus!
