use vstd::prelude::*;

verus! {

/// The format of a 16-bit instruction, as its top byte tells it.
#[derive(Clone, Copy, Debug, PartialEq, Eq, Structural)]
pub enum ThumbInstruction {
    MoveShiftedRegister,
    AddSubtract,
    AluImmediate,
    AluOperations,
    HiRegisterOperation,
    PcRelativeLoad,
    LoadStoreRegisterOffset,
    LoadStoreImmediateOffset,
    LoadStoreHalfword,
    SpRelativeLoadStore,
    LoadAddress,
    AddOffsetToStackPointer,
    PushPop,
    MultipleLoadStore,
    ConditionalBranch,
    SoftwareInterrupt,
    UnconditionalBranch,
    LongBranchWithLink,
    Undefined,
}

/// Format of the 16-bit instruction whose top byte is `b`.
pub open spec fn thumb_shape(b: u8) -> ThumbInstruction {
    let group = b & 0xE0;
    if group == 0x00 {
        if b & 0x18 == 0x18 {
            ThumbInstruction::AddSubtract
        } else {
            ThumbInstruction::MoveShiftedRegister
        }
    } else if group == 0x20 {
        ThumbInstruction::AluImmediate
    } else if group == 0x40 {
        if b & 0x10 != 0 {
            ThumbInstruction::LoadStoreRegisterOffset
        } else if b & 0x08 != 0 {
            ThumbInstruction::PcRelativeLoad
        } else if b & 0x04 != 0 {
            ThumbInstruction::HiRegisterOperation
        } else {
            ThumbInstruction::AluOperations
        }
    } else if group == 0x60 {
        ThumbInstruction::LoadStoreImmediateOffset
    } else if group == 0x80 {
        if b & 0x10 != 0 {
            ThumbInstruction::SpRelativeLoadStore
        } else {
            ThumbInstruction::LoadStoreHalfword
        }
    } else if group == 0xA0 {
        if b & 0x10 == 0 {
            ThumbInstruction::LoadAddress
        } else if b & 0x0F == 0 {
            ThumbInstruction::AddOffsetToStackPointer
        } else if b & 0x06 == 0x04 {
            ThumbInstruction::PushPop
        } else {
            ThumbInstruction::Undefined
        }
    } else if group == 0xC0 {
        if b & 0x10 == 0 {
            ThumbInstruction::MultipleLoadStore
        } else if b & 0x0F == 0x0F {
            ThumbInstruction::SoftwareInterrupt
        } else {
            ThumbInstruction::ConditionalBranch
        }
    } else {
        if b & 0x18 == 0 {
            ThumbInstruction::UnconditionalBranch
        } else if b & 0x18 == 0x08 {
            ThumbInstruction::Undefined
        } else {
            ThumbInstruction::LongBranchWithLink
        }
    }
}

/// Decodes the format of a 16-bit instruction from its top byte.
pub fn decode_thumb(bits15_8: u8) -> (r: ThumbInstruction)
    ensures
        r == thumb_shape(bits15_8),
{
    match bits15_8 & 0xE0 {
        0x00 => if bits15_8 & 0x18 == 0x18 {
            ThumbInstruction::AddSubtract
        } else {
            ThumbInstruction::MoveShiftedRegister
        },
        0x20 => ThumbInstruction::AluImmediate,
        0x40 => if bits15_8 & 0x10 != 0 {
            ThumbInstruction::LoadStoreRegisterOffset
        } else if bits15_8 & 0x08 != 0 {
            ThumbInstruction::PcRelativeLoad
        } else if bits15_8 & 0x04 != 0 {
            ThumbInstruction::HiRegisterOperation
        } else {
            ThumbInstruction::AluOperations
        },
        0x60 => ThumbInstruction::LoadStoreImmediateOffset,
        0x80 => if bits15_8 & 0x10 != 0 {
            ThumbInstruction::SpRelativeLoadStore
        } else {
            ThumbInstruction::LoadStoreHalfword
        },
        0xA0 => if bits15_8 & 0x10 == 0 {
            ThumbInstruction::LoadAddress
        } else if bits15_8 & 0x0F == 0 {
            ThumbInstruction::AddOffsetToStackPointer
        } else if bits15_8 & 0x06 == 0x04 {
            ThumbInstruction::PushPop
        } else {
            ThumbInstruction::Undefined
        },
        0xC0 => if bits15_8 & 0x10 == 0 {
            ThumbInstruction::MultipleLoadStore
        } else if bits15_8 & 0x0F == 0x0F {
            ThumbInstruction::SoftwareInterrupt
        } else {
            ThumbInstruction::ConditionalBranch
        },
        _ => if bits15_8 & 0x18 == 0 {
            ThumbInstruction::UnconditionalBranch
        } else if bits15_8 & 0x18 == 0x08 {
            ThumbInstruction::Undefined
        } else {
            ThumbInstruction::LongBranchWithLink
        },
    }
}

/// The decode table of 16-bit instructions, indexed by the top byte.
pub fn thumb_instruction_lut() -> (r: Vec<ThumbInstruction>)
    ensures
        r@.len() == 256,
        forall|key: int| 0 <= key < 256 ==> #[trigger] r@[key] == thumb_shape(key as u8),
{
    let mut table: Vec<ThumbInstruction> = Vec::with_capacity(256);
    let mut key: usize = 0;
    while key < 256
        invariant
            key <= 256,
            table@.len() == key,
            forall|k: int| 0 <= k < key ==> #[trigger] table@[k] == thumb_shape(k as u8),
        decreases 256 - key,
    {
        table.push(decode_thumb(key as u8));
        key += 1;
    }
    table
}

} // verus!
