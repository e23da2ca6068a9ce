use vstd::prelude::*;

pub mod alu;
pub mod constants;
pub mod lut;
pub mod thumb_lut;

use self::constants::{
    AluOpcode, HalfwordTransferType, Operand2Type, ShiftType, alu_code, shift_code, to_alu_opcode, to_shift_type,
    ABORT_MODE, CARRY_FLAG, FIQ_BIT, FIQ_MODE, IRQ_BIT, IRQ_MODE, MODE_MASK, OVERFLOW_FLAG, START_PC,
    STACK_IRQ_START, STACK_SUPERVISOR_START, STACK_USER_SYSTEM_START, STATE_BIT, SUPERVISOR_MODE,
    SIGN_FLAG, SYSTEM_MODE, UNDEFINED_MODE, USER_MODE, ZERO_FLAG,
};
use self::alu::{alu_operation, alu_spec, bit, is_arithmetic, is_test, ror, shift, shift_spec, signed, wrap};
use crate::memory::Memory;
use self::lut::{Instruction, arm_key, arm_key_shape, build_condition_lut, condition_passed, instruction_lut};
use self::thumb_lut::{ThumbInstruction, thumb_instruction_lut, thumb_shape};

verus! {

/// Why an instruction could not complete.
#[derive(Clone, Copy, Debug, PartialEq, Eq, Structural)]
pub enum CpuFault {
    /// The decode table marks the opcode as having no meaning.
    UndefinedInstruction { opcode: u32 },
    /// A status-register write tried to set the control field in User mode.
    PrivilegeViolation,
    /// A saved status register was written in a mode that has none.
    ModeViolation,
    /// A status-register write or restore would enter a mode that does not exist.
    InvalidMode { mode: u32 },
    /// Nothing is mapped at the address.
    BusError { address: u32 },
}

/// The exceptions that the core enters itself or on the host's request.
#[derive(Clone, Copy, Debug, PartialEq, Eq, Structural)]
pub enum ExceptionKind {
    /// An undefined instruction reached execution.
    Undefined,
    /// A software interrupt instruction executed.
    SoftwareInterrupt,
}

pub open spec fn exception_mode(e: ExceptionKind) -> u32 {
    match e {
        ExceptionKind::Undefined => UNDEFINED_MODE,
        ExceptionKind::SoftwareInterrupt => SUPERVISOR_MODE,
    }
}

pub open spec fn exception_vector(e: ExceptionKind) -> u32 {
    match e {
        ExceptionKind::Undefined => 0x04,
        ExceptionKind::SoftwareInterrupt => 0x08,
    }
}

/// The decoded entry that travels with an opcode through the pipeline.
#[derive(Clone, Copy, Debug, PartialEq, Eq, Structural)]
pub enum Decoded {
    Arm(Instruction),
    Thumb(ThumbInstruction),
}

/// The instruction in the decode/execute stage.
#[derive(Clone, Copy, Debug, PartialEq, Eq, Structural)]
pub struct PipelineStage2 {
    pub opcode: u32,
    pub decoded: Decoded,
}

pub open spec fn mode_of(cpsr: u32) -> u32 {
    cpsr & MODE_MASK
}

pub open spec fn valid_mode(m: u32) -> bool {
    m == USER_MODE || m == FIQ_MODE || m == IRQ_MODE || m == SUPERVISOR_MODE || m == ABORT_MODE
        || m == UNDEFINED_MODE || m == SYSTEM_MODE
}

/// Register bank of a mode: 0 User and System, 1 FIQ, 2 IRQ, 3 Supervisor,
/// 4 Abort, 5 Undefined.
pub open spec fn bank_of(m: u32) -> int {
    if m == FIQ_MODE {
        1
    } else if m == IRQ_MODE {
        2
    } else if m == SUPERVISOR_MODE {
        3
    } else if m == ABORT_MODE {
        4
    } else if m == UNDEFINED_MODE {
        5
    } else {
        0
    }
}

/// The bank of the CPSR's mode.
pub open spec fn current_bank(cpsr: u32) -> int {
    bank_of(mode_of(cpsr))
}

pub open spec fn thumb_state(cpsr: u32) -> bool {
    cpsr & STATE_BIT != 0
}

/// The condition flags as a nibble: negative, zero, carry, overflow.
pub open spec fn flags_of(cpsr: u32) -> u32 {
    cpsr >> 28u32
}

pub open spec fn carry_of(cpsr: u32) -> bool {
    cpsr & CARRY_FLAG != 0
}

/// `value` written under `mask` over `old`.
pub open spec fn masked_write(old: u32, mask: u32, value: u32) -> u32 {
    (value & mask) | (old & !mask)
}

/// The CPSR with negative and zero set from a result, the other bits kept.
pub open spec fn with_nz(cpsr: u32, result: u32) -> u32 {
    (cpsr & 0x3FFF_FFFF) | (result & 0x8000_0000) | (if result == 0 { ZERO_FLAG } else { 0 })
}

/// The CPSR with carry and overflow set, the other bits kept.
pub open spec fn with_cv(cpsr: u32, carry: bool, overflow: bool) -> u32 {
    (cpsr & 0xCFFF_FFFF) | (if carry { CARRY_FLAG } else { 0 }) | (if overflow { OVERFLOW_FLAG } else { 0 })
}

/// The CPSR with carry set, the other bits kept.
pub open spec fn with_c(cpsr: u32, carry: bool) -> u32 {
    (cpsr & 0xDFFF_FFFF) | (if carry { CARRY_FLAG } else { 0 })
}

/// An ARM7TDMI processor: the active register file, the banked copies of the
/// privileged modes, the status registers, the two pipeline stages and the
/// decode tables.
pub struct Arm7 {
    pub registers: [u32; 16],
    /// Current Program Status Register.
    pub cpsr_register: u32,
    /// Saved status registers of FIQ, IRQ, Supervisor, Abort and Undefined.
    pub saved_psr: [u32; 5],
    /// r8-r12 of the modes that are not active: FIQ's own while another mode
    /// runs, the shared ones while FIQ runs.
    pub fiq_lo_banked: [u32; 5],
    pub user_banked: [u32; 2],
    pub fiq_hi_banked: [u32; 2],
    pub supervisor_banked: [u32; 2],
    pub abort_banked: [u32; 2],
    pub irq_banked: [u32; 2],
    pub undefinied_banked: [u32; 2],
    pub pipeline_stage_1: Option<u32>,
    pub pipeline_stage_2: Option<PipelineStage2>,
    pub flush: bool,
    pub condition_lut: Vec<bool>,
    pub arm_lut: Vec<Instruction>,
    pub thumb_lut: Vec<ThumbInstruction>,
}

impl Arm7 {
    /// r13 and r14 as stored for a bank that is not active.
    pub open spec fn stored_bank(&self, b: int) -> [u32; 2] {
        if b == 0 {
            self.user_banked
        } else if b == 1 {
            self.fiq_hi_banked
        } else if b == 2 {
            self.irq_banked
        } else if b == 3 {
            self.supervisor_banked
        } else if b == 4 {
            self.abort_banked
        } else {
            self.undefinied_banked
        }
    }

    /// Register `r` of bank `b`, with bank `cur` active.
    pub open spec fn view_as(&self, cur: int, b: int, r: int) -> u32 {
        if 8 <= r <= 12 {
            if (b == 1) == (cur == 1) {
                self.registers[r]
            } else {
                self.fiq_lo_banked[r - 8]
            }
        } else if r == 13 || r == 14 {
            if b == cur {
                self.registers[r]
            } else {
                self.stored_bank(b)[r - 13]
            }
        } else {
            self.registers[r]
        }
    }

    /// Register `r` as a mode of bank `b` sees it.
    pub open spec fn banked(&self, b: int, r: int) -> u32 {
        self.view_as(current_bank(self.cpsr_register), b, r)
    }

    /// The banked copies that no active mode sees are as in `other`.
    pub open spec fn same_inactive(&self, other: &Arm7) -> bool {
        &&& self.fiq_lo_banked == other.fiq_lo_banked
        &&& forall|b: int| #[trigger] self.stored_bank(b) == other.stored_bank(b)
    }

    /// Every register of every bank but the program counter, which no mode banks.
    pub open spec fn same_banks(&self, other: &Arm7) -> bool {
        forall|b: int, r: int| 0 <= b < 6 && 0 <= r < 15 ==> #[trigger] self.banked(b, r) == other.banked(b, r)
    }

    /// The saved status register of the active mode; `None` in User and System mode.
    pub open spec fn spsr(&self) -> Option<u32> {
        let b = current_bank(self.cpsr_register);
        if b == 0 {
            None
        } else {
            Some(self.saved_psr[b - 1])
        }
    }

    /// The active register file.
    pub open spec fn regs(&self) -> Seq<u32> {
        self.registers@
    }

    pub open spec fn cpsr(&self) -> u32 {
        self.cpsr_register
    }

    pub open spec fn stage1(&self) -> Option<u32> {
        self.pipeline_stage_1
    }

    pub open spec fn stage2(&self) -> Option<PipelineStage2> {
        self.pipeline_stage_2
    }

    pub open spec fn flush_requested(&self) -> bool {
        self.flush
    }

    /// The decode tables hold what decoding gives, and the mode exists.
    pub open spec fn wf(&self) -> bool {
        &&& valid_mode(mode_of(self.cpsr_register))
        &&& self.condition_lut@.len() == 256
        &&& forall|code: u32, flags: u32|
            code < 16 && flags < 16 ==> #[trigger] self.condition_lut@[code * 16 + flags] == condition_passed(
                code,
                flags,
            )
        &&& self.arm_lut@.len() == 4096
        &&& forall|key: int| 0 <= key < 4096 ==> #[trigger] self.arm_lut@[key] == arm_key_shape(key)
        &&& self.thumb_lut@.len() == 256
        &&& forall|key: int| 0 <= key < 256 ==> #[trigger] self.thumb_lut@[key] == thumb_shape(key as u8)
    }

    /// Everything but the registers, the CPSR and the flush request is as in `other`.
    pub open spec fn same_frame(&self, other: &Arm7) -> bool {
        &&& self.saved_psr == other.saved_psr
        &&& self.pipeline_stage_1 == other.pipeline_stage_1
        &&& self.pipeline_stage_2 == other.pipeline_stage_2
        &&& self.condition_lut == other.condition_lut
        &&& self.arm_lut == other.arm_lut
        &&& self.thumb_lut == other.thumb_lut
    }

    /// Both stages hold what memory holds at the two instruction slots below
    /// the program counter, and no flush is pending.
    pub open spec fn refilled(&self, memory: &Memory) -> bool {
        let thumb = thumb_state(self.cpsr_register);
        let w = step_width(self.cpsr_register);
        let pc = self.registers[15];
        let first = fetch_spec(memory, wrap(pc - 2 * w), thumb);
        &&& !self.flush
        &&& first is Some
        &&& self.pipeline_stage_2 == Some(entry_spec(first->0, thumb))
        &&& self.pipeline_stage_1 == fetch_spec(memory, wrap(pc - w), thumb)
    }

    /// The effect of a data-processing opcode, as `alu_command` performs it.
    pub open spec fn alu_effect(&self, before: &Arm7, opcode: u32, r: Result<(), CpuFault>) -> bool {
        let register_shift = !bit(opcode, 25) && bit(opcode, 4);
        let op = alu_op_of(opcode);
        let rd = (opcode >> 12u32) & 0xF;
        let operand_1 = before.operand_reg(((opcode >> 16u32) & 0xF) as int, if register_shift { 4 } else { 0 });
        let (operand_2, shifter_carry) = before.alu_operand2(opcode);
        let (result, carry, overflow) = alu_spec(op, operand_1, operand_2, carry_of(before.cpsr()));
        let regs = if is_test(op) {
            before.regs()
        } else {
            before.regs().update(rd as int, result)
        };
        &&& self.flush_requested() == (before.flush_requested() || (rd == 15 && !is_test(op)))
        &&& !(bit(opcode, 20) && rd == 15) ==> self.same_inactive(before)
        &&& if !bit(opcode, 20) {
            r is Ok && self.regs() == regs && self.cpsr() == before.cpsr()
        } else if rd != 15 {
            &&& r is Ok
            &&& self.regs() == regs
            &&& self.cpsr() == Self::alu_flags(with_c(before.cpsr(), shifter_carry), op, result, carry, overflow)
        } else {
            match before.spsr() {
                None => r is Ok && self.regs() == regs && self.same_inactive(before),
                Some(saved) => if valid_mode(mode_of(saved)) {
                    &&& r is Ok
                    &&& self.cpsr() == saved
                    &&& self.regs()[15] == regs[15]
                    &&& self.same_banks(before)
                } else {
                    r == Err::<(), CpuFault>(CpuFault::InvalidMode { mode: mode_of(saved) })
                },
            }
        }
    }

    /// The effect of a multiply.
    pub open spec fn multiply_effect(&self, before: &Arm7, opcode: u32, accumulate: bool, set_conditions: bool) -> bool {
        let rd = (opcode >> 16u32) & 0xF;
        let result = multiply_result(before.registers@, opcode, accumulate);
        &&& self.registers@ == before.registers@.update(rd as int, result)
        &&& self.cpsr_register == if set_conditions { with_nz(before.cpsr_register, result) } else { before.cpsr_register }
        &&& self.flush == (before.flush || rd == 15)
    }

    /// The effect of a multiply long.
    pub open spec fn multiply_long_effect(
        &self,
        before: &Arm7,
        opcode: u32,
        signed_multiply: bool,
        accumulate: bool,
        set_conditions: bool,
    ) -> bool {
        let hi = (opcode >> 16u32) & 0xF;
        let lo = (opcode >> 12u32) & 0xF;
        let result = multiply_long_result(before.registers@, opcode, signed_multiply, accumulate);
        &&& self.registers@ == before.registers@.update(hi as int, (result / 0x1_0000_0000) as u32).update(
            lo as int,
            (result % 0x1_0000_0000) as u32,
        )
        &&& self.cpsr_register == if set_conditions { with_nz64(before.cpsr_register, result) } else { before.cpsr_register }
        &&& self.flush == (before.flush || hi == 15 || lo == 15)
    }

    /// The effect of a single data transfer on the processor and on memory.
    pub open spec fn single_transfer_effect(&self, before: &Arm7, mem_before: &Memory, mem_after: &Memory, opcode: u32, pre_indexing: bool, add_offset: bool, transfer_byte: bool, write_back: bool, load: bool, r: Result<(), CpuFault>) -> bool {
        let rn = ((opcode >> 16u32) & 0xF) as int;
        let rd = ((opcode >> 12u32) & 0xF) as int;
        let base = before.registers[rn];
        let updated = offset_address(base, before.transfer_offset(opcode), add_offset);
        let address = if pre_indexing { updated } else { base };
        let wb = (write_back || !pre_indexing) && !(load && rd == rn);
        let regs = if wb { before.registers@.update(rn, updated) } else { before.registers@ };
        let mapped = if transfer_byte { mem_before.mapped(address) } else { mem_before.word_mapped(address) };
        if !mapped {
            &&& r == Err::<(), CpuFault>(CpuFault::BusError { address })
            &&& self.registers == before.registers
            &&& self.flush == before.flush
            &&& mem_after.same_contents(mem_before)
        } else if load {
            &&& r is Ok
            &&& mem_after.same_contents(mem_before)
            &&& self.registers@ == regs.update(
                rd,
                if transfer_byte {
                    mem_before.byte(address) as u32
                } else {
                    load_rotate(mem_before.word_at(address), address)
                },
            )
            &&& self.flush == (before.flush || rd == 15 || (wb && rn == 15))
        } else {
            let value = before.operand_reg(rd, 4);
            &&& r is Ok
            &&& self.registers@ == regs
            &&& self.flush == (before.flush || (wb && rn == 15))
            &&& if transfer_byte {
                mem_after.byte(address) == value as u8 && mem_after.same_except(mem_before, address, 1)
            } else {
                mem_after.word_at(address) == value && mem_after.same_except(
                    mem_before,
                    address & 0xFFFF_FFFC,
                    4,
                )
            }
        }
    }

    /// The effect of a halfword or signed data transfer on the processor and on memory.
    pub open spec fn halfword_transfer_effect(&self, before: &Arm7, mem_before: &Memory, mem_after: &Memory, opcode: u32, immediate: bool, pre_indexing: bool, add_offset: bool, write_back: bool, load: bool, kind: HalfwordTransferType, r: Result<(), CpuFault>) -> bool {
        let rn = ((opcode >> 16u32) & 0xF) as int;
        let rd = ((opcode >> 12u32) & 0xF) as int;
        let base = before.registers[rn];
        let updated = offset_address(base, before.halfword_offset(opcode, immediate), add_offset);
        let address = if pre_indexing { updated } else { base };
        let wb = (write_back || !pre_indexing) && !(load && rd == rn);
        let regs = if wb { before.registers@.update(rn, updated) } else { before.registers@ };
        if kind == HalfwordTransferType::NoOp || (!load && kind != HalfwordTransferType::UnsignedHalfwords) {
            r == Err::<(), CpuFault>(CpuFault::UndefinedInstruction { opcode }) && *self == *before
                && *mem_after == *mem_before
        } else if load {
            &&& mem_after.same_contents(mem_before)
            &&& match Self::halfword_load_value(mem_before, address, kind) {
                None => r == Err::<(), CpuFault>(CpuFault::BusError { address })
                    && self.registers == before.registers && self.flush == before.flush,
                Some(v) => {
                    &&& r is Ok
                    &&& self.registers@ == regs.update(rd, v)
                    &&& self.flush == (before.flush || rd == 15 || (wb && rn == 15))
                },
            }
        } else if mem_before.halfword_mapped(address) {
            &&& r is Ok
            &&& self.registers@ == regs
            &&& self.flush == (before.flush || (wb && rn == 15))
            &&& mem_after.halfword_at(address) == before.operand_reg(rd, 4) as u16
            &&& mem_after.same_except(mem_before, address & 0xFFFF_FFFE, 2)
        } else {
            r == Err::<(), CpuFault>(CpuFault::BusError { address }) && self.registers
                == before.registers && self.flush == before.flush
                && mem_after.same_contents(mem_before)
        }
    }

    /// The effect of an atomic swap on the processor and on memory.
    pub open spec fn swap_effect(&self, before: &Arm7, mem_before: &Memory, mem_after: &Memory, opcode: u32, transfer_byte: bool, r: Result<(), CpuFault>) -> bool {
        let address = before.registers[((opcode >> 16u32) & 0xF) as int];
        let rd = ((opcode >> 12u32) & 0xF) as int;
        let value = before.registers[(opcode & 0xF) as int];
        let mapped = if transfer_byte { mem_before.mapped(address) } else { mem_before.word_mapped(address) };
        if mapped {
            &&& r is Ok
            &&& self.registers@ == before.registers@.update(
                rd,
                if transfer_byte {
                    mem_before.byte(address) as u32
                } else {
                    load_rotate(mem_before.word_at(address), address)
                },
            )
            &&& self.flush == (before.flush || rd == 15)
            &&& if transfer_byte {
                mem_after.byte(address) == value as u8 && mem_after.same_except(mem_before, address, 1)
            } else {
                mem_after.word_at(address) == value && mem_after.same_except(mem_before, address & 0xFFFF_FFFC, 4)
            }
        } else {
            &&& r == Err::<(), CpuFault>(CpuFault::BusError { address })
            &&& self.registers == before.registers
            &&& mem_after.same_contents(mem_before)
        }
    }

    /// The effect of a block data transfer, over the banked view of the
    /// registers: the registers of bank `xb` (the User bank for an S-bit
    /// transfer that is no exception return, else the active one) to or from
    /// the block's words, lowest register at the lowest address; the base
    /// written back in the active bank; for an exception return, the CPSR from
    /// the saved status register. Nothing changes where a word of the block is
    /// not mapped (the first such slot is reported) or where an exception
    /// return would enter no mode.
    pub open spec fn block_effect(
        &self,
        before: &Arm7,
        mem_before: &Memory,
        mem_after: &Memory,
        opcode: u32,
        pre_indexing: bool,
        add_offset: bool,
        load_psr: bool,
        write_back: bool,
        load: bool,
        r: Result<(), CpuFault>,
    ) -> bool {
        let mask = opcode & 0xFFFF;
        let rn = ((opcode >> 16u32) & 0xF) as int;
        let n = count_below(mask, 16);
        let base = before.registers[rn];
        let start = block_start(base, n, pre_indexing, add_offset);
        let restores = load && load_psr && bit(mask, 15);
        let cur = current_bank(before.cpsr_register);
        let xb = if load_psr && !restores { 0 } else { cur };
        let wb = write_back && !(load && bit(mask, rn as u32));
        let bad_mode = restores && before.spsr() is Some && !valid_mode(mode_of(before.spsr()->0));
        if !block_mapped(mem_before, start, mask) {
            &&& first_unmapped_slot(mem_before, start, mask, r)
            &&& *self == *before
            &&& *mem_after == *mem_before
        } else if bad_mode {
            &&& r == Err::<(), CpuFault>(CpuFault::InvalidMode { mode: mode_of(before.spsr()->0) })
            &&& *self == *before
            &&& *mem_after == *mem_before
        } else {
            &&& r is Ok
            &&& self.saved_psr == before.saved_psr
            &&& self.cpsr_register == (if restores && before.spsr() is Some {
                before.spsr()->0
            } else {
                before.cpsr_register
            })
            &&& self.flush == (before.flush || (load && bit(mask, 15)) || (wb && rn == 15))
            &&& forall|b: int, i: int|
                0 <= b < 6 && 0 <= i < 15 ==> #[trigger] self.banked(b, i) == (if load && bit(mask, i as u32)
                    && shares(b, xb, i) {
                    mem_before.word_at(block_slot(start, mask, i))
                } else if wb && i == rn && shares(b, cur, i) {
                    block_end(base, n, add_offset)
                } else {
                    before.banked(b, i)
                })
            &&& self.registers[15] == (if load && bit(mask, 15) {
                mem_before.word_at(block_slot(start, mask, 15))
            } else if wb && rn == 15 {
                block_end(base, n, add_offset)
            } else {
                before.registers[15]
            })
            &&& load ==> mem_after.same_contents(mem_before)
            &&& !load ==> forall|i: int| 0 <= i < 16 && bit(mask, i as u32) ==> #[trigger] mem_after.word_at(
                block_slot(start, mask, i),
            ) == (if i == 15 { before.operand_reg(15, 4) } else { before.banked(xb, i) })
            &&& !load ==> mem_after.same_outside(mem_before, start & 0xFFFF_FFFC, (4 * n) as int)
        }
    }

    /// The effect of a status-register write of `value` under `mask`.
    pub open spec fn msr_effect(
        &self,
        before: &Arm7,
        destination_is_spsr: bool,
        mask: u32,
        value: u32,
        r: Result<(), CpuFault>,
    ) -> bool {
        let user_control = mode_of(before.cpsr()) == USER_MODE && mask & 0xFF != 0;
        &&& user_control ==> r == Err::<(), CpuFault>(CpuFault::PrivilegeViolation)
        &&& r is Err ==> *self == *before
        &&& !user_control ==> if destination_is_spsr {
            match before.spsr() {
                None => r == Err::<(), CpuFault>(CpuFault::ModeViolation),
                Some(s) => {
                    &&& r is Ok
                    &&& self.spsr() == Some(masked_write(s, mask, value))
                    &&& self.regs() == before.regs()
                    &&& self.cpsr() == before.cpsr()
                },
            }
        } else {
            let c = masked_write(before.cpsr(), mask, value);
            if valid_mode(mode_of(c)) {
                &&& r is Ok
                &&& self.cpsr() == c
                &&& self.regs()[15] == before.regs()[15]
                &&& self.same_banks(before)
                &&& self.same_frame(before)
            } else {
                r == Err::<(), CpuFault>(CpuFault::InvalidMode { mode: mode_of(c) })
            }
        }
    }

    /// The effect of a decoded 32-bit instruction, shape by shape.
    pub open spec fn arm_effect(
        &self,
        before: &Arm7,
        mem_before: &Memory,
        mem_after: &Memory,
        opcode: u32,
        instruction: Instruction,
        r: Result<(), CpuFault>,
    ) -> bool {
        match instruction {
            Instruction::Branch { link } => {
                let pc = before.registers[15];
                let regs = if link { before.registers@.update(14, wrap(pc - 4)) } else { before.registers@ };
                &&& r is Ok
                &&& self.flush
                &&& self.cpsr_register == before.cpsr_register
                &&& self.registers@ == regs.update(15, wrap(pc + branch_offset(opcode)))
                &&& self.saved_psr == before.saved_psr
                &&& self.same_inactive(before)
                &&& *mem_after == *mem_before
            },
            Instruction::BranchAndExchange => {
                let target = before.registers[(opcode & 0xF) as int];
                &&& r is Ok
                &&& self.flush
                &&& self.registers@ == before.registers@.update(15, target & 0xFFFF_FFFE)
                &&& self.cpsr_register == (before.cpsr_register & !STATE_BIT) | ((target & 1) << 5u32)
            },
            Instruction::Alu { .. } => self.alu_effect(before, opcode, r),
            Instruction::MRSTransfer { source_is_spsr } => {
                let value = if source_is_spsr && before.spsr() is Some {
                    before.spsr()->0
                } else {
                    before.cpsr_register
                };
                r is Ok && self.registers@ == before.registers@.update(
                    ((opcode >> 12u32) & 0xF) as int,
                    value,
                ) && self.cpsr_register == before.cpsr_register
            },
            Instruction::Multiply { accumulate, set_conditions } => r is Ok && self.multiply_effect(
                before,
                opcode,
                accumulate,
                set_conditions,
            ),
            Instruction::MultiplyLong { signed, accumulate, set_conditions } => r is Ok
                && self.multiply_long_effect(before, opcode, signed, accumulate, set_conditions),
            Instruction::SingleDataTransfer { pre_indexing, add_offset, transfer_byte, write_back, load, .. } => self.single_transfer_effect(
                before,
                mem_before,
                mem_after,
                opcode,
                pre_indexing,
                add_offset,
                transfer_byte,
                write_back,
                load,
                r,
            ),
            Instruction::HalfwordTransfer {
                immediate,
                pre_indexing,
                add_offset,
                write_back,
                load,
                halfword_transfer_type,
            } => self.halfword_transfer_effect(
                before,
                mem_before,
                mem_after,
                opcode,
                immediate,
                pre_indexing,
                add_offset,
                write_back,
                load,
                halfword_transfer_type,
                r,
            ),
            Instruction::SingleDataSwap { transfer_byte } => self.swap_effect(
                before,
                mem_before,
                mem_after,
                opcode,
                transfer_byte,
                r,
            ),
            Instruction::SoftwareInterrupt => {
                &&& r is Ok
                &&& self.flush
                &&& self.cpsr_register == (before.cpsr_register & 0xFFFF_FFC0) | SUPERVISOR_MODE | IRQ_BIT
                &&& self.spsr() == Some(before.cpsr_register)
                &&& self.registers[15] == 0x08
            },
            Instruction::BlockDataTransfer { pre_indexing, add_offset, load_psr, write_back, load } => self.block_effect(
                before,
                mem_before,
                mem_after,
                opcode,
                pre_indexing,
                add_offset,
                load_psr,
                write_back,
                load,
                r,
            ),
            Instruction::MSRTransfer { operand2_type, destination_is_spsr } => {
                let value = if operand2_type == Operand2Type::ImmediateWithRotation {
                    shift_spec(
                        ShiftType::RotateRight,
                        (((opcode >> 8u32) & 0xF) * 2) as u32,
                        opcode & 0xFF,
                        false,
                        true,
                    ).0
                } else {
                    before.registers[(opcode & 0xF) as int]
                };
                self.msr_effect(before, destination_is_spsr, msr_mask_spec(opcode), value, r)
            },
            Instruction::Undefined => {
                &&& r == Err::<(), CpuFault>(CpuFault::UndefinedInstruction { opcode })
                &&& *self == *before
                &&& *mem_after == *mem_before
            },
        }
    }

    /// The effect of a THUMB instruction that abbreviates no 32-bit one.
    pub open spec fn thumb_direct_effect(
        &self,
        before: &Arm7,
        mem_before: &Memory,
        mem_after: &Memory,
        opcode: u32,
        instruction: ThumbInstruction,
        r: Result<(), CpuFault>,
    ) -> bool {
            let pc = before.registers[15];
            match instruction {
                ThumbInstruction::Undefined => r == Err::<(), CpuFault>(
                    CpuFault::UndefinedInstruction { opcode },
                ) && *self == *before && *mem_after == *mem_before,
                ThumbInstruction::ConditionalBranch => if condition_passed(
                    (opcode >> 8u32) & 0xF,
                    flags_of(before.cpsr_register),
                ) {
                    &&& r is Ok
                    &&& self.flush
                    &&& self.registers@ == before.registers@.update(
                        15,
                        wrap(pc + thumb_branch_offset(opcode, true)),
                    )
                    &&& self.cpsr_register == before.cpsr_register
                } else {
                    r is Ok && *self == *before
                },
                ThumbInstruction::UnconditionalBranch => {
                    &&& r is Ok
                    &&& self.flush
                    &&& self.registers@ == before.registers@.update(
                        15,
                        wrap(pc + thumb_branch_offset(opcode, false)),
                    )
                    &&& self.cpsr_register == before.cpsr_register
                },
                ThumbInstruction::HiRegisterOperation => {
                    let target = before.registers[(((opcode >> 3u32) & 0x7) | ((opcode >> 3u32) & 0x8)) as int];
                    &&& r is Ok
                    &&& self.flush
                    &&& self.registers@ == before.registers@.update(15, target & 0xFFFF_FFFE)
                    &&& self.cpsr_register == (before.cpsr_register & !STATE_BIT) | ((target & 1)
                        << 5u32)
                },
                ThumbInstruction::SoftwareInterrupt => {
                    &&& r is Ok
                    &&& self.flush
                    &&& self.cpsr_register == (before.cpsr_register & 0xFFFF_FFC0) | SUPERVISOR_MODE
                        | IRQ_BIT
                    &&& self.spsr() == Some(before.cpsr_register)
                    &&& self.registers[15] == 0x08
                },
                ThumbInstruction::LoadAddress => r is Ok && self.registers@ == before.registers@.update(
                    ((opcode >> 8u32) & 0x7) as int,
                    wrap((pc & 0xFFFF_FFFC) + (opcode & 0xFF) * 4),
                ),
                ThumbInstruction::PcRelativeLoad => {
                    let address = wrap((pc & 0xFFFF_FFFC) + (opcode & 0xFF) * 4);
                    if mem_before.word_mapped(address) {
                        r is Ok && self.registers@ == before.registers@.update(
                            ((opcode >> 8u32) & 0x7) as int,
                            mem_before.word_at(address),
                        )
                    } else {
                        r == Err::<(), CpuFault>(CpuFault::BusError { address })
                    }
                },
                ThumbInstruction::LongBranchWithLink => if bit(opcode, 11) {
                    &&& r is Ok
                    &&& self.flush
                    &&& self.registers@ == before.registers@.update(
                        15,
                        wrap(before.registers[14] + (opcode & 0x7FF) * 2) & 0xFFFF_FFFE,
                    ).update(14, wrap(pc - 2) | 1)
                } else {
                    r is Ok && self.registers@ == before.registers@.update(
                        14,
                        wrap(pc + thumb_long_offset(opcode)),
                    )
                },
                _ => true,
            }
    }

    /// The address that a refill fetches from first: the program counter
    /// aligned to the state's instruction width.
    pub open spec fn refill_target(&self) -> u32 {
        self.registers[15] & if thumb_state(self.cpsr_register) { 0xFFFF_FFFEu32 } else { 0xFFFF_FFFCu32 }
    }

    /// The result of refilling both stages of `s0` from its program counter:
    /// it succeeds exactly when both opcodes are mapped, and then the stages
    /// hold them with the program counter two instructions on; on failure
    /// nothing changes.
    pub open spec fn refill_post(&self, s0: &Arm7, mem0: &Memory, mem1: &Memory, r: Result<(), CpuFault>) -> bool {
        let thumb = thumb_state(s0.cpsr_register);
        let w = step_width(s0.cpsr_register);
        let t = s0.refill_target();
        &&& mem1.same_contents(mem0)
        &&& (r is Ok <==> fetch_spec(mem0, t, thumb) is Some && fetch_spec(mem0, wrap(t + w), thumb) is Some)
        &&& r is Ok ==> {
            &&& self.refilled(mem1)
            &&& self.registers@ == s0.registers@.update(15, wrap(t + 2 * w))
            &&& self.cpsr_register == s0.cpsr_register
            &&& self.saved_psr == s0.saved_psr
            &&& self.same_inactive(s0)
        }
        &&& r is Err ==> *self == *s0
    }

    /// The effect of the instruction in `before`'s execute stage.
    pub open spec fn stage_effect(
        &self,
        before: &Arm7,
        mem_before: &Memory,
        mem_after: &Memory,
        r: Result<(), CpuFault>,
    ) -> bool {
        let stage = before.pipeline_stage_2->0;
        match stage.decoded {
            Decoded::Arm(instruction) => self.arm_effect(before, mem_before, mem_after, stage.opcode, instruction, r),
            Decoded::Thumb(instruction) => match thumb_arm_form(instruction, stage.opcode) {
                Some(arm) => self.arm_effect(before, mem_before, mem_after, arm, arm_key_shape(arm_key(arm)), r),
                None => self.thumb_direct_effect(before, mem_before, mem_after, stage.opcode, instruction, r),
            },
        }
    }

    /// After the execute stage has run to `mid`: an error ends the step there;
    /// a flush refills both stages from the new program counter; otherwise the
    /// prefetch stage moves on and the program counter advances.
    pub open spec fn after_execute(
        &self,
        before: &Arm7,
        mid: &Arm7,
        mem_mid: &Memory,
        mem_after: &Memory,
        fetched: u32,
        r_exec: Result<(), CpuFault>,
        r: Result<(), CpuFault>,
    ) -> bool {
        &&& r_exec is Err ==> r == r_exec && *self == *mid && *mem_after == *mem_mid
        &&& r_exec is Ok ==> if mid.flush {
            self.refill_post(mid, mem_mid, mem_after, r)
        } else {
            &&& r is Ok
            &&& self.advanced(before, fetched)
            &&& self.registers@ == mid.registers@.update(15, wrap(before.registers[15] + step_width(before.cpsr_register)))
            &&& self.cpsr_register == mid.cpsr_register
            &&& self.saved_psr == mid.saved_psr
            &&& self.same_inactive(mid)
            &&& mem_after.same_contents(mem_mid)
        }
    }

    /// One pipeline step from `before`, as `next` performs it.
    pub open spec fn step_effect(&self, before: &Arm7, mem_before: &Memory, mem_after: &Memory, r: Result<(), CpuFault>) -> bool {
        let pc = before.registers[15];
        if before.flush {
            self.refill_post(before, mem_before, mem_after, r)
        } else {
            match fetch_spec(mem_before, pc, thumb_state(before.cpsr_register)) {
                None => {
                    &&& r == Err::<(), CpuFault>(CpuFault::BusError { address: pc })
                    &&& *self == *before
                    &&& mem_after.same_contents(mem_before)
                },
                Some(fetched) => if !before.executes() {
                    &&& r is Ok
                    &&& self.advanced(before, fetched)
                    &&& self.registers@ == before.registers@.update(15, self.registers[15])
                    &&& self.cpsr_register == before.cpsr_register
                    &&& self.saved_psr == before.saved_psr
                    &&& self.same_inactive(before)
                    &&& mem_after.same_contents(mem_before)
                } else {
                    exists|mem1: Memory, mid: Arm7, mem_mid: Memory, r_exec: Result<(), CpuFault>|
                        #![trigger mid.stage_effect(before, &mem1, &mem_mid, r_exec)]
                        {
                            &&& mem1.same_contents(mem_before)
                            &&& mid.stage_effect(before, &mem1, &mem_mid, r_exec)
                            &&& mid.pipeline_stage_1 == before.pipeline_stage_1
                            &&& mid.pipeline_stage_2 == before.pipeline_stage_2
                            &&& self.after_execute(before, &mid, &mem_mid, mem_after, fetched, r_exec, r)
                        }
                },
            }
        }
    }

    /// A processor after reset: System mode with interrupts masked, the program
    /// counter at the cartridge entry, the stacks of System, IRQ and Supervisor
    /// mode set up, the pipeline empty.
    pub fn new() -> (r: Arm7)
        ensures
            r.wf(),
            r.cpsr() == SYSTEM_MODE | IRQ_BIT | FIQ_BIT,
            r.regs().len() == 16,
            r.regs()[15] == START_PC,
            r.regs()[13] == STACK_USER_SYSTEM_START,
            forall|i: int| 0 <= i < 13 || i == 14 ==> r.regs()[i] == 0,
            r.banked(2, 13) == STACK_IRQ_START,
            r.banked(3, 13) == STACK_SUPERVISOR_START,
            r.stage1() is None,
            r.stage2() is None,
            !r.flush_requested(),
    {
        let mut arm7 = Arm7 {
            registers: [0u32; 16],
            cpsr_register: SYSTEM_MODE | IRQ_BIT | FIQ_BIT,
            saved_psr: [0u32; 5],
            fiq_lo_banked: [0u32; 5],
            user_banked: [0u32; 2],
            fiq_hi_banked: [0u32; 2],
            supervisor_banked: [0u32; 2],
            abort_banked: [0u32; 2],
            irq_banked: [0u32; 2],
            undefinied_banked: [0u32; 2],
            pipeline_stage_1: None,
            pipeline_stage_2: None,
            flush: false,
            condition_lut: build_condition_lut(),
            arm_lut: instruction_lut(),
            thumb_lut: thumb_instruction_lut(),
        };
        arm7.registers[13] = STACK_USER_SYSTEM_START;
        arm7.irq_banked[0] = STACK_IRQ_START;
        arm7.supervisor_banked[0] = STACK_SUPERVISOR_START;
        arm7.registers[15] = START_PC;
        proof {
            lemma_cpsr_bits(0, 0, 0, 0, 0, 0, 0, 0);
        }
        arm7
    }

    fn bank_index(mode: u32) -> (r: usize)
        ensures
            r == bank_of(mode),
    {
        match mode {
            FIQ_MODE => 1,
            IRQ_MODE => 2,
            SUPERVISOR_MODE => 3,
            ABORT_MODE => 4,
            UNDEFINED_MODE => 5,
            _ => 0,
        }
    }

    fn swap_fiq_lo(&mut self)
        ensures
            forall|i: int| 0 <= i < 5 ==> final(self).registers[8 + i] == #[trigger] old(self).fiq_lo_banked[i],
            forall|i: int| 0 <= i < 5 ==> #[trigger] final(self).fiq_lo_banked[i] == old(self).registers[8 + i],
            forall|i: int| 0 <= i < 8 || 13 <= i < 16 ==> #[trigger] final(self).registers[i] == old(self).registers[i],
            forall|b: int| #[trigger] final(self).stored_bank(b) == old(self).stored_bank(b),
            final(self).cpsr_register == old(self).cpsr_register,
            final(self).same_frame(old(self)),
            final(self).flush == old(self).flush,
    {
        let t = self.registers;
        let f = self.fiq_lo_banked;
        self.registers[8] = f[0];
        self.registers[9] = f[1];
        self.registers[10] = f[2];
        self.registers[11] = f[3];
        self.registers[12] = f[4];
        self.fiq_lo_banked = [t[8], t[9], t[10], t[11], t[12]];
    }

    fn store_bank(&mut self, b: usize, r13: u32, r14: u32)
        requires
            b < 6,
        ensures
            final(self).stored_bank(b as int) == [r13, r14],
            forall|c: int| 0 <= c < 6 && c != b ==> #[trigger] final(self).stored_bank(c) == old(self).stored_bank(c),
            final(self).registers == old(self).registers,
            final(self).fiq_lo_banked == old(self).fiq_lo_banked,
            final(self).cpsr_register == old(self).cpsr_register,
            final(self).same_frame(old(self)),
            final(self).flush == old(self).flush,
    {
        match b {
            0 => self.user_banked = [r13, r14],
            1 => self.fiq_hi_banked = [r13, r14],
            2 => self.irq_banked = [r13, r14],
            3 => self.supervisor_banked = [r13, r14],
            4 => self.abort_banked = [r13, r14],
            _ => self.undefinied_banked = [r13, r14],
        }
    }

    fn load_bank(&self, b: usize) -> (r: [u32; 2])
        requires
            b < 6,
        ensures
            r == self.stored_bank(b as int),
    {
        match b {
            0 => self.user_banked,
            1 => self.fiq_hi_banked,
            2 => self.irq_banked,
            3 => self.supervisor_banked,
            4 => self.abort_banked,
            _ => self.undefinied_banked,
        }
    }

    /// Banks the registers of the mode that is left and brings in those of the
    /// mode that the CPSR now holds.
    fn switch_modes(&mut self, old_mode: u32)
        requires
            valid_mode(old_mode),
            valid_mode(mode_of(old(self).cpsr_register)),
        ensures
            forall|b: int, r: int|
                0 <= b < 6 && 0 <= r < 16 ==> #[trigger] final(self).banked(b, r) == old(self).view_as(
                    bank_of(old_mode),
                    b,
                    r,
                ),
            final(self).cpsr_register == old(self).cpsr_register,
            final(self).registers[15] == old(self).registers[15],
            final(self).same_frame(old(self)),
            final(self).flush == old(self).flush,
    {
        let old_bank = Self::bank_index(old_mode);
        let new_bank = Self::bank_index(self.cpsr_register & MODE_MASK);
        if old_bank == new_bank {
            return;
        }
        let ghost s0 = *self;
        let r13 = self.registers[13];
        let r14 = self.registers[14];
        self.store_bank(old_bank, r13, r14);
        let ghost s1 = *self;
        if old_bank == 1 {
            self.swap_fiq_lo();
        }
        if new_bank == 1 {
            self.swap_fiq_lo();
        }
        let ghost s2 = *self;
        assert(forall|b: int| 0 <= b < 6 ==> #[trigger] s2.stored_bank(b) == s1.stored_bank(b));
        let loaded = self.load_bank(new_bank);
        self.registers[13] = loaded[0];
        self.registers[14] = loaded[1];
        assert(forall|b: int| 0 <= b < 6 ==> #[trigger] self.stored_bank(b) == s2.stored_bank(b));
        assert forall|b: int, r: int| 0 <= b < 6 && 0 <= r < 16 implies #[trigger] self.banked(b, r)
            == s0.view_as(old_bank as int, b, r) by {
            if b == old_bank {
                assert(s1.stored_bank(b) == [r13, r14]);
            } else {
                assert(s1.stored_bank(b) == s0.stored_bank(b));
            }
        }
    }

    /// Writes the CPSR, banking registers where the mode changes.
    fn set_cpsr(&mut self, value: u32)
        requires
            valid_mode(mode_of(value)),
            valid_mode(mode_of(old(self).cpsr_register)),
        ensures
            final(self).cpsr_register == value,
            final(self).registers[15] == old(self).registers[15],
            final(self).same_banks(old(self)),
            final(self).same_frame(old(self)),
            final(self).flush == old(self).flush,
    {
        let old_mode = self.cpsr_register & MODE_MASK;
        self.cpsr_register = value;
        self.switch_modes(old_mode);
    }

    /// Index of the active mode's saved status register; `None` in User and System mode.
    fn spsr_index(&self) -> (r: Option<usize>)
        ensures
            match r {
                Some(i) => i < 5 && current_bank(self.cpsr_register) == i + 1 && self.spsr() == Some(
                    self.saved_psr[i as int],
                ),
                None => self.spsr() is None,
            },
    {
        let b = Self::bank_index(self.cpsr_register & MODE_MASK);
        if b == 0 {
            None
        } else {
            Some(b - 1)
        }
    }

    /// Restores the CPSR from the active mode's saved status register, as an
    /// exception return does; in User and System mode, which have none, the
    /// CPSR stays. Fails, changing nothing, where the saved value names no mode.
    pub fn restore_cpsr(&mut self) -> (r: Result<(), CpuFault>)
        requires
            old(self).wf(),
        ensures
            final(self).wf(),
            final(self).same_frame(old(self)),
            final(self).flush_requested() == old(self).flush_requested(),
            match old(self).spsr() {
                None => r is Ok && *final(self) == *old(self),
                Some(saved) => if valid_mode(mode_of(saved)) {
                    &&& r is Ok
                    &&& final(self).cpsr() == saved
                    &&& final(self).regs()[15] == old(self).regs()[15]
                    &&& final(self).same_banks(old(self))
                } else {
                    r == Err::<(), CpuFault>(CpuFault::InvalidMode { mode: mode_of(saved) })
                        && *final(self) == *old(self)
                },
            },
    {
        match self.spsr_index() {
            None => Ok(()),
            Some(i) => {
                let saved = self.saved_psr[i];
                if !Self::is_valid_mode(saved & MODE_MASK) {
                    return Err(CpuFault::InvalidMode { mode: saved & MODE_MASK });
                }
                self.set_cpsr(saved);
                Ok(())
            },
        }
    }

    fn is_valid_mode(m: u32) -> (r: bool)
        ensures
            r == valid_mode(m),
    {
        m == USER_MODE || m == FIQ_MODE || m == IRQ_MODE || m == SUPERVISOR_MODE || m == ABORT_MODE
            || m == UNDEFINED_MODE || m == SYSTEM_MODE
    }

    /// Writes `value` under `mask` into the CPSR or the active mode's saved
    /// status register. Fails, changing nothing, where User mode would set
    /// control bits, where the destination is a saved status register and the
    /// mode has none, and where the CPSR would name no mode.
    pub fn msr(&mut self, destination_is_spsr: bool, mask: u32, value: u32) -> (r: Result<(), CpuFault>)
        requires
            old(self).wf(),
        ensures
            final(self).wf(),
            final(self).flush_requested() == old(self).flush_requested(),
            final(self).stage1() == old(self).stage1(),
            final(self).stage2() == old(self).stage2(),
            final(self).msr_effect(old(self), destination_is_spsr, mask, value, r),
    {
        if self.cpsr_register & MODE_MASK == USER_MODE && mask & 0xFF != 0 {
            return Err(CpuFault::PrivilegeViolation);
        }
        if destination_is_spsr {
            match self.spsr_index() {
                None => Err(CpuFault::ModeViolation),
                Some(i) => {
                    let s = self.saved_psr[i];
                    self.saved_psr[i] = (value & mask) | (s & !mask);
                    Ok(())
                },
            }
        } else {
            let c = (value & mask) | (self.cpsr_register & !mask);
            if !Self::is_valid_mode(c & MODE_MASK) {
                return Err(CpuFault::InvalidMode { mode: c & MODE_MASK });
            }
            self.set_cpsr(c);
            Ok(())
        }
    }

    /// The CPSR, or the active mode's saved status register; where the mode
    /// has none, the CPSR stands in for it.
    pub fn mrs(&self, source_is_spsr: bool) -> (r: u32)
        ensures
            r == (if source_is_spsr && self.spsr() is Some {
                self.spsr()->0
            } else {
                self.cpsr()
            }),
    {
        if source_is_spsr {
            match self.spsr_index() {
                Some(i) => self.saved_psr[i],
                None => self.cpsr_register,
            }
        } else {
            self.cpsr_register
        }
    }

    /// Register number in the four bits of the opcode that start at `lo`.
    fn reg_index(opcode: u32, lo: u32) -> (r: usize)
        requires
            lo < 32,
        ensures
            r == (opcode >> lo) & 0xF,
            r < 16,
    {
        let v = (opcode >> lo) & 0xF;
        assert(v < 16) by (bit_vector) requires v == (opcode >> lo) & 0xF;
        v as usize
    }

    /// Writes a register; a write to the program counter asks for a flush.
    fn write_register(&mut self, r: usize, value: u32)
        requires
            r < 16,
        ensures
            final(self).registers@ == old(self).registers@.update(r as int, value),
            final(self).flush == (old(self).flush || r == 15),
            final(self).cpsr_register == old(self).cpsr_register,
            final(self).same_frame(old(self)),
            final(self).fiq_lo_banked == old(self).fiq_lo_banked,
            forall|b: int| #[trigger] final(self).stored_bank(b) == old(self).stored_bank(b),
    {
        self.registers[r] = value;
        if r == 15 {
            self.flush = true;
        }
    }

    /// The barrel shifter: shifts `operand` by `value` places; with
    /// `set_condition_codes`, the carry-out goes to the carry flag.
    pub fn barrel_shifter(
        &mut self,
        value: u32,
        operand: u32,
        shift_type: ShiftType,
        register_specified_shift: bool,
        set_condition_codes: bool,
    ) -> (r: u32)
        requires
            old(self).wf(),
        ensures
            final(self).wf(),
            r == shift_spec(shift_type, value, operand, carry_of(old(self).cpsr()), register_specified_shift).0,
            final(self).cpsr() == (if set_condition_codes {
                with_c(
                    old(self).cpsr(),
                    shift_spec(shift_type, value, operand, carry_of(old(self).cpsr()), register_specified_shift).1,
                )
            } else {
                old(self).cpsr()
            }),
            final(self).regs() == old(self).regs(),
            final(self).same_frame(old(self)),
            final(self).same_banks(old(self)),
            final(self).same_inactive(old(self)),
            final(self).flush_requested() == old(self).flush_requested(),
    {
        let carry_in = self.cpsr_register & CARRY_FLAG != 0;
        let (result, carry) = shift(shift_type, value, operand, carry_in, register_specified_shift);
        if set_condition_codes {
            let ghost before = *self;
            self.set_carry(carry);
            assert(mode_of(self.cpsr_register) == mode_of(before.cpsr_register));
        }
        result
    }

    fn set_carry(&mut self, carry: bool)
        ensures
            final(self).cpsr_register == with_c(old(self).cpsr_register, carry),
            mode_of(final(self).cpsr_register) == mode_of(old(self).cpsr_register),
            final(self).registers == old(self).registers,
            final(self).fiq_lo_banked == old(self).fiq_lo_banked,
            forall|b: int| #[trigger] final(self).stored_bank(b) == old(self).stored_bank(b),
            final(self).same_frame(old(self)),
            final(self).flush == old(self).flush,
    {
        let c = self.cpsr_register;
        self.cpsr_register = (c & 0xDFFF_FFFF) | (if carry { CARRY_FLAG } else { 0 });
        proof {
            lemma_cpsr_bits(c, 0, CARRY_FLAG, 0, 0, 0, 0, 0);
            lemma_cpsr_bits(c, 0, 0, 0, 0, 0, 0, 0);
        }
    }

    fn set_logical_operations_cpsr_flags(&mut self, result: u32)
        ensures
            final(self).cpsr_register == with_nz(old(self).cpsr_register, result),
            mode_of(final(self).cpsr_register) == mode_of(old(self).cpsr_register),
            final(self).registers == old(self).registers,
            final(self).fiq_lo_banked == old(self).fiq_lo_banked,
            forall|b: int| #[trigger] final(self).stored_bank(b) == old(self).stored_bank(b),
            final(self).same_frame(old(self)),
            final(self).flush == old(self).flush,
    {
        let c = self.cpsr_register;
        self.cpsr_register = (c & 0x3FFF_FFFF) | (result & 0x8000_0000) | (if result == 0 { ZERO_FLAG } else { 0 });
        proof {
            lemma_cpsr_bits(c, result, 0, 0, 0, ZERO_FLAG, 0, 0);
            lemma_cpsr_bits(c, result, 0, 0, 0, 0, 0, 0);
        }
    }

    fn set_arithmetic_operations_cpsr_flags(&mut self, carry: bool, overflow: bool)
        ensures
            final(self).cpsr_register == with_cv(old(self).cpsr_register, carry, overflow),
            mode_of(final(self).cpsr_register) == mode_of(old(self).cpsr_register),
            final(self).registers == old(self).registers,
            final(self).fiq_lo_banked == old(self).fiq_lo_banked,
            forall|b: int| #[trigger] final(self).stored_bank(b) == old(self).stored_bank(b),
            final(self).same_frame(old(self)),
            final(self).flush == old(self).flush,
    {
        let c = self.cpsr_register;
        let cf: u32 = if carry { CARRY_FLAG } else { 0 };
        let vf: u32 = if overflow { OVERFLOW_FLAG } else { 0 };
        self.cpsr_register = (c & 0xCFFF_FFFF) | cf | vf;
        proof {
            lemma_cpsr_bits(c, 0, cf, vf, 0, 0, 0, 0);
        }
    }

    /// The CPSR after a flag-setting data-processing operation whose
    /// destination is not the program counter.
    pub open spec fn alu_flags(cpsr: u32, op: AluOpcode, result: u32, carry: bool, overflow: bool) -> u32 {
        if is_arithmetic(op) {
            with_cv(with_nz(cpsr, result), carry, overflow)
        } else {
            with_nz(cpsr, result)
        }
    }

    /// Performs a data-processing operation on its operands: writes the result
    /// to the destination (but for the test operations) and, with
    /// `set_condition_codes`, sets the flags (the carry flag already holding the
    /// shifter's carry-out, which the logical operations keep); with the program counter as
    /// destination the CPSR is restored from the saved status register instead.
    pub fn decode_alu(
        &mut self,
        opcode: AluOpcode,
        set_condition_codes: bool,
        operand_1: u32,
        destination_register: usize,
        operand_2: u32,
        carry_in: bool,
    ) -> (r: Result<(), CpuFault>)
        requires
            old(self).wf(),
            destination_register < 16,
        ensures
            final(self).wf(),
            final(self).same_frame(old(self)),
            ({
                let (result, carry, overflow) = alu_spec(opcode, operand_1, operand_2, carry_in);
                let regs = if is_test(opcode) {
                    old(self).regs()
                } else {
                    old(self).regs().update(destination_register as int, result)
                };
                &&& final(self).flush_requested() == (old(self).flush_requested() || (destination_register == 15
                    && !is_test(opcode)))
                &&& !(set_condition_codes && destination_register == 15) ==> final(self).same_inactive(old(self))
                &&& if !set_condition_codes {
                    r is Ok && final(self).regs() == regs && final(self).cpsr() == old(self).cpsr()
                } else if destination_register != 15 {
                    &&& r is Ok
                    &&& final(self).regs() == regs
                    &&& final(self).cpsr() == Self::alu_flags(old(self).cpsr(), opcode, result, carry, overflow)
                } else {
                    match old(self).spsr() {
                        None => r is Ok && final(self).regs() == regs && final(self).cpsr() == old(self).cpsr()
                            && final(self).same_inactive(old(self)),
                        Some(saved) => if valid_mode(mode_of(saved)) {
                            &&& r is Ok
                            &&& final(self).cpsr() == saved
                            &&& final(self).regs()[15] == regs[15]
                            &&& final(self).same_banks(old(self))
                        } else {
                            r == Err::<(), CpuFault>(CpuFault::InvalidMode { mode: mode_of(saved) })
                        },
                    }
                }
            }),
    {
        let (result, carry, overflow) = alu_operation(opcode, operand_1, operand_2, carry_in);
        let test = match opcode {
            AluOpcode::TestAnd | AluOpcode::TestExclusiveOr | AluOpcode::CompareSubtract | AluOpcode::CompareAdd => true,
            _ => false,
        };
        if !test {
            self.write_register(destination_register, result);
        }
        if set_condition_codes {
            if destination_register == 15 {
                return self.restore_cpsr();
            }
            self.set_logical_operations_cpsr_flags(result);
            let arithmetic = match opcode {
                AluOpcode::Subtract | AluOpcode::RightSubtract | AluOpcode::Add | AluOpcode::AddCarry
                | AluOpcode::SubtractCarry | AluOpcode::RightSubtractCarry | AluOpcode::CompareSubtract
                | AluOpcode::CompareAdd => true,
                _ => false,
            };
            if arithmetic {
                self.set_arithmetic_operations_cpsr_flags(carry, overflow);
            }
        }
        Ok(())
    }

    /// A register as an operand reads it; the program counter reads `extra`
    /// bytes further on.
    pub open spec fn operand_reg(&self, r: int, extra: int) -> u32 {
        if r == 15 {
            wrap(self.registers[15] + extra)
        } else {
            self.registers[r]
        }
    }

    fn operand_register(&self, r: usize, extra: u32) -> (v: u32)
        requires
            r < 16,
            extra <= 4,
        ensures
            v == self.operand_reg(r as int, extra as int),
    {
        if r == 15 {
            proof {
                lemma_wrap(self.registers[15] + extra);
            }
            self.registers[15].wrapping_add(extra)
        } else {
            self.registers[r]
        }
    }

    /// Operand 2 of a data-processing opcode and the shifter's carry-out.
    pub open spec fn alu_operand2(&self, opcode: u32) -> (u32, bool) {
        let c = carry_of(self.cpsr_register);
        if bit(opcode, 25) {
            shift_spec(ShiftType::RotateRight, (((opcode >> 8u32) & 0xF) * 2) as u32, opcode & 0xFF, c, true)
        } else if bit(opcode, 4) {
            shift_spec(
                shift_type_of(opcode),
                self.registers[((opcode >> 8u32) & 0xF) as int] & 0xFF,
                self.operand_reg((opcode & 0xF) as int, 4),
                c,
                true,
            )
        } else {
            shift_spec(shift_type_of(opcode), (opcode >> 7u32) & 0x1F, self.registers[(opcode & 0xF) as int], c, false)
        }
    }

    /// Executes a data-processing opcode: operand 1 from Rn, operand 2 from an
    /// immediate rotated or a register shifted, the operation from bits 24-21,
    /// the destination Rd, flags with the S bit. The program counter reads as
    /// the instruction's address plus 8, plus 12 where a register gives the
    /// shift amount.
    pub fn alu_command(&mut self, opcode: u32) -> (r: Result<(), CpuFault>)
        requires
            old(self).wf(),
        ensures
            final(self).wf(),
            final(self).same_frame(old(self)),
            final(self).alu_effect(old(self), opcode, r),
    {
        let set_condition_codes = opcode & 0x10_0000 != 0;
        let rd = Self::reg_index(opcode, 12);
        let rn = Self::reg_index(opcode, 16);
        let rm = Self::reg_index(opcode, 0);
        let rs = Self::reg_index(opcode, 8);
        let carry_in = self.cpsr_register & CARRY_FLAG != 0;
        let immediate = opcode & 0x200_0000 != 0;
        let register_shift = !immediate && opcode & 0x10 != 0;
        let operand_1 = self.operand_register(rn, if register_shift { 4 } else { 0 });
        let shift_code_bits = (opcode >> 5u32) & 0x3;
        proof {
            lemma_opcode_fields(opcode);
        }
        let ghost start = *self;
        let operand_2 = if immediate {
            let amount = ((opcode >> 8u32) & 0xF) * 2;
            assert(amount == (((opcode >> 8u32) & 0xF) * 2) as u32);
            self.barrel_shifter(amount, opcode & 0xFF, ShiftType::RotateRight, true, set_condition_codes)
        } else if register_shift {
            let amount = self.registers[rs] & 0xFF;
            let value = self.operand_register(rm, 4);
            let st = to_shift_type(shift_code_bits);
            assert(st == shift_type_of(opcode));
            assert(amount == start.registers[((opcode >> 8u32) & 0xF) as int] & 0xFF);
            assert(value == start.operand_reg((opcode & 0xF) as int, 4));
            self.barrel_shifter(amount, value, st, true, set_condition_codes)
        } else {
            let value = self.registers[rm];
            let st = to_shift_type(shift_code_bits);
            assert(st == shift_type_of(opcode));
            self.barrel_shifter((opcode >> 7u32) & 0x1F, value, st, false, set_condition_codes)
        };
        let op_bits = (opcode >> 21u32) & 0xF;
        let op = to_alu_opcode(op_bits);
        assert(op == alu_op_of(opcode));
        assert(operand_2 == old(self).alu_operand2(opcode).0);
        assert(set_condition_codes ==> self.cpsr_register == with_c(old(self).cpsr_register, old(self).alu_operand2(opcode).1));
        assert(!set_condition_codes ==> self.cpsr_register == old(self).cpsr_register);
        assert(self.registers == old(self).registers);
        assert(mode_of(self.cpsr_register) == mode_of(old(self).cpsr_register)) by {
            let c = old(self).cpsr_register;
            let k = old(self).alu_operand2(opcode).1;
            lemma_cpsr_bits(c, 0, if k { CARRY_FLAG } else { 0 }, 0, 0, 0, 0, 0);
        }
        assert(self.spsr() == old(self).spsr());
        assert(carry_in == carry_of(old(self).cpsr_register));
        assert(operand_1 == old(self).operand_reg(((opcode >> 16u32) & 0xF) as int, if register_shift { 4 } else { 0 }));
        self.decode_alu(op, set_condition_codes, operand_1, rd, operand_2, carry_in)
    }
    /// Branch: adds the sign-extended word offset to the program counter; with
    /// `link`, r14 gets the address of the next instruction.
    fn branch(&mut self, link: bool, opcode: u32)
        requires
            old(self).wf(),
        ensures
            final(self).wf(),
            final(self).same_frame(old(self)),
            final(self).cpsr_register == old(self).cpsr_register,
            final(self).flush,
            final(self).same_inactive(old(self)),
            final(self).registers@ == ({
                let pc = old(self).registers[15];
                let regs = if link { old(self).registers@.update(14, wrap(pc - 4)) } else { old(self).registers@ };
                regs.update(15, wrap(pc + branch_offset(opcode)))
            }),
    {
        let pc = self.registers[15];
        if link {
            proof {
                lemma_wrap_sub(pc as int, 4);
            }
            self.write_register(14, pc.wrapping_sub(4));
        }
        let imm = opcode & 0xFF_FFFF;
        let offset: u32 = if imm & 0x80_0000 != 0 { (imm | 0xFF00_0000) << 2u32 } else { imm << 2u32 };
        proof {
            lemma_branch_offset(opcode, imm, offset);
            lemma_wrap_offset(pc as int, offset as int, branch_offset(opcode));
        }
        self.write_register(15, pc.wrapping_add(offset));
    }

    /// Branch and exchange: jumps to the address in a register, whose bit 0
    /// selects the THUMB state.
    fn branch_and_exchange(&mut self, source_register: usize)
        requires
            old(self).wf(),
            source_register < 16,
        ensures
            final(self).wf(),
            final(self).same_frame(old(self)),
            final(self).flush,
            final(self).cpsr_register == (old(self).cpsr_register & !STATE_BIT) | ((old(self).registers[source_register as int] & 1) << 5u32),
            final(self).registers@ == old(self).registers@.update(15, old(self).registers[source_register as int] & 0xFFFF_FFFE),
    {
        let address = self.registers[source_register];
        let thumb_bit = address & 0x1;
        let c = self.cpsr_register;
        self.cpsr_register = (c & !STATE_BIT) | (thumb_bit << 5u32);
        proof {
            lemma_cpsr_bits(c, 0, 0, 0, 0, 0, address, 0);
        }
        self.write_register(15, address & 0xFFFF_FFFE);
    }

    /// Multiply (and accumulate): Rd = Rm * Rs (+ Rn), modulo 2^32; with
    /// `set_conditions` only negative and zero are set.
    fn multiply(&mut self, opcode: u32, accumulate: bool, set_conditions: bool)
        requires
            old(self).wf(),
        ensures
            final(self).wf(),
            final(self).same_frame(old(self)),
            final(self).multiply_effect(old(self), opcode, accumulate, set_conditions),
    {
        let rd = Self::reg_index(opcode, 16);
        let rn = Self::reg_index(opcode, 12);
        let rs = Self::reg_index(opcode, 8);
        let rm = Self::reg_index(opcode, 0);
        proof {
            lemma_opcode_fields(opcode);
        }
        let addend: u64 = if accumulate { self.registers[rn] as u64 } else { 0 };
        let a = self.registers[rm] as u64;
        let b = self.registers[rs] as u64;
        assert(a * b <= 0xFFFF_FFFE_0000_0001) by (nonlinear_arith) requires a <= 0xFFFF_FFFF, b <= 0xFFFF_FFFF;
        let wide: u64 = a * b + addend;
        let result = (wide & 0xFFFF_FFFF) as u32;
        assert(wide & 0xFFFF_FFFF == wide % 0x1_0000_0000) by (bit_vector);
        if set_conditions {
            self.set_logical_operations_cpsr_flags(result);
        }
        self.write_register(rd, result);
    }

    /// Multiply long: RdHi:RdLo = Rm * Rs (+ RdHi:RdLo), signed or unsigned,
    /// modulo 2^64; with `set_conditions` only negative and zero are set.
    fn multiply_long(&mut self, opcode: u32, signed_multiply: bool, accumulate: bool, set_conditions: bool)
        requires
            old(self).wf(),
        ensures
            final(self).wf(),
            final(self).same_frame(old(self)),
            final(self).multiply_long_effect(old(self), opcode, signed_multiply, accumulate, set_conditions),
    {
        let hi = Self::reg_index(opcode, 16);
        let lo = Self::reg_index(opcode, 12);
        let rs = Self::reg_index(opcode, 8);
        let rm = Self::reg_index(opcode, 0);
        proof {
            lemma_opcode_fields(opcode);
        }
        let a: i128 = if signed_multiply { signed_i128(self.registers[rm]) } else { self.registers[rm] as i128 };
        let b: i128 = if signed_multiply { signed_i128(self.registers[rs]) } else { self.registers[rs] as i128 };
        let addend: i128 = if accumulate {
            (self.registers[hi] as i128) * 0x1_0000_0000 + self.registers[lo] as i128
        } else {
            0
        };
        assert(-0x4000_0000_0000_0000 <= a * b <= 0xFFFF_FFFE_0000_0001) by (nonlinear_arith)
            requires -0x8000_0000 <= a <= 0xFFFF_FFFF, -0x8000_0000 <= b <= 0xFFFF_FFFF,
                (a < 0 || b < 0) ==> (-0x8000_0000 <= a < 0x8000_0000 && -0x8000_0000 <= b < 0x8000_0000);
        let p: i128 = a * b + addend;
        let m: i128 = if p < 0 {
            p + 0x1_0000_0000_0000_0000
        } else if p >= 0x1_0000_0000_0000_0000 {
            p - 0x1_0000_0000_0000_0000
        } else {
            p
        };
        assert(m == p % 0x1_0000_0000_0000_0000);
        let high = (m / 0x1_0000_0000) as u32;
        let low = (m % 0x1_0000_0000) as u32;
        if set_conditions {
            let c = self.cpsr_register;
            let n: u32 = if m >= 0x8000_0000_0000_0000 { SIGN_FLAG } else { 0 };
            let z: u32 = if m == 0 { ZERO_FLAG } else { 0 };
            self.cpsr_register = (c & 0x3FFF_FFFF) | n | z;
            proof {
                lemma_cpsr_bits(c, 0, 0, 0, n, z, 0, 0);
            }
        }
        self.write_register(hi, high);
        self.write_register(lo, low);
    }

    /// Loads the word at an address as an unaligned load does: the aligned
    /// word rotated right by eight bits for each byte of misalignment.
    pub fn load_word(memory: &mut Memory, address: u32) -> (r: Result<u32, CpuFault>)
        requires
            old(memory).wf(),
        ensures
            final(memory).wf(),
            final(memory).same_contents(old(memory)),
            r == (if old(memory).word_mapped(address) {
                Ok::<u32, CpuFault>(load_rotate(old(memory).word_at(address), address))
            } else {
                Err(CpuFault::BusError { address })
            }),
    {
        match memory.get_word(address, true) {
            None => Err(CpuFault::BusError { address }),
            Some(word) => {
                proof {
                    lemma_opcode_bits(address);
                }
                let n = (address & 3) * 8;
                if n == 0 {
                    Ok(word)
                } else {
                    assert(0 < n < 32) by (bit_vector) requires n == (address & 3) * 8, n != 0;
                    Ok((word >> n) | (word << (32 - n)))
                }
            },
        }
    }

    /// The offset of a single data transfer: a 12-bit immediate, or Rm shifted
    /// by an immediate amount.
    pub open spec fn transfer_offset(&self, opcode: u32) -> u32 {
        if bit(opcode, 25) {
            shift_spec(
                shift_type_of(opcode),
                (opcode >> 7u32) & 0x1F,
                self.registers[(opcode & 0xF) as int],
                carry_of(self.cpsr_register),
                false,
            ).0
        } else {
            opcode & 0xFFF
        }
    }

    /// Single data transfer (LDR, STR, LDRB, STRB): the address is the base
    /// register, plus or minus the offset before the transfer with
    /// pre-indexing; the updated address is written back with write-back or
    /// post-indexing, unless the base is also the load destination. A stored
    /// program counter reads as the instruction's address plus 12.
    fn single_data_transfer(
        &mut self,
        memory: &mut Memory,
        opcode: u32,
        pre_indexing: bool,
        add_offset: bool,
        transfer_byte: bool,
        write_back: bool,
        load: bool,
    ) -> (r: Result<(), CpuFault>)
        requires
            old(self).wf(),
            old(memory).wf(),
        ensures
            final(self).wf(),
            final(memory).wf(),
            final(self).same_frame(old(self)),
            final(self).cpsr_register == old(self).cpsr_register,
            final(self).single_transfer_effect(old(self), old(memory), final(memory), opcode, pre_indexing, add_offset, transfer_byte, write_back, load, r),
    {
        let rn = Self::reg_index(opcode, 16);
        let rd = Self::reg_index(opcode, 12);
        let rm = Self::reg_index(opcode, 0);
        proof {
            lemma_opcode_fields(opcode);
        }
        let offset = if opcode & 0x200_0000 != 0 {
            let code = (opcode >> 5u32) & 0x3;
            let carry_in = self.cpsr_register & CARRY_FLAG != 0;
            shift(to_shift_type(code), (opcode >> 7u32) & 0x1F, self.registers[rm], carry_in, false).0
        } else {
            opcode & 0xFFF
        };
        assert(offset == self.transfer_offset(opcode));
        let base = self.registers[rn];
        let updated = if add_offset { base.wrapping_add(offset) } else { base.wrapping_sub(offset) };
        proof {
            lemma_offset_address(base, offset, add_offset);
        }
        let address = if pre_indexing { updated } else { base };
        assert(address == (if pre_indexing { offset_address(base, self.transfer_offset(opcode), add_offset) } else { base }));
        let wb = (write_back || !pre_indexing) && !(load && rd == rn);
        if load {
            let value = if transfer_byte {
                match memory.get_byte(address, true) {
                    None => return Err(CpuFault::BusError { address }),
                    Some(b) => b as u32,
                }
            } else {
                match Self::load_word(memory, address) {
                    Err(e) => return Err(e),
                    Ok(w) => w,
                }
            };
            if wb {
                self.write_register(rn, updated);
            }
            self.write_register(rd, value);
        } else {
            let value = self.operand_register(rd, 4);
            let stored = if transfer_byte {
                memory.store_byte(address, value as u8, true)
            } else {
                memory.store_word(address, value, true)
            };
            if !stored {
                return Err(CpuFault::BusError { address });
            }
            if wb {
                self.write_register(rn, updated);
            }
        }
        Ok(())
    }

    /// The offset of a halfword transfer: an 8-bit immediate split over bits
    /// 11-8 and 3-0, or Rm.
    pub open spec fn halfword_offset(&self, opcode: u32, immediate: bool) -> u32 {
        if immediate {
            ((opcode >> 4u32) & 0xF0) | (opcode & 0xF)
        } else {
            self.registers[(opcode & 0xF) as int]
        }
    }

    /// The value that a halfword or signed load gives.
    pub open spec fn halfword_load_value(memory: &Memory, address: u32, kind: HalfwordTransferType) -> Option<u32> {
        match kind {
            HalfwordTransferType::UnsignedHalfwords => if memory.halfword_mapped(address) {
                let h = memory.halfword_at(address) as u32;
                Some(if address & 1 == 0 { h } else { ror(h, 8) })
            } else {
                None
            },
            HalfwordTransferType::SignedByte => if memory.mapped(address) {
                Some(sign_extend_byte(memory.byte(address)))
            } else {
                None
            },
            HalfwordTransferType::SignedHalfwords => if address & 1 == 0 {
                if memory.halfword_mapped(address) {
                    Some(sign_extend_halfword(memory.halfword_at(address)))
                } else {
                    None
                }
            } else if memory.mapped(address) {
                Some(sign_extend_byte(memory.byte(address)))
            } else {
                None
            },
            HalfwordTransferType::NoOp => None,
        }
    }

    fn load_halfword(memory: &mut Memory, address: u32, kind: HalfwordTransferType) -> (r: Option<u32>)
        requires
            old(memory).wf(),
        ensures
            final(memory).wf(),
            final(memory).same_contents(old(memory)),
            r == Self::halfword_load_value(old(memory), address, kind),
    {
        match kind {
            HalfwordTransferType::UnsignedHalfwords => match memory.get_halfword(address, true) {
                None => None,
                Some(h) => {
                    let v = h as u32;
                    Some(if address & 1 == 0 { v } else { (v >> 8u32) | (v << 24u32) })
                },
            },
            HalfwordTransferType::SignedByte => match memory.get_byte(address, true) {
                None => None,
                Some(b) => Some(sign_extend_byte_exec(b)),
            },
            HalfwordTransferType::SignedHalfwords => if address & 1 == 0 {
                match memory.get_halfword(address, true) {
                    None => None,
                    Some(h) => Some(sign_extend_halfword_exec(h)),
                }
            } else {
                match memory.get_byte(address, true) {
                    None => None,
                    Some(b) => Some(sign_extend_byte_exec(b)),
                }
            },
            HalfwordTransferType::NoOp => None,
        }
    }

    /// Halfword and signed data transfer (LDRH, STRH, LDRSB, LDRSH), addressed
    /// and written back as a single data transfer; only the unsigned halfword
    /// can be stored.
    fn halfword_data_transfer(
        &mut self,
        memory: &mut Memory,
        opcode: u32,
        immediate: bool,
        pre_indexing: bool,
        add_offset: bool,
        write_back: bool,
        load: bool,
        kind: HalfwordTransferType,
    ) -> (r: Result<(), CpuFault>)
        requires
            old(self).wf(),
            old(memory).wf(),
        ensures
            final(self).wf(),
            final(memory).wf(),
            final(self).same_frame(old(self)),
            final(self).cpsr_register == old(self).cpsr_register,
            final(self).halfword_transfer_effect(old(self), old(memory), final(memory), opcode, immediate, pre_indexing, add_offset, write_back, load, kind, r),
    {
        if matches!(kind, HalfwordTransferType::NoOp) || (!load && !matches!(kind, HalfwordTransferType::UnsignedHalfwords)) {
            return Err(CpuFault::UndefinedInstruction { opcode });
        }
        let rn = Self::reg_index(opcode, 16);
        let rd = Self::reg_index(opcode, 12);
        let rm = Self::reg_index(opcode, 0);
        proof {
            lemma_opcode_fields(opcode);
        }
        let offset = if immediate { ((opcode >> 4u32) & 0xF0) | (opcode & 0xF) } else { self.registers[rm] };
        assert(offset == self.halfword_offset(opcode, immediate));
        let base = self.registers[rn];
        let updated = if add_offset { base.wrapping_add(offset) } else { base.wrapping_sub(offset) };
        proof {
            lemma_offset_address(base, offset, add_offset);
        }
        let address = if pre_indexing { updated } else { base };
        let wb = (write_back || !pre_indexing) && !(load && rd == rn);
        if load {
            let value = match Self::load_halfword(memory, address, kind) {
                None => return Err(CpuFault::BusError { address }),
                Some(v) => v,
            };
            if wb {
                self.write_register(rn, updated);
            }
            self.write_register(rd, value);
        } else {
            let value = self.operand_register(rd, 4);
            if !memory.store_halfword(address, value as u16, true) {
                return Err(CpuFault::BusError { address });
            }
            if wb {
                self.write_register(rn, updated);
            }
        }
        Ok(())
    }

    /// Atomic swap (SWP, SWPB): loads from the address in Rn into Rd and
    /// stores the former value of Rm there.
    fn single_data_swap(&mut self, memory: &mut Memory, opcode: u32, transfer_byte: bool) -> (r: Result<(), CpuFault>)
        requires
            old(self).wf(),
            old(memory).wf(),
        ensures
            final(self).wf(),
            final(memory).wf(),
            final(self).same_frame(old(self)),
            final(self).cpsr_register == old(self).cpsr_register,
            final(self).swap_effect(old(self), old(memory), final(memory), opcode, transfer_byte, r),
    {
        let rn = Self::reg_index(opcode, 16);
        let rd = Self::reg_index(opcode, 12);
        let rm = Self::reg_index(opcode, 0);
        proof {
            lemma_opcode_fields(opcode);
        }
        let address = self.registers[rn];
        let value = self.registers[rm];
        let loaded = if transfer_byte {
            match memory.get_byte(address, true) {
                None => return Err(CpuFault::BusError { address }),
                Some(b) => b as u32,
            }
        } else {
            match Self::load_word(memory, address) {
                Err(e) => return Err(e),
                Ok(w) => w,
            }
        };
        let stored = if transfer_byte {
            memory.store_byte(address, value as u8, true)
        } else {
            memory.store_word(address, value, true)
        };
        if !stored {
            return Err(CpuFault::BusError { address });
        }
        self.write_register(rd, loaded);
        Ok(())
    }


    /// The number of registers in a 16-bit register list.
    fn count_registers(mask: u32) -> (n: u32)
        ensures
            n == count_below(mask, 16),
            n <= 16,
    {
        let mut n: u32 = 0;
        let mut i: u32 = 0;
        while i < 16
            invariant
                i <= 16,
                n == count_below(mask, i as int),
                n <= i,
            decreases 16 - i,
        {
            if (mask >> i) & 1 == 1 {
                n += 1;
            }
            i += 1;
        }
        n
    }

    /// Moves the listed registers of the active bank to or from the block's
    /// words, lowest register first.
    fn transfer_block_words(&mut self, memory: &mut Memory, start: u32, mask: u32, n: u32, load: bool)
        requires
            old(self).wf(),
            old(memory).wf(),
            n == count_below(mask, 16),
            block_mapped(old(memory), start, mask),
        ensures
            final(self).wf(),
            final(memory).wf(),
            final(self).same_frame(old(self)),
            final(self).cpsr_register == old(self).cpsr_register,
            final(self).same_inactive(old(self)),
            forall|j: int| 0 <= j < 16 && !bit(mask, j as u32) ==> #[trigger] final(self).registers[j] == old(self).registers[j],
            load ==> final(memory).same_contents(old(memory)),
            load ==> forall|j: int| 0 <= j < 16 && bit(mask, j as u32) ==> #[trigger] final(self).registers[j]
                == old(memory).word_at(block_slot(start, mask, j)),
            !load ==> final(self).registers == old(self).registers,
            !load ==> forall|j: int| 0 <= j < 16 && bit(mask, j as u32) ==> #[trigger] final(memory).word_at(
                block_slot(start, mask, j),
            ) == old(self).operand_reg(j, 4),
            !load ==> final(memory).same_outside(old(memory), start & 0xFFFF_FFFC, (4 * n) as int),
            final(self).flush == (old(self).flush || (load && bit(mask, 15))),
    {
        let ghost before = *self;
        let ghost mem0 = *memory;
        let lo = start & 0xFFFF_FFFC;
        let mut address = start;
        let mut i: u32 = 0;
        while i < 16
            invariant
                i <= 16,
                self.wf(),
                memory.wf(),
                self.same_frame(&before),
                self.cpsr_register == before.cpsr_register,
                self.same_inactive(&before),
                address == block_slot(start, mask, i as int),
                count_below(mask, i as int) <= i,
                n == count_below(mask, 16),
                lo == start & 0xFFFF_FFFC,
                block_mapped(&mem0, start, mask),
                forall|j: int| i <= j < 16 ==> #[trigger] self.registers[j] == before.registers[j],
                forall|j: int| 0 <= j < i && !bit(mask, j as u32) ==> #[trigger] self.registers[j] == before.registers[j],
                forall|a: u32| #[trigger] memory.mapped(a) == mem0.mapped(a),
                load ==> memory.same_contents(&mem0),
                load ==> forall|j: int| 0 <= j < i && bit(mask, j as u32) ==> #[trigger] self.registers[j]
                    == mem0.word_at(block_slot(start, mask, j)),
                !load ==> self.registers == before.registers,
                !load ==> forall|j: int| 0 <= j < i && bit(mask, j as u32) ==> #[trigger] memory.word_at(
                    block_slot(start, mask, j),
                ) == before.operand_reg(j, 4),
                !load ==> forall|j: int| 0 <= j < 16 && bit(mask, j as u32) ==> #[trigger] memory.word_mapped(
                    block_slot(start, mask, j),
                ),
                !load ==> memory.same_outside(&mem0, lo, (4 * n) as int),
                self.flush == (before.flush || (load && i > 15 && bit(mask, 15))),
            decreases 16 - i,
        {
            if (mask >> i) & 1 == 1 {
                proof {
                    lemma_count_below_grows(mask, i as int, 16);
                }
                assert(mem0.word_mapped(block_slot(start, mask, i as int)));
                assert(memory.word_mapped(address));
                if load {
                    let value = match memory.get_word(address, true) {
                        None => return,
                        Some(w) => w,
                    };
                    self.write_register(i as usize, value);
                } else {
                    let value = self.operand_register(i as usize, 4);
                    let ghost prev = *memory;
                    if !memory.store_word(address, value, true) {
                        return;
                    }
                    proof {
                        assert forall|j: int| 0 <= j < i && bit(mask, j as u32) implies #[trigger] memory.word_at(
                            block_slot(start, mask, j),
                        ) == before.operand_reg(j, 4) by {
                            lemma_count_below_grows(mask, j, i as int);
                            let sj = block_slot(start, mask, j);
                            lemma_slots_disjoint(start, count_below(mask, j), count_below(mask, i as int));
                            lemma_word_kept(&prev, memory, sj, address & 0xFFFF_FFFC);
                        }
                        assert forall|j: int| 0 <= j < 16 && bit(mask, j as u32) implies #[trigger] memory.word_mapped(
                            block_slot(start, mask, j),
                        ) by {
                            lemma_word_kept_mapped(&prev, memory, block_slot(start, mask, j), address & 0xFFFF_FFFC);
                        }
                        assert forall|a: u32|
                            #![trigger memory.byte(a)]
                            mem0.mapped(a) && (a - lo) % 0x1_0000_0000 >= 4 * n implies memory.byte(a) == mem0.byte(
                            a,
                        ) by {
                            lemma_block_frame(start, count_below(mask, i as int), n as nat, a);
                        }
                    }
                }
                proof {
                    lemma_wrap_step(start as int, count_below(mask, i as int));
                }
                address = address.wrapping_add(4);
            }
            i += 1;
        }
    }

    /// Block data transfer (LDM, STM): the listed registers, lowest first, to
    /// or from consecutive words that start below or above the base register;
    /// write-back leaves the base past the block, unless a load includes the
    /// base. With the S bit, the User bank is transferred, or, for a load that
    /// includes the program counter, the CPSR is restored from the saved
    /// status register afterwards. The block's words and the restored mode are
    /// checked before anything changes.
    #[verifier::rlimit(60)]
    fn block_data_transfer(
        &mut self,
        memory: &mut Memory,
        opcode: u32,
        pre_indexing: bool,
        add_offset: bool,
        load_psr: bool,
        write_back: bool,
        load: bool,
    ) -> (r: Result<(), CpuFault>)
        requires
            old(self).wf(),
            old(memory).wf(),
        ensures
            final(self).wf(),
            final(memory).wf(),
            final(self).pipeline_stage_1 == old(self).pipeline_stage_1,
            final(self).pipeline_stage_2 == old(self).pipeline_stage_2,
            final(self).block_effect(
                old(self),
                old(memory),
                final(memory),
                opcode,
                pre_indexing,
                add_offset,
                load_psr,
                write_back,
                load,
                r,
            ),
    {
        let rn = Self::reg_index(opcode, 16);
        let mask = opcode & 0xFFFF;
        let n = Self::count_registers(mask);
        let base = self.registers[rn];
        let size = 4 * n;
        let (start, end) = if add_offset {
            (if pre_indexing { base.wrapping_add(4) } else { base }, base.wrapping_add(size))
        } else {
            let low = base.wrapping_sub(size);
            (if pre_indexing { low } else { low.wrapping_add(4) }, low)
        };
        proof {
            lemma_block_bounds(base, n, pre_indexing, add_offset, start, end);
        }
        if let Err(e) = Self::block_words_mapped(memory, start, mask) {
            return Err(e);
        }
        let includes_pc = (mask >> 15u32) & 1 == 1;
        if load && load_psr && includes_pc {
            if let Some(k) = self.spsr_index() {
                let saved = self.saved_psr[k];
                if !Self::is_valid_mode(saved & MODE_MASK) {
                    return Err(CpuFault::InvalidMode { mode: saved & MODE_MASK });
                }
            }
        }
        let user_bank = load_psr && !(load && includes_pc);
        let saved_cpsr = self.cpsr_register;
        let ghost entry = *self;
        if user_bank {
            let c = self.cpsr_register;
            proof {
                lemma_cpsr_bits(c, 0, 0, 0, 0, 0, 0, 0);
            }
            self.set_cpsr((c & 0xFFFF_FFE0) | USER_MODE);
        }
        let ghost before = *self;
        let ghost mem0 = *memory;
        self.transfer_block_words(memory, start, mask, n, load);
        let ghost after_loop = *self;
        proof {
            lemma_banked_active(&before, &after_loop);
            lemma_shared_views(&before);
            lemma_shared_views(&entry);
        }
        if user_bank {
            self.set_cpsr(saved_cpsr);
        }
        let ghost switched = *self;
        let wb = write_back && !(load && (mask >> (rn as u32)) & 1 == 1);
        if wb {
            self.write_register(rn, end);
        }
        let ghost written = *self;
        proof {
            lemma_banked_active(&switched, &written);
            lemma_shared_views(&switched);
            assert(written.cpsr_register == entry.cpsr_register);
        }
        if load && load_psr && includes_pc {
            let restored = self.restore_cpsr();
            assert(restored is Ok);
        }
        proof {
            let xb = current_bank(before.cpsr_register);
            let cur = current_bank(entry.cpsr_register);
            assert forall|b: int, i: int| 0 <= b < 6 && 0 <= i < 15 implies #[trigger] self.banked(b, i) == (if load
                && bit(mask, i as u32) && shares(b, xb, i) {
                mem0.word_at(block_slot(start, mask, i))
            } else if wb && i == rn && shares(b, cur, i) {
                end
            } else {
                entry.banked(b, i)
            }) by {
                assert(written.banked(b, i) == self.banked(b, i));
                assert(switched.banked(b, i) == after_loop.banked(b, i));
                assert(before.banked(xb, i) == entry.banked(xb, i));
                assert(switched.banked(cur, i) == after_loop.banked(cur, i));
            }
            assert forall|i: int| 0 <= i < 16 && bit(mask, i as u32) implies before.operand_reg(i, 4) == (if i == 15 {
                entry.operand_reg(15, 4)
            } else {
                entry.banked(xb, i)
            }) by {
                if i < 15 {
                    assert(before.banked(xb, i) == entry.banked(xb, i));
                }
            }
        }
        Ok(())
    }

    /// Whether every word of a block is mapped; the first slot that is not
    /// is reported.
    fn block_words_mapped(memory: &Memory, start: u32, mask: u32) -> (r: Result<(), CpuFault>)
        requires
            memory.wf(),
        ensures
            r is Ok == block_mapped(memory, start, mask),
            r is Err ==> first_unmapped_slot(memory, start, mask, r),
    {
        let mut address = start;
        let mut i: u32 = 0;
        while i < 16
            invariant
                i <= 16,
                memory.wf(),
                address == block_slot(start, mask, i as int),
                count_below(mask, i as int) <= i,
                forall|j: int| 0 <= j < i && bit(mask, j as u32) ==> #[trigger] memory.word_mapped(
                    block_slot(start, mask, j),
                ),
            decreases 16 - i,
        {
            if (mask >> i) & 1 == 1 {
                if !memory.is_word_mapped(address) {
                    assert(0 <= i < 16 && bit(mask, i) && !memory.word_mapped(block_slot(start, mask, i as int)) && (
                    forall|j: int| 0 <= j < i && bit(mask, j as u32) ==> #[trigger] memory.word_mapped(
                        block_slot(start, mask, j),
                    )));
                    return Err(CpuFault::BusError { address });
                }
                proof {
                    lemma_wrap_step(start as int, count_below(mask, i as int));
                }
                address = address.wrapping_add(4);
            }
            i += 1;
        }
        Ok(())
    }


    /// Takes an exception: the CPSR goes to the exception mode's saved status
    /// register, the mode changes with IRQs masked and the ARM state selected,
    /// r14 of the new mode gets the address of the next instruction and the
    /// program counter the vector, and the pipeline is flushed.
    pub fn enter_exception(&mut self, exception: ExceptionKind)
        requires
            old(self).wf(),
        ensures
            final(self).wf(),
            final(self).flush_requested(),
            final(self).stage1() == old(self).stage1(),
            final(self).stage2() == old(self).stage2(),
            ({
                let mode = exception_mode(exception);
                let width: int = if thumb_state(old(self).cpsr()) { 2 } else { 4 };
                &&& final(self).cpsr() == (old(self).cpsr() & 0xFFFF_FFC0) | mode | IRQ_BIT
                &&& final(self).spsr() == Some(old(self).cpsr())
                &&& final(self).regs()[14] == wrap(old(self).regs()[15] - width)
                &&& final(self).regs()[15] == exception_vector(exception)
                &&& forall|b: int, r: int|
                    0 <= b < 6 && 0 <= r < 15 && !(b == bank_of(mode) && r == 14) ==> #[trigger] final(self).banked(b, r)
                        == old(self).banked(b, r)
            }),
    {
        let (mode, vector): (u32, u32) = match exception {
            ExceptionKind::Undefined => (UNDEFINED_MODE, 0x04),
            ExceptionKind::SoftwareInterrupt => (SUPERVISOR_MODE, 0x08),
        };
        let old_cpsr = self.cpsr_register;
        let width: u32 = if old_cpsr & STATE_BIT != 0 { 2 } else { 4 };
        let pc = self.registers[15];
        proof {
            lemma_wrap_sub(pc as int, width as int);
        }
        let return_address = pc.wrapping_sub(width);
        let new_cpsr = (old_cpsr & 0xFFFF_FFC0) | mode | IRQ_BIT;
        proof {
            lemma_cpsr_bits(old_cpsr, 0, 0, 0, 0, 0, 0, mode);
        }
        let ghost s0 = *self;
        self.set_cpsr(new_cpsr);
        let ghost s_mid = *self;
        let i = Self::bank_index(mode) - 1;
        self.saved_psr[i] = old_cpsr;
        let ghost s1 = *self;
        self.write_register(14, return_address);
        self.write_register(15, vector);
        assert forall|b: int, r: int|
            0 <= b < 6 && 0 <= r < 15 && !(b == bank_of(mode) && r == 14) implies #[trigger] self.banked(b, r)
                == s0.banked(b, r) by {
            assert(s_mid.banked(b, r) == s0.banked(b, r));
            assert(s1.banked(b, r) == s_mid.banked(b, r));
        }
    }

    /// The word-aligned program counter as THUMB PC-relative loads and
    /// address computations read it.
    fn thumb_pc_base(&self) -> (r: u32)
        ensures
            r == self.registers[15] & 0xFFFF_FFFC,
            r & 3 == 0,
    {
        let pc = self.registers[15];
        assert((pc & 0xFFFF_FFFC) & 3 == 0) by (bit_vector);
        pc & 0xFFFF_FFFC
    }

    /// Executes a decoded 32-bit instruction.
    fn execute_arm(&mut self, memory: &mut Memory, opcode: u32, instruction: Instruction) -> (r: Result<(), CpuFault>)
        requires
            old(self).wf(),
            old(memory).wf(),
        ensures
            final(self).wf(),
            final(memory).wf(),
            final(self).pipeline_stage_1 == old(self).pipeline_stage_1,
            final(self).pipeline_stage_2 == old(self).pipeline_stage_2,
            final(self).arm_effect(old(self), old(memory), final(memory), opcode, instruction, r),
    {
        match instruction {
            Instruction::BranchAndExchange => {
                proof {
                    lemma_opcode_bits(opcode);
                }
                let rm = Self::reg_index(opcode, 0);
                self.branch_and_exchange(rm);
                Ok(())
            },
            Instruction::Alu { .. } => self.alu_command(opcode),
            Instruction::Branch { link } => {
                self.branch(link, opcode);
                Ok(())
            },
            Instruction::MRSTransfer { source_is_spsr } => {
                let rd = Self::reg_index(opcode, 12);
                let value = self.mrs(source_is_spsr);
                self.write_register(rd, value);
                Ok(())
            },
            Instruction::MSRTransfer { operand2_type, destination_is_spsr } => {
                proof {
                    lemma_opcode_bits(opcode);
                }
                let mask = msr_mask(opcode);
                let operand = match operand2_type {
                    Operand2Type::ImmediateWithRotation => {
                        let rot = ((opcode >> 8u32) & 0xF) * 2;
                        shift(ShiftType::RotateRight, rot, opcode & 0xFF, false, true).0
                    },
                    _ => self.registers[Self::reg_index(opcode, 0)],
                };
                self.msr(destination_is_spsr, mask, operand)
            },
            Instruction::Multiply { accumulate, set_conditions } => {
                self.multiply(opcode, accumulate, set_conditions);
                Ok(())
            },
            Instruction::MultiplyLong { signed, accumulate, set_conditions } => {
                self.multiply_long(opcode, signed, accumulate, set_conditions);
                Ok(())
            },
            Instruction::SingleDataTransfer { pre_indexing, add_offset, transfer_byte, write_back, load, .. } => {
                self.single_data_transfer(memory, opcode, pre_indexing, add_offset, transfer_byte, write_back, load)
            },
            Instruction::HalfwordTransfer {
                immediate,
                pre_indexing,
                add_offset,
                write_back,
                load,
                halfword_transfer_type,
            } => self.halfword_data_transfer(
                memory,
                opcode,
                immediate,
                pre_indexing,
                add_offset,
                write_back,
                load,
                halfword_transfer_type,
            ),
            Instruction::BlockDataTransfer { pre_indexing, add_offset, load_psr, write_back, load } => {
                self.block_data_transfer(memory, opcode, pre_indexing, add_offset, load_psr, write_back, load)
            },
            Instruction::SingleDataSwap { transfer_byte } => self.single_data_swap(memory, opcode, transfer_byte),
            Instruction::SoftwareInterrupt => {
                self.enter_exception(ExceptionKind::SoftwareInterrupt);
                Ok(())
            },
            Instruction::Undefined => Err(CpuFault::UndefinedInstruction { opcode }),
        }
    }


    /// Executes a decoded 16-bit instruction. Each format is carried out as
    /// the 32-bit instruction that it abbreviates, through the same handlers;
    /// the program counter reads as the instruction's address plus 4.
    fn execute_thumb(&mut self, memory: &mut Memory, opcode: u32, instruction: ThumbInstruction) -> (r: Result<(), CpuFault>)
        requires
            old(self).wf(),
            old(memory).wf(),
        ensures
            final(self).wf(),
            final(memory).wf(),
            final(self).pipeline_stage_1 == old(self).pipeline_stage_1,
            final(self).pipeline_stage_2 == old(self).pipeline_stage_2,
            match thumb_arm_form(instruction, opcode) {
                Some(arm) => final(self).arm_effect(
                    old(self),
                    old(memory),
                    final(memory),
                    arm,
                    arm_key_shape(arm_key(arm)),
                    r,
                ),
                None => final(self).thumb_direct_effect(old(self), old(memory), final(memory), opcode, instruction, r),
            },
    {
        if let Some(arm) = thumb_arm_opcode(instruction, opcode) {
            let shape = self.arm_lookup(arm);
            return self.execute_arm(memory, arm, shape);
        }
        self.execute_thumb_direct(memory, opcode, instruction)
    }

    /// Executes the THUMB formats that abbreviate no 32-bit instruction.
    fn execute_thumb_direct(&mut self, memory: &mut Memory, opcode: u32, instruction: ThumbInstruction) -> (r: Result<(), CpuFault>)
        requires
            old(self).wf(),
            old(memory).wf(),
            thumb_arm_form(instruction, opcode) is None,
        ensures
            final(self).wf(),
            final(memory).wf(),
            final(self).pipeline_stage_1 == old(self).pipeline_stage_1,
            final(self).pipeline_stage_2 == old(self).pipeline_stage_2,
            final(self).thumb_direct_effect(old(self), old(memory), final(memory), opcode, instruction, r),
    {
        proof {
            lemma_opcode_bits(opcode);
        }
        let mid = (opcode >> 3u32) & 0x7;
        let high = (opcode >> 8u32) & 0x7;
        match instruction {
            ThumbInstruction::HiRegisterOperation => {
                let rs = mid | ((opcode >> 3u32) & 0x8);
                self.branch_and_exchange(rs as usize);
                Ok(())
            },
            ThumbInstruction::PcRelativeLoad => {
                let base = self.thumb_pc_base();
                proof {
                    lemma_pc_relative(base, opcode);
                }
                let address = base.wrapping_add((opcode & 0xFF) << 2u32);
                let value = match Self::load_word(memory, address) {
                    Err(e) => return Err(e),
                    Ok(v) => v,
                };
                self.write_register(high as usize, value);
                Ok(())
            },
            ThumbInstruction::LoadAddress => {
                let base = self.thumb_pc_base();
                proof {
                    lemma_pc_relative(base, opcode);
                }
                let value = base.wrapping_add((opcode & 0xFF) << 2u32);
                self.write_register(high as usize, value);
                Ok(())
            },
            ThumbInstruction::ConditionalBranch => {
                let code = (opcode >> 8u32) & 0xF;
                let c = self.cpsr_register;
                let flags = c >> 28u32;
                proof {
                    lemma_opcode_bits(c);
                }
                if self.condition_lut[(code * 16 + flags) as usize] {
                    let imm = opcode & 0xFF;
                    let offset: u32 = if imm & 0x80 != 0 { (imm | 0xFFFF_FF00) << 1u32 } else { imm << 1u32 };
                    proof {
                        lemma_thumb_branch_offset(opcode, imm, offset, true);
                        lemma_wrap_offset(self.registers[15] as int, offset as int, thumb_branch_offset(opcode, true));
                    }
                    let target = self.registers[15].wrapping_add(offset);
                    self.write_register(15, target);
                }
                Ok(())
            },
            ThumbInstruction::SoftwareInterrupt => {
                self.enter_exception(ExceptionKind::SoftwareInterrupt);
                Ok(())
            },
            ThumbInstruction::UnconditionalBranch => {
                let imm = opcode & 0x7FF;
                let offset: u32 = if imm & 0x400 != 0 { (imm | 0xFFFF_F800) << 1u32 } else { imm << 1u32 };
                proof {
                    lemma_thumb_branch_offset(opcode, imm, offset, false);
                    lemma_wrap_offset(self.registers[15] as int, offset as int, thumb_branch_offset(opcode, false));
                }
                let target = self.registers[15].wrapping_add(offset);
                self.write_register(15, target);
                Ok(())
            },
            ThumbInstruction::LongBranchWithLink => {
                let imm = opcode & 0x7FF;
                let pc = self.registers[15];
                let offset: u32 = if imm & 0x400 != 0 { (imm | 0xFFFF_F800) << 12u32 } else { imm << 12u32 };
                proof {
                    lemma_thumb_long_offset(opcode, imm, offset);
                    lemma_wrap_offset(pc as int, offset as int, thumb_long_offset(opcode));
                    lemma_wrap_sub(pc as int, 2);
                    lemma_wrap(self.registers[14] + imm * 2);
                }
                if (opcode >> 11u32) & 1 == 1 {
                    let next = pc.wrapping_sub(2) | 1;
                    let target = self.registers[14].wrapping_add(imm << 1u32);
                    self.write_register(15, target & 0xFFFF_FFFE);
                    self.write_register(14, next);
                } else {
                    self.write_register(14, pc.wrapping_add(offset));
                }
                Ok(())
            },
            ThumbInstruction::Undefined => Err(CpuFault::UndefinedInstruction { opcode }),
            // The other formats abbreviate 32-bit instructions and ran above.
            _ => Ok(()),
        }
    }


    /// Fetches the opcode at an address: a word in ARM state, a halfword in
    /// THUMB state.
    fn fetch(memory: &mut Memory, address: u32, thumb: bool) -> (r: Result<u32, CpuFault>)
        requires
            old(memory).wf(),
        ensures
            final(memory).wf(),
            final(memory).same_contents(old(memory)),
            r == match fetch_spec(old(memory), address, thumb) {
                Some(op) => Ok::<u32, CpuFault>(op),
                None => Err(CpuFault::BusError { address }),
            },
    {
        if thumb {
            match memory.get_halfword(address, true) {
                Some(h) => Ok(h as u32),
                None => Err(CpuFault::BusError { address }),
            }
        } else {
            match memory.get_word(address, true) {
                Some(w) => Ok(w),
                None => Err(CpuFault::BusError { address }),
            }
        }
    }

    /// Pairs an opcode with its entry in the decode table of the state.
    fn decode_entry(&self, opcode: u32, thumb: bool) -> (r: PipelineStage2)
        requires
            self.wf(),
        ensures
            r == entry_spec(opcode, thumb),
    {
        proof {
            lemma_opcode_bits(opcode);
        }
        if thumb {
            let key = (opcode >> 8u32) & 0xFF;
            PipelineStage2 { opcode, decoded: Decoded::Thumb(self.thumb_lut[key as usize]) }
        } else {
            PipelineStage2 { opcode, decoded: Decoded::Arm(self.arm_lookup(opcode)) }
        }
    }

    /// The decode-table entry of a 32-bit opcode.
    fn arm_lookup(&self, opcode: u32) -> (r: Instruction)
        requires
            self.wf(),
        ensures
            r == arm_key_shape(arm_key(opcode)),
    {
        proof {
            lemma_opcode_bits(opcode);
        }
        let hi = (opcode >> 20u32) & 0xFF;
        let lo = (opcode >> 4u32) & 0xF;
        self.arm_lut[(hi * 16 + lo) as usize]
    }

    /// Whether the condition of a 32-bit opcode holds of the current flags.
    fn condition_holds(&self, opcode: u32) -> (r: bool)
        requires
            self.wf(),
        ensures
            r == condition_passed(opcode >> 28u32, flags_of(self.cpsr_register)),
    {
        let code = opcode >> 28u32;
        let c = self.cpsr_register;
        let flags = c >> 28u32;
        proof {
            lemma_opcode_bits(opcode);
            lemma_opcode_bits(c);
        }
        self.condition_lut[(code * 16 + flags) as usize]
    }

    /// Discards both pipeline stages and refills them from the program
    /// counter, aligned to the state's instruction width.
    fn pipeline_flush(&mut self, memory: &mut Memory) -> (r: Result<(), CpuFault>)
        requires
            old(self).wf(),
            old(memory).wf(),
        ensures
            final(self).wf(),
            final(memory).wf(),
            final(memory).same_contents(old(memory)),
            final(self).cpsr_register == old(self).cpsr_register,
            final(self).same_banks(old(self)),
            r is Ok ==> final(self).refilled(final(memory)) && final(self).registers@ == old(self).registers@.update(
                15,
                final(self).registers[15],
            ) && final(self).registers[15] == wrap(
                (old(self).registers[15] & if thumb_state(old(self).cpsr_register) {
                    0xFFFF_FFFEu32
                } else {
                    0xFFFF_FFFCu32
                }) + 2 * step_width(old(self).cpsr_register),
            ),
            r is Err ==> *final(self) == *old(self),
            final(self).refill_post(old(self), old(memory), final(memory), r),
    {
        let thumb = self.cpsr_register & STATE_BIT != 0;
        let width: u32 = if thumb { 2 } else { 4 };
        let target = self.registers[15] & if thumb { 0xFFFF_FFFEu32 } else { 0xFFFF_FFFCu32 };
        let ghost mem0 = *memory;
        let first = match Self::fetch(memory, target, thumb) {
            Ok(op) => op,
            Err(e) => return Err(e),
        };
        let second_address = target.wrapping_add(width);
        let second = match Self::fetch(memory, second_address, thumb) {
            Ok(op) => op,
            Err(e) => return Err(e),
        };
        let entry = self.decode_entry(first, thumb);
        self.pipeline_stage_2 = Some(entry);
        self.pipeline_stage_1 = Some(second);
        let ghost s0 = *self;
        self.registers[15] = target.wrapping_add(2 * width);
        self.flush = false;
        proof {
            lemma_wrap_round_trip(target as int, width as int);
            lemma_fetch_same(&mem0, memory, target, thumb);
            lemma_fetch_same(&mem0, memory, second_address, thumb);
            assert(self.same_banks(&s0));
        }
        Ok(())
    }


    /// The instruction in the decode/execute stage runs in this step: there is
    /// one, and it is a THUMB instruction or its condition holds of the flags.
    pub open spec fn executes(&self) -> bool {
        match self.pipeline_stage_2 {
            None => false,
            Some(stage) => match stage.decoded {
                Decoded::Thumb(_) => true,
                Decoded::Arm(_) => condition_passed(stage.opcode >> 28u32, flags_of(self.cpsr_register)),
            },
        }
    }

    /// The stages after an advance without a flush: the fetched opcode in the
    /// prefetch stage, the former prefetch stage decoded in the execute stage.
    pub open spec fn advanced(&self, old: &Arm7, fetched: u32) -> bool {
        let thumb = thumb_state(old.cpsr_register);
        &&& !self.flush
        &&& self.pipeline_stage_1 == Some(fetched)
        &&& self.pipeline_stage_2 == match old.pipeline_stage_1 {
            None => None,
            Some(op) => Some(entry_spec(op, thumb)),
        }
        &&& self.registers[15] == wrap(old.registers[15] + step_width(old.cpsr_register))
    }

    /// The target of the branch in the execute stage, aligned to a word.
    pub open spec fn pending_branch_target(&self) -> Option<u32> {
        match self.pipeline_stage_2 {
            Some(stage) => match stage.decoded {
                Decoded::Arm(Instruction::Branch { .. }) => Some(
                    wrap(self.registers[15] + branch_offset(stage.opcode)) & 0xFFFF_FFFC,
                ),
                _ => None,
            },
            None => None,
        }
    }

    /// One pipeline step. A pending flush refills both stages and ends the
    /// step. Otherwise the opcode at the program counter is fetched; the
    /// instruction in the execute stage runs if its condition holds (a failed
    /// condition skips it without side effects); if it asked for a flush
    /// (it wrote the program counter or took an exception), both stages are
    /// discarded and refilled from the new program counter; else the prefetch
    /// stage moves on to the execute stage with its decode-table entry, the
    /// fetched opcode takes its place and the program counter advances by the
    /// instruction width.
    pub fn next(&mut self, memory: &mut Memory) -> (r: Result<(), CpuFault>)
        requires
            old(self).wf(),
            old(memory).wf(),
        ensures
            final(self).wf(),
            final(memory).wf(),
            r is Ok ==> !final(self).flush_requested(),
            final(self).step_effect(old(self), old(memory), final(memory), r),
            old(self).executes() && old(self).pending_branch_target() is Some && !old(self).flush_requested()
                && !thumb_state(old(self).cpsr()) && fetch_spec(old(memory), old(self).regs()[15], false) is Some && r is Ok ==> {
                &&& final(self).refilled(final(memory))
                &&& final(self).regs()[15] == wrap(old(self).pending_branch_target()->0 + 8)
            },
    {
        if self.flush {
            return self.pipeline_flush(memory);
        }
        let thumb = self.cpsr_register & STATE_BIT != 0;
        let width: u32 = if thumb { 2 } else { 4 };
        let pc = self.registers[15];
        let fetched = match Self::fetch(memory, pc, thumb) {
            Ok(op) => op,
            Err(e) => return Err(e),
        };
        let ghost start = *self;
        let ghost mem1 = *memory;
        let ghost mut mid = *self;
        let ghost mut mem_mid = *memory;
        let ghost mut r_exec: Result<(), CpuFault> = Ok(());
        if let Some(stage) = self.pipeline_stage_2 {
            let runs = match stage.decoded {
                Decoded::Thumb(_) => true,
                Decoded::Arm(_) => self.condition_holds(stage.opcode),
            };
            if runs {
                let result = match stage.decoded {
                    Decoded::Arm(instruction) => self.execute_arm(memory, stage.opcode, instruction),
                    Decoded::Thumb(instruction) => self.execute_thumb(memory, stage.opcode, instruction),
                };
                proof {
                    mid = *self;
                    mem_mid = *memory;
                    r_exec = result;
                    assert(mid.stage_effect(&start, &mem1, &mem_mid, r_exec));
                }
                if let Err(e) = result {
                    proof {
                        assert(self.after_execute(&start, &mid, &mem_mid, memory, fetched, r_exec, Err(e)));
                    }
                    return Err(e);
                }
                if self.flush {
                    let refill = self.pipeline_flush(memory);
                    proof {
                        assert(self.after_execute(&start, &mid, &mem_mid, memory, fetched, r_exec, refill));
                    }
                    return refill;
                }
            }
        }
        let promoted = match self.pipeline_stage_1 {
            None => None,
            Some(op) => Some(self.decode_entry(op, thumb)),
        };
        self.pipeline_stage_2 = promoted;
        self.pipeline_stage_1 = Some(fetched);
        proof {
            lemma_wrap(pc + width);
        }
        self.registers[15] = pc.wrapping_add(width);
        proof {
            if start.executes() {
                assert(self.after_execute(&start, &mid, &mem_mid, memory, fetched, r_exec, Ok(())));
            }
        }
        Ok(())
    }

}

/// The shift type in bits 6-5 of an opcode.
pub open spec fn shift_type_of(opcode: u32) -> ShiftType {
    choose|s: ShiftType| shift_code(s) == (opcode >> 5u32) & 0x3
}

/// The data-processing operation in bits 24-21 of an opcode.
pub open spec fn alu_op_of(opcode: u32) -> AluOpcode {
    choose|op: AluOpcode| alu_code(op) == (opcode >> 21u32) & 0xF
}

proof fn lemma_opcode_fields(opcode: u32)
    ensures
        forall|s: ShiftType| shift_code(s) == (opcode >> 5u32) & 0x3 ==> s == shift_type_of(opcode),
        forall|op: AluOpcode| alu_code(op) == (opcode >> 21u32) & 0xF ==> op == alu_op_of(opcode),
        (opcode & 0x10_0000 != 0) == bit(opcode, 20),
        (opcode & 0x200_0000 != 0) == bit(opcode, 25),
        (opcode & 0x10 != 0) == bit(opcode, 4),
        ((opcode >> 8u32) & 0xF) * 2 < 32,
        (opcode >> 0u32) & 0xF == opcode & 0xF,
        (opcode >> 5u32) & 0x3 < 4,
        (opcode >> 21u32) & 0xF < 16,
{
    lemma_opcode_bits(opcode);
    assert(shift_code(ShiftType::LogicalLeft) == 0);
    assert(shift_code(ShiftType::LogicalRight) == 1);
    assert(shift_code(ShiftType::ArithmeticRight) == 2);
    assert(shift_code(ShiftType::RotateRight) == 3);
    let o = (opcode >> 21u32) & 0xF;
    let op = to_alu_opcode_spec(o);
    assert(alu_code(op) == o);
}

spec fn to_alu_opcode_spec(o: u32) -> AluOpcode {
    if o == 0 { AluOpcode::And } else if o == 1 { AluOpcode::ExclusiveOr } else if o == 2 { AluOpcode::Subtract }
    else if o == 3 { AluOpcode::RightSubtract } else if o == 4 { AluOpcode::Add } else if o == 5 { AluOpcode::AddCarry }
    else if o == 6 { AluOpcode::SubtractCarry } else if o == 7 { AluOpcode::RightSubtractCarry }
    else if o == 8 { AluOpcode::TestAnd } else if o == 9 { AluOpcode::TestExclusiveOr }
    else if o == 10 { AluOpcode::CompareSubtract } else if o == 11 { AluOpcode::CompareAdd }
    else if o == 12 { AluOpcode::Or } else if o == 13 { AluOpcode::Move } else if o == 14 { AluOpcode::BitClear }
    else { AluOpcode::MoveNot }
}

/// The byte offset of a branch: the 24-bit field sign-extended, times four.
pub open spec fn branch_offset(opcode: u32) -> int {
    let imm = opcode & 0xFF_FFFF;
    if imm < 0x80_0000 {
        imm * 4
    } else {
        (imm - 0x100_0000) * 4
    }
}

/// Rm * Rs (+ Rn) modulo 2^32, with the register numbers in bits 3-0, 11-8 and 15-12.
pub open spec fn multiply_result(regs: Seq<u32>, opcode: u32, accumulate: bool) -> u32 {
    let addend: int = if accumulate { regs[((opcode >> 12u32) & 0xF) as int] as int } else { 0 };
    wrap(regs[(opcode & 0xF) as int] * regs[((opcode >> 8u32) & 0xF) as int] + addend)
}

/// Rm * Rs (+ RdHi:RdLo) modulo 2^64, the factors read as signed numbers for
/// a signed multiply.
pub open spec fn multiply_long_result(regs: Seq<u32>, opcode: u32, signed_multiply: bool, accumulate: bool) -> int {
    let rm = regs[(opcode & 0xF) as int];
    let rs = regs[((opcode >> 8u32) & 0xF) as int];
    let product: int = if signed_multiply { signed(rm) * signed(rs) } else { rm * rs };
    let addend: int = if accumulate {
        regs[((opcode >> 16u32) & 0xF) as int] * 0x1_0000_0000 + regs[((opcode >> 12u32) & 0xF) as int]
    } else {
        0
    };
    (product + addend) % 0x1_0000_0000_0000_0000
}

/// The CPSR with negative and zero set from a 64-bit result.
pub open spec fn with_nz64(cpsr: u32, result: int) -> u32 {
    (cpsr & 0x3FFF_FFFF) | (if result >= 0x8000_0000_0000_0000 { SIGN_FLAG } else { 0 }) | (if result == 0 {
        ZERO_FLAG
    } else {
        0
    })
}

fn signed_i128(x: u32) -> (r: i128)
    ensures
        r == signed(x),
{
    if x < 0x8000_0000 {
        x as i128
    } else {
        x as i128 - 0x1_0000_0000
    }
}

proof fn lemma_wrap_sub(a: int, b: int)
    requires
        0 <= a <= u32::MAX,
        0 <= b <= u32::MAX,
    ensures
        wrap(a - b) == vstd::wrapping::u32_specs::wrapping_sub(a as u32, b as u32),
{
}

proof fn lemma_wrap_offset(pc: int, offset: int, signed_offset: int)
    requires
        0 <= pc <= u32::MAX,
        0 <= offset <= u32::MAX,
        offset == wrap(signed_offset),
    ensures
        wrap(pc + signed_offset) == vstd::wrapping::u32_specs::wrapping_add(pc as u32, offset as u32),
{
    assert((pc + signed_offset) % 0x1_0000_0000 == (pc + offset) % 0x1_0000_0000) by {
        vstd::arithmetic::div_mod::lemma_add_mod_noop(pc, signed_offset, 0x1_0000_0000);
        vstd::arithmetic::div_mod::lemma_add_mod_noop(pc, offset, 0x1_0000_0000);
        vstd::arithmetic::div_mod::lemma_mod_twice(signed_offset, 0x1_0000_0000);
    }
}

proof fn lemma_branch_offset(opcode: u32, imm: u32, offset: u32)
    requires
        imm == opcode & 0xFF_FFFF,
        offset == (if imm & 0x80_0000 != 0 { ((imm | 0xFF00_0000) << 2u32) as u32 } else { (imm << 2u32) as u32 }),
    ensures
        offset == wrap(branch_offset(opcode)),
{
    assert(imm < 0x100_0000) by (bit_vector) requires imm == opcode & 0xFF_FFFF;
    assert((imm & 0x80_0000 != 0) == (imm >= 0x80_0000)) by (bit_vector) requires imm < 0x100_0000;
    if imm >= 0x80_0000 {
        assert(((imm | 0xFF00_0000) << 2u32) == ((imm * 4) as u32).wrapping_add(0xFC00_0000)) by (bit_vector)
            requires imm < 0x100_0000;
        assert(offset == imm * 4 + 0xFC00_0000);
    } else {
        assert((imm << 2u32) == imm * 4) by (bit_vector) requires imm < 0x80_0000;
    }
}

/// The word of a load from an address: rotated right by eight bits for each
/// byte that the address lies past a word boundary.
pub open spec fn load_rotate(word: u32, address: u32) -> u32 {
    let n = (address & 3) * 8;
    if n == 0 {
        word
    } else {
        ror(word, n as u32)
    }
}

/// A base address plus or minus an offset, modulo 2^32.
pub open spec fn offset_address(base: u32, offset: u32, add_offset: bool) -> u32 {
    if add_offset {
        wrap(base + offset)
    } else {
        wrap(base - offset)
    }
}

pub open spec fn sign_extend_byte(b: u8) -> u32 {
    if b >= 0x80 {
        (b + 0xFFFF_FF00) as u32
    } else {
        b as u32
    }
}

pub open spec fn sign_extend_halfword(h: u16) -> u32 {
    if h >= 0x8000 {
        (h + 0xFFFF_0000) as u32
    } else {
        h as u32
    }
}

fn sign_extend_byte_exec(b: u8) -> (r: u32)
    ensures
        r == sign_extend_byte(b),
{
    if b >= 0x80 {
        b as u32 + 0xFFFF_FF00
    } else {
        b as u32
    }
}

fn sign_extend_halfword_exec(h: u16) -> (r: u32)
    ensures
        r == sign_extend_halfword(h),
{
    if h >= 0x8000 {
        h as u32 + 0xFFFF_0000
    } else {
        h as u32
    }
}

proof fn lemma_offset_address(base: u32, offset: u32, add_offset: bool)
    ensures
        offset_address(base, offset, add_offset) == if add_offset {
            vstd::wrapping::u32_specs::wrapping_add(base, offset)
        } else {
            vstd::wrapping::u32_specs::wrapping_sub(base, offset)
        },
{
}

/// The number of registers below `r` in a register list.
pub open spec fn count_below(mask: u32, r: int) -> nat
    decreases r,
{
    if r <= 0 {
        0
    } else {
        count_below(mask, r - 1) + if bit(mask, (r - 1) as u32) { 1nat } else { 0nat }
    }
}

/// The address of the first word of a block transfer of `n` registers.
pub open spec fn block_start(base: u32, n: nat, pre_indexing: bool, add_offset: bool) -> u32 {
    if add_offset {
        if pre_indexing { wrap(base + 4) } else { base }
    } else {
        if pre_indexing { wrap(base - 4 * n) } else { wrap(base - 4 * n + 4) }
    }
}

/// The base register after a block transfer of `n` registers with write-back.
pub open spec fn block_end(base: u32, n: nat, add_offset: bool) -> u32 {
    if add_offset { wrap(base + 4 * n) } else { wrap(base - 4 * n) }
}

proof fn lemma_block_bounds(base: u32, n: u32, pre_indexing: bool, add_offset: bool, start: u32, end: u32)
    requires
        n <= 16,
        start == (if add_offset {
            if pre_indexing { vstd::wrapping::u32_specs::wrapping_add(base, 4) } else { base }
        } else {
            let low = vstd::wrapping::u32_specs::wrapping_sub(base, (4 * n) as u32);
            if pre_indexing { low } else { vstd::wrapping::u32_specs::wrapping_add(low, 4) }
        }),
        end == (if add_offset {
            vstd::wrapping::u32_specs::wrapping_add(base, (4 * n) as u32)
        } else {
            vstd::wrapping::u32_specs::wrapping_sub(base, (4 * n) as u32)
        }),
    ensures
        start == block_start(base, n as nat, pre_indexing, add_offset),
        end == block_end(base, n as nat, add_offset),
{
}

proof fn lemma_wrap_step(start: int, k: nat)
    requires
        0 <= start <= u32::MAX,
    ensures
        vstd::wrapping::u32_specs::wrapping_add(wrap(start + 4 * k), 4) == wrap(start + 4 * (k + 1)),
{
    let a = start + 4 * k;
    assert(wrap(a) == a % 0x1_0000_0000);
    vstd::arithmetic::div_mod::lemma_add_mod_noop(a, 4, 0x1_0000_0000);
    vstd::arithmetic::div_mod::lemma_mod_twice(4, 0x1_0000_0000);
}

/// The status-register bytes that an MSR opcode's field bits 19-16 select.
pub open spec fn msr_mask_spec(opcode: u32) -> u32 {
    (if bit(opcode, 16) { 0xFFu32 } else { 0u32 }) | (if bit(opcode, 17) { 0xFF00u32 } else { 0u32 }) | (if bit(
        opcode,
        18,
    ) {
        0xFF_0000u32
    } else {
        0u32
    }) | (if bit(opcode, 19) { 0xFF00_0000u32 } else { 0u32 })
}

fn msr_mask(opcode: u32) -> (r: u32)
    ensures
        r == msr_mask_spec(opcode),
{
    let c = if (opcode >> 16u32) & 1 == 1 { 0xFFu32 } else { 0u32 };
    let x = if (opcode >> 17u32) & 1 == 1 { 0xFF00u32 } else { 0u32 };
    let s = if (opcode >> 18u32) & 1 == 1 { 0xFF_0000u32 } else { 0u32 };
    let f = if (opcode >> 19u32) & 1 == 1 { 0xFF00_0000u32 } else { 0u32 };
    c | x | s | f
}

/// The instruction width of the state: 2 in THUMB state, 4 in ARM state.
pub open spec fn step_width(cpsr: u32) -> int {
    if thumb_state(cpsr) { 2 } else { 4 }
}

/// The opcode at an address, as the state fetches it.
pub open spec fn fetch_spec(memory: &Memory, address: u32, thumb: bool) -> Option<u32> {
    if thumb {
        if memory.halfword_mapped(address) { Some(memory.halfword_at(address) as u32) } else { None }
    } else {
        if memory.word_mapped(address) { Some(memory.word_at(address)) } else { None }
    }
}

/// An opcode paired with its decode-table entry.
pub open spec fn entry_spec(opcode: u32, thumb: bool) -> PipelineStage2 {
    PipelineStage2 {
        opcode,
        decoded: if thumb {
            Decoded::Thumb(thumb_shape((opcode >> 8u32) as u8))
        } else {
            Decoded::Arm(arm_key_shape(arm_key(opcode)))
        },
    }
}

proof fn lemma_fetch_same(a: &Memory, b: &Memory, address: u32, thumb: bool)
    requires
        b.same_contents(a),
    ensures
        fetch_spec(a, address, thumb) == fetch_spec(b, address, thumb),
{
    let h = address & 0xFFFF_FFFE;
    let w = address & 0xFFFF_FFFC;
    assert(a.mapped(h) == b.mapped(h));
    assert(a.mapped((h + 1) as u32) == b.mapped((h + 1) as u32));
    assert(a.mapped(w) == b.mapped(w));
    assert(a.mapped((w + 1) as u32) == b.mapped((w + 1) as u32));
    assert(a.mapped((w + 2) as u32) == b.mapped((w + 2) as u32));
    assert(a.mapped((w + 3) as u32) == b.mapped((w + 3) as u32));
    if a.mapped(h) {
        assert(a.byte(h) == b.byte(h));
    }
    if a.mapped((h + 1) as u32) {
        assert(a.byte((h + 1) as u32) == b.byte((h + 1) as u32));
    }
    if a.mapped(w) {
        assert(a.byte(w) == b.byte(w));
    }
    if a.mapped((w + 1) as u32) {
        assert(a.byte((w + 1) as u32) == b.byte((w + 1) as u32));
    }
    if a.mapped((w + 2) as u32) {
        assert(a.byte((w + 2) as u32) == b.byte((w + 2) as u32));
    }
    if a.mapped((w + 3) as u32) {
        assert(a.byte((w + 3) as u32) == b.byte((w + 3) as u32));
    }
}

proof fn lemma_wrap_round_trip(t: int, w: int)
    requires
        0 <= t <= u32::MAX,
        w == 2 || w == 4,
    ensures
        vstd::wrapping::u32_specs::wrapping_add(t as u32, (2 * w) as u32) == wrap(t + 2 * w),
        wrap(wrap(t + 2 * w) - 2 * w) == t,
        wrap(wrap(t + 2 * w) - w) == vstd::wrapping::u32_specs::wrapping_add(t as u32, w as u32),
{
}

/// Banked storage survives mode switches: back in a mode, with every bank as
/// it was when the mode was left (mode switches keep every bank), the active
/// registers r0-r14 are those that the mode left.
pub proof fn lemma_banked_round_trip(left: Arm7, back: Arm7)
    requires
        back.same_banks(&left),
        current_bank(left.cpsr()) == current_bank(back.cpsr()),
    ensures
        forall|r: int| 0 <= r < 15 ==> back.regs()[r] == left.regs()[r],
{
    let b = current_bank(left.cpsr());
    assert(0 <= b < 6);
    assert forall|r: int| 0 <= r < 15 implies back.regs()[r] == left.regs()[r] by {
        assert(back.banked(b, r) == left.banked(b, r));
    }
}

/// Writing the flag byte of the CPSR under the mask 0xFF000000 and reading the
/// CPSR back gives the written value's top byte over the former lower bytes;
/// the mode stays, so such a write never fails for want of a mode.
pub proof fn lemma_flag_byte_round_trip(cpsr: u32, value: u32)
    ensures
        masked_write(cpsr, 0xFF00_0000, value) >> 24u32 == value >> 24u32,
        masked_write(cpsr, 0xFF00_0000, value) & 0x00FF_FFFF == cpsr & 0x00FF_FFFF,
        mode_of(masked_write(cpsr, 0xFF00_0000, value)) == mode_of(cpsr),
{
    assert(((value & 0xFF00_0000) | (cpsr & !0xFF00_0000u32)) >> 24u32 == value >> 24u32) by (bit_vector);
    assert(((value & 0xFF00_0000) | (cpsr & !0xFF00_0000u32)) & 0x00FF_FFFF == cpsr & 0x00FF_FFFF) by (bit_vector);
    assert(((value & 0xFF00_0000) | (cpsr & !0xFF00_0000u32)) & 0x1F == cpsr & 0x1F) by (bit_vector);
}

/// A word load from an address one byte past a word boundary gives the
/// aligned word rotated right by eight bits.
pub proof fn lemma_unaligned_word_load(word: u32, address: u32)
    requires
        address & 3 == 1,
    ensures
        load_rotate(word, address) == ror(word, 8),
        load_rotate(word, address) == ((word >> 8u32) | (word << 24u32)),
{
}

/// Bounds and identities of the bit fields that decoding reads.
proof fn lemma_opcode_bits(opcode: u32)
    ensures
        (opcode >> 5u32) & 0x3 < 4,
        (opcode >> 21u32) & 0xF < 16,
        (opcode >> 8u32) & 0xF <= 15,
        (opcode >> 0u32) & 0xF == opcode & 0xF,
        (opcode & 0x10_0000 != 0) == bit(opcode, 20),
        (opcode & 0x200_0000 != 0) == bit(opcode, 25),
        (opcode & 0x10 != 0) == bit(opcode, 4),
        (opcode >> 8u32) & 0x7 < 8,
        ((opcode >> 3u32) & 0x7) | ((opcode >> 3u32) & 0x8) < 16,
        (opcode >> 8u32) & 0xFF < 256,
        (((opcode >> 8u32) & 0xFF) as u8) == ((opcode >> 8u32) as u8),
        (opcode >> 20u32) & 0xFF < 256,
        (opcode >> 4u32) & 0xF < 16,
        opcode >> 28u32 < 16,
        opcode & 3 <= 3,
        (opcode >> 8u32) & 0x3 < 4,
{
    assert(((opcode >> 5u32) & 0x3 < 4) && ((opcode >> 21u32) & 0xF < 16) && ((opcode >> 8u32) & 0xF <= 15) && ((
    opcode >> 0u32) & 0xF == opcode & 0xF) && ((opcode & 0x10_0000 != 0) == ((opcode >> 20u32) & 1 == 1)) && ((opcode
        & 0x200_0000 != 0) == ((opcode >> 25u32) & 1 == 1)) && ((opcode & 0x10 != 0) == ((opcode >> 4u32) & 1 == 1))
        && ((opcode >> 8u32) & 0x7 < 8) && (((opcode >> 3u32) & 0x7) | ((opcode >> 3u32) & 0x8) < 16) && ((opcode
        >> 8u32) & 0xFF < 256) && ((((opcode >> 8u32) & 0xFF) as u8) == ((opcode >> 8u32) as u8)) && ((opcode >> 20u32)
        & 0xFF < 256) && ((opcode >> 4u32) & 0xF < 16) && (opcode >> 28u32 < 16) && (opcode & 3 <= 3) && ((opcode >> 8u32) & 0x3 < 4)) by (bit_vector);
}

/// Writes of flag bits, of the state bit and of the interrupt bits leave the mode field.
proof fn lemma_cpsr_bits(c: u32, r: u32, cf: u32, vf: u32, n: u32, z: u32, a: u32, m: u32)
    requires
        cf == 0 || cf == 0x2000_0000,
        vf == 0 || vf == 0x1000_0000,
        n == 0 || n == 0x8000_0000,
        z == 0 || z == 0x4000_0000,
        m < 0x20,
    ensures
        ((c & 0xDFFF_FFFF) | cf) & 0x1F == c & 0x1F,
        ((c & 0x3FFF_FFFF) | (r & 0x8000_0000) | z) & 0x1F == c & 0x1F,
        ((c & 0xCFFF_FFFF) | cf | vf) & 0x1F == c & 0x1F,
        ((c & 0x3FFF_FFFF) | n | z) & 0x1F == c & 0x1F,
        ((c & !0x20u32) | ((a & 1) << 5u32)) & 0x1F == c & 0x1F,
        ((c & 0xFFFF_FFE0) | 0x10) & 0x1F == 0x10,
        ((c & 0xFFFF_FFC0) | m | 0x80) & 0x1F == m,
        (0x1Fu32 | 0x80 | 0x40) & 0x1F == 0x1F,
{
    assert((((c & 0xDFFF_FFFF) | cf) & 0x1F == c & 0x1F) && (((c & 0x3FFF_FFFF) | (r & 0x8000_0000) | z) & 0x1F == c
        & 0x1F) && (((c & 0xCFFF_FFFF) | cf | vf) & 0x1F == c & 0x1F) && (((c & 0x3FFF_FFFF) | n | z) & 0x1F == c
        & 0x1F) && (((c & !0x20u32) | ((a & 1) << 5u32)) & 0x1F == c & 0x1F) && (((c & 0xFFFF_FFE0) | 0x10) & 0x1F
        == 0x10) && (((c & 0xFFFF_FFC0) | m | 0x80) & 0x1F == m) && ((0x1Fu32 | 0x80 | 0x40) & 0x1F == 0x1F)) by (bit_vector)
        requires
            cf == 0 || cf == 0x2000_0000,
            vf == 0 || vf == 0x1000_0000,
            n == 0 || n == 0x8000_0000,
            z == 0 || z == 0x4000_0000,
            m < 0x20,
    ;
}

proof fn lemma_count_below_grows(mask: u32, j: int, i: int)
    requires
        0 <= j < i <= 16,
        bit(mask, j as u32),
    ensures
        count_below(mask, j) < count_below(mask, i),
        count_below(mask, i) <= i,
    decreases i - j,
{
    if i == j + 1 {
        lemma_count_below_bound(mask, i);
    } else {
        lemma_count_below_grows(mask, j, i - 1);
        lemma_count_below_bound(mask, i);
    }
}

proof fn lemma_count_below_bound(mask: u32, i: int)
    requires
        0 <= i,
    ensures
        count_below(mask, i) <= i,
    decreases i,
{
    if i > 0 {
        lemma_count_below_bound(mask, i - 1);
    }
}

/// The aligned words of two slots of one block transfer do not overlap.
proof fn lemma_slots_disjoint(start: u32, cj: nat, ci: nat)
    requires
        cj < ci <= 16,
    ensures
        ({
            let p = wrap(start + 4 * cj) & 0xFFFF_FFFC;
            let q = wrap(start + 4 * ci) & 0xFFFF_FFFC;
            &&& p + 3 <= u32::MAX
            &&& (q + 4 <= p || p + 4 <= q)
        }),
{
    let x = wrap(start + 4 * cj);
    let y = wrap(start + 4 * ci);
    let d = (ci - cj) as u32;
    let e = (4 * (ci - cj)) as u32;
    assert(e == 4u32 * d);
    assert(e & 3 == 0) by (bit_vector) requires e == 4u32 * d, d <= 16;
    assert(y == x.wrapping_add(e)) by {
        vstd::arithmetic::div_mod::lemma_add_mod_noop(start + 4 * cj, 4 * (ci - cj), 0x1_0000_0000);
        vstd::arithmetic::div_mod::lemma_mod_twice(start + 4 * cj, 0x1_0000_0000);
    }
    let p = x & 0xFFFF_FFFC;
    let q = y & 0xFFFF_FFFC;
    assert(p != q && p & 3 == 0 && q & 3 == 0 && p <= 0xFFFF_FFFC && p % 4 == 0 && q % 4 == 0) by (bit_vector)
        requires
            4 <= e <= 64,
            e & 3 == 0,
            y == x.wrapping_add(e),
            p == x & 0xFFFF_FFFC,
            q == y & 0xFFFF_FFFC,
    ;
}

/// A stored word stays mapped.
proof fn lemma_word_kept_mapped(before: &Memory, after: &Memory, slot: u32, lo: u32)
    requires
        after.same_except(before, lo, 4),
        before.word_mapped(slot),
    ensures
        after.word_mapped(slot),
{
    let p = slot & 0xFFFF_FFFC;
    assert(after.mapped(p) == before.mapped(p));
    assert(after.mapped((p + 1) as u32) == before.mapped((p + 1) as u32));
    assert(after.mapped((p + 2) as u32) == before.mapped((p + 2) as u32));
    assert(after.mapped((p + 3) as u32) == before.mapped((p + 3) as u32));
}

/// A word survives a store to another aligned word.
proof fn lemma_word_kept(before: &Memory, after: &Memory, slot: u32, lo: u32)
    requires
        after.same_except(before, lo, 4),
        before.word_mapped(slot),
        ({
            let p = slot & 0xFFFF_FFFC;
            &&& p + 3 <= u32::MAX
            &&& (lo + 4 <= p || p + 4 <= lo)
        }),
    ensures
        after.word_mapped(slot),
        after.word_at(slot) == before.word_at(slot),
{
    let p = slot & 0xFFFF_FFFC;
    assert(!(lo <= p + 0 < lo + 4));
    assert(!(lo <= p + 1 < lo + 4));
    assert(!(lo <= p + 2 < lo + 4));
    assert(!(lo <= p + 3 < lo + 4));
    assert(after.mapped(p) == before.mapped(p));
    assert(after.mapped((p + 1) as u32) == before.mapped((p + 1) as u32));
    assert(after.mapped((p + 2) as u32) == before.mapped((p + 2) as u32));
    assert(after.mapped((p + 3) as u32) == before.mapped((p + 3) as u32));
    assert(after.byte(p) == before.byte(p));
    assert(after.byte((p + 1) as u32) == before.byte((p + 1) as u32));
    assert(after.byte((p + 2) as u32) == before.byte((p + 2) as u32));
    assert(after.byte((p + 3) as u32) == before.byte((p + 3) as u32));
}

/// The 32-bit instruction that a THUMB instruction abbreviates, for the
/// formats that abbreviate one: all but the exchange of the high-register
/// operations, the PC-relative load and address, the branches, the software
/// interrupt and the undefined format.
pub open spec fn thumb_arm_form(instruction: ThumbInstruction, opcode: u32) -> Option<u32> {
    let low = opcode & 0x7;
    let mid = (opcode >> 3u32) & 0x7;
    let high = (opcode >> 8u32) & 0x7;
    let load: u32 = if bit(opcode, 11) { 0x0010_0000 } else { 0 };
    match instruction {
        ThumbInstruction::MoveShiftedRegister => Some(
            0x01B0_0000 | (low << 12u32) | (((opcode >> 6u32) & 0x1F) << 7u32) | (((opcode >> 11u32) & 0x3) << 5u32)
                | mid,
        ),
        ThumbInstruction::AddSubtract => {
            let operation: u32 = if bit(opcode, 9) { 0x2 } else { 0x4 };
            let field = (opcode >> 6u32) & 0x7;
            let operand: u32 = if bit(opcode, 10) { 0x0200_0000 | field } else { field };
            Some((operation << 21u32) | 0x0010_0000 | (mid << 16u32) | (low << 12u32) | operand)
        },
        ThumbInstruction::AluImmediate => {
            let code = (opcode >> 11u32) & 0x3;
            let operation: u32 = if code == 0 { 0xD } else if code == 1 { 0xA } else if code == 2 { 0x4 } else { 0x2 };
            Some(0x0210_0000 | (operation << 21u32) | (high << 16u32) | (high << 12u32) | (opcode & 0xFF))
        },
        ThumbInstruction::AluOperations => {
            let code = (opcode >> 6u32) & 0xF;
            Some(
                if code == 0x2 {
                    0x01B0_0010 | (low << 12u32) | (mid << 8u32) | low
                } else if code == 0x3 {
                    0x01B0_0030 | (low << 12u32) | (mid << 8u32) | low
                } else if code == 0x4 {
                    0x01B0_0050 | (low << 12u32) | (mid << 8u32) | low
                } else if code == 0x7 {
                    0x01B0_0070 | (low << 12u32) | (mid << 8u32) | low
                } else if code == 0x9 {
                    0x0270_0000 | (mid << 16u32) | (low << 12u32)
                } else if code == 0xD {
                    0x0010_0090 | (low << 16u32) | (low << 8u32) | mid
                } else if code == 0xF {
                    0x01F0_0000 | (low << 12u32) | mid
                } else {
                    (code << 21u32) | 0x0010_0000 | (low << 16u32) | (low << 12u32) | mid
                },
            )
        },
        ThumbInstruction::HiRegisterOperation => {
            let rd = low | ((opcode >> 4u32) & 0x8);
            let rs = mid | ((opcode >> 3u32) & 0x8);
            let op = (opcode >> 8u32) & 0x3;
            if op == 0 {
                Some(0x0080_0000 | (rd << 16u32) | (rd << 12u32) | rs)
            } else if op == 1 {
                Some(0x0150_0000 | (rd << 16u32) | rs)
            } else if op == 2 {
                Some(0x01A0_0000 | (rd << 12u32) | rs)
            } else {
                None
            }
        },
        ThumbInstruction::LoadStoreRegisterOffset => {
            let fields = (mid << 16u32) | (low << 12u32) | ((opcode >> 6u32) & 0x7);
            if !bit(opcode, 9) {
                let byte: u32 = if bit(opcode, 10) { 0x0040_0000 } else { 0 };
                Some(0x0780_0000 | byte | load | fields)
            } else {
                let code = (opcode >> 10u32) & 0x3;
                Some(
                    if code == 0 {
                        0x0180_00B0 | fields
                    } else if code == 1 {
                        0x0190_00D0 | fields
                    } else if code == 2 {
                        0x0190_00B0 | fields
                    } else {
                        0x0190_00F0 | fields
                    },
                )
            }
        },
        ThumbInstruction::LoadStoreImmediateOffset => {
            let imm = (opcode >> 6u32) & 0x1F;
            if bit(opcode, 12) {
                Some(0x05C0_0000 | load | (mid << 16u32) | (low << 12u32) | imm)
            } else {
                Some(0x0580_0000 | load | (mid << 16u32) | (low << 12u32) | (imm << 2u32))
            }
        },
        ThumbInstruction::LoadStoreHalfword => {
            let offset = ((opcode >> 6u32) & 0x1F) << 1u32;
            Some(0x01C0_00B0 | load | (mid << 16u32) | (low << 12u32) | ((offset & 0xF0) << 4u32) | (offset & 0xF))
        },
        ThumbInstruction::SpRelativeLoadStore => Some(0x058D_0000 | load | (high << 12u32) | ((opcode & 0xFF) << 2u32)),
        ThumbInstruction::LoadAddress => if bit(opcode, 11) {
            Some(0x028D_0F00 | (high << 12u32) | (opcode & 0xFF))
        } else {
            None
        },
        ThumbInstruction::AddOffsetToStackPointer => if bit(opcode, 7) {
            Some(0x024D_DF00 | (opcode & 0x7F))
        } else {
            Some(0x028D_DF00 | (opcode & 0x7F))
        },
        ThumbInstruction::PushPop => {
            let list = opcode & 0xFF;
            if bit(opcode, 11) {
                Some(0x08BD_0000 | list | (if bit(opcode, 8) { 0x8000u32 } else { 0u32 }))
            } else {
                Some(0x092D_0000 | list | (if bit(opcode, 8) { 0x4000u32 } else { 0u32 }))
            }
        },
        ThumbInstruction::MultipleLoadStore => Some(0x08A0_0000 | load | (high << 16u32) | (opcode & 0xFF)),
        _ => None,
    }
}

fn thumb_arm_opcode(instruction: ThumbInstruction, opcode: u32) -> (r: Option<u32>)
    ensures
        r == thumb_arm_form(instruction, opcode),
{
    let low = opcode & 0x7;
    let mid = (opcode >> 3u32) & 0x7;
    let high = (opcode >> 8u32) & 0x7;
    let load: u32 = if (opcode >> 11u32) & 1 == 1 { 0x0010_0000 } else { 0 };
    match instruction {
        ThumbInstruction::MoveShiftedRegister => Some(
            0x01B0_0000 | (low << 12u32) | (((opcode >> 6u32) & 0x1F) << 7u32) | (((opcode >> 11u32) & 0x3) << 5u32)
                | mid,
        ),
        ThumbInstruction::AddSubtract => {
            let operation: u32 = if (opcode >> 9u32) & 1 == 1 { 0x2 } else { 0x4 };
            let field = (opcode >> 6u32) & 0x7;
            let operand: u32 = if (opcode >> 10u32) & 1 == 1 { 0x0200_0000 | field } else { field };
            Some((operation << 21u32) | 0x0010_0000 | (mid << 16u32) | (low << 12u32) | operand)
        },
        ThumbInstruction::AluImmediate => {
            let code = (opcode >> 11u32) & 0x3;
            let operation: u32 = if code == 0 { 0xD } else if code == 1 { 0xA } else if code == 2 { 0x4 } else { 0x2 };
            Some(0x0210_0000 | (operation << 21u32) | (high << 16u32) | (high << 12u32) | (opcode & 0xFF))
        },
        ThumbInstruction::AluOperations => {
            let code = (opcode >> 6u32) & 0xF;
            Some(
                if code == 0x2 {
                    0x01B0_0010 | (low << 12u32) | (mid << 8u32) | low
                } else if code == 0x3 {
                    0x01B0_0030 | (low << 12u32) | (mid << 8u32) | low
                } else if code == 0x4 {
                    0x01B0_0050 | (low << 12u32) | (mid << 8u32) | low
                } else if code == 0x7 {
                    0x01B0_0070 | (low << 12u32) | (mid << 8u32) | low
                } else if code == 0x9 {
                    0x0270_0000 | (mid << 16u32) | (low << 12u32)
                } else if code == 0xD {
                    0x0010_0090 | (low << 16u32) | (low << 8u32) | mid
                } else if code == 0xF {
                    0x01F0_0000 | (low << 12u32) | mid
                } else {
                    (code << 21u32) | 0x0010_0000 | (low << 16u32) | (low << 12u32) | mid
                },
            )
        },
        ThumbInstruction::HiRegisterOperation => {
            let rd = low | ((opcode >> 4u32) & 0x8);
            let rs = mid | ((opcode >> 3u32) & 0x8);
            let op = (opcode >> 8u32) & 0x3;
            if op == 0 {
                Some(0x0080_0000 | (rd << 16u32) | (rd << 12u32) | rs)
            } else if op == 1 {
                Some(0x0150_0000 | (rd << 16u32) | rs)
            } else if op == 2 {
                Some(0x01A0_0000 | (rd << 12u32) | rs)
            } else {
                None
            }
        },
        ThumbInstruction::LoadStoreRegisterOffset => {
            let fields = (mid << 16u32) | (low << 12u32) | ((opcode >> 6u32) & 0x7);
            if (opcode >> 9u32) & 1 != 1 {
                let byte: u32 = if (opcode >> 10u32) & 1 == 1 { 0x0040_0000 } else { 0 };
                Some(0x0780_0000 | byte | load | fields)
            } else {
                let code = (opcode >> 10u32) & 0x3;
                Some(
                    if code == 0 {
                        0x0180_00B0 | fields
                    } else if code == 1 {
                        0x0190_00D0 | fields
                    } else if code == 2 {
                        0x0190_00B0 | fields
                    } else {
                        0x0190_00F0 | fields
                    },
                )
            }
        },
        ThumbInstruction::LoadStoreImmediateOffset => {
            let imm = (opcode >> 6u32) & 0x1F;
            if (opcode >> 12u32) & 1 == 1 {
                Some(0x05C0_0000 | load | (mid << 16u32) | (low << 12u32) | imm)
            } else {
                Some(0x0580_0000 | load | (mid << 16u32) | (low << 12u32) | (imm << 2u32))
            }
        },
        ThumbInstruction::LoadStoreHalfword => {
            let offset = ((opcode >> 6u32) & 0x1F) << 1u32;
            Some(0x01C0_00B0 | load | (mid << 16u32) | (low << 12u32) | ((offset & 0xF0) << 4u32) | (offset & 0xF))
        },
        ThumbInstruction::SpRelativeLoadStore => Some(0x058D_0000 | load | (high << 12u32) | ((opcode & 0xFF) << 2u32)),
        ThumbInstruction::LoadAddress => if (opcode >> 11u32) & 1 == 1 {
            Some(0x028D_0F00 | (high << 12u32) | (opcode & 0xFF))
        } else {
            None
        },
        ThumbInstruction::AddOffsetToStackPointer => if (opcode >> 7u32) & 1 == 1 {
            Some(0x024D_DF00 | (opcode & 0x7F))
        } else {
            Some(0x028D_DF00 | (opcode & 0x7F))
        },
        ThumbInstruction::PushPop => {
            let list = opcode & 0xFF;
            if (opcode >> 11u32) & 1 == 1 {
                Some(0x08BD_0000 | list | (if (opcode >> 8u32) & 1 == 1 { 0x8000u32 } else { 0u32 }))
            } else {
                Some(0x092D_0000 | list | (if (opcode >> 8u32) & 1 == 1 { 0x4000u32 } else { 0u32 }))
            }
        },
        ThumbInstruction::MultipleLoadStore => Some(0x08A0_0000 | load | (high << 16u32) | (opcode & 0xFF)),
        _ => None,
    }
}

/// The byte offset of a THUMB branch: the 8-bit field of a conditional
/// branch or the 11-bit field of an unconditional one, sign-extended, times two.
pub open spec fn thumb_branch_offset(opcode: u32, conditional: bool) -> int {
    if conditional {
        let imm = opcode & 0xFF;
        if imm < 0x80 { imm * 2 } else { (imm - 0x100) * 2 }
    } else {
        let imm = opcode & 0x7FF;
        if imm < 0x400 { imm * 2 } else { (imm - 0x800) * 2 }
    }
}

proof fn lemma_thumb_branch_offset(opcode: u32, imm: u32, offset: u32, conditional: bool)
    requires
        imm == (if conditional { opcode & 0xFF } else { opcode & 0x7FF }),
        offset == (if conditional {
            if imm & 0x80 != 0 { ((imm | 0xFFFF_FF00) << 1u32) as u32 } else { (imm << 1u32) as u32 }
        } else {
            if imm & 0x400 != 0 { ((imm | 0xFFFF_F800) << 1u32) as u32 } else { (imm << 1u32) as u32 }
        }),
    ensures
        offset == wrap(thumb_branch_offset(opcode, conditional)),
{
    if conditional {
        assert(imm < 0x100 && ((imm & 0x80 != 0) == (imm >= 0x80)) && (imm << 1u32) == imm * 2 && ((imm | 0xFFFF_FF00)
            << 1u32) == ((imm * 2) as u32).wrapping_add(0xFFFF_FE00)) by (bit_vector)
            requires imm == opcode & 0xFF;
    } else {
        assert(imm < 0x800 && ((imm & 0x400 != 0) == (imm >= 0x400)) && (imm << 1u32) == imm * 2 && ((imm
            | 0xFFFF_F800) << 1u32) == ((imm * 2) as u32).wrapping_add(0xFFFF_F000)) by (bit_vector)
            requires imm == opcode & 0x7FF;
    }
}

/// A word-aligned base plus a word offset of eight bits stays aligned.
proof fn lemma_pc_relative(base: u32, opcode: u32)
    requires
        base & 3 == 0,
    ensures
        (opcode & 0xFF) << 2u32 == (opcode & 0xFF) * 4,
        base.wrapping_add((opcode & 0xFF) << 2u32) == wrap(base + (opcode & 0xFF) * 4),
        base.wrapping_add((opcode & 0xFF) << 2u32) & 3 == 0,
{
    assert(((opcode & 0xFF) << 2u32) == (opcode & 0xFF) * 4 && (base.wrapping_add((opcode & 0xFF) << 2u32) & 3 == 0))
        by (bit_vector)
        requires base & 3 == 0;
}

/// The upper half of a THUMB long branch's offset: the 11-bit field
/// sign-extended, times 4096.
pub open spec fn thumb_long_offset(opcode: u32) -> int {
    let imm = opcode & 0x7FF;
    if imm < 0x400 { imm * 4096 } else { (imm - 0x800) * 4096 }
}

proof fn lemma_thumb_long_offset(opcode: u32, imm: u32, offset: u32)
    requires
        imm == opcode & 0x7FF,
        offset == (if imm & 0x400 != 0 { ((imm | 0xFFFF_F800) << 12u32) as u32 } else { (imm << 12u32) as u32 }),
    ensures
        offset == wrap(thumb_long_offset(opcode)),
        (imm << 1u32) == imm * 2,
{
    assert(imm < 0x800 && ((imm & 0x400 != 0) == (imm >= 0x400)) && (imm << 12u32) == imm * 4096 && (imm << 1u32)
        == imm * 2 && ((imm | 0xFFFF_F800) << 12u32) == ((imm * 4096) as u32).wrapping_add(0xFF80_0000)) by (bit_vector)
        requires imm == opcode & 0x7FF;
}

/// Whether banks `b` and `c` hold register `r` in the same storage: r0-r7
/// are shared by all, r8-r12 by all but FIQ, r13-r14 by no two banks.
pub open spec fn shares(b: int, c: int, r: int) -> bool {
    if 8 <= r <= 12 {
        (b == 1) == (c == 1)
    } else if r == 13 || r == 14 {
        b == c
    } else {
        true
    }
}

/// The address of register `i`'s word in a block transfer.
pub open spec fn block_slot(start: u32, mask: u32, i: int) -> u32 {
    wrap(start + 4 * count_below(mask, i))
}

/// Every word of the block is mapped.
pub open spec fn block_mapped(memory: &Memory, start: u32, mask: u32) -> bool {
    forall|i: int| 0 <= i < 16 && bit(mask, i as u32) ==> #[trigger] memory.word_mapped(block_slot(start, mask, i))
}

/// The result reports the first slot of the block that is not mapped.
pub open spec fn first_unmapped_slot(memory: &Memory, start: u32, mask: u32, r: Result<(), CpuFault>) -> bool {
    exists|k: int|
        0 <= k < 16 && bit(mask, k as u32) && !memory.word_mapped(block_slot(start, mask, k)) && r == Err::<
            (),
            CpuFault,
        >(CpuFault::BusError { address: block_slot(start, mask, k) }) && (forall|j: int|
            0 <= j < k && bit(mask, j as u32) ==> #[trigger] memory.word_mapped(block_slot(start, mask, j)))
}

/// A store into the block's slot `c` writes no byte that lies `4 * n` or
/// more past the block's aligned start.
proof fn lemma_block_frame(start: u32, c: nat, n: nat, a: u32)
    requires
        c < n <= 16,
    ensures
        ({
            let p = wrap(start + 4 * c) & 0xFFFF_FFFC;
            let lo = start & 0xFFFF_FFFC;
            p <= a < p + 4 ==> (a - lo) % 0x1_0000_0000 < 4 * n
        }),
{
    lemma_wrap(start + 4 * c);
    let d = c as u32;
    let e = (4 * c) as u32;
    assert(e == 4u32 * d);
    let x = wrap(start + 4 * c);
    assert(x == start.wrapping_add(e));
    let lo = start & 0xFFFF_FFFC;
    let p = x & 0xFFFF_FFFC;
    assert(p == lo.wrapping_add(e)) by (bit_vector)
        requires
            e == 4u32 * d,
            d <= 16,
            x == start.wrapping_add(e),
            lo == start & 0xFFFF_FFFC,
            p == x & 0xFFFF_FFFC,
    ;
    if p <= a < p + 4 {
        if lo + e <= u32::MAX {
            assert(a - lo == e + (a - p));
            assert((a - lo) % 0x1_0000_0000 == a - lo);
        } else {
            assert(a - lo == e + (a - p) - 0x1_0000_0000);
            assert((a - lo) % 0x1_0000_0000 == a - lo + 0x1_0000_0000);
        }
    }
}

/// With the mode and the inactive copies kept, a bank sees the active
/// registers where it shares them with the active bank, and its own copies
/// elsewhere.
proof fn lemma_banked_active(s0: &Arm7, s1: &Arm7)
    requires
        s1.cpsr_register == s0.cpsr_register,
        s1.same_inactive(s0),
    ensures
        forall|b: int, i: int|
            0 <= b < 6 && 0 <= i < 15 ==> #[trigger] s1.banked(b, i) == (if shares(b, current_bank(s0.cpsr_register), i) {
                s1.registers[i]
            } else {
                s0.banked(b, i)
            }),
        forall|b: int, i: int|
            0 <= b < 6 && 0 <= i < 15 && shares(b, current_bank(s0.cpsr_register), i) ==> #[trigger] s0.banked(b, i)
                == s0.registers[i],
{
}

/// Banks that share a register's storage see the same value in it.
proof fn lemma_shared_views(s: &Arm7)
    ensures
        forall|b: int, c: int, i: int|
            0 <= b < 6 && 0 <= c < 6 && 0 <= i < 15 && shares(b, c, i) ==> #[trigger] s.banked(b, i) == #[trigger] s.banked(
                c,
                i,
            ),
{
}

proof fn lemma_wrap(x: int)
    requires
        0 <= x < 0x2_0000_0000,
    ensures
        wrap(x) == (if x > u32::MAX { x - 0x1_0000_0000 } else { x }),
{

}

} // verus!
