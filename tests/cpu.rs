use gba_core::arm7::alu::{add_with_carry, shift, subtract_with_carry};
use gba_core::arm7::constants::{AluOpcode, ShiftType};
use gba_core::arm7::{Arm7, CpuFault, ExceptionKind};
use gba_core::memory::Memory;

const CARRY: u32 = 0x2000_0000;
const ZERO: u32 = 0x4000_0000;
const NEGATIVE: u32 = 0x8000_0000;
const OVERFLOW: u32 = 0x1000_0000;

fn rom_of(words: &[u32]) -> Vec<u8> {
    let mut bytes = Vec::new();
    for w in words {
        bytes.extend_from_slice(&w.to_le_bytes());
    }
    bytes
}

fn machine(words: &[u32]) -> (Arm7, Memory) {
    let mut memory = Memory::new();
    memory.load_rom(rom_of(words));
    (Arm7::new(), memory)
}

#[test]
fn reset_state() {
    let cpu = Arm7::new();
    assert_eq!(cpu.registers[15], 0x0800_0000);
    assert_eq!(cpu.registers[13], 0x0300_7F00);
    assert_eq!(cpu.cpsr_register, 0x1F | 0x80 | 0x40);
}

#[test]
fn lsl_by_31_moves_bit_zero_to_the_top() {
    assert_eq!(shift(ShiftType::LogicalLeft, 31, 0x1, true, false), (0x8000_0000, false));
    let mut cpu = Arm7::new();
    cpu.cpsr_register |= CARRY;
    let r = cpu.barrel_shifter(31, 0x1, ShiftType::LogicalLeft, false, true);
    assert_eq!(r, 0x8000_0000);
    assert_eq!(cpu.cpsr_register & CARRY, 0);
}

#[test]
fn lsr_immediate_zero_shifts_by_32() {
    assert_eq!(shift(ShiftType::LogicalRight, 0, 0x1, true, false), (0, false));
    assert_eq!(shift(ShiftType::LogicalRight, 0, 0x8000_0001, false, false), (0, true));
    let mut cpu = Arm7::new();
    cpu.cpsr_register |= CARRY;
    assert_eq!(cpu.barrel_shifter(0, 0x1, ShiftType::LogicalRight, false, true), 0);
    assert_eq!(cpu.cpsr_register & CARRY, 0);
}

#[test]
fn shifter_edge_cases() {
    // Register-specified amount 0 leaves value and carry.
    assert_eq!(shift(ShiftType::LogicalRight, 0, 0x1234, true, true), (0x1234, true));
    // LSL by 32 and by more.
    assert_eq!(shift(ShiftType::LogicalLeft, 32, 0x1, false, true), (0, true));
    assert_eq!(shift(ShiftType::LogicalLeft, 33, 0x1, true, true), (0, false));
    // ASR fills with the sign.
    assert_eq!(shift(ShiftType::ArithmeticRight, 4, 0x8000_0000, false, false), (0xF800_0000, false));
    assert_eq!(shift(ShiftType::ArithmeticRight, 0, 0x8000_0000, false, false), (0xFFFF_FFFF, true));
    assert_eq!(shift(ShiftType::ArithmeticRight, 40, 0x8000_0000, false, true), (0xFFFF_FFFF, true));
    // ROR and RRX.
    assert_eq!(shift(ShiftType::RotateRight, 8, 0x1122_3344, false, false), (0x4411_2233, false));
    assert_eq!(shift(ShiftType::RotateRight, 0, 0x3, true, false), (0x8000_0001, true));
    assert_eq!(shift(ShiftType::RotateRight, 32, 0x8000_0000, false, true), (0x8000_0000, true));
}

#[test]
fn add_wraps_with_carry() {
    assert_eq!(add_with_carry(0xFFFF_FFFF, 0x1, false), (0, true, false));
    let mut cpu = Arm7::new();
    cpu.decode_alu(AluOpcode::Add, true, 0xFFFF_FFFF, 0, 0x1, false).unwrap();
    assert_eq!(cpu.registers[0], 0);
    assert_eq!(cpu.cpsr_register & ZERO, ZERO);
    assert_eq!(cpu.cpsr_register & CARRY, CARRY);
    assert_eq!(cpu.cpsr_register & OVERFLOW, 0);
    assert_eq!(cpu.cpsr_register & NEGATIVE, 0);
}

#[test]
fn add_signed_overflow() {
    assert_eq!(add_with_carry(0x7FFF_FFFF, 0x1, false), (0x8000_0000, false, true));
    let mut cpu = Arm7::new();
    cpu.decode_alu(AluOpcode::Add, true, 0x7FFF_FFFF, 2, 0x1, false).unwrap();
    assert_eq!(cpu.registers[2], 0x8000_0000);
    assert_eq!(cpu.cpsr_register & OVERFLOW, OVERFLOW);
    assert_eq!(cpu.cpsr_register & NEGATIVE, NEGATIVE);
    assert_eq!(cpu.cpsr_register & CARRY, 0);
}

#[test]
fn subtraction_carry_is_no_borrow() {
    assert_eq!(subtract_with_carry(5, 3, true), (2, true, false));
    assert_eq!(subtract_with_carry(3, 5, true), (0xFFFF_FFFE, false, false));
    assert_eq!(subtract_with_carry(5, 3, false), (1, true, false));
    assert_eq!(subtract_with_carry(0x8000_0000, 1, true), (0x7FFF_FFFF, true, true));
}

#[test]
fn compare_sets_flags_without_writing() {
    let mut cpu = Arm7::new();
    cpu.registers[4] = 77;
    cpu.decode_alu(AluOpcode::CompareSubtract, true, 5, 4, 5, false).unwrap();
    assert_eq!(cpu.registers[4], 77);
    assert_eq!(cpu.cpsr_register & (ZERO | CARRY), ZERO | CARRY);
}

#[test]
fn logical_operations_keep_overflow() {
    let mut cpu = Arm7::new();
    cpu.cpsr_register |= OVERFLOW;
    cpu.decode_alu(AluOpcode::And, true, 0xF0, 1, 0x0F, false).unwrap();
    assert_eq!(cpu.registers[1], 0);
    assert_eq!(cpu.cpsr_register & (ZERO | OVERFLOW), ZERO | OVERFLOW);
}

#[test]
fn alu_command_immediate_and_register_shift() {
    let mut cpu = Arm7::new();
    // MOV r0, #0xFF000000 (0xFF rotated right by 8).
    cpu.alu_command(0xE3A0_04FF).unwrap();
    assert_eq!(cpu.registers[0], 0xFF00_0000);
    // ADD r1, r0, r0, LSR #24
    cpu.alu_command(0xE080_1C20).unwrap();
    assert_eq!(cpu.registers[1], 0xFF00_00FF);
    // MOVS r2, r1, LSL r3 with r3 = 4
    cpu.registers[3] = 4;
    cpu.alu_command(0xE1B0_2311).unwrap();
    assert_eq!(cpu.registers[2], 0xF000_0FF0);
    assert_eq!(cpu.cpsr_register & (NEGATIVE | CARRY), NEGATIVE | CARRY);
}

#[test]
fn banked_registers_survive_a_round_trip() {
    let mut cpu = Arm7::new();
    let system = cpu.cpsr_register;
    for r in 8..15 {
        cpu.registers[r] = r as u32;
    }
    cpu.msr(false, 0xFF, (system & !0x1F) | 0x11).unwrap();
    for r in 8..15 {
        cpu.registers[r] = 0x100 + r as u32;
    }
    cpu.msr(false, 0xFF, system).unwrap();
    for r in 8..15 {
        assert_eq!(cpu.registers[r], r as u32);
    }
    cpu.msr(false, 0xFF, (system & !0x1F) | 0x12).unwrap();
    assert_eq!(cpu.registers[8], 8);
    assert_eq!(cpu.registers[13], 0x0300_7FA0);
    cpu.msr(false, 0xFF, (system & !0x1F) | 0x11).unwrap();
    for r in 8..15 {
        assert_eq!(cpu.registers[r], 0x100 + r as u32);
    }
}

#[test]
fn msr_flag_byte_then_mrs() {
    let mut cpu = Arm7::new();
    let before = cpu.mrs(false);
    cpu.msr(false, 0xFF00_0000, 0xA5C3_1234).unwrap();
    let after = cpu.mrs(false);
    assert_eq!(after >> 24, 0xA5);
    assert_eq!(after & 0x00FF_FFFF, before & 0x00FF_FFFF);
}

#[test]
fn saved_status_register_transfer() {
    let mut cpu = Arm7::new();
    // System mode has no saved status register: MRS reads the CPSR.
    assert_eq!(cpu.mrs(true), cpu.cpsr_register);
    assert_eq!(cpu.msr(true, 0xFF00_0000, 0), Err(CpuFault::ModeViolation));
    cpu.msr(false, 0xFF, 0xD3).unwrap();
    cpu.msr(true, 0xFFFF_FFFF, 0x6000_001F).unwrap();
    assert_eq!(cpu.mrs(true), 0x6000_001F);
    cpu.restore_cpsr().unwrap();
    assert_eq!(cpu.cpsr_register, 0x6000_001F);
}

#[test]
fn privilege_and_mode_faults() {
    let mut cpu = Arm7::new();
    assert_eq!(cpu.msr(false, 0xFF, 0x00), Err(CpuFault::InvalidMode { mode: 0 }));
    cpu.msr(false, 0xFF, 0x10).unwrap();
    assert_eq!(cpu.msr(false, 0xFF, 0x1F), Err(CpuFault::PrivilegeViolation));
    assert_eq!(cpu.cpsr_register & 0x1F, 0x10);
    cpu.msr(false, 0xF000_0000, 0x8000_0000).unwrap();
    assert_eq!(cpu.cpsr_register >> 28, 0x8);
}

#[test]
fn restore_with_invalid_saved_mode_fails() {
    let mut cpu = Arm7::new();
    cpu.msr(false, 0xFF, 0xD3).unwrap();
    assert_eq!(cpu.restore_cpsr(), Err(CpuFault::InvalidMode { mode: 0 }));
    assert_eq!(cpu.cpsr_register, 0xD3);
}

#[test]
fn branch_flushes_the_pipeline() {
    let (mut cpu, mut memory) = machine(&[
        0xEA00_0002, // b 0x08000010
        0xE3A0_0001, // mov r0, #1
        0xE3A0_0002, // mov r0, #2
        0xE3A0_0003, // mov r0, #3
        0xE3A0_1007, // mov r1, #7
        0xEAFF_FFFE, // b .
        0xE1A0_0000,
        0xE1A0_0000,
    ]);
    for _ in 0..6 {
        cpu.next(&mut memory).unwrap();
    }
    assert_eq!(cpu.registers[0], 0);
    assert_eq!(cpu.registers[1], 7);
}

#[test]
fn branch_with_link_sets_return_address() {
    let (mut cpu, mut memory) = machine(&[
        0xEB00_0002, // bl 0x08000010
        0xE3A0_0001,
        0xE3A0_0002,
        0xE3A0_0003,
        0xE3A0_1007,
        0xE1A0_0000,
        0xE1A0_0000,
        0xE1A0_0000,
    ]);
    for _ in 0..4 {
        cpu.next(&mut memory).unwrap();
    }
    assert_eq!(cpu.registers[14], 0x0800_0004);
    assert_eq!(cpu.registers[1], 7);
}

#[test]
fn failed_condition_skips_without_effects() {
    let (mut cpu, mut memory) = machine(&[
        0x03A0_0005, // moveq r0, #5 (Z clear at reset)
        0x13A0_1006, // movne r1, #6
        0xE1A0_0000,
        0xE1A0_0000,
        0xE1A0_0000,
    ]);
    for _ in 0..4 {
        cpu.next(&mut memory).unwrap();
    }
    assert_eq!(cpu.registers[0], 0);
    assert_eq!(cpu.registers[1], 6);
    assert_eq!(cpu.registers[15], 0x0800_0010);
}

#[test]
fn unaligned_word_load_rotates() {
    let mut memory = Memory::new();
    assert!(memory.store_word(0x0300_0000, 0x1122_3344, false));
    assert_eq!(Arm7::load_word(&mut memory, 0x0300_0001), Ok(0x4411_2233));
    assert_eq!(Arm7::load_word(&mut memory, 0x0300_0000), Ok(0x1122_3344));
    assert_eq!(Arm7::load_word(&mut memory, 0x0300_0002), Ok(0x3344_1122));
}

#[test]
fn ldr_from_unaligned_address() {
    let (mut cpu, mut memory) = machine(&[
        0xE591_0000, // ldr r0, [r1]
        0xE1A0_0000,
        0xE1A0_0000,
        0xE1A0_0000,
    ]);
    assert!(memory.store_word(0x0300_0010, 0xAABB_CCDD, false));
    cpu.registers[1] = 0x0300_0011;
    for _ in 0..3 {
        cpu.next(&mut memory).unwrap();
    }
    assert_eq!(cpu.registers[0], 0xDDAA_BBCC);
}

#[test]
fn store_and_load_with_write_back() {
    let (mut cpu, mut memory) = machine(&[
        0xE5A1_2004, // str r2, [r1, #4]!
        0xE491_3004, // ldr r3, [r1], #4
        0xE1A0_0000,
        0xE1A0_0000,
        0xE1A0_0000,
    ]);
    cpu.registers[1] = 0x0300_0100;
    cpu.registers[2] = 0xCAFE_F00D;
    for _ in 0..4 {
        cpu.next(&mut memory).unwrap();
    }
    assert_eq!(memory.get_word(0x0300_0104, false), Some(0xCAFE_F00D));
    assert_eq!(cpu.registers[3], 0xCAFE_F00D);
    assert_eq!(cpu.registers[1], 0x0300_0108);
}

#[test]
fn halfword_and_signed_loads() {
    let (mut cpu, mut memory) = machine(&[
        0xE1D1_20B0, // ldrh r2, [r1]
        0xE1D1_30D0, // ldrsb r3, [r1]
        0xE1D1_40F0, // ldrsh r4, [r1]
        0xE1C1_50B4, // strh r5, [r1, #4]
        0xE1A0_0000,
        0xE1A0_0000,
        0xE1A0_0000,
    ]);
    assert!(memory.store_halfword(0x0300_0200, 0x80F0, false));
    cpu.registers[1] = 0x0300_0200;
    cpu.registers[5] = 0x1234_5678;
    for _ in 0..6 {
        cpu.next(&mut memory).unwrap();
    }
    assert_eq!(cpu.registers[2], 0x80F0);
    assert_eq!(cpu.registers[3], 0xFFFF_FFF0);
    assert_eq!(cpu.registers[4], 0xFFFF_80F0);
    assert_eq!(memory.get_halfword(0x0300_0204, false), Some(0x5678));
}

#[test]
fn block_transfer_round_trip() {
    let (mut cpu, mut memory) = machine(&[
        0xE92D_000E, // stmdb sp!, {r1-r3}
        0xE8BD_0070, // ldmia sp!, {r4-r6}
        0xE1A0_0000,
        0xE1A0_0000,
        0xE1A0_0000,
    ]);
    cpu.registers[1] = 11;
    cpu.registers[2] = 22;
    cpu.registers[3] = 33;
    let sp = cpu.registers[13];
    for _ in 0..4 {
        cpu.next(&mut memory).unwrap();
    }
    assert_eq!(memory.get_word(sp - 12, false), Some(11));
    assert_eq!(memory.get_word(sp - 4, false), Some(33));
    assert_eq!((cpu.registers[4], cpu.registers[5], cpu.registers[6]), (11, 22, 33));
    assert_eq!(cpu.registers[13], sp);
}

#[test]
fn multiply_and_multiply_long() {
    let (mut cpu, mut memory) = machine(&[
        0xE010_0291, // muls r0, r1, r2
        0xE0C5_4392, // smull r4, r5, r2, r3
        0xE0A5_4392, // umlal r4, r5, r2, r3
        0xE1A0_0000,
        0xE1A0_0000,
        0xE1A0_0000,
    ]);
    cpu.registers[1] = 0x1_0000;
    cpu.registers[2] = 0xFFFF_FFFF;
    cpu.registers[3] = 2;
    for _ in 0..4 {
        cpu.next(&mut memory).unwrap();
    }
    assert_eq!(cpu.registers[0], 0xFFFF_0000);
    assert_eq!(cpu.cpsr_register & NEGATIVE, NEGATIVE);
    assert_eq!((cpu.registers[4], cpu.registers[5]), (0xFFFF_FFFE, 0xFFFF_FFFF));
    cpu.next(&mut memory).unwrap();
    // -2 + 0xFFFFFFFF * 2 = 0x1_FFFF_FFFC, modulo 2^64.
    assert_eq!((cpu.registers[4], cpu.registers[5]), (0xFFFF_FFFC, 0x0000_0001));
}

#[test]
fn swap_exchanges_register_and_memory() {
    let (mut cpu, mut memory) = machine(&[
        0xE101_2093, // swp r2, r3, [r1]
        0xE1A0_0000,
        0xE1A0_0000,
        0xE1A0_0000,
    ]);
    assert!(memory.store_word(0x0300_0300, 0x1111_1111, false));
    cpu.registers[1] = 0x0300_0300;
    cpu.registers[3] = 0x2222_2222;
    for _ in 0..3 {
        cpu.next(&mut memory).unwrap();
    }
    assert_eq!(cpu.registers[2], 0x1111_1111);
    assert_eq!(memory.get_word(0x0300_0300, false), Some(0x2222_2222));
}

#[test]
fn software_interrupt_enters_supervisor_mode() {
    let (mut cpu, mut memory) = machine(&[0xEF00_0000, 0xE1A0_0000, 0xE1A0_0000, 0xE1A0_0000]);
    let mut bios = vec![0u8; 0x4000];
    bios[8..12].copy_from_slice(&0xE1A0_0000u32.to_le_bytes());
    bios[12..16].copy_from_slice(&0xE1A0_0000u32.to_le_bytes());
    memory.load_bios(bios);
    let before = cpu.cpsr_register;
    for _ in 0..3 {
        cpu.next(&mut memory).unwrap();
    }
    assert_eq!(cpu.cpsr_register & 0x1F, 0x13);
    assert_eq!(cpu.registers[14], 0x0800_0004);
    assert_eq!(cpu.mrs(true), before);
    assert_eq!(cpu.registers[15], 0x10);
}

#[test]
fn undefined_instruction_is_reported() {
    let (mut cpu, mut memory) = machine(&[0xE7F0_00F0, 0xE1A0_0000, 0xE1A0_0000]);
    cpu.next(&mut memory).unwrap();
    cpu.next(&mut memory).unwrap();
    assert_eq!(cpu.next(&mut memory), Err(CpuFault::UndefinedInstruction { opcode: 0xE7F0_00F0 }));
    cpu.enter_exception(ExceptionKind::Undefined);
    assert_eq!(cpu.cpsr_register & 0x1F, 0x1B);
    assert_eq!(cpu.registers[14], 0x0800_0004);
    assert_eq!(cpu.registers[15], 0x04);
}

#[test]
fn fetch_from_unmapped_address_is_a_bus_error() {
    let mut cpu = Arm7::new();
    let mut memory = Memory::new();
    assert_eq!(cpu.next(&mut memory), Err(CpuFault::BusError { address: 0x0800_0000 }));
    assert_eq!(cpu.registers[15], 0x0800_0000);
}

#[test]
fn thumb_program_runs_after_branch_exchange() {
    // ARM: add r0, pc, #1 ; bx r0 -> THUMB code right after.
    let mut rom = rom_of(&[0xE28F_0001, 0xE12F_FF10]);
    let thumb: [u16; 6] = [
        0x2105, // movs r1, #5
        0x1C4A, // adds r2, r1, #1
        0x0093, // lsls r3, r2, #2
        0x4251, // negs r1, r2
        0x46C0, // mov r8, r8
        0xE7FE, // b .
    ];
    for h in thumb {
        rom.extend_from_slice(&h.to_le_bytes());
    }
    rom.extend_from_slice(&[0; 8]);
    let mut memory = Memory::new();
    memory.load_rom(rom);
    let mut cpu = Arm7::new();
    for _ in 0..9 {
        cpu.next(&mut memory).unwrap();
    }
    assert_eq!(cpu.cpsr_register & 0x20, 0x20);
    assert_eq!(cpu.registers[2], 6);
    assert_eq!(cpu.registers[3], 24);
    assert_eq!(cpu.registers[1], 0xFFFF_FFFA);
}

#[test]
fn thumb_pc_relative_load_and_stack() {
    let mut rom = rom_of(&[0xE28F_0001, 0xE12F_FF10]);
    let thumb: [u16; 8] = [
        0x4802, // ldr r0, [pc, #8]
        0xB403, // push {r0, r1}
        0xBC0C, // pop {r2, r3}
        0xE7FE, // b .
        0x46C0,
        0x46C0,
        0xBEEF,
        0xDEAD,
    ];
    for h in thumb {
        rom.extend_from_slice(&h.to_le_bytes());
    }
    rom.extend_from_slice(&[0; 8]);
    let mut memory = Memory::new();
    memory.load_rom(rom);
    let mut cpu = Arm7::new();
    cpu.registers[1] = 0x1234;
    let sp = cpu.registers[13];
    for _ in 0..7 {
        cpu.next(&mut memory).unwrap();
    }
    assert_eq!(cpu.registers[0], 0xDEAD_BEEF);
    assert_eq!(cpu.registers[2], 0xDEAD_BEEF);
    assert_eq!(cpu.registers[3], 0x1234);
    assert_eq!(cpu.registers[13], sp);
}

#[test]
fn block_load_with_unmapped_word_changes_nothing() {
    let (mut cpu, mut memory) = machine(&[
        0xE891_000C, // ldmia r1, {r2, r3}
        0xE1A0_0000,
        0xE1A0_0000,
        0xE1A0_0000,
    ]);
    cpu.registers[1] = 0x0300_7FFC;
    cpu.registers[2] = 77;
    cpu.next(&mut memory).unwrap();
    cpu.next(&mut memory).unwrap();
    assert_eq!(cpu.next(&mut memory), Err(CpuFault::BusError { address: 0x0300_8000 }));
    assert_eq!(cpu.registers[2], 77);
    assert_eq!(cpu.registers[1], 0x0300_7FFC);
}

#[test]
fn block_store_of_user_bank_while_privileged() {
    let (mut cpu, mut memory) = machine(&[
        0xE8C0_2000, // stmia r0, {r13}^
        0xE1A0_0000,
        0xE1A0_0000,
        0xE1A0_0000,
    ]);
    cpu.msr(false, 0xFF, 0xD2).unwrap();
    assert_eq!(cpu.registers[13], 0x0300_7FA0);
    cpu.registers[0] = 0x0300_0400;
    for _ in 0..3 {
        cpu.next(&mut memory).unwrap();
    }
    assert_eq!(memory.get_word(0x0300_0400, false), Some(0x0300_7F00));
    assert_eq!(cpu.registers[13], 0x0300_7FA0);
    assert_eq!(cpu.cpsr_register & 0x1F, 0x12);
}

#[test]
fn block_load_with_pc_and_s_bit_returns_from_exception() {
    let (mut cpu, mut memory) = machine(&[
        0xE8D0_8002, // ldmia r0, {r1, pc}^
        0xE1A0_0000,
        0xE1A0_0000,
        0xE1A0_0000,
    ]);
    cpu.msr(false, 0xFF, 0xD3).unwrap();
    cpu.msr(true, 0xFFFF_FFFF, 0x1F).unwrap();
    cpu.registers[0] = 0x0300_0500;
    assert!(memory.store_word(0x0300_0500, 5, false));
    assert!(memory.store_word(0x0300_0504, 0x0800_0004, false));
    for _ in 0..3 {
        cpu.next(&mut memory).unwrap();
    }
    assert_eq!(cpu.registers[1], 5);
    assert_eq!(cpu.cpsr_register, 0x1F);
    assert_eq!(cpu.registers[15], 0x0800_000C);
}
