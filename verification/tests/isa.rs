use rv64emu::cpu::{Cpu, CpuErr, RegType};
use rv64emu::exceptions::RequestedTrap;
use rv64emu::decoder::{decode, fetch_inst_type, Inst, InstType};
use rv64emu::emulator::{Emulator, EmulatorErr};
use rv64emu::exceptions::Exceptions;
use rv64emu::memory::{PERM_R, PERM_W, PERM_X};

fn setup(words: &[u32], pc: u64) -> Emulator {
    let mut emu = Emulator::new();
    let mut bytes: Vec<u8> = Vec::new();
    for w in words {
        bytes.extend_from_slice(&w.to_le_bytes());
    }
    emu.mmu.dram_write(pc as usize, &bytes).unwrap();
    emu.mmu
        .perm_set(pc as usize, bytes.len(), PERM_R | PERM_W | PERM_X)
        .unwrap();
    emu.cpu.set_reg(RegType::ProgCounter, 0, pc).unwrap();
    emu
}

fn reg(emu: &Emulator, i: usize) -> u64 {
    emu.cpu.get_reg(RegType::GenPurpose, i).unwrap()
}

fn pc(emu: &Emulator) -> u64 {
    emu.cpu.get_reg(RegType::ProgCounter, 0).unwrap()
}

fn set(emu: &mut Emulator, i: usize, v: u64) {
    emu.cpu.set_reg(RegType::GenPurpose, i, v).unwrap();
}

#[test]
fn decode_addi() {
    assert_eq!(
        decode(0x00500093),
        Inst::Addi {
            rd: 1,
            rs1: 0,
            imm: 5
        }
    );
}

#[test]
fn decode_zero_word_is_undefined() {
    assert_eq!(decode(0x00000000), Inst::Undefined);
}

#[test]
fn decode_is_total_on_arbitrary_words() {
    // Any word decodes to some instruction without panicking.
    let samples = [
        0xFFFF_FFFF,
        0xDEAD_BEEF,
        0x0000_0001,
        0x8000_0000,
        0x7369,
        0x1234_5678,
    ];
    for w in samples {
        let _ = decode(w);
    }
}

#[test]
fn decode_system_and_fence() {
    assert_eq!(decode(0x00000073), Inst::Ecall);
    assert_eq!(decode(0x00100073), Inst::Ebreak);
    // fence iorw, iorw
    assert_eq!(
        decode(0x0FF0000F),
        Inst::Fence {
            rd: 0,
            rs1: 0,
            imm_raw: 0x0FF
        }
    );
    // fence.tso and pause have their fixed immediates
    assert_eq!(decode(0x8330000F), Inst::FenceTso);
    assert_eq!(decode(0x0100000F), Inst::Pause);
}

#[test]
fn decode_negative_immediate() {
    // addi x1, x0, -1
    assert_eq!(
        decode(0xFFF00093),
        Inst::Addi {
            rd: 1,
            rs1: 0,
            imm: -1
        }
    );
}

#[test]
fn decode_shifts_with_six_bit_shamt() {
    // srai x2, x2, 4
    assert_eq!(
        decode(0x40415113),
        Inst::Srai {
            rd: 2,
            rs1: 2,
            shamt: 4
        }
    );
    // slli x1, x1, 63 uses the full 6-bit shift amount
    assert_eq!(
        decode(0x03F09093),
        Inst::Slli {
            rd: 1,
            rs1: 1,
            shamt: 63
        }
    );
}

#[test]
fn fetch_inst_type_maps_opcodes() {
    assert_eq!(fetch_inst_type(0x00500093), Some(InstType::I));
    assert_eq!(fetch_inst_type(0x123450B7), Some(InstType::U));
    assert_eq!(fetch_inst_type(0x00000033), Some(InstType::R));
    assert_eq!(fetch_inst_type(0x00000023), Some(InstType::S));
    assert_eq!(fetch_inst_type(0x00000063), Some(InstType::B));
    assert_eq!(fetch_inst_type(0x0000006F), Some(InstType::J));
    assert_eq!(fetch_inst_type(0x00000000), None);
}

#[test]
fn addi_writes_rd_and_advances_pc() {
    let mut emu = setup(&[0x00500093], 0x1000);
    emu.exec().unwrap();
    assert_eq!(reg(&emu, 1), 5);
    assert_eq!(pc(&emu), 0x1004);
}

#[test]
fn lui_addi_builds_constant() {
    let mut emu = setup(&[0x123450B7, 0x67808093], 0x1000);
    emu.exec().unwrap();
    emu.exec().unwrap();
    assert_eq!(reg(&emu, 1), 0x12345678);
    assert_eq!(pc(&emu), 0x1008);
}

#[test]
fn sltiu_acts_as_seqz() {
    let mut emu = setup(&[0x00113093], 0x1000);
    set(&mut emu, 2, 0);
    emu.exec().unwrap();
    assert_eq!(reg(&emu, 1), 1);

    let mut emu = setup(&[0x00113093], 0x1000);
    set(&mut emu, 2, 5);
    emu.exec().unwrap();
    assert_eq!(reg(&emu, 1), 0);
}

#[test]
fn srai_fills_with_sign_bit() {
    let mut emu = setup(&[0x40415113], 0x1000);
    set(&mut emu, 2, 0xFFFF_FFFF_FFFF_FFF0);
    emu.exec().unwrap();
    assert_eq!(reg(&emu, 2), 0xFFFF_FFFF_FFFF_FFFF);
    assert_eq!(pc(&emu), 0x1004);
}

#[test]
fn addw_sign_extends_the_32_bit_sum() {
    // addw x3, x1, x2
    let mut emu = setup(&[0x002081BB], 0x1000);
    set(&mut emu, 1, 0x0000_0000_7FFF_FFFF);
    set(&mut emu, 2, 0x0000_0000_0000_0001);
    emu.exec().unwrap();
    assert_eq!(reg(&emu, 3), 0xFFFF_FFFF_8000_0000);
}

#[test]
fn jal_links_and_jalr_returns() {
    // jal x1, +8; (skipped word); jalr x0, x1, 0
    let mut emu = setup(&[0x008000EF, 0x00000013, 0x00008067], 0x1000);
    emu.exec().unwrap();
    assert_eq!(pc(&emu), 0x1008);
    assert_eq!(reg(&emu, 1), 0x1004);
    emu.exec().unwrap();
    assert_eq!(pc(&emu), 0x1004);
    assert_eq!(reg(&emu, 0), 0);
}

#[test]
fn branch_not_taken_advances_pc() {
    // beq x1, x2, +16
    let mut emu = setup(&[0x00208863], 0x1000);
    set(&mut emu, 1, 1);
    set(&mut emu, 2, 2);
    emu.exec().unwrap();
    assert_eq!(pc(&emu), 0x1004);
}

#[test]
fn branch_taken_moves_pc_by_offset() {
    // beq x1, x2, +16 with equal operands
    let mut emu = setup(&[0x00208863], 0x1000);
    set(&mut emu, 1, 7);
    set(&mut emu, 2, 7);
    emu.exec().unwrap();
    assert_eq!(pc(&emu), 0x1010);
}

#[test]
fn misaligned_jalr_target_traps_and_preserves_state() {
    // jalr x0, x1, 0 with x1 = 0x1002
    let mut emu = setup(&[0x00008067], 0x1000);
    set(&mut emu, 1, 0x1002);
    let r = emu.exec();
    assert_eq!(
        r,
        Err(EmulatorErr::ErrException(
            Exceptions::ExceptionInstructionAddressMisaligned(0x1002)
        ))
    );
    assert_eq!(pc(&emu), 0x1000);
    assert_eq!(reg(&emu, 1), 0x1002);
}

#[test]
fn undefined_word_raises_invalid_instruction() {
    let mut emu = setup(&[0x00000000], 0x1000);
    let r = emu.exec();
    assert_eq!(r, Err(EmulatorErr::ErrCpu(CpuErr::InvalidInstruction(0))));
    assert_eq!(pc(&emu), 0x1000);
}

#[test]
fn add_wraps_modulo_two_to_the_64() {
    // add x3, x1, x2
    let mut emu = setup(&[0x002081B3], 0x1000);
    set(&mut emu, 1, u64::MAX);
    set(&mut emu, 2, 2);
    emu.exec().unwrap();
    assert_eq!(reg(&emu, 3), 1);
}

#[test]
fn sub_wraps_below_zero() {
    // sub x3, x1, x2
    let mut emu = setup(&[0x402081B3], 0x1000);
    set(&mut emu, 1, 0);
    set(&mut emu, 2, 1);
    emu.exec().unwrap();
    assert_eq!(reg(&emu, 3), u64::MAX);
}

#[test]
fn slt_compares_signed_sltu_unsigned() {
    // slt x3, x1, x2 ; sltu x4, x1, x2
    let mut emu = setup(&[0x0020A1B3, 0x0020B233], 0x1000);
    set(&mut emu, 1, u64::MAX); // -1 signed, huge unsigned
    set(&mut emu, 2, 1);
    emu.exec().unwrap();
    emu.exec().unwrap();
    assert_eq!(reg(&emu, 3), 1);
    assert_eq!(reg(&emu, 4), 0);
}

#[test]
fn shift_amount_uses_low_six_bits_of_rs2() {
    // sll x3, x1, x2 with x2 = 65: shifts by 1
    let mut emu = setup(&[0x002091B3], 0x1000);
    set(&mut emu, 1, 3);
    set(&mut emu, 2, 65);
    emu.exec().unwrap();
    assert_eq!(reg(&emu, 3), 6);
}

#[test]
fn sraw_shifts_the_low_word_arithmetically() {
    // sraw x3, x1, x2
    let mut emu = setup(&[0x4020D1BB], 0x1000);
    set(&mut emu, 1, 0x0000_0000_8000_0000);
    set(&mut emu, 2, 4);
    emu.exec().unwrap();
    assert_eq!(reg(&emu, 3), 0xFFFF_FFFF_F800_0000);
}

#[test]
fn srlw_shifts_the_low_word_logically() {
    // srlw x3, x1, x2
    let mut emu = setup(&[0x0020D1BB], 0x1000);
    set(&mut emu, 1, 0x0000_0000_8000_0000);
    set(&mut emu, 2, 4);
    emu.exec().unwrap();
    assert_eq!(reg(&emu, 3), 0x0800_0000);
}

#[test]
fn store_then_load_round_trips_through_memory() {
    // sd x1, 64(x2) ; ld x3, 64(x2)
    let mut emu = setup(&[0x04113023, 0x04013183], 0x1000);
    set(&mut emu, 1, 0x1122_3344_5566_7788);
    set(&mut emu, 2, 0x2000);
    emu.mmu.perm_set(0x2000, 0x100, PERM_R | PERM_W).unwrap();
    emu.exec().unwrap();
    emu.exec().unwrap();
    assert_eq!(reg(&emu, 3), 0x1122_3344_5566_7788);
    assert_eq!(pc(&emu), 0x1008);
}

#[test]
fn lb_sign_extends_and_lbu_does_not() {
    // sb x1, 0(x2) ; lb x3, 0(x2) ; lbu x4, 0(x2)
    let mut emu = setup(&[0x00110023, 0x00010183, 0x00014203], 0x1000);
    set(&mut emu, 1, 0x80);
    set(&mut emu, 2, 0x2000);
    emu.mmu.perm_set(0x2000, 0x10, PERM_R | PERM_W).unwrap();
    emu.exec().unwrap();
    emu.exec().unwrap();
    emu.exec().unwrap();
    assert_eq!(reg(&emu, 3), 0xFFFF_FFFF_FFFF_FF80);
    assert_eq!(reg(&emu, 4), 0x80);
}

#[test]
fn store_to_read_only_memory_faults_and_leaves_memory() {
    // sb x1, 0(x2)
    let mut emu = setup(&[0x00110023], 0x1000);
    set(&mut emu, 1, 0xAB);
    set(&mut emu, 2, 0x2000);
    emu.mmu.perm_set(0x2000, 1, PERM_R).unwrap();
    let r = emu.exec();
    assert_eq!(
        r,
        Err(EmulatorErr::ErrException(Exceptions::ExceptionAccessFault(
            0x2000
        )))
    );
    assert_eq!(emu.mmu.dram_read(0x2000, 1).unwrap(), vec![0]);
    assert_eq!(pc(&emu), 0x1000);
}

#[test]
fn load_without_read_permission_faults() {
    // lb x3, 0(x2)
    let mut emu = setup(&[0x00010183], 0x1000);
    set(&mut emu, 2, 0x2000);
    emu.mmu.perm_set(0x2000, 1, PERM_W).unwrap();
    let r = emu.exec();
    assert_eq!(
        r,
        Err(EmulatorErr::ErrException(Exceptions::ExceptionAccessFault(
            0x2000
        )))
    );
}

#[test]
fn fetch_without_execute_permission_faults() {
    let mut emu = Emulator::new();
    let bytes = 0x00500093u32.to_le_bytes();
    emu.mmu.dram_write(0x1000, &bytes).unwrap();
    emu.mmu.perm_set(0x1000, 4, PERM_R | PERM_W).unwrap();
    emu.cpu.set_reg(RegType::ProgCounter, 0, 0x1000).unwrap();
    let r = emu.exec();
    assert_eq!(
        r,
        Err(EmulatorErr::ErrException(Exceptions::ExceptionAccessFault(
            0x1000
        )))
    );
}

#[test]
fn misaligned_pc_traps_before_fetch() {
    let mut emu = setup(&[0x00500093], 0x1000);
    emu.cpu.set_reg(RegType::ProgCounter, 0, 0x1002).unwrap();
    let r = emu.exec();
    assert_eq!(
        r,
        Err(EmulatorErr::ErrException(
            Exceptions::ExceptionInstructionAddressMisaligned(0x1002)
        ))
    );
}

#[test]
fn ecall_and_ebreak_raise_requested_traps() {
    let mut emu = setup(&[0x00000073], 0x1000);
    assert_eq!(
        emu.exec(),
        Err(EmulatorErr::ErrException(Exceptions::ExceptionRequested(
            RequestedTrap::EnvironmentCall
        )))
    );
    let mut emu = setup(&[0x00100073], 0x1000);
    assert_eq!(
        emu.exec(),
        Err(EmulatorErr::ErrException(Exceptions::ExceptionRequested(
            RequestedTrap::Breakpoint
        )))
    );
}

#[test]
fn fence_is_a_no_op_that_advances_pc() {
    let mut emu = setup(&[0x0FF0000F], 0x1000);
    emu.exec().unwrap();
    assert_eq!(pc(&emu), 0x1004);
}

#[test]
fn fetch_rinst_assembles_little_endian() {
    let emu = setup(&[0x00500093], 0x1000);
    assert_eq!(emu.fetch_rinst().unwrap(), 0x00500093);
}

#[test]
fn writes_to_x0_are_discarded_by_the_executor() {
    // addi x0, x0, 5
    let mut emu = setup(&[0x00500013], 0x1000);
    emu.exec().unwrap();
    assert_eq!(reg(&emu, 0), 0);
    assert_eq!(pc(&emu), 0x1004);
}

#[test]
fn cpu_register_file_basics() {
    let mut cpu = Cpu::new();
    assert_eq!(cpu.get_reg(RegType::GenPurpose, 0), Ok(0));
    assert_eq!(cpu.set_reg(RegType::GenPurpose, 0, 77), Ok(()));
    assert_eq!(cpu.get_reg(RegType::GenPurpose, 0), Ok(0));
    assert_eq!(cpu.set_reg(RegType::GenPurpose, 5, 99), Ok(()));
    assert_eq!(cpu.get_reg(RegType::GenPurpose, 5), Ok(99));
    assert_eq!(
        cpu.get_reg(RegType::GenPurpose, 32),
        Err(CpuErr::InvalidRegister(32))
    );
    assert_eq!(
        cpu.set_reg(RegType::GenPurpose, 40, 1),
        Err(CpuErr::InvalidRegister(40))
    );
}

#[test]
fn bitwise_ops_with_sign_extended_immediates() {
    // xori x3, x1, -1 ; ori x4, x1, 0x0F0 ; andi x5, x1, 0x0F0
    let mut emu = setup(&[0xFFF0C193, 0x0F00E213, 0x0F00F293], 0x1000);
    set(&mut emu, 1, 0x00FF);
    emu.exec().unwrap();
    emu.exec().unwrap();
    emu.exec().unwrap();
    assert_eq!(reg(&emu, 3), 0xFFFF_FFFF_FFFF_FF00);
    assert_eq!(reg(&emu, 4), 0x00FF);
    assert_eq!(reg(&emu, 5), 0x00F0);
}

#[test]
fn addiw_wraps_and_sign_extends() {
    // addiw x3, x1, -1
    let mut emu = setup(&[0xFFF0819B], 0x1000);
    set(&mut emu, 1, 0);
    emu.exec().unwrap();
    assert_eq!(reg(&emu, 3), u64::MAX);
}

#[test]
fn slliw_produces_a_negative_word() {
    // slliw x3, x1, 4
    let mut emu = setup(&[0x0040919B], 0x1000);
    set(&mut emu, 1, 0x0800_0000);
    emu.exec().unwrap();
    assert_eq!(reg(&emu, 3), 0xFFFF_FFFF_8000_0000);
}

#[test]
fn sraiw_shifts_the_low_word_arithmetically() {
    // sraiw x3, x1, 4
    let mut emu = setup(&[0x4040D19B], 0x1000);
    set(&mut emu, 1, 0x8000_0000);
    emu.exec().unwrap();
    assert_eq!(reg(&emu, 3), 0xFFFF_FFFF_F800_0000);
}

#[test]
fn half_word_loads_extend_as_specified() {
    // sh x1, 0(x2) ; lh x3, 0(x2) ; lhu x4, 0(x2)
    let mut emu = setup(&[0x00111023, 0x00011183, 0x00015203], 0x1000);
    set(&mut emu, 1, 0x8001);
    set(&mut emu, 2, 0x2000);
    emu.mmu.perm_set(0x2000, 0x10, PERM_R | PERM_W).unwrap();
    emu.exec().unwrap();
    emu.exec().unwrap();
    emu.exec().unwrap();
    assert_eq!(reg(&emu, 3), 0xFFFF_FFFF_FFFF_8001);
    assert_eq!(reg(&emu, 4), 0x8001);
}

#[test]
fn word_loads_extend_as_specified() {
    // sw x1, 0(x2) ; lw x3, 0(x2) ; lwu x4, 0(x2)
    let mut emu = setup(&[0x00112023, 0x00012183, 0x00016203], 0x1000);
    set(&mut emu, 1, 0x9000_0001);
    set(&mut emu, 2, 0x2000);
    emu.mmu.perm_set(0x2000, 0x10, PERM_R | PERM_W).unwrap();
    emu.exec().unwrap();
    emu.exec().unwrap();
    emu.exec().unwrap();
    assert_eq!(reg(&emu, 3), 0xFFFF_FFFF_9000_0001);
    assert_eq!(reg(&emu, 4), 0x9000_0001);
}

#[test]
fn taken_branches_compare_as_specified() {
    // bne x1, x2, +16 with unequal operands
    let mut emu = setup(&[0x00209863], 0x1000);
    set(&mut emu, 1, 1);
    set(&mut emu, 2, 2);
    emu.exec().unwrap();
    assert_eq!(pc(&emu), 0x1010);

    // blt x1, x2, +16: -1 signed is below 0
    let mut emu = setup(&[0x0020C863], 0x1000);
    set(&mut emu, 1, u64::MAX);
    set(&mut emu, 2, 0);
    emu.exec().unwrap();
    assert_eq!(pc(&emu), 0x1010);

    // bgeu x1, x2, +16: the same operand is huge unsigned
    let mut emu = setup(&[0x0020F863], 0x1000);
    set(&mut emu, 1, u64::MAX);
    set(&mut emu, 2, 0);
    emu.exec().unwrap();
    assert_eq!(pc(&emu), 0x1010);
}

#[test]
fn auipc_adds_the_shifted_immediate_to_pc() {
    // auipc x1, 0x1
    let mut emu = setup(&[0x00001097], 0x1000);
    emu.exec().unwrap();
    assert_eq!(reg(&emu, 1), 0x2000);
}

#[test]
fn misaligned_taken_branch_traps_without_pc_commit() {
    // beq x0, x0, +6: always taken, target 0x1006 is misaligned
    let mut emu = setup(&[0x00000363], 0x1000);
    let r = emu.exec();
    assert_eq!(
        r,
        Err(EmulatorErr::ErrException(
            Exceptions::ExceptionInstructionAddressMisaligned(0x1006)
        ))
    );
    assert_eq!(pc(&emu), 0x1000);
}

#[test]
fn misaligned_jal_target_traps_without_link_commit() {
    // jal x1, +6: target 0x1006 is misaligned; x1 must stay untouched
    let mut emu = setup(&[0x006000EF], 0x1000);
    let r = emu.exec();
    assert_eq!(
        r,
        Err(EmulatorErr::ErrException(
            Exceptions::ExceptionInstructionAddressMisaligned(0x1006)
        ))
    );
    assert_eq!(reg(&emu, 1), 0);
    assert_eq!(pc(&emu), 0x1000);
}
