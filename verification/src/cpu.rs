//! CPU state: the 32-entry integer register file and the program counter,
//! and the execution engine giving each decoded instruction its semantics.
//! Register `x0` is hardwired to zero: writes to it are silently
//! discarded, so it reads as zero in every reachable state.
use vstd::prelude::*;

use crate::decoder::Inst;
use crate::emulator::{emu_wf, perm_all, Emulator, EmuView, EmulatorErr};
use crate::exceptions::{Exceptions, RequestedTrap};
use crate::memory::{
    mmu_after_dram_write, read_bytes, read_ok, write_ok, PERM_R, PERM_W,
};
use crate::words::{
    le_bytes, le_val, lemma_bytes_bound_values, lemma_le_bytes_len, lemma_le_val_bound,
    lemma_signed64_wrap, lemma_wrap64_range,
    lemma_wrap64_add, lemma_wrap64_add_low32, op_add, op_addw, op_sll, op_sllw, op_sra, op_sraw,
    op_srl, op_srlw, op_sub, op_subw, sem_add, sem_addw, sem_sll, sem_sllw, sem_slt, sem_sltu,
    sem_sra, sem_sraw, sem_srl, sem_srlw, sem_sub, sem_subw, sext16_to64, sext16val, sext32_to64,
    sext32val, sext8_to64, sext8val, sext_imm64, signed64, signed_lt, u64_to_le, wrap64, le_to_u64,
};

verus! {

/// Number of integer registers.
pub const REGISTER_COUNT: usize = 32;

/// Byte width of one instruction word.
pub const INSTRUCTION_SIZE: usize = 4;

#[derive(Debug, PartialEq, Eq, Structural, Clone, Copy)]
pub enum CpuErr {
    InvalidRegister(usize),
    InvalidInstruction(u32),
}

/// Which register bank an access addresses.
#[derive(Debug, Clone, Copy, PartialEq, Eq, Structural)]
pub enum RegType {
    GenPurpose,
    ProgCounter,
}

/// The integer register file and the program counter.
pub struct Cpu {
    r: Vec<u64>,
    pc: u64,
}

/// Mathematical model of the CPU: the register values and the PC.
pub struct CpuView {
    pub regs: Seq<u64>,
    pub pc: u64,
}

/// Well-formedness: exactly 32 registers, and `x0` holds zero.
pub open spec fn cpu_wf(v: CpuView) -> bool {
    &&& v.regs.len() == REGISTER_COUNT
    &&& v.regs[0] == 0
}

/// What a register read returns: the register value for an in-range
/// general-purpose index, the PC for the program-counter bank, an
/// `InvalidRegister` error past the register count.
pub open spec fn cpu_get_reg(v: CpuView, rtype: RegType, i: usize) -> Result<u64, CpuErr> {
    match rtype {
        RegType::GenPurpose => {
            if i < REGISTER_COUNT {
                Ok(v.regs[i as int])
            } else {
                Err(CpuErr::InvalidRegister(i))
            }
        },
        RegType::ProgCounter => Ok(v.pc),
    }
}

/// The CPU state a register write produces: writes to `x0` are discarded,
/// writes past the register count fail and change nothing.
pub open spec fn cpu_set_reg(v: CpuView, rtype: RegType, i: usize, value: u64) -> Result<
    CpuView,
    CpuErr,
> {
    match rtype {
        RegType::GenPurpose => {
            if i == 0 {
                Ok(v)
            } else if i < REGISTER_COUNT {
                Ok(CpuView { regs: v.regs.update(i as int, value), pc: v.pc })
            } else {
                Err(CpuErr::InvalidRegister(i))
            }
        },
        RegType::ProgCounter => Ok(CpuView { regs: v.regs, pc: value }),
    }
}

impl View for Cpu {
    type V = CpuView;

    closed spec fn view(&self) -> CpuView {
        CpuView { regs: self.r@, pc: self.pc }
    }
}

impl Cpu {
    pub open spec fn wf(&self) -> bool {
        cpu_wf(self@)
    }

    /// A fresh CPU: all registers and the PC zero.
    pub fn new() -> (c: Cpu)
        ensures
            c.wf(),
            c@.regs =~= Seq::new(REGISTER_COUNT as nat, |i: int| 0u64),
            c@.pc == 0,
    {
        let mut r: Vec<u64> = Vec::new();
        let mut i: usize = 0;
        while i < REGISTER_COUNT
            invariant
                i <= REGISTER_COUNT,
                r@ =~= Seq::new(i as nat, |j: int| 0u64),
            decreases REGISTER_COUNT - i,
        {
            r.push(0u64);
            i = i + 1;
            assert(r@ =~= Seq::new(i as nat, |j: int| 0u64));
        }
        Cpu { r, pc: 0 }
    }

    /// Read a register or the PC.  Register 0 always reads as zero.
    pub fn get_reg(&self, rtype: RegType, reg_index: usize) -> (r: Result<u64, CpuErr>)
        requires
            self.wf(),
        ensures
            r == cpu_get_reg(self@, rtype, reg_index),
            rtype is GenPurpose && reg_index == 0 ==> r == Ok::<u64, CpuErr>(0),
    {
        match rtype {
            RegType::GenPurpose => {
                if reg_index >= REGISTER_COUNT {
                    return Err(CpuErr::InvalidRegister(reg_index));
                }
                Ok(self.r[reg_index])
            },
            RegType::ProgCounter => Ok(self.pc),
        }
    }

    /// Write a register or the PC.  A write to register 0 succeeds and is
    /// silently discarded; a write past the register count fails and
    /// changes nothing.
    pub fn set_reg(&mut self, rtype: RegType, reg_index: usize, value: u64) -> (r: Result<
        (),
        CpuErr,
    >)
        requires
            old(self).wf(),
        ensures
            final(self).wf(),
            match cpu_set_reg(old(self)@, rtype, reg_index, value) {
                Ok(v) => r is Ok && final(self)@ == v,
                Err(e) => r == Err::<(), CpuErr>(e) && final(self)@ == old(self)@,
            },
    {
        match rtype {
            RegType::GenPurpose => {
                if reg_index >= REGISTER_COUNT {
                    return Err(CpuErr::InvalidRegister(reg_index));
                }
                if reg_index != 0 {
                    self.r[reg_index] = value;
                }
                Ok(())
            },
            RegType::ProgCounter => {
                self.pc = value;
                Ok(())
            },
        }
    }
}

/// In every well-formed CPU state, reading register 0 yields zero, and a
/// write to register 0 succeeds while leaving the state unchanged, so
/// register 0 still reads as zero afterwards.
pub proof fn lemma_x0_hardwired_zero(v: CpuView, value: u64)
    requires
        cpu_wf(v),
    ensures
        cpu_get_reg(v, RegType::GenPurpose, 0) == Ok::<u64, CpuErr>(0),
        cpu_set_reg(v, RegType::GenPurpose, 0, value) == Ok::<CpuView, CpuErr>(v),
        ({
            let after = cpu_set_reg(v, RegType::GenPurpose, 0, value)->Ok_0;
            cpu_get_reg(after, RegType::GenPurpose, 0) == Ok::<u64, CpuErr>(0)
        }),
{
}

/// The value of register `i` in state `s`.
pub open spec fn rv(s: EmuView, i: u32) -> u64
    recommends
        i < 32,
{
    s.cpu.regs[i as int]
}

/// The state after a plain register-writing instruction: `rd` takes
/// `val` (discarded for `x0`) and the PC advances by four.
pub open spec fn wr(s: EmuView, rd: u32, val: u64) -> EmuView
    recommends
        rd < 32,
{
    EmuView {
        cpu: CpuView {
            regs: if rd == 0 {
                s.cpu.regs
            } else {
                s.cpu.regs.update(rd as int, val)
            },
            pc: sem_add(s.cpu.pc, 4),
        },
        mmu: s.mmu,
    }
}

/// The state `s` with the PC replaced.
pub open spec fn with_pc(s: EmuView, pc: u64) -> EmuView {
    EmuView { cpu: CpuView { regs: s.cpu.regs, pc }, mmu: s.mmu }
}

/// The state after a jump: `rd` takes the return address `PC + 4`
/// (discarded for `x0`) and the PC becomes `target`.
pub open spec fn jump(s: EmuView, rd: u32, target: u64) -> EmuView
    recommends
        rd < 32,
{
    EmuView {
        cpu: CpuView {
            regs: if rd == 0 {
                s.cpu.regs
            } else {
                s.cpu.regs.update(rd as int, sem_add(s.cpu.pc, 4))
            },
            pc: target,
        },
        mmu: s.mmu,
    }
}

/// The guest address a load or store computes: `rs1` plus the
/// sign-extended immediate, wrapping.
pub open spec fn mem_addr(s: EmuView, rs1: u32, imm: i32) -> u64
    recommends
        rs1 < 32,
{
    wrap64(rv(s, rs1) + imm)
}

/// A load of `n` bytes at `addr` is allowed: the access is readable under
/// circular addressing and every touched permission byte carries `PERM_R`.
pub open spec fn load_ok(s: EmuView, addr: u64, n: int) -> bool {
    &&& read_ok(s.mmu.dram.len(), addr as int, n)
    &&& perm_all(read_bytes(s.mmu.perm, addr as int, n), PERM_R)
}

/// The number the `n` bytes at `addr` denote, little-endian.
pub open spec fn load_raw(s: EmuView, addr: u64, n: int) -> int {
    le_val(read_bytes(s.mmu.dram, addr as int, n))
}

/// A store of `n` bytes at `addr` is allowed: the permission bytes the
/// circular access touches all carry `PERM_W`, and the linear write fits
/// the DRAM length that growth can reach.
pub open spec fn store_ok(s: EmuView, addr: u64, n: int) -> bool {
    &&& read_ok(s.mmu.dram.len(), addr as int, n)
    &&& perm_all(read_bytes(s.mmu.perm, addr as int, n), PERM_W)
    &&& write_ok(s.mmu.dram.len(), addr as int, n)
}

/// The state after a successful store of the low `n` bytes of `val` at
/// `addr`: memory takes the bytes (growing as needed) and the PC advances.
pub open spec fn store_state(s: EmuView, addr: u64, n: int, val: u64) -> EmuView {
    EmuView {
        cpu: CpuView { regs: s.cpu.regs, pc: sem_add(s.cpu.pc, 4) },
        mmu: mmu_after_dram_write(s.mmu, addr as int, le_bytes(val as int, n as nat)),
    }
}

/// The outcome of a conditional branch: when taken, the PC moves to
/// `PC + imm` if that target is four-byte aligned and the misalignment
/// trap is raised otherwise; when not taken, the PC advances by four.
pub open spec fn branch_sem(s: EmuView, taken: bool, imm: i32) -> Result<EmuView, EmulatorErr> {
    if taken {
        let target = wrap64(s.cpu.pc + imm);
        if target % 4 != 0 {
            Err(
                EmulatorErr::ErrException(
                    Exceptions::ExceptionInstructionAddressMisaligned(target),
                ),
            )
        } else {
            Ok(with_pc(s, target))
        }
    } else {
        Ok(with_pc(s, sem_add(s.cpu.pc, 4)))
    }
}

/// The register and shift-amount fields of an instruction are in range.
/// Every instruction the decoder produces satisfies this.
pub open spec fn inst_wf(inst: Inst) -> bool {
    match inst {
        Inst::Add { rd, rs1, rs2 } => rd < 32 && rs1 < 32 && rs2 < 32,
        Inst::Sub { rd, rs1, rs2 } => rd < 32 && rs1 < 32 && rs2 < 32,
        Inst::Sll { rd, rs1, rs2 } => rd < 32 && rs1 < 32 && rs2 < 32,
        Inst::Slt { rd, rs1, rs2 } => rd < 32 && rs1 < 32 && rs2 < 32,
        Inst::Sltu { rd, rs1, rs2 } => rd < 32 && rs1 < 32 && rs2 < 32,
        Inst::Xor { rd, rs1, rs2 } => rd < 32 && rs1 < 32 && rs2 < 32,
        Inst::Srl { rd, rs1, rs2 } => rd < 32 && rs1 < 32 && rs2 < 32,
        Inst::Sra { rd, rs1, rs2 } => rd < 32 && rs1 < 32 && rs2 < 32,
        Inst::Or { rd, rs1, rs2 } => rd < 32 && rs1 < 32 && rs2 < 32,
        Inst::And { rd, rs1, rs2 } => rd < 32 && rs1 < 32 && rs2 < 32,
        Inst::Addw { rd, rs1, rs2 } => rd < 32 && rs1 < 32 && rs2 < 32,
        Inst::Subw { rd, rs1, rs2 } => rd < 32 && rs1 < 32 && rs2 < 32,
        Inst::Sllw { rd, rs1, rs2 } => rd < 32 && rs1 < 32 && rs2 < 32,
        Inst::Srlw { rd, rs1, rs2 } => rd < 32 && rs1 < 32 && rs2 < 32,
        Inst::Sraw { rd, rs1, rs2 } => rd < 32 && rs1 < 32 && rs2 < 32,
        Inst::Jalr { rd, rs1, .. } => rd < 32 && rs1 < 32,
        Inst::Lb { rd, rs1, .. } => rd < 32 && rs1 < 32,
        Inst::Lh { rd, rs1, .. } => rd < 32 && rs1 < 32,
        Inst::Lw { rd, rs1, .. } => rd < 32 && rs1 < 32,
        Inst::Lbu { rd, rs1, .. } => rd < 32 && rs1 < 32,
        Inst::Lhu { rd, rs1, .. } => rd < 32 && rs1 < 32,
        Inst::Lwu { rd, rs1, .. } => rd < 32 && rs1 < 32,
        Inst::Ld { rd, rs1, .. } => rd < 32 && rs1 < 32,
        Inst::Addi { rd, rs1, .. } => rd < 32 && rs1 < 32,
        Inst::Slti { rd, rs1, .. } => rd < 32 && rs1 < 32,
        Inst::Sltiu { rd, rs1, .. } => rd < 32 && rs1 < 32,
        Inst::Xori { rd, rs1, .. } => rd < 32 && rs1 < 32,
        Inst::Ori { rd, rs1, .. } => rd < 32 && rs1 < 32,
        Inst::Andi { rd, rs1, .. } => rd < 32 && rs1 < 32,
        Inst::Slli { rd, rs1, shamt } => rd < 32 && rs1 < 32 && shamt < 64,
        Inst::Srli { rd, rs1, shamt } => rd < 32 && rs1 < 32 && shamt < 64,
        Inst::Srai { rd, rs1, shamt } => rd < 32 && rs1 < 32 && shamt < 64,
        Inst::Fence { .. } => true,
        Inst::FenceTso => true,
        Inst::Pause => true,
        Inst::Ecall => true,
        Inst::Ebreak => true,
        Inst::Addiw { rd, rs1, .. } => rd < 32 && rs1 < 32,
        Inst::Slliw { rd, rs1, shamt } => rd < 32 && rs1 < 32 && shamt < 32,
        Inst::Srliw { rd, rs1, shamt } => rd < 32 && rs1 < 32 && shamt < 32,
        Inst::Sraiw { rd, rs1, shamt } => rd < 32 && rs1 < 32 && shamt < 32,
        Inst::Sb { rs2, rs1, .. } => rs1 < 32 && rs2 < 32,
        Inst::Sh { rs2, rs1, .. } => rs1 < 32 && rs2 < 32,
        Inst::Sw { rs2, rs1, .. } => rs1 < 32 && rs2 < 32,
        Inst::Sd { rs2, rs1, .. } => rs1 < 32 && rs2 < 32,
        Inst::Beq { rs1, rs2, .. } => rs1 < 32 && rs2 < 32,
        Inst::Bne { rs1, rs2, .. } => rs1 < 32 && rs2 < 32,
        Inst::Blt { rs1, rs2, .. } => rs1 < 32 && rs2 < 32,
        Inst::Bge { rs1, rs2, .. } => rs1 < 32 && rs2 < 32,
        Inst::Bltu { rs1, rs2, .. } => rs1 < 32 && rs2 < 32,
        Inst::Bgeu { rs1, rs2, .. } => rs1 < 32 && rs2 < 32,
        Inst::Lui { rd, .. } => rd < 32,
        Inst::Auipc { rd, .. } => rd < 32,
        Inst::Jal { rd, .. } => rd < 32,
        Inst::Undefined => true,
    }
}

/// The semantics of one decoded instruction executed from state `s`:
/// either the state after its effect (registers, memory and PC updated
/// together), or the trap it raises, in which case the state is
/// unchanged.  `raw` is the instruction word the instruction was decoded
/// from; it only feeds the `InvalidInstruction` error.
pub open spec fn exec_inst(s: EmuView, inst: Inst, raw: u32) -> Result<EmuView, EmulatorErr>
    recommends
        inst_wf(inst),
{
    match inst {
        Inst::Add { rd, rs1, rs2 } => Ok(wr(s, rd, sem_add(rv(s, rs1), rv(s, rs2)))),
        Inst::Sub { rd, rs1, rs2 } => Ok(wr(s, rd, sem_sub(rv(s, rs1), rv(s, rs2)))),
        Inst::Sll { rd, rs1, rs2 } => Ok(wr(s, rd, sem_sll(rv(s, rs1), (rv(s, rs2) % 64) as u64))),
        Inst::Slt { rd, rs1, rs2 } => Ok(wr(s, rd, sem_slt(rv(s, rs1), rv(s, rs2)))),
        Inst::Sltu { rd, rs1, rs2 } => Ok(wr(s, rd, sem_sltu(rv(s, rs1), rv(s, rs2)))),
        Inst::Xor { rd, rs1, rs2 } => Ok(wr(s, rd, rv(s, rs1) ^ rv(s, rs2))),
        Inst::Srl { rd, rs1, rs2 } => Ok(wr(s, rd, sem_srl(rv(s, rs1), (rv(s, rs2) % 64) as u64))),
        Inst::Sra { rd, rs1, rs2 } => Ok(wr(s, rd, sem_sra(rv(s, rs1), (rv(s, rs2) % 64) as u64))),
        Inst::Or { rd, rs1, rs2 } => Ok(wr(s, rd, rv(s, rs1) | rv(s, rs2))),
        Inst::And { rd, rs1, rs2 } => Ok(wr(s, rd, rv(s, rs1) & rv(s, rs2))),
        Inst::Addw { rd, rs1, rs2 } => Ok(wr(s, rd, sem_addw(rv(s, rs1), rv(s, rs2)))),
        Inst::Subw { rd, rs1, rs2 } => Ok(wr(s, rd, sem_subw(rv(s, rs1), rv(s, rs2)))),
        Inst::Sllw { rd, rs1, rs2 } => Ok(
            wr(s, rd, sem_sllw(rv(s, rs1), (rv(s, rs2) % 32) as u64)),
        ),
        Inst::Srlw { rd, rs1, rs2 } => Ok(
            wr(s, rd, sem_srlw(rv(s, rs1), (rv(s, rs2) % 32) as u64)),
        ),
        Inst::Sraw { rd, rs1, rs2 } => Ok(
            wr(s, rd, sem_sraw(rv(s, rs1), (rv(s, rs2) % 32) as u64)),
        ),
        Inst::Jalr { rd, rs1, imm } => {
            let t0 = wrap64(rv(s, rs1) + imm);
            let target = (t0 - (t0 % 2)) as u64;
            if target % 4 != 0 {
                Err(
                    EmulatorErr::ErrException(
                        Exceptions::ExceptionInstructionAddressMisaligned(target),
                    ),
                )
            } else {
                Ok(jump(s, rd, target))
            }
        },
        Inst::Lb { rd, rs1, imm } => {
            let addr = mem_addr(s, rs1, imm);
            if load_ok(s, addr, 1) {
                Ok(wr(s, rd, sext8_to64(load_raw(s, addr, 1))))
            } else {
                Err(EmulatorErr::ErrException(Exceptions::ExceptionAccessFault(addr)))
            }
        },
        Inst::Lh { rd, rs1, imm } => {
            let addr = mem_addr(s, rs1, imm);
            if load_ok(s, addr, 2) {
                Ok(wr(s, rd, sext16_to64(load_raw(s, addr, 2))))
            } else {
                Err(EmulatorErr::ErrException(Exceptions::ExceptionAccessFault(addr)))
            }
        },
        Inst::Lw { rd, rs1, imm } => {
            let addr = mem_addr(s, rs1, imm);
            if load_ok(s, addr, 4) {
                Ok(wr(s, rd, sext32_to64(load_raw(s, addr, 4))))
            } else {
                Err(EmulatorErr::ErrException(Exceptions::ExceptionAccessFault(addr)))
            }
        },
        Inst::Lbu { rd, rs1, imm } => {
            let addr = mem_addr(s, rs1, imm);
            if load_ok(s, addr, 1) {
                Ok(wr(s, rd, wrap64(load_raw(s, addr, 1))))
            } else {
                Err(EmulatorErr::ErrException(Exceptions::ExceptionAccessFault(addr)))
            }
        },
        Inst::Lhu { rd, rs1, imm } => {
            let addr = mem_addr(s, rs1, imm);
            if load_ok(s, addr, 2) {
                Ok(wr(s, rd, wrap64(load_raw(s, addr, 2))))
            } else {
                Err(EmulatorErr::ErrException(Exceptions::ExceptionAccessFault(addr)))
            }
        },
        Inst::Lwu { rd, rs1, imm } => {
            let addr = mem_addr(s, rs1, imm);
            if load_ok(s, addr, 4) {
                Ok(wr(s, rd, wrap64(load_raw(s, addr, 4))))
            } else {
                Err(EmulatorErr::ErrException(Exceptions::ExceptionAccessFault(addr)))
            }
        },
        Inst::Ld { rd, rs1, imm } => {
            let addr = mem_addr(s, rs1, imm);
            if load_ok(s, addr, 8) {
                Ok(wr(s, rd, wrap64(load_raw(s, addr, 8))))
            } else {
                Err(EmulatorErr::ErrException(Exceptions::ExceptionAccessFault(addr)))
            }
        },
        Inst::Addi { rd, rs1, imm } => Ok(wr(s, rd, wrap64(rv(s, rs1) + imm))),
        Inst::Slti { rd, rs1, imm } => Ok(
            wr(
                s,
                rd,
                if signed64(rv(s, rs1)) < imm {
                    1
                } else {
                    0
                },
            ),
        ),
        Inst::Sltiu { rd, rs1, imm } => Ok(
            wr(
                s,
                rd,
                if rv(s, rs1) < wrap64(imm as int) {
                    1
                } else {
                    0
                },
            ),
        ),
        Inst::Xori { rd, rs1, imm } => Ok(wr(s, rd, rv(s, rs1) ^ wrap64(imm as int))),
        Inst::Ori { rd, rs1, imm } => Ok(wr(s, rd, rv(s, rs1) | wrap64(imm as int))),
        Inst::Andi { rd, rs1, imm } => Ok(wr(s, rd, rv(s, rs1) & wrap64(imm as int))),
        Inst::Slli { rd, rs1, shamt } => Ok(wr(s, rd, sem_sll(rv(s, rs1), shamt as u64))),
        Inst::Srli { rd, rs1, shamt } => Ok(wr(s, rd, sem_srl(rv(s, rs1), shamt as u64))),
        Inst::Srai { rd, rs1, shamt } => Ok(wr(s, rd, sem_sra(rv(s, rs1), shamt as u64))),
        Inst::Fence { .. } => Ok(with_pc(s, sem_add(s.cpu.pc, 4))),
        Inst::FenceTso => Ok(with_pc(s, sem_add(s.cpu.pc, 4))),
        Inst::Pause => Ok(with_pc(s, sem_add(s.cpu.pc, 4))),
        Inst::Ecall => Err(
            EmulatorErr::ErrException(
                Exceptions::ExceptionRequested(RequestedTrap::EnvironmentCall),
            ),
        ),
        Inst::Ebreak => Err(
            EmulatorErr::ErrException(Exceptions::ExceptionRequested(RequestedTrap::Breakpoint)),
        ),
        Inst::Addiw { rd, rs1, imm } => Ok(
            wr(s, rd, sext32_to64((rv(s, rs1) + imm) % 0x1_0000_0000)),
        ),
        Inst::Slliw { rd, rs1, shamt } => Ok(wr(s, rd, sem_sllw(rv(s, rs1), shamt as u64))),
        Inst::Srliw { rd, rs1, shamt } => Ok(wr(s, rd, sem_srlw(rv(s, rs1), shamt as u64))),
        Inst::Sraiw { rd, rs1, shamt } => Ok(wr(s, rd, sem_sraw(rv(s, rs1), shamt as u64))),
        Inst::Sb { rs2, rs1, imm } => {
            let addr = mem_addr(s, rs1, imm);
            if store_ok(s, addr, 1) {
                Ok(store_state(s, addr, 1, rv(s, rs2)))
            } else {
                Err(EmulatorErr::ErrException(Exceptions::ExceptionAccessFault(addr)))
            }
        },
        Inst::Sh { rs2, rs1, imm } => {
            let addr = mem_addr(s, rs1, imm);
            if store_ok(s, addr, 2) {
                Ok(store_state(s, addr, 2, rv(s, rs2)))
            } else {
                Err(EmulatorErr::ErrException(Exceptions::ExceptionAccessFault(addr)))
            }
        },
        Inst::Sw { rs2, rs1, imm } => {
            let addr = mem_addr(s, rs1, imm);
            if store_ok(s, addr, 4) {
                Ok(store_state(s, addr, 4, rv(s, rs2)))
            } else {
                Err(EmulatorErr::ErrException(Exceptions::ExceptionAccessFault(addr)))
            }
        },
        Inst::Sd { rs2, rs1, imm } => {
            let addr = mem_addr(s, rs1, imm);
            if store_ok(s, addr, 8) {
                Ok(store_state(s, addr, 8, rv(s, rs2)))
            } else {
                Err(EmulatorErr::ErrException(Exceptions::ExceptionAccessFault(addr)))
            }
        },
        Inst::Beq { rs1, rs2, imm } => branch_sem(s, rv(s, rs1) == rv(s, rs2), imm),
        Inst::Bne { rs1, rs2, imm } => branch_sem(s, rv(s, rs1) != rv(s, rs2), imm),
        Inst::Blt { rs1, rs2, imm } => branch_sem(
            s,
            signed64(rv(s, rs1)) < signed64(rv(s, rs2)),
            imm,
        ),
        Inst::Bge { rs1, rs2, imm } => branch_sem(
            s,
            signed64(rv(s, rs1)) >= signed64(rv(s, rs2)),
            imm,
        ),
        Inst::Bltu { rs1, rs2, imm } => branch_sem(s, rv(s, rs1) < rv(s, rs2), imm),
        Inst::Bgeu { rs1, rs2, imm } => branch_sem(s, rv(s, rs1) >= rv(s, rs2), imm),
        Inst::Lui { rd, imm } => Ok(wr(s, rd, wrap64(imm as int))),
        Inst::Auipc { rd, imm } => Ok(wr(s, rd, wrap64(s.cpu.pc + imm))),
        Inst::Jal { rd, imm } => {
            let target = wrap64(s.cpu.pc + imm);
            if target % 4 != 0 {
                Err(
                    EmulatorErr::ErrException(
                        Exceptions::ExceptionInstructionAddressMisaligned(target),
                    ),
                )
            } else {
                Ok(jump(s, rd, target))
            }
        },
        Inst::Undefined => Err(EmulatorErr::ErrCpu(CpuErr::InvalidInstruction(raw))),
    }
}

/// Read general-purpose register `i`; always succeeds for an in-range
/// index.
fn read_reg(emu: &Emulator, i: u32) -> (r: u64)
    requires
        emu.wf(),
        i < 32,
    ensures
        r == rv(emu@, i),
{
    match emu.cpu.get_reg(RegType::GenPurpose, i as usize) {
        Ok(v) => v,
        Err(_) => {
            proof {
                assert(false);
            }
            0
        },
    }
}

/// Read the program counter.
fn read_pc(emu: &Emulator) -> (r: u64)
    requires
        emu.wf(),
    ensures
        r == emu@.cpu.pc,
{
    match emu.cpu.get_reg(RegType::ProgCounter, 0) {
        Ok(v) => v,
        Err(_) => {
            proof {
                assert(false);
            }
            0
        },
    }
}

/// Write `val` to register `rd` and advance the PC by four.
fn advance(emu: &mut Emulator, rd: u32, val: u64)
    requires
        old(emu).wf(),
        rd < 32,
    ensures
        final(emu).wf(),
        final(emu)@ == wr(old(emu)@, rd, val),
{
    let pc = read_pc(emu);
    match emu.cpu.set_reg(RegType::GenPurpose, rd as usize, val) {
        Ok(_) => {},
        Err(_) => {
            proof {
                assert(false);
            }
        },
    }
    match emu.cpu.set_reg(RegType::ProgCounter, 0, op_add(pc, 4)) {
        Ok(_) => {},
        Err(_) => {
            proof {
                assert(false);
            }
        },
    }
}

/// Set the PC.
fn set_pc_val(emu: &mut Emulator, pc: u64)
    requires
        old(emu).wf(),
    ensures
        final(emu).wf(),
        final(emu)@ == with_pc(old(emu)@, pc),
{
    match emu.cpu.set_reg(RegType::ProgCounter, 0, pc) {
        Ok(_) => {},
        Err(_) => {
            proof {
                assert(false);
            }
        },
    }
}

/// Write the return address to `rd` and jump to `target`.
fn link_jump(emu: &mut Emulator, rd: u32, target: u64)
    requires
        old(emu).wf(),
        rd < 32,
    ensures
        final(emu).wf(),
        final(emu)@ == jump(old(emu)@, rd, target),
{
    let pc = read_pc(emu);
    match emu.cpu.set_reg(RegType::GenPurpose, rd as usize, op_add(pc, 4)) {
        Ok(_) => {},
        Err(_) => {
            proof {
                assert(false);
            }
        },
    }
    match emu.cpu.set_reg(RegType::ProgCounter, 0, target) {
        Ok(_) => {},
        Err(_) => {
            proof {
                assert(false);
            }
        },
    }
}

/// Check permissions and read the `n` bytes a load touches; raise the
/// access fault the load raises when the region is out of range or a
/// byte lacks `PERM_R`.
fn load_bytes(emu: &Emulator, addr: u64, n: usize) -> (r: Result<Vec<u8>, EmulatorErr>)
    requires
        emu.wf(),
        1 <= n <= 8,
    ensures
        match r {
            Ok(b) => load_ok(emu@, addr, n as int) && b@ == read_bytes(
                emu@.mmu.dram,
                addr as int,
                n as int,
            ),
            Err(e) => !load_ok(emu@, addr, n as int) && e == EmulatorErr::ErrException(
                Exceptions::ExceptionAccessFault(addr),
            ),
        },
{
    if addr > (usize::MAX as u64) {
        // Beyond any host index: certainly outside DRAM, whose length is
        // capped far below.
        return Err(EmulatorErr::ErrException(Exceptions::ExceptionAccessFault(addr)));
    }
    let a = addr as usize;
    match emu.mmu.perm_get(a, n) {
        Err(_) => Err(EmulatorErr::ErrException(Exceptions::ExceptionAccessFault(addr))),
        Ok(p) => {
            let mut i: usize = 0;
            while i < n
                invariant
                    emu.wf(),
                    i <= n <= 8,
                    addr <= usize::MAX,
                    a == addr,
                    read_ok(emu@.mmu.perm.len(), addr as int, n as int),
                    p@ == read_bytes(emu@.mmu.perm, addr as int, n as int),
                    p@.len() == n,
                    forall|j: int| 0 <= j < i ==> (#[trigger] p@[j]) & PERM_R == PERM_R,
                decreases n - i,
            {
                if !(p[i] & PERM_R == PERM_R) {
                    assert(!perm_all(read_bytes(emu@.mmu.perm, addr as int, n as int), PERM_R));
                    return Err(EmulatorErr::ErrException(Exceptions::ExceptionAccessFault(addr)));
                }
                i = i + 1;
            }
            match emu.mmu.dram_read(a, n) {
                Ok(b) => Ok(b),
                Err(_) => {
                    proof {
                        assert(false);
                    }
                    Err(EmulatorErr::ErrException(Exceptions::ExceptionAccessFault(addr)))
                },
            }
        },
    }
}

/// Check permissions and write the low `n` bytes of `val` at `addr`,
/// advancing the PC; raise the access fault the store raises otherwise,
/// leaving the machine untouched.
fn store_checked(emu: &mut Emulator, addr: u64, n: usize, val: u64) -> (r: Result<(), EmulatorErr>)
    requires
        old(emu).wf(),
        1 <= n <= 8,
    ensures
        final(emu).wf(),
        store_ok(old(emu)@, addr, n as int) ==> r is Ok && final(emu)@ == store_state(
            old(emu)@,
            addr,
            n as int,
            val,
        ),
        !store_ok(old(emu)@, addr, n as int) ==> r == Err::<(), EmulatorErr>(
            EmulatorErr::ErrException(Exceptions::ExceptionAccessFault(addr)),
        ) && final(emu)@ == old(emu)@,
{
    proof {
        lemma_le_bytes_len(val as int, n as nat);
    }
    if addr > (usize::MAX as u64) {
        return Err(EmulatorErr::ErrException(Exceptions::ExceptionAccessFault(addr)));
    }
    let a = addr as usize;
    match emu.mmu.perm_get(a, n) {
        Err(_) => {
            return Err(EmulatorErr::ErrException(Exceptions::ExceptionAccessFault(addr)));
        },
        Ok(p) => {
            let mut i: usize = 0;
            while i < n
                invariant
                    emu.wf(),
                    emu == old(emu),
                    i <= n <= 8,
                    addr <= usize::MAX,
                    a == addr,
                    read_ok(emu@.mmu.perm.len(), addr as int, n as int),
                    p@ == read_bytes(emu@.mmu.perm, addr as int, n as int),
                    p@.len() == n,
                    forall|j: int| 0 <= j < i ==> (#[trigger] p@[j]) & PERM_W == PERM_W,
                decreases n - i,
            {
                if !(p[i] & PERM_W == PERM_W) {
                    assert(!perm_all(read_bytes(emu@.mmu.perm, addr as int, n as int), PERM_W));
                    return Err(EmulatorErr::ErrException(Exceptions::ExceptionAccessFault(addr)));
                }
                i = i + 1;
            }
        },
    }
    let pc = read_pc(emu);
    let bytes = u64_to_le(val, n);
    match emu.mmu.dram_write(a, bytes.as_slice()) {
        Err(_) => Err(EmulatorErr::ErrException(Exceptions::ExceptionAccessFault(addr))),
        Ok(_) => {
            match emu.cpu.set_reg(RegType::ProgCounter, 0, op_add(pc, 4)) {
                Ok(_) => {},
                Err(_) => {
                    proof {
                        assert(false);
                    }
                },
            }
            Ok(())
        },
    }
}

/// Decide a conditional branch: move the PC to the target when taken
/// (trapping on a misaligned target), advance it by four otherwise.
fn do_branch(emu: &mut Emulator, taken: bool, imm: i32) -> (r: Result<(), EmulatorErr>)
    requires
        old(emu).wf(),
    ensures
        final(emu).wf(),
        match branch_sem(old(emu)@, taken, imm) {
            Ok(v) => r is Ok && final(emu)@ == v,
            Err(e) => r == Err::<(), EmulatorErr>(e) && final(emu)@ == old(emu)@,
        },
{
    let pc = read_pc(emu);
    if taken {
        let target = op_add(pc, sext_imm64(imm));
        proof {
            lemma_wrap64_add(pc, imm as int);
        }
        if target % 4 != 0 {
            return Err(
                EmulatorErr::ErrException(Exceptions::ExceptionInstructionAddressMisaligned(target)),
            );
        }
        set_pc_val(emu, target);
        Ok(())
    } else {
        set_pc_val(emu, op_add(pc, 4));
        Ok(())
    }
}

impl Cpu {
    /// Execute one decoded instruction against the whole machine: apply
    /// its register, memory and PC effects, or raise its trap with the
    /// architectural state left exactly as it was.  `raw_inst` is the
    /// instruction word `inst` was decoded from.
    pub fn exec(emu: &mut Emulator, inst: Inst, raw_inst: u32) -> (r: Result<(), EmulatorErr>)
        requires
            old(emu).wf(),
            inst_wf(inst),
        ensures
            final(emu).wf(),
            match exec_inst(old(emu)@, inst, raw_inst) {
                Ok(v) => r is Ok && final(emu)@ == v,
                Err(e) => r == Err::<(), EmulatorErr>(e) && final(emu)@ == old(emu)@,
            },
    {
        match inst {
            Inst::Add { rd, rs1, rs2 } => {
                let v = op_add(read_reg(emu, rs1), read_reg(emu, rs2));
                advance(emu, rd, v);
                Ok(())
            },
            Inst::Sub { rd, rs1, rs2 } => {
                let v = op_sub(read_reg(emu, rs1), read_reg(emu, rs2));
                advance(emu, rd, v);
                Ok(())
            },
            Inst::Sll { rd, rs1, rs2 } => {
                let v = op_sll(read_reg(emu, rs1), read_reg(emu, rs2) % 64);
                advance(emu, rd, v);
                Ok(())
            },
            Inst::Slt { rd, rs1, rs2 } => {
                let v: u64 = if signed_lt(read_reg(emu, rs1), read_reg(emu, rs2)) {
                    1
                } else {
                    0
                };
                advance(emu, rd, v);
                Ok(())
            },
            Inst::Sltu { rd, rs1, rs2 } => {
                let v: u64 = if read_reg(emu, rs1) < read_reg(emu, rs2) {
                    1
                } else {
                    0
                };
                advance(emu, rd, v);
                Ok(())
            },
            Inst::Xor { rd, rs1, rs2 } => {
                let v = read_reg(emu, rs1) ^ read_reg(emu, rs2);
                advance(emu, rd, v);
                Ok(())
            },
            Inst::Srl { rd, rs1, rs2 } => {
                let v = op_srl(read_reg(emu, rs1), read_reg(emu, rs2) % 64);
                advance(emu, rd, v);
                Ok(())
            },
            Inst::Sra { rd, rs1, rs2 } => {
                let v = op_sra(read_reg(emu, rs1), read_reg(emu, rs2) % 64);
                advance(emu, rd, v);
                Ok(())
            },
            Inst::Or { rd, rs1, rs2 } => {
                let v = read_reg(emu, rs1) | read_reg(emu, rs2);
                advance(emu, rd, v);
                Ok(())
            },
            Inst::And { rd, rs1, rs2 } => {
                let v = read_reg(emu, rs1) & read_reg(emu, rs2);
                advance(emu, rd, v);
                Ok(())
            },
            Inst::Addw { rd, rs1, rs2 } => {
                let v = op_addw(read_reg(emu, rs1), read_reg(emu, rs2));
                advance(emu, rd, v);
                Ok(())
            },
            Inst::Subw { rd, rs1, rs2 } => {
                let v = op_subw(read_reg(emu, rs1), read_reg(emu, rs2));
                advance(emu, rd, v);
                Ok(())
            },
            Inst::Sllw { rd, rs1, rs2 } => {
                let v = op_sllw(read_reg(emu, rs1), read_reg(emu, rs2) % 32);
                advance(emu, rd, v);
                Ok(())
            },
            Inst::Srlw { rd, rs1, rs2 } => {
                let v = op_srlw(read_reg(emu, rs1), read_reg(emu, rs2) % 32);
                advance(emu, rd, v);
                Ok(())
            },
            Inst::Sraw { rd, rs1, rs2 } => {
                let v = op_sraw(read_reg(emu, rs1), read_reg(emu, rs2) % 32);
                advance(emu, rd, v);
                Ok(())
            },
            Inst::Jalr { rd, rs1, imm } => {
                let t0 = op_add(read_reg(emu, rs1), sext_imm64(imm));
                proof {
                    lemma_wrap64_add(rv(emu@, rs1), imm as int);
                }
                let target = t0 - t0 % 2;
                if target % 4 != 0 {
                    return Err(
                        EmulatorErr::ErrException(
                            Exceptions::ExceptionInstructionAddressMisaligned(target),
                        ),
                    );
                }
                link_jump(emu, rd, target);
                Ok(())
            },
            Inst::Lb { rd, rs1, imm } => {
                let addr = op_add(read_reg(emu, rs1), sext_imm64(imm));
                proof {
                    lemma_wrap64_add(rv(emu@, rs1), imm as int);
                }
                match load_bytes(emu, addr, 1) {
                    Err(e) => Err(e),
                    Ok(b) => {
                        proof {
                            lemma_bytes_bound_values();
                            lemma_le_val_bound(b@);
                        }
                        let v = sext8val(le_to_u64(&b));
                        advance(emu, rd, v);
                        Ok(())
                    },
                }
            },
            Inst::Lh { rd, rs1, imm } => {
                let addr = op_add(read_reg(emu, rs1), sext_imm64(imm));
                proof {
                    lemma_wrap64_add(rv(emu@, rs1), imm as int);
                }
                match load_bytes(emu, addr, 2) {
                    Err(e) => Err(e),
                    Ok(b) => {
                        proof {
                            lemma_bytes_bound_values();
                            lemma_le_val_bound(b@);
                        }
                        let v = sext16val(le_to_u64(&b));
                        advance(emu, rd, v);
                        Ok(())
                    },
                }
            },
            Inst::Lw { rd, rs1, imm } => {
                let addr = op_add(read_reg(emu, rs1), sext_imm64(imm));
                proof {
                    lemma_wrap64_add(rv(emu@, rs1), imm as int);
                }
                match load_bytes(emu, addr, 4) {
                    Err(e) => Err(e),
                    Ok(b) => {
                        proof {
                            lemma_bytes_bound_values();
                            lemma_le_val_bound(b@);
                        }
                        let v = sext32val(le_to_u64(&b));
                        advance(emu, rd, v);
                        Ok(())
                    },
                }
            },
            Inst::Lbu { rd, rs1, imm } => {
                let addr = op_add(read_reg(emu, rs1), sext_imm64(imm));
                proof {
                    lemma_wrap64_add(rv(emu@, rs1), imm as int);
                }
                match load_bytes(emu, addr, 1) {
                    Err(e) => Err(e),
                    Ok(b) => {
                        proof {
                            lemma_bytes_bound_values();
                            lemma_le_val_bound(b@);
                            lemma_wrap64_range(le_val(b@));
                        }
                        let v = le_to_u64(&b);
                        advance(emu, rd, v);
                        Ok(())
                    },
                }
            },
            Inst::Lhu { rd, rs1, imm } => {
                let addr = op_add(read_reg(emu, rs1), sext_imm64(imm));
                proof {
                    lemma_wrap64_add(rv(emu@, rs1), imm as int);
                }
                match load_bytes(emu, addr, 2) {
                    Err(e) => Err(e),
                    Ok(b) => {
                        proof {
                            lemma_bytes_bound_values();
                            lemma_le_val_bound(b@);
                            lemma_wrap64_range(le_val(b@));
                        }
                        let v = le_to_u64(&b);
                        advance(emu, rd, v);
                        Ok(())
                    },
                }
            },
            Inst::Lwu { rd, rs1, imm } => {
                let addr = op_add(read_reg(emu, rs1), sext_imm64(imm));
                proof {
                    lemma_wrap64_add(rv(emu@, rs1), imm as int);
                }
                match load_bytes(emu, addr, 4) {
                    Err(e) => Err(e),
                    Ok(b) => {
                        proof {
                            lemma_bytes_bound_values();
                            lemma_le_val_bound(b@);
                            lemma_wrap64_range(le_val(b@));
                        }
                        let v = le_to_u64(&b);
                        advance(emu, rd, v);
                        Ok(())
                    },
                }
            },
            Inst::Ld { rd, rs1, imm } => {
                let addr = op_add(read_reg(emu, rs1), sext_imm64(imm));
                proof {
                    lemma_wrap64_add(rv(emu@, rs1), imm as int);
                }
                match load_bytes(emu, addr, 8) {
                    Err(e) => Err(e),
                    Ok(b) => {
                        proof {
                            lemma_bytes_bound_values();
                            lemma_le_val_bound(b@);
                            lemma_wrap64_range(le_val(b@));
                        }
                        let v = le_to_u64(&b);
                        advance(emu, rd, v);
                        Ok(())
                    },
                }
            },
            Inst::Addi { rd, rs1, imm } => {
                let v = op_add(read_reg(emu, rs1), sext_imm64(imm));
                proof {
                    lemma_wrap64_add(rv(emu@, rs1), imm as int);
                }
                advance(emu, rd, v);
                Ok(())
            },
            Inst::Slti { rd, rs1, imm } => {
                proof {
                    lemma_signed64_wrap(imm as int);
                }
                let v: u64 = if signed_lt(read_reg(emu, rs1), sext_imm64(imm)) {
                    1
                } else {
                    0
                };
                advance(emu, rd, v);
                Ok(())
            },
            Inst::Sltiu { rd, rs1, imm } => {
                let v: u64 = if read_reg(emu, rs1) < sext_imm64(imm) {
                    1
                } else {
                    0
                };
                advance(emu, rd, v);
                Ok(())
            },
            Inst::Xori { rd, rs1, imm } => {
                let v = read_reg(emu, rs1) ^ sext_imm64(imm);
                advance(emu, rd, v);
                Ok(())
            },
            Inst::Ori { rd, rs1, imm } => {
                let v = read_reg(emu, rs1) | sext_imm64(imm);
                advance(emu, rd, v);
                Ok(())
            },
            Inst::Andi { rd, rs1, imm } => {
                let v = read_reg(emu, rs1) & sext_imm64(imm);
                advance(emu, rd, v);
                Ok(())
            },
            Inst::Slli { rd, rs1, shamt } => {
                let v = op_sll(read_reg(emu, rs1), shamt as u64);
                advance(emu, rd, v);
                Ok(())
            },
            Inst::Srli { rd, rs1, shamt } => {
                let v = op_srl(read_reg(emu, rs1), shamt as u64);
                advance(emu, rd, v);
                Ok(())
            },
            Inst::Srai { rd, rs1, shamt } => {
                let v = op_sra(read_reg(emu, rs1), shamt as u64);
                advance(emu, rd, v);
                Ok(())
            },
            Inst::Fence { .. } => {
                let pc = read_pc(emu);
                set_pc_val(emu, op_add(pc, 4));
                Ok(())
            },
            Inst::FenceTso => {
                let pc = read_pc(emu);
                set_pc_val(emu, op_add(pc, 4));
                Ok(())
            },
            Inst::Pause => {
                let pc = read_pc(emu);
                set_pc_val(emu, op_add(pc, 4));
                Ok(())
            },
            Inst::Ecall => Err(
                EmulatorErr::ErrException(
                    Exceptions::ExceptionRequested(RequestedTrap::EnvironmentCall),
                ),
            ),
            Inst::Ebreak => Err(
                EmulatorErr::ErrException(
                    Exceptions::ExceptionRequested(RequestedTrap::Breakpoint),
                ),
            ),
            Inst::Addiw { rd, rs1, imm } => {
                let v = op_addw(read_reg(emu, rs1), sext_imm64(imm));
                proof {
                    lemma_wrap64_add_low32(rv(emu@, rs1), imm as int);
                }
                advance(emu, rd, v);
                Ok(())
            },
            Inst::Slliw { rd, rs1, shamt } => {
                let v = op_sllw(read_reg(emu, rs1), shamt as u64);
                advance(emu, rd, v);
                Ok(())
            },
            Inst::Srliw { rd, rs1, shamt } => {
                let v = op_srlw(read_reg(emu, rs1), shamt as u64);
                advance(emu, rd, v);
                Ok(())
            },
            Inst::Sraiw { rd, rs1, shamt } => {
                let v = op_sraw(read_reg(emu, rs1), shamt as u64);
                advance(emu, rd, v);
                Ok(())
            },
            Inst::Sb { rs2, rs1, imm } => {
                let addr = op_add(read_reg(emu, rs1), sext_imm64(imm));
                proof {
                    lemma_wrap64_add(rv(emu@, rs1), imm as int);
                }
                let v2 = read_reg(emu, rs2);
                store_checked(emu, addr, 1, v2)
            },
            Inst::Sh { rs2, rs1, imm } => {
                let addr = op_add(read_reg(emu, rs1), sext_imm64(imm));
                proof {
                    lemma_wrap64_add(rv(emu@, rs1), imm as int);
                }
                let v2 = read_reg(emu, rs2);
                store_checked(emu, addr, 2, v2)
            },
            Inst::Sw { rs2, rs1, imm } => {
                let addr = op_add(read_reg(emu, rs1), sext_imm64(imm));
                proof {
                    lemma_wrap64_add(rv(emu@, rs1), imm as int);
                }
                let v2 = read_reg(emu, rs2);
                store_checked(emu, addr, 4, v2)
            },
            Inst::Sd { rs2, rs1, imm } => {
                let addr = op_add(read_reg(emu, rs1), sext_imm64(imm));
                proof {
                    lemma_wrap64_add(rv(emu@, rs1), imm as int);
                }
                let v2 = read_reg(emu, rs2);
                store_checked(emu, addr, 8, v2)
            },
            Inst::Beq { rs1, rs2, imm } => {
                let taken = read_reg(emu, rs1) == read_reg(emu, rs2);
                do_branch(emu, taken, imm)
            },
            Inst::Bne { rs1, rs2, imm } => {
                let taken = read_reg(emu, rs1) != read_reg(emu, rs2);
                do_branch(emu, taken, imm)
            },
            Inst::Blt { rs1, rs2, imm } => {
                let taken = signed_lt(read_reg(emu, rs1), read_reg(emu, rs2));
                do_branch(emu, taken, imm)
            },
            Inst::Bge { rs1, rs2, imm } => {
                let taken = !signed_lt(read_reg(emu, rs1), read_reg(emu, rs2));
                do_branch(emu, taken, imm)
            },
            Inst::Bltu { rs1, rs2, imm } => {
                let taken = read_reg(emu, rs1) < read_reg(emu, rs2);
                do_branch(emu, taken, imm)
            },
            Inst::Bgeu { rs1, rs2, imm } => {
                let taken = read_reg(emu, rs1) >= read_reg(emu, rs2);
                do_branch(emu, taken, imm)
            },
            Inst::Lui { rd, imm } => {
                let v = sext_imm64(imm);
                advance(emu, rd, v);
                Ok(())
            },
            Inst::Auipc { rd, imm } => {
                let pc = read_pc(emu);
                let v = op_add(pc, sext_imm64(imm));
                proof {
                    lemma_wrap64_add(old(emu)@.cpu.pc, imm as int);
                }
                advance(emu, rd, v);
                Ok(())
            },
            Inst::Jal { rd, imm } => {
                let pc = read_pc(emu);
                let target = op_add(pc, sext_imm64(imm));
                proof {
                    lemma_wrap64_add(old(emu)@.cpu.pc, imm as int);
                }
                if target % 4 != 0 {
                    return Err(
                        EmulatorErr::ErrException(
                            Exceptions::ExceptionInstructionAddressMisaligned(target),
                        ),
                    );
                }
                link_jump(emu, rd, target);
                Ok(())
            },
            Inst::Undefined => Err(EmulatorErr::ErrCpu(CpuErr::InvalidInstruction(raw_inst))),
        }
    }
}

/// Every instruction the decoder produces has its register and
/// shift-amount fields in range, so the execution engine accepts it.
pub proof fn lemma_decode_wf(w: u32)
    ensures
        inst_wf(crate::decoder::spec_decode(w)),
{
}

/// The target an explicit control-flow instruction names: the PC plus the
/// branch or jump offset, or the masked register-indirect target; for any
/// other instruction, simply the next instruction address.
pub open spec fn jump_target(s: EmuView, inst: Inst) -> u64
    recommends
        inst_wf(inst),
{
    match inst {
        Inst::Jal { imm, .. } => wrap64(s.cpu.pc + imm),
        Inst::Jalr { rs1, imm, .. } => {
            let t0 = wrap64(rv(s, rs1) + imm);
            (t0 - (t0 % 2)) as u64
        },
        Inst::Beq { imm, .. } => wrap64(s.cpu.pc + imm),
        Inst::Bne { imm, .. } => wrap64(s.cpu.pc + imm),
        Inst::Blt { imm, .. } => wrap64(s.cpu.pc + imm),
        Inst::Bge { imm, .. } => wrap64(s.cpu.pc + imm),
        Inst::Bltu { imm, .. } => wrap64(s.cpu.pc + imm),
        Inst::Bgeu { imm, .. } => wrap64(s.cpu.pc + imm),
        _ => sem_add(s.cpu.pc, 4),
    }
}

/// Executing any defined instruction from a legal state either advances
/// the PC by exactly four or sets it to the instruction's explicit
/// branch or jump target.
pub proof fn lemma_exec_pc_policy(s: EmuView, inst: Inst, raw: u32)
    requires
        emu_wf(s),
        inst_wf(inst),
        !(inst is Undefined),
    ensures
        exec_inst(s, inst, raw) matches Ok(v) ==> (v.cpu.pc == sem_add(s.cpu.pc, 4) || v.cpu.pc
            == jump_target(s, inst)),
{
}

/// Executing any instruction from a well-formed machine yields a
/// well-formed machine: the register count and the hardwired zero of
/// `x0` are kept, and memory growth keeps DRAM and the permission
/// vector in step.  With `get_reg`'s contract this is the invariant
/// that register 0 reads as zero in every reachable state.
pub proof fn lemma_exec_preserves_wf(s: EmuView, inst: Inst, raw: u32)
    requires
        emu_wf(s),
        inst_wf(inst),
    ensures
        exec_inst(s, inst, raw) matches Ok(v) ==> emu_wf(v),
{
    match inst {
        Inst::Sb { rs2, rs1, imm } => {
            lemma_store_preserves_wf(s, mem_addr(s, rs1, imm), 1, rv(s, rs2));
        },
        Inst::Sh { rs2, rs1, imm } => {
            lemma_store_preserves_wf(s, mem_addr(s, rs1, imm), 2, rv(s, rs2));
        },
        Inst::Sw { rs2, rs1, imm } => {
            lemma_store_preserves_wf(s, mem_addr(s, rs1, imm), 4, rv(s, rs2));
        },
        Inst::Sd { rs2, rs1, imm } => {
            lemma_store_preserves_wf(s, mem_addr(s, rs1, imm), 8, rv(s, rs2));
        },
        _ => {},
    }
}

/// A successful store keeps the machine well-formed.
proof fn lemma_store_preserves_wf(s: EmuView, addr: u64, n: int, val: u64)
    requires
        emu_wf(s),
        0 <= n <= 8,
    ensures
        store_ok(s, addr, n) ==> emu_wf(store_state(s, addr, n, val)),
{
    if store_ok(s, addr, n) {
        lemma_le_bytes_len(val as int, n as nat);
        crate::memory::lemma_grown_len_bounds(s.mmu.dram.len(), addr + n);
    }
}

} // verus!
