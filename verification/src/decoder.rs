//! Pure, total decoder from a 32-bit RV64I instruction word to a tagged
//! instruction.  Field extraction and immediate reconstruction are stated
//! arithmetically: dividing by a power of two selects a bit position and
//! the remainder masks a field width, exactly as the encoding lays the
//! fields out.
use vstd::prelude::*;

verus! {

/// The six RV64I base instruction encoding formats.
#[derive(Debug, Clone, Copy, PartialEq, Eq, Structural)]
pub enum InstType {
    R,
    I,
    S,
    B,
    U,
    J,
}

/// A decoded instruction: one constructor per supported mnemonic, carrying
/// only the operands needed to execute it.  Register indices are 5-bit
/// values; immediates are sign-extended 32-bit values; shift amounts are
/// 6-bit (64-bit shifts) or 5-bit (32-bit shifts) values.
#[derive(Debug, Clone, Copy, PartialEq, Eq, Structural)]
pub enum Inst {
    Add { rd: u32, rs1: u32, rs2: u32 },
    Sub { rd: u32, rs1: u32, rs2: u32 },
    Sll { rd: u32, rs1: u32, rs2: u32 },
    Slt { rd: u32, rs1: u32, rs2: u32 },
    Sltu { rd: u32, rs1: u32, rs2: u32 },
    Xor { rd: u32, rs1: u32, rs2: u32 },
    Srl { rd: u32, rs1: u32, rs2: u32 },
    Sra { rd: u32, rs1: u32, rs2: u32 },
    Or { rd: u32, rs1: u32, rs2: u32 },
    And { rd: u32, rs1: u32, rs2: u32 },
    Addw { rd: u32, rs1: u32, rs2: u32 },
    Subw { rd: u32, rs1: u32, rs2: u32 },
    Sllw { rd: u32, rs1: u32, rs2: u32 },
    Srlw { rd: u32, rs1: u32, rs2: u32 },
    Sraw { rd: u32, rs1: u32, rs2: u32 },
    Jalr { rd: u32, rs1: u32, imm: i32 },
    Lb { rd: u32, rs1: u32, imm: i32 },
    Lh { rd: u32, rs1: u32, imm: i32 },
    Lw { rd: u32, rs1: u32, imm: i32 },
    Lbu { rd: u32, rs1: u32, imm: i32 },
    Lhu { rd: u32, rs1: u32, imm: i32 },
    Lwu { rd: u32, rs1: u32, imm: i32 },
    Ld { rd: u32, rs1: u32, imm: i32 },
    Addi { rd: u32, rs1: u32, imm: i32 },
    Slti { rd: u32, rs1: u32, imm: i32 },
    Sltiu { rd: u32, rs1: u32, imm: i32 },
    Xori { rd: u32, rs1: u32, imm: i32 },
    Ori { rd: u32, rs1: u32, imm: i32 },
    Andi { rd: u32, rs1: u32, imm: i32 },
    Slli { rd: u32, rs1: u32, shamt: u32 },
    Srli { rd: u32, rs1: u32, shamt: u32 },
    Srai { rd: u32, rs1: u32, shamt: u32 },
    Fence { rd: u32, rs1: u32, imm_raw: u32 },
    FenceTso,
    Pause,
    Ecall,
    Ebreak,
    Addiw { rd: u32, rs1: u32, imm: i32 },
    Slliw { rd: u32, rs1: u32, shamt: u32 },
    Srliw { rd: u32, rs1: u32, shamt: u32 },
    Sraiw { rd: u32, rs1: u32, shamt: u32 },
    Sb { rs2: u32, rs1: u32, imm: i32 },
    Sh { rs2: u32, rs1: u32, imm: i32 },
    Sw { rs2: u32, rs1: u32, imm: i32 },
    Sd { rs2: u32, rs1: u32, imm: i32 },
    Beq { rs1: u32, rs2: u32, imm: i32 },
    Bne { rs1: u32, rs2: u32, imm: i32 },
    Blt { rs1: u32, rs2: u32, imm: i32 },
    Bge { rs1: u32, rs2: u32, imm: i32 },
    Bltu { rs1: u32, rs2: u32, imm: i32 },
    Bgeu { rs1: u32, rs2: u32, imm: i32 },
    Lui { rd: u32, imm: i32 },
    Auipc { rd: u32, imm: i32 },
    Jal { rd: u32, imm: i32 },
    Undefined,
}

/// Bits 6..0: the opcode.
pub open spec fn opcode_of(w: u32) -> u32 {
    w % 0x80
}

/// Bits 11..7: the destination register.
pub open spec fn rd_of(w: u32) -> u32 {
    (w / 0x80) % 0x20
}

/// Bits 14..12: the minor opcode.
pub open spec fn funct3_of(w: u32) -> u32 {
    (w / 0x1000) % 0x8
}

/// Bits 19..15: the first source register.
pub open spec fn rs1_of(w: u32) -> u32 {
    (w / 0x8000) % 0x20
}

/// Bits 24..20: the second source register.
pub open spec fn rs2_of(w: u32) -> u32 {
    (w / 0x10_0000) % 0x20
}

/// Bits 31..25: the major function field.
pub open spec fn funct7_of(w: u32) -> u32 {
    w / 0x200_0000
}

/// Bits 31..26: the function field above a 6-bit shift amount.
pub open spec fn funct6_of(w: u32) -> u32 {
    w / 0x400_0000
}

/// Bits 31..20: the raw I-format immediate.
pub open spec fn imm_i_raw_of(w: u32) -> u32 {
    w / 0x10_0000
}

/// Bits 25..20: the shift amount of a 64-bit shift.
pub open spec fn shamt6_of(w: u32) -> u32 {
    (w / 0x10_0000) % 0x40
}

/// Bits 24..20: the shift amount of a 32-bit shift.
pub open spec fn shamt5_of(w: u32) -> u32 {
    (w / 0x10_0000) % 0x20
}

/// A 12-bit field sign-extended to 32 bits.
pub open spec fn sext12(x: int) -> i32
    recommends
        0 <= x < 0x1000,
{
    if x >= 0x800 {
        (x - 0x1000) as i32
    } else {
        x as i32
    }
}

/// A 13-bit field sign-extended to 32 bits.
pub open spec fn sext13(x: int) -> i32
    recommends
        0 <= x < 0x2000,
{
    if x >= 0x1000 {
        (x - 0x2000) as i32
    } else {
        x as i32
    }
}

/// A 21-bit field sign-extended to 32 bits.
pub open spec fn sext21(x: int) -> i32
    recommends
        0 <= x < 0x20_0000,
{
    if x >= 0x10_0000 {
        (x - 0x20_0000) as i32
    } else {
        x as i32
    }
}

/// The I-format immediate: bits 31..20, sign-extended.
pub open spec fn imm_i_of(w: u32) -> i32 {
    sext12(imm_i_raw_of(w) as int)
}

/// The S-format immediate: bits 11..7 and 31..25, sign-extended.
pub open spec fn imm_s_of(w: u32) -> i32 {
    sext12(rd_of(w) + 0x20 * funct7_of(w))
}

/// The B-format immediate: bits 11..8, 30..25, 7 and 31, scattered over
/// immediate positions 4..1, 10..5, 11 and 12; always even.
pub open spec fn imm_b_of(w: u32) -> i32 {
    sext13(
        2 * ((w / 0x100) % 0x10) + 0x20 * ((w / 0x200_0000) % 0x40) + 0x800 * ((w / 0x80) % 0x2)
            + 0x1000 * (w / 0x8000_0000),
    )
}

/// The U-format immediate: bits 31..12 over the high 20 bits, as a signed
/// 32-bit value whose low 12 bits are zero.
pub open spec fn imm_u_of(w: u32) -> i32 {
    let v = (w / 0x1000) * 0x1000;
    if v >= 0x8000_0000 {
        (v - 0x1_0000_0000) as i32
    } else {
        v as i32
    }
}

/// The J-format immediate: bits 30..21, 20, 19..12 and 31, scattered over
/// immediate positions 10..1, 11, 19..12 and 20; always even.
pub open spec fn imm_j_of(w: u32) -> i32 {
    sext21(
        2 * ((w / 0x20_0000) % 0x400) + 0x800 * ((w / 0x10_0000) % 0x2) + 0x1000 * ((w / 0x1000)
            % 0x100) + 0x10_0000 * (w / 0x8000_0000),
    )
}

/// The format each opcode belongs to; `None` for an opcode outside the
/// RV64I base set.
pub open spec fn spec_inst_type(opcode: u32) -> Option<InstType> {
    if opcode == 0x03 || opcode == 0x0F || opcode == 0x13 || opcode == 0x1B || opcode == 0x67
        || opcode == 0x73 {
        Some(InstType::I)
    } else if opcode == 0x17 || opcode == 0x37 {
        Some(InstType::U)
    } else if opcode == 0x23 {
        Some(InstType::S)
    } else if opcode == 0x33 || opcode == 0x3B {
        Some(InstType::R)
    } else if opcode == 0x63 {
        Some(InstType::B)
    } else if opcode == 0x6F {
        Some(InstType::J)
    } else {
        None
    }
}

/// Decoding of the two R-format opcodes.
pub open spec fn spec_decode_r(w: u32) -> Inst {
    let rd = rd_of(w);
    let funct3 = funct3_of(w);
    let rs1 = rs1_of(w);
    let rs2 = rs2_of(w);
    let funct7 = funct7_of(w);
    if opcode_of(w) == 0x33 {
        if funct3 == 0 && funct7 == 0 {
            Inst::Add { rd, rs1, rs2 }
        } else if funct3 == 0 && funct7 == 0x20 {
            Inst::Sub { rd, rs1, rs2 }
        } else if funct3 == 1 && funct7 == 0 {
            Inst::Sll { rd, rs1, rs2 }
        } else if funct3 == 2 && funct7 == 0 {
            Inst::Slt { rd, rs1, rs2 }
        } else if funct3 == 3 && funct7 == 0 {
            Inst::Sltu { rd, rs1, rs2 }
        } else if funct3 == 4 && funct7 == 0 {
            Inst::Xor { rd, rs1, rs2 }
        } else if funct3 == 5 && funct7 == 0 {
            Inst::Srl { rd, rs1, rs2 }
        } else if funct3 == 5 && funct7 == 0x20 {
            Inst::Sra { rd, rs1, rs2 }
        } else if funct3 == 6 && funct7 == 0 {
            Inst::Or { rd, rs1, rs2 }
        } else if funct3 == 7 && funct7 == 0 {
            Inst::And { rd, rs1, rs2 }
        } else {
            Inst::Undefined
        }
    } else {
        if funct3 == 0 && funct7 == 0 {
            Inst::Addw { rd, rs1, rs2 }
        } else if funct3 == 0 && funct7 == 0x20 {
            Inst::Subw { rd, rs1, rs2 }
        } else if funct3 == 1 && funct7 == 0 {
            Inst::Sllw { rd, rs1, rs2 }
        } else if funct3 == 5 && funct7 == 0 {
            Inst::Srlw { rd, rs1, rs2 }
        } else if funct3 == 5 && funct7 == 0x20 {
            Inst::Sraw { rd, rs1, rs2 }
        } else {
            Inst::Undefined
        }
    }
}

/// Decoding of the six I-format opcodes.
pub open spec fn spec_decode_i(w: u32) -> Inst {
    let opcode = opcode_of(w);
    let rd = rd_of(w);
    let funct3 = funct3_of(w);
    let rs1 = rs1_of(w);
    let imm = imm_i_of(w);
    let imm_raw = imm_i_raw_of(w);
    if opcode == 0x67 {
        if funct3 == 0 {
            Inst::Jalr { rd, rs1, imm }
        } else {
            Inst::Undefined
        }
    } else if opcode == 0x03 {
        if funct3 == 0 {
            Inst::Lb { rd, rs1, imm }
        } else if funct3 == 1 {
            Inst::Lh { rd, rs1, imm }
        } else if funct3 == 2 {
            Inst::Lw { rd, rs1, imm }
        } else if funct3 == 3 {
            Inst::Ld { rd, rs1, imm }
        } else if funct3 == 4 {
            Inst::Lbu { rd, rs1, imm }
        } else if funct3 == 5 {
            Inst::Lhu { rd, rs1, imm }
        } else if funct3 == 6 {
            Inst::Lwu { rd, rs1, imm }
        } else {
            Inst::Undefined
        }
    } else if opcode == 0x13 {
        if funct3 == 0 {
            Inst::Addi { rd, rs1, imm }
        } else if funct3 == 2 {
            Inst::Slti { rd, rs1, imm }
        } else if funct3 == 3 {
            Inst::Sltiu { rd, rs1, imm }
        } else if funct3 == 4 {
            Inst::Xori { rd, rs1, imm }
        } else if funct3 == 6 {
            Inst::Ori { rd, rs1, imm }
        } else if funct3 == 7 {
            Inst::Andi { rd, rs1, imm }
        } else if funct3 == 1 && funct6_of(w) == 0 {
            Inst::Slli { rd, rs1, shamt: shamt6_of(w) }
        } else if funct3 == 5 && funct6_of(w) == 0 {
            Inst::Srli { rd, rs1, shamt: shamt6_of(w) }
        } else if funct3 == 5 && funct6_of(w) == 0x10 {
            Inst::Srai { rd, rs1, shamt: shamt6_of(w) }
        } else {
            Inst::Undefined
        }
    } else if opcode == 0x0F {
        if funct3 == 0 {
            if rd == 0 && rs1 == 0 && imm_raw == 0x833 {
                Inst::FenceTso
            } else if rd == 0 && rs1 == 0 && imm_raw == 0x010 {
                Inst::Pause
            } else {
                Inst::Fence { rd, rs1, imm_raw }
            }
        } else {
            Inst::Undefined
        }
    } else if opcode == 0x73 {
        if rd == 0 && funct3 == 0 && rs1 == 0 && imm_raw == 0 {
            Inst::Ecall
        } else if rd == 0 && funct3 == 0 && rs1 == 0 && imm_raw == 1 {
            Inst::Ebreak
        } else {
            Inst::Undefined
        }
    } else {
        if funct3 == 0 {
            Inst::Addiw { rd, rs1, imm }
        } else if funct3 == 1 && funct7_of(w) == 0 {
            Inst::Slliw { rd, rs1, shamt: shamt5_of(w) }
        } else if funct3 == 5 && funct7_of(w) == 0 {
            Inst::Srliw { rd, rs1, shamt: shamt5_of(w) }
        } else if funct3 == 5 && funct7_of(w) == 0x20 {
            Inst::Sraiw { rd, rs1, shamt: shamt5_of(w) }
        } else {
            Inst::Undefined
        }
    }
}

/// Decoding of the S-format opcode.
pub open spec fn spec_decode_s(w: u32) -> Inst {
    let funct3 = funct3_of(w);
    let rs1 = rs1_of(w);
    let rs2 = rs2_of(w);
    let imm = imm_s_of(w);
    if funct3 == 0 {
        Inst::Sb { rs1, rs2, imm }
    } else if funct3 == 1 {
        Inst::Sh { rs1, rs2, imm }
    } else if funct3 == 2 {
        Inst::Sw { rs1, rs2, imm }
    } else if funct3 == 3 {
        Inst::Sd { rs1, rs2, imm }
    } else {
        Inst::Undefined
    }
}

/// Decoding of the B-format opcode.
pub open spec fn spec_decode_b(w: u32) -> Inst {
    let funct3 = funct3_of(w);
    let rs1 = rs1_of(w);
    let rs2 = rs2_of(w);
    let imm = imm_b_of(w);
    if funct3 == 0 {
        Inst::Beq { rs1, rs2, imm }
    } else if funct3 == 1 {
        Inst::Bne { rs1, rs2, imm }
    } else if funct3 == 4 {
        Inst::Blt { rs1, rs2, imm }
    } else if funct3 == 5 {
        Inst::Bge { rs1, rs2, imm }
    } else if funct3 == 6 {
        Inst::Bltu { rs1, rs2, imm }
    } else if funct3 == 7 {
        Inst::Bgeu { rs1, rs2, imm }
    } else {
        Inst::Undefined
    }
}

/// Decoding of the two U-format opcodes.
pub open spec fn spec_decode_u(w: u32) -> Inst {
    let rd = rd_of(w);
    let imm = imm_u_of(w);
    if opcode_of(w) == 0x37 {
        Inst::Lui { rd, imm }
    } else {
        Inst::Auipc { rd, imm }
    }
}

/// Decoding of the J-format opcode.
pub open spec fn spec_decode_j(w: u32) -> Inst {
    Inst::Jal { rd: rd_of(w), imm: imm_j_of(w) }
}

/// The full decode mapping: a total function from any 32-bit word to an
/// instruction, `Undefined` for every encoding outside the supported set.
pub open spec fn spec_decode(w: u32) -> Inst {
    match spec_inst_type(opcode_of(w)) {
        None => Inst::Undefined,
        Some(InstType::R) => spec_decode_r(w),
        Some(InstType::I) => spec_decode_i(w),
        Some(InstType::S) => spec_decode_s(w),
        Some(InstType::B) => spec_decode_b(w),
        Some(InstType::U) => spec_decode_u(w),
        Some(InstType::J) => spec_decode_j(w),
    }
}

/// The encoding format of an instruction word, from its opcode.
pub fn fetch_inst_type(inst: u32) -> (r: Option<InstType>)
    ensures
        r == spec_inst_type(opcode_of(inst)),
{
    let opcode = inst % 0x80;
    if opcode == 0x03 || opcode == 0x0F || opcode == 0x13 || opcode == 0x1B || opcode == 0x67
        || opcode == 0x73 {
        Some(InstType::I)
    } else if opcode == 0x17 || opcode == 0x37 {
        Some(InstType::U)
    } else if opcode == 0x23 {
        Some(InstType::S)
    } else if opcode == 0x33 || opcode == 0x3B {
        Some(InstType::R)
    } else if opcode == 0x63 {
        Some(InstType::B)
    } else if opcode == 0x6F {
        Some(InstType::J)
    } else {
        None
    }
}

/// A 12-bit field sign-extended to a 32-bit value.
fn sext12_exec(x: u32) -> (r: i32)
    requires
        x < 0x1000,
    ensures
        r == sext12(x as int),
{
    if x >= 0x800 {
        (x as i32) - 0x1000
    } else {
        x as i32
    }
}

/// Decode a 32-bit instruction word; total, and `Undefined` exactly where
/// the word matches no supported RV64I encoding.
pub fn decode(inst: u32) -> (r: Inst)
    ensures
        r == spec_decode(inst),
{
    let ty = fetch_inst_type(inst);
    if ty.is_none() {
        return Inst::Undefined;
    }
    let rd = (inst / 0x80) % 0x20;
    let funct3 = (inst / 0x1000) % 0x8;
    let rs1 = (inst / 0x8000) % 0x20;
    let rs2 = (inst / 0x10_0000) % 0x20;
    let funct7 = inst / 0x200_0000;
    match ty.unwrap() {
        InstType::R => {
            if inst % 0x80 == 0x33 {
                if funct3 == 0 && funct7 == 0 {
                    Inst::Add { rd, rs1, rs2 }
                } else if funct3 == 0 && funct7 == 0x20 {
                    Inst::Sub { rd, rs1, rs2 }
                } else if funct3 == 1 && funct7 == 0 {
                    Inst::Sll { rd, rs1, rs2 }
                } else if funct3 == 2 && funct7 == 0 {
                    Inst::Slt { rd, rs1, rs2 }
                } else if funct3 == 3 && funct7 == 0 {
                    Inst::Sltu { rd, rs1, rs2 }
                } else if funct3 == 4 && funct7 == 0 {
                    Inst::Xor { rd, rs1, rs2 }
                } else if funct3 == 5 && funct7 == 0 {
                    Inst::Srl { rd, rs1, rs2 }
                } else if funct3 == 5 && funct7 == 0x20 {
                    Inst::Sra { rd, rs1, rs2 }
                } else if funct3 == 6 && funct7 == 0 {
                    Inst::Or { rd, rs1, rs2 }
                } else if funct3 == 7 && funct7 == 0 {
                    Inst::And { rd, rs1, rs2 }
                } else {
                    Inst::Undefined
                }
            } else {
                if funct3 == 0 && funct7 == 0 {
                    Inst::Addw { rd, rs1, rs2 }
                } else if funct3 == 0 && funct7 == 0x20 {
                    Inst::Subw { rd, rs1, rs2 }
                } else if funct3 == 1 && funct7 == 0 {
                    Inst::Sllw { rd, rs1, rs2 }
                } else if funct3 == 5 && funct7 == 0 {
                    Inst::Srlw { rd, rs1, rs2 }
                } else if funct3 == 5 && funct7 == 0x20 {
                    Inst::Sraw { rd, rs1, rs2 }
                } else {
                    Inst::Undefined
                }
            }
        },
        InstType::I => {
            let opcode = inst % 0x80;
            let imm_raw = inst / 0x10_0000;
            let imm = sext12_exec(imm_raw);
            let shamt6 = imm_raw % 0x40;
            let shamt5 = imm_raw % 0x20;
            let funct6 = inst / 0x400_0000;
            if opcode == 0x67 {
                if funct3 == 0 {
                    Inst::Jalr { rd, rs1, imm }
                } else {
                    Inst::Undefined
                }
            } else if opcode == 0x03 {
                if funct3 == 0 {
                    Inst::Lb { rd, rs1, imm }
                } else if funct3 == 1 {
                    Inst::Lh { rd, rs1, imm }
                } else if funct3 == 2 {
                    Inst::Lw { rd, rs1, imm }
                } else if funct3 == 3 {
                    Inst::Ld { rd, rs1, imm }
                } else if funct3 == 4 {
                    Inst::Lbu { rd, rs1, imm }
                } else if funct3 == 5 {
                    Inst::Lhu { rd, rs1, imm }
                } else if funct3 == 6 {
                    Inst::Lwu { rd, rs1, imm }
                } else {
                    Inst::Undefined
                }
            } else if opcode == 0x13 {
                if funct3 == 0 {
                    Inst::Addi { rd, rs1, imm }
                } else if funct3 == 2 {
                    Inst::Slti { rd, rs1, imm }
                } else if funct3 == 3 {
                    Inst::Sltiu { rd, rs1, imm }
                } else if funct3 == 4 {
                    Inst::Xori { rd, rs1, imm }
                } else if funct3 == 6 {
                    Inst::Ori { rd, rs1, imm }
                } else if funct3 == 7 {
                    Inst::Andi { rd, rs1, imm }
                } else if funct3 == 1 && funct6 == 0 {
                    Inst::Slli { rd, rs1, shamt: shamt6 }
                } else if funct3 == 5 && funct6 == 0 {
                    Inst::Srli { rd, rs1, shamt: shamt6 }
                } else if funct3 == 5 && funct6 == 0x10 {
                    Inst::Srai { rd, rs1, shamt: shamt6 }
                } else {
                    Inst::Undefined
                }
            } else if opcode == 0x0F {
                if funct3 == 0 {
                    if rd == 0 && rs1 == 0 && imm_raw == 0x833 {
                        Inst::FenceTso
                    } else if rd == 0 && rs1 == 0 && imm_raw == 0x010 {
                        Inst::Pause
                    } else {
                        Inst::Fence { rd, rs1, imm_raw }
                    }
                } else {
                    Inst::Undefined
                }
            } else if opcode == 0x73 {
                if rd == 0 && funct3 == 0 && rs1 == 0 && imm_raw == 0 {
                    Inst::Ecall
                } else if rd == 0 && funct3 == 0 && rs1 == 0 && imm_raw == 1 {
                    Inst::Ebreak
                } else {
                    Inst::Undefined
                }
            } else {
                if funct3 == 0 {
                    Inst::Addiw { rd, rs1, imm }
                } else if funct3 == 1 && funct7 == 0 {
                    Inst::Slliw { rd, rs1, shamt: shamt5 }
                } else if funct3 == 5 && funct7 == 0 {
                    Inst::Srliw { rd, rs1, shamt: shamt5 }
                } else if funct3 == 5 && funct7 == 0x20 {
                    Inst::Sraiw { rd, rs1, shamt: shamt5 }
                } else {
                    Inst::Undefined
                }
            }
        },
        InstType::S => {
            let imm = sext12_exec(rd + 0x20 * funct7);
            if funct3 == 0 {
                Inst::Sb { rs1, rs2, imm }
            } else if funct3 == 1 {
                Inst::Sh { rs1, rs2, imm }
            } else if funct3 == 2 {
                Inst::Sw { rs1, rs2, imm }
            } else if funct3 == 3 {
                Inst::Sd { rs1, rs2, imm }
            } else {
                Inst::Undefined
            }
        },
        InstType::B => {
            let raw = 2 * ((inst / 0x100) % 0x10) + 0x20 * ((inst / 0x200_0000) % 0x40) + 0x800 * (
            (inst / 0x80) % 0x2) + 0x1000 * (inst / 0x8000_0000);
            let imm = if raw >= 0x1000 {
                (raw as i32) - 0x2000
            } else {
                raw as i32
            };
            if funct3 == 0 {
                Inst::Beq { rs1, rs2, imm }
            } else if funct3 == 1 {
                Inst::Bne { rs1, rs2, imm }
            } else if funct3 == 4 {
                Inst::Blt { rs1, rs2, imm }
            } else if funct3 == 5 {
                Inst::Bge { rs1, rs2, imm }
            } else if funct3 == 6 {
                Inst::Bltu { rs1, rs2, imm }
            } else if funct3 == 7 {
                Inst::Bgeu { rs1, rs2, imm }
            } else {
                Inst::Undefined
            }
        },
        InstType::U => {
            let v = (inst / 0x1000) * 0x1000;
            let imm = if v >= 0x8000_0000 {
                ((v - 0x8000_0000) as i32) + i32::MIN
            } else {
                v as i32
            };
            if inst % 0x80 == 0x37 {
                Inst::Lui { rd, imm }
            } else {
                Inst::Auipc { rd, imm }
            }
        },
        InstType::J => {
            let raw = 2 * ((inst / 0x20_0000) % 0x400) + 0x800 * ((inst / 0x10_0000) % 0x2) + 0x1000
                * ((inst / 0x1000) % 0x100) + 0x10_0000 * (inst / 0x8000_0000);
            let imm = if raw >= 0x10_0000 {
                (raw as i32) - 0x20_0000
            } else {
                raw as i32
            };
            Inst::Jal { rd, imm }
        },
    }
}

} // verus!
