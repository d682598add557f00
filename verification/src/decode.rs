use vstd::prelude::*;

verus! {

/// One decoded instruction: the opcode family together with its operands.
/// Register operands are nibbles, addresses are the low twelve bits of the
/// opcode, immediates are its low byte.
#[derive(Clone, Copy, PartialEq, Eq, Structural, Debug)]
pub enum Instruction {
    /// 00E0: clear the display.
    Cls,
    /// 00EE: return from a subroutine.
    Ret,
    /// 1nnn: jump to nnn.
    Jmp(u16),
    /// 2nnn: call the subroutine at nnn.
    Call(u16),
    /// 3xkk: skip the next instruction if Vx == kk.
    SeVal(u8, u8),
    /// 4xkk: skip the next instruction if Vx != kk.
    SneVal(u8, u8),
    /// 5xyn: skip the next instruction if Vx == Vy.
    SeReg(u8, u8),
    /// 6xkk: Vx <- kk.
    LdReg(u8, u8),
    /// 7xkk: Vx <- Vx + kk, wrapping, no flag effect.
    AddVal(u8, u8),
    /// 8xy0: Vx <- Vy.
    Copy(u8, u8),
    /// 8xy1: Vx <- Vx | Vy; VF forced to 0.
    Or(u8, u8),
    /// 8xy2: Vx <- Vx & Vy; VF forced to 0.
    And(u8, u8),
    /// 8xy3: Vx <- Vx ^ Vy; VF forced to 0.
    Xor(u8, u8),
    /// 8xy4: Vx <- Vx + Vy, wrapping; VF is the carry.
    AddReg(u8, u8),
    /// 8xy5: Vx <- Vx - Vy, wrapping; VF is 0 on borrow, else 1.
    SubRegXY(u8, u8),
    /// 8xy6: VF <- low bit of Vx, then Vx <- Vx >> 1.
    ShiftR(u8),
    /// 8xy7: Vx <- Vy - Vx, wrapping; VF is 0 on borrow, else 1.
    SubRegYX(u8, u8),
    /// 8xyE: VF <- high bit of Vx, then Vx <- Vx << 1.
    ShiftL(u8),
    /// 9xyn: skip the next instruction if Vx != Vy.
    SneReg(u8, u8),
    /// Annn: index <- nnn.
    LdIndx(u16),
    /// Bnnn: jump to nnn + V0.
    JmpAdd(u16),
    /// Cxkk: Vx <- random byte AND kk.
    RandAnd(u8, u8),
    /// Dxyn: draw the n-row sprite at memory[index..] at position (Vx, Vy).
    Draw(u8, u8, u8),
    /// Fx07: Vx <- delay timer.
    GetDelay(u8),
    /// Fx0A: wait for a key press; store the lowest pressed key in Vx.
    WaitKey(u8),
    /// Fx15: delay timer <- Vx.
    SetDelay(u8),
    /// Fx18: sound timer <- Vx.
    SetSound(u8),
    /// Fx1E: index <- index + Vx, wrapping; VF set on overflow past 0xFFF.
    AddIndx(u8),
    /// Fx33: write the decimal digits of Vx to memory[index..index+3].
    EncodeSave(u8),
    /// Fx55: write V0..Vx to memory starting at index; index advances.
    Save(u8),
    /// Fx65: read V0..Vx from memory starting at index; index advances.
    Load(u8),
    /// Any encoding outside the families above: silently ignored.
    Unknown,
}

/// The x operand: the second nibble of the opcode.
pub open spec fn op_x(op: u16) -> u8 {
    ((op >> 8) & 0xF) as u8
}

/// The y operand: the third nibble of the opcode.
pub open spec fn op_y(op: u16) -> u8 {
    ((op >> 4) & 0xF) as u8
}

/// The kk operand: the low byte of the opcode.
pub open spec fn op_kk(op: u16) -> u8 {
    (op & 0xFF) as u8
}

/// The nnn operand: the low twelve bits of the opcode.
pub open spec fn op_nnn(op: u16) -> u16 {
    op & 0xFFF
}

/// The n operand: the low nibble of the opcode.
pub open spec fn op_n(op: u16) -> u8 {
    (op & 0xF) as u8
}

/// Decoding, at the specification level: the opcode family is the top
/// nibble; families 0, 8 and F are refined by a secondary nibble or byte.
/// Unrecognized encodings decode to Unknown.
pub open spec fn spec_decode(op: u16) -> Instruction {
    let fam = op >> 12;
    if op == 0x00E0 {
        Instruction::Cls
    } else if op == 0x00EE {
        Instruction::Ret
    } else if fam == 1 {
        Instruction::Jmp(op_nnn(op))
    } else if fam == 2 {
        Instruction::Call(op_nnn(op))
    } else if fam == 3 {
        Instruction::SeVal(op_x(op), op_kk(op))
    } else if fam == 4 {
        Instruction::SneVal(op_x(op), op_kk(op))
    } else if fam == 5 {
        Instruction::SeReg(op_x(op), op_y(op))
    } else if fam == 6 {
        Instruction::LdReg(op_x(op), op_kk(op))
    } else if fam == 7 {
        Instruction::AddVal(op_x(op), op_kk(op))
    } else if fam == 8 {
        let sub = op & 0xF;
        if sub == 0 {
            Instruction::Copy(op_x(op), op_y(op))
        } else if sub == 1 {
            Instruction::Or(op_x(op), op_y(op))
        } else if sub == 2 {
            Instruction::And(op_x(op), op_y(op))
        } else if sub == 3 {
            Instruction::Xor(op_x(op), op_y(op))
        } else if sub == 4 {
            Instruction::AddReg(op_x(op), op_y(op))
        } else if sub == 5 {
            Instruction::SubRegXY(op_x(op), op_y(op))
        } else if sub == 6 {
            Instruction::ShiftR(op_x(op))
        } else if sub == 7 {
            Instruction::SubRegYX(op_x(op), op_y(op))
        } else if sub == 14 {
            Instruction::ShiftL(op_x(op))
        } else {
            Instruction::Unknown
        }
    } else if fam == 9 {
        Instruction::SneReg(op_x(op), op_y(op))
    } else if fam == 10 {
        Instruction::LdIndx(op_nnn(op))
    } else if fam == 11 {
        Instruction::JmpAdd(op_nnn(op))
    } else if fam == 12 {
        Instruction::RandAnd(op_x(op), op_kk(op))
    } else if fam == 13 {
        Instruction::Draw(op_x(op), op_y(op), op_n(op))
    } else if fam == 15 {
        let sub = op & 0xFF;
        if sub == 0x07 {
            Instruction::GetDelay(op_x(op))
        } else if sub == 0x0A {
            Instruction::WaitKey(op_x(op))
        } else if sub == 0x15 {
            Instruction::SetDelay(op_x(op))
        } else if sub == 0x18 {
            Instruction::SetSound(op_x(op))
        } else if sub == 0x1E {
            Instruction::AddIndx(op_x(op))
        } else if sub == 0x33 {
            Instruction::EncodeSave(op_x(op))
        } else if sub == 0x55 {
            Instruction::Save(op_x(op))
        } else if sub == 0x65 {
            Instruction::Load(op_x(op))
        } else {
            Instruction::Unknown
        }
    } else {
        Instruction::Unknown
    }
}

/// Every register operand of a decoded instruction is a nibble, every
/// address fits in twelve bits, and a sprite height fits in a nibble.
pub open spec fn instr_wf(i: Instruction) -> bool {
    match i {
        Instruction::Cls => true,
        Instruction::Ret => true,
        Instruction::Jmp(nnn) => nnn < 4096,
        Instruction::Call(nnn) => nnn < 4096,
        Instruction::SeVal(x, _) => x < 16,
        Instruction::SneVal(x, _) => x < 16,
        Instruction::SeReg(x, y) => x < 16 && y < 16,
        Instruction::LdReg(x, _) => x < 16,
        Instruction::AddVal(x, _) => x < 16,
        Instruction::Copy(x, y) => x < 16 && y < 16,
        Instruction::Or(x, y) => x < 16 && y < 16,
        Instruction::And(x, y) => x < 16 && y < 16,
        Instruction::Xor(x, y) => x < 16 && y < 16,
        Instruction::AddReg(x, y) => x < 16 && y < 16,
        Instruction::SubRegXY(x, y) => x < 16 && y < 16,
        Instruction::ShiftR(x) => x < 16,
        Instruction::SubRegYX(x, y) => x < 16 && y < 16,
        Instruction::ShiftL(x) => x < 16,
        Instruction::SneReg(x, y) => x < 16 && y < 16,
        Instruction::LdIndx(nnn) => nnn < 4096,
        Instruction::JmpAdd(nnn) => nnn < 4096,
        Instruction::RandAnd(x, _) => x < 16,
        Instruction::Draw(x, y, n) => x < 16 && y < 16 && n < 16,
        Instruction::GetDelay(x) => x < 16,
        Instruction::WaitKey(x) => x < 16,
        Instruction::SetDelay(x) => x < 16,
        Instruction::SetSound(x) => x < 16,
        Instruction::AddIndx(x) => x < 16,
        Instruction::EncodeSave(x) => x < 16,
        Instruction::Save(x) => x < 16,
        Instruction::Load(x) => x < 16,
        Instruction::Unknown => true,
    }
}

/// Decoding always yields well-formed operands: each one is produced by
/// masking the opcode.
pub proof fn lemma_decode_wf(op: u16)
    ensures
        instr_wf(spec_decode(op)),
{
    assert(((op >> 8) & 0xF) < 16) by (bit_vector);
    assert(((op >> 4) & 0xF) < 16) by (bit_vector);
    assert((op & 0xFFF) < 4096) by (bit_vector);
    assert((op & 0xF) < 16) by (bit_vector);
}

/// Decode an opcode into an instruction.
pub fn decode(op: u16) -> (r: Instruction)
    ensures
        r == spec_decode(op),
{
    let fam: u16 = op >> 12;
    if op == 0x00E0 {
        Instruction::Cls
    } else if op == 0x00EE {
        Instruction::Ret
    } else if fam == 1 {
        Instruction::Jmp(op & 0xFFF)
    } else if fam == 2 {
        Instruction::Call(op & 0xFFF)
    } else if fam == 3 {
        Instruction::SeVal(((op >> 8) & 0xF) as u8, (op & 0xFF) as u8)
    } else if fam == 4 {
        Instruction::SneVal(((op >> 8) & 0xF) as u8, (op & 0xFF) as u8)
    } else if fam == 5 {
        Instruction::SeReg(((op >> 8) & 0xF) as u8, ((op >> 4) & 0xF) as u8)
    } else if fam == 6 {
        Instruction::LdReg(((op >> 8) & 0xF) as u8, (op & 0xFF) as u8)
    } else if fam == 7 {
        Instruction::AddVal(((op >> 8) & 0xF) as u8, (op & 0xFF) as u8)
    } else if fam == 8 {
        let sub: u16 = op & 0xF;
        if sub == 0 {
            Instruction::Copy(((op >> 8) & 0xF) as u8, ((op >> 4) & 0xF) as u8)
        } else if sub == 1 {
            Instruction::Or(((op >> 8) & 0xF) as u8, ((op >> 4) & 0xF) as u8)
        } else if sub == 2 {
            Instruction::And(((op >> 8) & 0xF) as u8, ((op >> 4) & 0xF) as u8)
        } else if sub == 3 {
            Instruction::Xor(((op >> 8) & 0xF) as u8, ((op >> 4) & 0xF) as u8)
        } else if sub == 4 {
            Instruction::AddReg(((op >> 8) & 0xF) as u8, ((op >> 4) & 0xF) as u8)
        } else if sub == 5 {
            Instruction::SubRegXY(((op >> 8) & 0xF) as u8, ((op >> 4) & 0xF) as u8)
        } else if sub == 6 {
            Instruction::ShiftR(((op >> 8) & 0xF) as u8)
        } else if sub == 7 {
            Instruction::SubRegYX(((op >> 8) & 0xF) as u8, ((op >> 4) & 0xF) as u8)
        } else if sub == 14 {
            Instruction::ShiftL(((op >> 8) & 0xF) as u8)
        } else {
            Instruction::Unknown
        }
    } else if fam == 9 {
        Instruction::SneReg(((op >> 8) & 0xF) as u8, ((op >> 4) & 0xF) as u8)
    } else if fam == 10 {
        Instruction::LdIndx(op & 0xFFF)
    } else if fam == 11 {
        Instruction::JmpAdd(op & 0xFFF)
    } else if fam == 12 {
        Instruction::RandAnd(((op >> 8) & 0xF) as u8, (op & 0xFF) as u8)
    } else if fam == 13 {
        Instruction::Draw(((op >> 8) & 0xF) as u8, ((op >> 4) & 0xF) as u8, (op & 0xF) as u8)
    } else if fam == 15 {
        let sub: u16 = op & 0xFF;
        if sub == 0x07 {
            Instruction::GetDelay(((op >> 8) & 0xF) as u8)
        } else if sub == 0x0A {
            Instruction::WaitKey(((op >> 8) & 0xF) as u8)
        } else if sub == 0x15 {
            Instruction::SetDelay(((op >> 8) & 0xF) as u8)
        } else if sub == 0x18 {
            Instruction::SetSound(((op >> 8) & 0xF) as u8)
        } else if sub == 0x1E {
            Instruction::AddIndx(((op >> 8) & 0xF) as u8)
        } else if sub == 0x33 {
            Instruction::EncodeSave(((op >> 8) & 0xF) as u8)
        } else if sub == 0x55 {
            Instruction::Save(((op >> 8) & 0xF) as u8)
        } else if sub == 0x65 {
            Instruction::Load(((op >> 8) & 0xF) as u8)
        } else {
            Instruction::Unknown
        }
    } else {
        Instruction::Unknown
    }
}

} // verus!
