use vstd::prelude::*;

verus! {

/// A decoded instruction. `x` and `y` name registers, `kk` is an immediate
/// byte, `addr` a twelve-bit address and `n` a sprite height.
#[derive(Debug, Clone, Copy, PartialEq, Eq, Structural)]
pub enum Instruction {
    /// 00E0: clear the screen.
    Cls,
    /// 00EE: return from a subroutine.
    Ret,
    /// 1nnn: jump to addr.
    Jump(u16),
    /// 2nnn: call the subroutine at addr.
    Call(u16),
    /// 3xkk: skip the next instruction if Vx == kk.
    SkipEqImm(usize, u8),
    /// 4xkk: skip the next instruction if Vx != kk.
    SkipNeImm(usize, u8),
    /// 5xy0: skip the next instruction if Vx == Vy.
    SkipEqReg(usize, usize),
    /// 9xy0: skip the next instruction if Vx != Vy.
    SkipNeReg(usize, usize),
    /// 6xkk: Vx = kk.
    LoadImm(usize, u8),
    /// 7xkk: Vx = Vx + kk, wrapping, flags untouched.
    AddImm(usize, u8),
    /// 8xy0: Vx = Vy.
    Move(usize, usize),
    /// 8xy1: Vx = Vx | Vy.
    Or(usize, usize),
    /// 8xy2: Vx = Vx & Vy.
    And(usize, usize),
    /// 8xy3: Vx = Vx ^ Vy.
    Xor(usize, usize),
    /// 8xy4: Vx = Vx + Vy, VF = carry.
    AddReg(usize, usize),
    /// 8xy5: Vx = Vx - Vy, VF = not borrow.
    SubReg(usize, usize),
    /// 8xy6: Vx = Vx >> 1, VF = the bit shifted out.
    ShiftRight(usize, usize),
    /// 8xy7: Vx = Vy - Vx, VF = not borrow.
    SubReverse(usize, usize),
    /// 8xyE: Vx = Vx << 1, VF = the bit shifted out.
    ShiftLeft(usize, usize),
    /// Annn: I = addr.
    LoadIndex(u16),
    /// Bnnn: jump to addr + V0.
    JumpV0(u16),
    /// Cxkk: Vx = a random byte & kk.
    Random(usize, u8),
    /// Dxyn: draw the n-row sprite at memory[I] at (Vx, Vy), VF = collision.
    Draw(usize, usize, u8),
    /// Ex9E: skip the next instruction if the key Vx is down.
    SkipKey(usize),
    /// ExA1: skip the next instruction if the key Vx is up.
    SkipNotKey(usize),
    /// Fx07: Vx = delay timer.
    LoadDelay(usize),
    /// Fx0A: Vx = the key pressed last, if one is latched.
    WaitKey(usize),
    /// Fx15: delay timer = Vx.
    SetDelay(usize),
    /// Fx18: sound timer = Vx.
    SetSound(usize),
    /// Fx1E: I = I + Vx, wrapping at sixteen bits.
    AddIndex(usize),
    /// Fx29: I = address of the glyph of digit Vx.
    LoadFont(usize),
    /// Fx33: memory[I..I+3] = decimal digits of Vx.
    Bcd(usize),
    /// Fx55: memory[I..=I+x] = V0..=Vx.
    StoreRegs(usize),
    /// Fx65: V0..=Vx = memory[I..=I+x].
    LoadRegs(usize),
    /// Any other pattern: does nothing.
    Nop,
}

impl Instruction {
    /// Every register index names one of V0 to VF.
    pub open spec fn wf(self) -> bool {
        match self {
            Instruction::SkipEqImm(x, _) | Instruction::SkipNeImm(x, _) | Instruction::LoadImm(x, _)
            | Instruction::AddImm(x, _) | Instruction::Random(x, _) => x < 16,
            Instruction::SkipEqReg(x, y) | Instruction::SkipNeReg(x, y) | Instruction::Move(x, y)
            | Instruction::Or(x, y) | Instruction::And(x, y) | Instruction::Xor(x, y)
            | Instruction::AddReg(x, y) | Instruction::SubReg(x, y) | Instruction::ShiftRight(x, y)
            | Instruction::SubReverse(x, y) | Instruction::ShiftLeft(x, y) | Instruction::Draw(
                x,
                y,
                _,
            ) => x < 16 && y < 16,
            Instruction::SkipKey(x) | Instruction::SkipNotKey(x) | Instruction::LoadDelay(x)
            | Instruction::WaitKey(x) | Instruction::SetDelay(x) | Instruction::SetSound(x)
            | Instruction::AddIndex(x) | Instruction::LoadFont(x) | Instruction::Bcd(x)
            | Instruction::StoreRegs(x) | Instruction::LoadRegs(x) => x < 16,
            _ => true,
        }
    }
}

/// The register named by the second nibble.
pub open spec fn op_x(op: u16) -> usize {
    ((op >> 8u16) & 0xF) as usize
}

/// The register named by the third nibble.
pub open spec fn op_y(op: u16) -> usize {
    ((op >> 4u16) & 0xF) as usize
}

/// The low byte.
pub open spec fn op_kk(op: u16) -> u8 {
    (op & 0xFF) as u8
}

/// The low nibble.
pub open spec fn op_n(op: u16) -> u8 {
    (op & 0xF) as u8
}

/// The low twelve bits.
pub open spec fn op_nnn(op: u16) -> u16 {
    op & 0x0FFF
}

/// The instruction that a big-endian opcode word stands for.
pub open spec fn spec_decode(op: u16) -> Instruction {
    let x = op_x(op);
    let y = op_y(op);
    let kk = op_kk(op);
    let n = op_n(op);
    let nnn = op_nnn(op);
    let family = op >> 12u16;
    if family == 0x0 {
        if op == 0x00E0 {
            Instruction::Cls
        } else if op == 0x00EE {
            Instruction::Ret
        } else {
            Instruction::Nop
        }
    } else if family == 0x1 {
        Instruction::Jump(nnn)
    } else if family == 0x2 {
        Instruction::Call(nnn)
    } else if family == 0x3 {
        Instruction::SkipEqImm(x, kk)
    } else if family == 0x4 {
        Instruction::SkipNeImm(x, kk)
    } else if family == 0x5 {
        if n == 0 {
            Instruction::SkipEqReg(x, y)
        } else {
            Instruction::Nop
        }
    } else if family == 0x6 {
        Instruction::LoadImm(x, kk)
    } else if family == 0x7 {
        Instruction::AddImm(x, kk)
    } else if family == 0x8 {
        if n == 0x0 {
            Instruction::Move(x, y)
        } else if n == 0x1 {
            Instruction::Or(x, y)
        } else if n == 0x2 {
            Instruction::And(x, y)
        } else if n == 0x3 {
            Instruction::Xor(x, y)
        } else if n == 0x4 {
            Instruction::AddReg(x, y)
        } else if n == 0x5 {
            Instruction::SubReg(x, y)
        } else if n == 0x6 {
            Instruction::ShiftRight(x, y)
        } else if n == 0x7 {
            Instruction::SubReverse(x, y)
        } else if n == 0xE {
            Instruction::ShiftLeft(x, y)
        } else {
            Instruction::Nop
        }
    } else if family == 0x9 {
        if n == 0 {
            Instruction::SkipNeReg(x, y)
        } else {
            Instruction::Nop
        }
    } else if family == 0xA {
        Instruction::LoadIndex(nnn)
    } else if family == 0xB {
        Instruction::JumpV0(nnn)
    } else if family == 0xC {
        Instruction::Random(x, kk)
    } else if family == 0xD {
        Instruction::Draw(x, y, n)
    } else if family == 0xE {
        if kk == 0x9E {
            Instruction::SkipKey(x)
        } else if kk == 0xA1 {
            Instruction::SkipNotKey(x)
        } else {
            Instruction::Nop
        }
    } else {
        if kk == 0x07 {
            Instruction::LoadDelay(x)
        } else if kk == 0x0A {
            Instruction::WaitKey(x)
        } else if kk == 0x15 {
            Instruction::SetDelay(x)
        } else if kk == 0x18 {
            Instruction::SetSound(x)
        } else if kk == 0x1E {
            Instruction::AddIndex(x)
        } else if kk == 0x29 {
            Instruction::LoadFont(x)
        } else if kk == 0x33 {
            Instruction::Bcd(x)
        } else if kk == 0x55 {
            Instruction::StoreRegs(x)
        } else if kk == 0x65 {
            Instruction::LoadRegs(x)
        } else {
            Instruction::Nop
        }
    }
}

proof fn lemma_fields(op: u16)
    ensures
        op_x(op) < 16,
        op_y(op) < 16,
        op_n(op) < 16,
        op >> 12u16 < 16,
{
    assert((op >> 8u16) & 0xF < 16) by (bit_vector);
    assert((op >> 4u16) & 0xF < 16) by (bit_vector);
    assert(op & 0xF < 16) by (bit_vector);
    assert(op >> 12u16 < 16) by (bit_vector);
}

/// Splits an opcode word into its fields and names the instruction.
pub fn decode(op: u16) -> (r: Instruction)
    ensures
        r == spec_decode(op),
        r.wf(),
{
    proof {
        lemma_fields(op);
    }
    let x = ((op >> 8u16) & 0xF) as usize;
    let y = ((op >> 4u16) & 0xF) as usize;
    let kk = (op & 0xFF) as u8;
    let n = (op & 0xF) as u8;
    let nnn = op & 0x0FFF;
    match op >> 12u16 {
        0x0 => {
            if op == 0x00E0 {
                Instruction::Cls
            } else if op == 0x00EE {
                Instruction::Ret
            } else {
                Instruction::Nop
            }
        },
        0x1 => Instruction::Jump(nnn),
        0x2 => Instruction::Call(nnn),
        0x3 => Instruction::SkipEqImm(x, kk),
        0x4 => Instruction::SkipNeImm(x, kk),
        0x5 => {
            if n == 0 {
                Instruction::SkipEqReg(x, y)
            } else {
                Instruction::Nop
            }
        },
        0x6 => Instruction::LoadImm(x, kk),
        0x7 => Instruction::AddImm(x, kk),
        0x8 => match n {
            0x0 => Instruction::Move(x, y),
            0x1 => Instruction::Or(x, y),
            0x2 => Instruction::And(x, y),
            0x3 => Instruction::Xor(x, y),
            0x4 => Instruction::AddReg(x, y),
            0x5 => Instruction::SubReg(x, y),
            0x6 => Instruction::ShiftRight(x, y),
            0x7 => Instruction::SubReverse(x, y),
            0xE => Instruction::ShiftLeft(x, y),
            _ => Instruction::Nop,
        },
        0x9 => {
            if n == 0 {
                Instruction::SkipNeReg(x, y)
            } else {
                Instruction::Nop
            }
        },
        0xA => Instruction::LoadIndex(nnn),
        0xB => Instruction::JumpV0(nnn),
        0xC => Instruction::Random(x, kk),
        0xD => Instruction::Draw(x, y, n),
        0xE => match kk {
            0x9E => Instruction::SkipKey(x),
            0xA1 => Instruction::SkipNotKey(x),
            _ => Instruction::Nop,
        },
        _ => match kk {
            0x07 => Instruction::LoadDelay(x),
            0x0A => Instruction::WaitKey(x),
            0x15 => Instruction::SetDelay(x),
            0x18 => Instruction::SetSound(x),
            0x1E => Instruction::AddIndex(x),
            0x29 => Instruction::LoadFont(x),
            0x33 => Instruction::Bcd(x),
            0x55 => Instruction::StoreRegs(x),
            0x65 => Instruction::LoadRegs(x),
            _ => Instruction::Nop,
        },
    }
}

} // verus!
