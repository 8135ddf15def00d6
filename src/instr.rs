//! CHIP-8 instructions and the decoder from 16-bit opcodes.
use vstd::prelude::*;

verus! {

/// One decoded CHIP-8 instruction. Register operands are nibbles (`< 16`),
/// addresses are 12-bit.
#[derive(Clone, Copy, Debug, PartialEq, Eq, Structural)]
pub enum Instr {
    /// `00E0`: clear the display.
    Cls,
    /// `00EE`: return from a subroutine.
    Ret,
    /// `1nnn`: jump to `nnn`.
    Jp(u16),
    /// `2nnn`: call the subroutine at `nnn`.
    Call(u16),
    /// `3xkk`: skip if `V[x] == kk`.
    SeKk(u8, u8),
    /// `4xkk`: skip if `V[x] != kk`.
    SneKk(u8, u8),
    /// `5xy0`: skip if `V[x] == V[y]`.
    SeVy(u8, u8),
    /// `6xkk`: `V[x] = kk`.
    LdKk(u8, u8),
    /// `7xkk`: `V[x] += kk`, wrapping, flags untouched.
    AddKk(u8, u8),
    /// `8xy0`: `V[x] = V[y]`.
    LdVy(u8, u8),
    /// `8xy1`: `V[x] |= V[y]`, `V[F] = 0`.
    Or(u8, u8),
    /// `8xy2`: `V[x] &= V[y]`, `V[F] = 0`.
    And(u8, u8),
    /// `8xy3`: `V[x] ^= V[y]`, `V[F] = 0`.
    Xor(u8, u8),
    /// `8xy4`: `V[x] += V[y]`, `V[F]` = carry.
    AddVy(u8, u8),
    /// `8xy5`: `V[x] -= V[y]`, `V[F]` = no borrow.
    Sub(u8, u8),
    /// `8xy6`: `V[x] = V[y] >> 1`, `V[F]` = shifted-out bit.
    Shr(u8, u8),
    /// `8xy7`: `V[x] = V[y] - V[x]`, `V[F]` = no borrow.
    Subn(u8, u8),
    /// `8xyE`: `V[x] = V[y] << 1`, `V[F]` = shifted-out bit.
    Shl(u8, u8),
    /// `9xy0`: skip if `V[x] != V[y]`.
    SneVy(u8, u8),
    /// `Annn`: `I = nnn`.
    LdI(u16),
    /// `Bnnn`: jump to `nnn + V[0]`.
    JpV0(u16),
    /// `Cxkk`: `V[x] = random & kk`.
    Rnd(u8, u8),
    /// `Dxyn`: draw an `n`-row sprite from `mem[I..]` at `(V[x], V[y])`.
    Drw(u8, u8, u8),
    /// `Ex9E`: skip if key `V[x]` is pressed.
    Skp(u8),
    /// `ExA1`: skip if key `V[x]` is not pressed.
    Sknp(u8),
    /// `Fx07`: `V[x] = delay`.
    LdVxDt(u8),
    /// `Fx0A`: wait for a key release and store it in `V[x]`.
    LdVxK(u8),
    /// `Fx15`: `delay = V[x]`.
    LdDtVx(u8),
    /// `Fx18`: `sound = V[x]`.
    LdStVx(u8),
    /// `Fx1E`: `I += V[x]`.
    AddI(u8),
    /// `Fx29`: `I` = address of the font glyph for `V[x]`.
    LdF(u8),
    /// `Fx33`: store the decimal digits of `V[x]` at `mem[I..I+3]`.
    LdB(u8),
    /// `Fx55`: store `V[0..=x]` at `mem[I..]`, advancing `I`.
    LdIVx(u8),
    /// `Fx65`: load `V[0..=x]` from `mem[I..]`, advancing `I`.
    LdVxI(u8),
}

/// Bits 15..12 of an opcode.
pub open spec fn nib1(op: u16) -> u16 {
    op >> 12u16
}

/// Bits 11..8 of an opcode: the `x` register.
pub open spec fn nib2(op: u16) -> u16 {
    (op >> 8u16) & 0xfu16
}

/// Bits 7..4 of an opcode: the `y` register.
pub open spec fn nib3(op: u16) -> u16 {
    (op >> 4u16) & 0xfu16
}

/// Bits 3..0 of an opcode: `n`.
pub open spec fn nib4(op: u16) -> u16 {
    op & 0xfu16
}

/// Bits 11..0 of an opcode: the address `nnn`.
pub open spec fn addr_of(op: u16) -> u16 {
    op & 0xfffu16
}

/// Bits 7..0 of an opcode: the immediate byte `kk`.
pub open spec fn byte_of(op: u16) -> u8 {
    (op & 0xffu16) as u8
}

/// The instruction an opcode stands for, if any, by the standard table.
pub open spec fn decode_spec(op: u16) -> Option<Instr> {
    let (a, b, c, d) = (nib1(op), nib2(op), nib3(op), nib4(op));
    let (x, y, n) = (b as u8, c as u8, d as u8);
    let (nnn, kk) = (addr_of(op), byte_of(op));
    if a == 0 && b == 0 && c == 0xe && d == 0 {
        Some(Instr::Cls)
    } else if a == 0 && b == 0 && c == 0xe && d == 0xe {
        Some(Instr::Ret)
    } else if a == 1 {
        Some(Instr::Jp(nnn))
    } else if a == 2 {
        Some(Instr::Call(nnn))
    } else if a == 3 {
        Some(Instr::SeKk(x, kk))
    } else if a == 4 {
        Some(Instr::SneKk(x, kk))
    } else if a == 5 && d == 0 {
        Some(Instr::SeVy(x, y))
    } else if a == 6 {
        Some(Instr::LdKk(x, kk))
    } else if a == 7 {
        Some(Instr::AddKk(x, kk))
    } else if a == 8 && d == 0 {
        Some(Instr::LdVy(x, y))
    } else if a == 8 && d == 1 {
        Some(Instr::Or(x, y))
    } else if a == 8 && d == 2 {
        Some(Instr::And(x, y))
    } else if a == 8 && d == 3 {
        Some(Instr::Xor(x, y))
    } else if a == 8 && d == 4 {
        Some(Instr::AddVy(x, y))
    } else if a == 8 && d == 5 {
        Some(Instr::Sub(x, y))
    } else if a == 8 && d == 6 {
        Some(Instr::Shr(x, y))
    } else if a == 8 && d == 7 {
        Some(Instr::Subn(x, y))
    } else if a == 8 && d == 0xe {
        Some(Instr::Shl(x, y))
    } else if a == 9 && d == 0 {
        Some(Instr::SneVy(x, y))
    } else if a == 0xa {
        Some(Instr::LdI(nnn))
    } else if a == 0xb {
        Some(Instr::JpV0(nnn))
    } else if a == 0xc {
        Some(Instr::Rnd(x, kk))
    } else if a == 0xd {
        Some(Instr::Drw(x, y, n))
    } else if a == 0xe && c == 9 && d == 0xe {
        Some(Instr::Skp(x))
    } else if a == 0xe && c == 0xa && d == 1 {
        Some(Instr::Sknp(x))
    } else if a == 0xf && c == 0 && d == 7 {
        Some(Instr::LdVxDt(x))
    } else if a == 0xf && c == 0 && d == 0xa {
        Some(Instr::LdVxK(x))
    } else if a == 0xf && c == 1 && d == 5 {
        Some(Instr::LdDtVx(x))
    } else if a == 0xf && c == 1 && d == 8 {
        Some(Instr::LdStVx(x))
    } else if a == 0xf && c == 1 && d == 0xe {
        Some(Instr::AddI(x))
    } else if a == 0xf && c == 2 && d == 9 {
        Some(Instr::LdF(x))
    } else if a == 0xf && c == 3 && d == 3 {
        Some(Instr::LdB(x))
    } else if a == 0xf && c == 5 && d == 5 {
        Some(Instr::LdIVx(x))
    } else if a == 0xf && c == 6 && d == 5 {
        Some(Instr::LdVxI(x))
    } else {
        None
    }
}

impl Instr {
    /// Register operands are nibbles and addresses fit in 12 bits.
    pub open spec fn wf(self) -> bool {
        match self {
            Instr::Cls | Instr::Ret => true,
            Instr::Jp(a) | Instr::Call(a) | Instr::LdI(a) | Instr::JpV0(a) => a < 0x1000,
            Instr::SeKk(x, _) | Instr::SneKk(x, _) | Instr::LdKk(x, _) | Instr::AddKk(x, _)
            | Instr::Rnd(x, _) => x < 16,
            Instr::SeVy(x, y) | Instr::LdVy(x, y) | Instr::Or(x, y) | Instr::And(x, y)
            | Instr::Xor(x, y) | Instr::AddVy(x, y) | Instr::Sub(x, y) | Instr::Shr(x, y)
            | Instr::Subn(x, y) | Instr::Shl(x, y) | Instr::SneVy(x, y) => x < 16 && y < 16,
            Instr::Drw(x, y, n) => x < 16 && y < 16 && n < 16,
            Instr::Skp(x) | Instr::Sknp(x) | Instr::LdVxDt(x) | Instr::LdVxK(x)
            | Instr::LdDtVx(x) | Instr::LdStVx(x) | Instr::AddI(x) | Instr::LdF(x)
            | Instr::LdB(x) | Instr::LdIVx(x) | Instr::LdVxI(x) => x < 16,
        }
    }
}

/// Splits an opcode into its fields and looks it up in the instruction
/// table; `None` for an opcode that the table does not hold.
pub fn decode(op: u16) -> (r: Option<Instr>)
    ensures
        r == decode_spec(op),
        r matches Some(i) ==> i.wf(),
{
    let a = op >> 12u16;
    let b = (op >> 8u16) & 0xfu16;
    let c = (op >> 4u16) & 0xfu16;
    let d = op & 0xfu16;
    let x = b as u8;
    let y = c as u8;
    let n = d as u8;
    let nnn = op & 0xfffu16;
    let kk = (op & 0xffu16) as u8;
    assert(b < 16 && c < 16 && d < 16 && nnn < 0x1000) by (bit_vector)
        requires
            b == (op >> 8u16) & 0xfu16,
            c == (op >> 4u16) & 0xfu16,
            d == op & 0xfu16,
            nnn == op & 0xfffu16,
    ;
    if a == 0 && b == 0 && c == 0xe && d == 0 {
        Some(Instr::Cls)
    } else if a == 0 && b == 0 && c == 0xe && d == 0xe {
        Some(Instr::Ret)
    } else if a == 1 {
        Some(Instr::Jp(nnn))
    } else if a == 2 {
        Some(Instr::Call(nnn))
    } else if a == 3 {
        Some(Instr::SeKk(x, kk))
    } else if a == 4 {
        Some(Instr::SneKk(x, kk))
    } else if a == 5 && d == 0 {
        Some(Instr::SeVy(x, y))
    } else if a == 6 {
        Some(Instr::LdKk(x, kk))
    } else if a == 7 {
        Some(Instr::AddKk(x, kk))
    } else if a == 8 && d == 0 {
        Some(Instr::LdVy(x, y))
    } else if a == 8 && d == 1 {
        Some(Instr::Or(x, y))
    } else if a == 8 && d == 2 {
        Some(Instr::And(x, y))
    } else if a == 8 && d == 3 {
        Some(Instr::Xor(x, y))
    } else if a == 8 && d == 4 {
        Some(Instr::AddVy(x, y))
    } else if a == 8 && d == 5 {
        Some(Instr::Sub(x, y))
    } else if a == 8 && d == 6 {
        Some(Instr::Shr(x, y))
    } else if a == 8 && d == 7 {
        Some(Instr::Subn(x, y))
    } else if a == 8 && d == 0xe {
        Some(Instr::Shl(x, y))
    } else if a == 9 && d == 0 {
        Some(Instr::SneVy(x, y))
    } else if a == 0xa {
        Some(Instr::LdI(nnn))
    } else if a == 0xb {
        Some(Instr::JpV0(nnn))
    } else if a == 0xc {
        Some(Instr::Rnd(x, kk))
    } else if a == 0xd {
        Some(Instr::Drw(x, y, n))
    } else if a == 0xe && c == 9 && d == 0xe {
        Some(Instr::Skp(x))
    } else if a == 0xe && c == 0xa && d == 1 {
        Some(Instr::Sknp(x))
    } else if a == 0xf && c == 0 && d == 7 {
        Some(Instr::LdVxDt(x))
    } else if a == 0xf && c == 0 && d == 0xa {
        Some(Instr::LdVxK(x))
    } else if a == 0xf && c == 1 && d == 5 {
        Some(Instr::LdDtVx(x))
    } else if a == 0xf && c == 1 && d == 8 {
        Some(Instr::LdStVx(x))
    } else if a == 0xf && c == 1 && d == 0xe {
        Some(Instr::AddI(x))
    } else if a == 0xf && c == 2 && d == 9 {
        Some(Instr::LdF(x))
    } else if a == 0xf && c == 3 && d == 3 {
        Some(Instr::LdB(x))
    } else if a == 0xf && c == 5 && d == 5 {
        Some(Instr::LdIVx(x))
    } else if a == 0xf && c == 6 && d == 5 {
        Some(Instr::LdVxI(x))
    } else {
        None
    }
}

} // verus!
