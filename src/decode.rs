//! Instruction words: assembling them from bytes and splitting them into nibbles.

use vstd::prelude::*;

verus! {

/// Mask of the 12-bit address operand of an instruction word.
pub const ADDR_MASK: u16 = 0xFFF;

/// One decoded CHIP-8 instruction with its operands.
///
/// Register operands are indices `0..16`, addresses are 12-bit and the sprite
/// height of `Drw` is a nibble; `wf` states these bounds, and `decode` only
/// produces instructions that meet them.
#[derive(Clone, Copy, PartialEq, Eq, Debug)]
pub enum Instruction {
    /// `0nnn`: machine-code routine; ignored.
    Sys { addr: u16 },
    /// `00E0`: clear the framebuffer.
    Cls,
    /// `00EE`: return from a subroutine.
    Ret,
    /// `1nnn`: jump.
    Jp { addr: u16 },
    /// `2nnn`: call a subroutine.
    Call { addr: u16 },
    /// `3xkk`: skip if `Vx == kk`.
    SeVxKk { x: usize, kk: u8 },
    /// `4xkk`: skip if `Vx != kk`.
    SneVxKk { x: usize, kk: u8 },
    /// `5xy0`: skip if `Vx == Vy`.
    SeVxVy { x: usize, y: usize },
    /// `6xkk`: `Vx := kk`.
    LdVxKk { x: usize, kk: u8 },
    /// `7xkk`: `Vx := Vx + kk`, wrapping, flags untouched.
    AddVxKk { x: usize, kk: u8 },
    /// `8xy0`: `Vx := Vy`.
    LdVxVy { x: usize, y: usize },
    /// `8xy1`: `Vx := Vx | Vy`.
    OrVxVy { x: usize, y: usize },
    /// `8xy2`: `Vx := Vx & Vy`.
    AndVxVy { x: usize, y: usize },
    /// `8xy3`: `Vx := Vx ^ Vy`.
    XorVxVy { x: usize, y: usize },
    /// `8xy4`: `Vx := Vx + Vy`, `VF` := carry.
    AddVxVy { x: usize, y: usize },
    /// `8xy5`: `Vx := Vx - Vy`, `VF` := no borrow.
    SubVxVy { x: usize, y: usize },
    /// `8xy6`: `VF` := low bit of `Vx`, `Vx := Vx >> 1`.
    ShrVxVy { x: usize, y: usize },
    /// `8xy7`: `Vx := Vy - Vx`, `VF` := no borrow.
    SubnVxVy { x: usize, y: usize },
    /// `8xyE`: `VF` := high bit of `Vx`, `Vx := Vx << 1`.
    ShlVxVy { x: usize, y: usize },
    /// `9xy0`: skip if `Vx != Vy`.
    SneVxVy { x: usize, y: usize },
    /// `Annn`: `I := nnn`.
    LdIAddr { addr: u16 },
    /// `Bnnn`: jump to `nnn + V0`.
    JpV0Addr { addr: u16 },
    /// `Cxkk`: `Vx := random byte & kk`.
    RndVxKk { x: usize, kk: u8 },
    /// `Dxyn`: draw an `n`-row sprite at `(Vx, Vy)`.
    Drw { x: usize, y: usize, n: u8 },
    /// `Ex9E`: skip if key `Vx` is pressed.
    SkpVx { x: usize },
    /// `ExA1`: skip if key `Vx` is not pressed.
    SknpVx { x: usize },
    /// `Fx07`: `Vx := delay timer`.
    LdVxDt { x: usize },
    /// `Fx0A`: wait for a key press, to be stored in `Vx`.
    LdVxK { x: usize },
    /// `Fx15`: `delay timer := Vx`.
    LdDtVx { x: usize },
    /// `Fx18`: `sound timer := Vx`.
    LdStVx { x: usize },
    /// `Fx1E`: `I := I + Vx`, wrapping.
    AddIVx { x: usize },
    /// `Fx29`: `I :=` address of the font glyph for the low nibble of `Vx`.
    LdFVx { x: usize },
    /// `Fx33`: decimal digits of `Vx` to memory at `I`.
    LdBVx { x: usize },
    /// `Fx55`: `V0..=Vx` to memory at `I`.
    LdAddrIVx { x: usize },
    /// `Fx65`: memory at `I` to `V0..=Vx`.
    LdVxAddrI { x: usize },
}

impl Instruction {
    /// Operand bounds: registers below 16, addresses below 4096, sprite height below 16.
    pub open spec fn wf(self) -> bool {
        match self {
            Instruction::Sys { addr } => addr < 4096,
            Instruction::Cls => true,
            Instruction::Ret => true,
            Instruction::Jp { addr } => addr < 4096,
            Instruction::Call { addr } => addr < 4096,
            Instruction::SeVxKk { x, kk } => x < 16,
            Instruction::SneVxKk { x, kk } => x < 16,
            Instruction::SeVxVy { x, y } => x < 16 && y < 16,
            Instruction::LdVxKk { x, kk } => x < 16,
            Instruction::AddVxKk { x, kk } => x < 16,
            Instruction::LdVxVy { x, y } => x < 16 && y < 16,
            Instruction::OrVxVy { x, y } => x < 16 && y < 16,
            Instruction::AndVxVy { x, y } => x < 16 && y < 16,
            Instruction::XorVxVy { x, y } => x < 16 && y < 16,
            Instruction::AddVxVy { x, y } => x < 16 && y < 16,
            Instruction::SubVxVy { x, y } => x < 16 && y < 16,
            Instruction::ShrVxVy { x, y } => x < 16 && y < 16,
            Instruction::SubnVxVy { x, y } => x < 16 && y < 16,
            Instruction::ShlVxVy { x, y } => x < 16 && y < 16,
            Instruction::SneVxVy { x, y } => x < 16 && y < 16,
            Instruction::LdIAddr { addr } => addr < 4096,
            Instruction::JpV0Addr { addr } => addr < 4096,
            Instruction::RndVxKk { x, kk } => x < 16,
            Instruction::Drw { x, y, n } => x < 16 && y < 16 && n < 16,
            Instruction::SkpVx { x } => x < 16,
            Instruction::SknpVx { x } => x < 16,
            Instruction::LdVxDt { x } => x < 16,
            Instruction::LdVxK { x } => x < 16,
            Instruction::LdDtVx { x } => x < 16,
            Instruction::LdStVx { x } => x < 16,
            Instruction::AddIVx { x } => x < 16,
            Instruction::LdFVx { x } => x < 16,
            Instruction::LdBVx { x } => x < 16,
            Instruction::LdAddrIVx { x } => x < 16,
            Instruction::LdVxAddrI { x } => x < 16,
        }
    }
}

/// The four nibbles of a word, most significant first.
pub open spec fn nibbles(w: u16) -> (u8, u8, u8, u8) {
    (
        (w / 4096) as u8,
        ((w / 256) % 16) as u8,
        ((w / 16) % 16) as u8,
        (w % 16) as u8,
    )
}

/// Big-endian word from its high and low byte.
pub fn bytes_to_word(h: u8, l: u8) -> (r: u16)
    ensures
        r == h as int * 256 + l as int,
{
    let r = ((h as u16) << 8u16) | l as u16;
    assert(((h as u16) << 8u16) | l as u16 == h as u16 * 256 + l as u16) by (bit_vector);
    r
}

/// Splits a word into its four nibbles, most significant first.
pub fn split_into_4bits(n: u16) -> (r: (u8, u8, u8, u8))
    ensures
        r == nibbles(n),
{
    let a = (n >> 12u16) as u8;
    let b = ((n >> 8u16) & 0xF) as u8;
    let c = ((n >> 4u16) & 0xF) as u8;
    let d = (n & 0xF) as u8;
    assert(n >> 12u16 == n / 4096) by (bit_vector);
    assert((n >> 8u16) & 0xF == (n / 256) % 16) by (bit_vector);
    assert((n >> 4u16) & 0xF == (n / 16) % 16) by (bit_vector);
    assert(n & 0xF == n % 16) by (bit_vector);
    (a, b, c, d)
}

/// The register operand `x`, the second nibble of `w`.
pub open spec fn x_of(w: u16) -> usize {
    ((w / 256) % 16) as usize
}

/// The register operand `y`, the third nibble of `w`.
pub open spec fn y_of(w: u16) -> usize {
    ((w / 16) % 16) as usize
}

/// The immediate byte `kk`, the low byte of `w`.
pub open spec fn kk_of(w: u16) -> u8 {
    (w % 256) as u8
}

/// The 12-bit address `nnn`, the low three nibbles of `w`.
pub open spec fn addr_of(w: u16) -> u16 {
    (w % 4096) as u16
}

/// The instruction that a word encodes, if any.
#[verifier::opaque]
pub open spec fn decode_spec(w: u16) -> Option<Instruction> {
    let a = nibbles(w).0;
    let n = nibbles(w).3;
    let x = x_of(w);
    let y = y_of(w);
    let kk = kk_of(w);
    let addr = addr_of(w);
    if a == 0 {
        if w == 0x00E0 {
            Some(Instruction::Cls)
        } else if w == 0x00EE {
            Some(Instruction::Ret)
        } else {
            Some(Instruction::Sys { addr })
        }
    } else if a == 1 {
        Some(Instruction::Jp { addr })
    } else if a == 2 {
        Some(Instruction::Call { addr })
    } else if a == 3 {
        Some(Instruction::SeVxKk { x, kk })
    } else if a == 4 {
        Some(Instruction::SneVxKk { x, kk })
    } else if a == 5 {
        if n == 0 { Some(Instruction::SeVxVy { x, y }) } else { None }
    } else if a == 6 {
        Some(Instruction::LdVxKk { x, kk })
    } else if a == 7 {
        Some(Instruction::AddVxKk { x, kk })
    } else if a == 8 {
        if n == 0 {
            Some(Instruction::LdVxVy { x, y })
        } else if n == 1 {
            Some(Instruction::OrVxVy { x, y })
        } else if n == 2 {
            Some(Instruction::AndVxVy { x, y })
        } else if n == 3 {
            Some(Instruction::XorVxVy { x, y })
        } else if n == 4 {
            Some(Instruction::AddVxVy { x, y })
        } else if n == 5 {
            Some(Instruction::SubVxVy { x, y })
        } else if n == 6 {
            Some(Instruction::ShrVxVy { x, y })
        } else if n == 7 {
            Some(Instruction::SubnVxVy { x, y })
        } else if n == 0xE {
            Some(Instruction::ShlVxVy { x, y })
        } else {
            None
        }
    } else if a == 9 {
        if n == 0 { Some(Instruction::SneVxVy { x, y }) } else { None }
    } else if a == 0xA {
        Some(Instruction::LdIAddr { addr })
    } else if a == 0xB {
        Some(Instruction::JpV0Addr { addr })
    } else if a == 0xC {
        Some(Instruction::RndVxKk { x, kk })
    } else if a == 0xD {
        Some(Instruction::Drw { x, y, n })
    } else if a == 0xE {
        if kk == 0x9E {
            Some(Instruction::SkpVx { x })
        } else if kk == 0xA1 {
            Some(Instruction::SknpVx { x })
        } else {
            None
        }
    } else if kk == 0x07 {
        Some(Instruction::LdVxDt { x })
    } else if kk == 0x0A {
        Some(Instruction::LdVxK { x })
    } else if kk == 0x15 {
        Some(Instruction::LdDtVx { x })
    } else if kk == 0x18 {
        Some(Instruction::LdStVx { x })
    } else if kk == 0x1E {
        Some(Instruction::AddIVx { x })
    } else if kk == 0x29 {
        Some(Instruction::LdFVx { x })
    } else if kk == 0x33 {
        Some(Instruction::LdBVx { x })
    } else if kk == 0x55 {
        Some(Instruction::LdAddrIVx { x })
    } else if kk == 0x65 {
        Some(Instruction::LdVxAddrI { x })
    } else {
        None
    }
}

/// Register index and immediate byte of a `_xkk` word.
fn get_xkk(n: u16) -> (r: (usize, u8))
    ensures
        r == (x_of(n), kk_of(n)),
{
    let x = ((n & 0x0F00) >> 8u16) as usize;
    let kk = (n & 0x00FF) as u8;
    assert((n & 0x0F00) >> 8u16 == (n / 256) % 16) by (bit_vector);
    assert(n & 0x00FF == n % 256) by (bit_vector);
    (x, kk)
}

/// The two register indices of a `_xy_` word.
fn get_xy(n: u16) -> (r: (usize, usize))
    ensures
        r == (x_of(n), y_of(n)),
{
    let x = ((n & 0x0F00) >> 8u16) as usize;
    let y = ((n & 0x00F0) >> 4u16) as usize;
    assert((n & 0x0F00) >> 8u16 == (n / 256) % 16) by (bit_vector);
    assert((n & 0x00F0) >> 4u16 == (n / 16) % 16) by (bit_vector);
    (x, y)
}

/// The two register indices and the low nibble of a `_xyn` word.
fn get_xyn(n: u16) -> (r: (usize, usize, u8))
    ensures
        r == (x_of(n), y_of(n), nibbles(n).3),
{
    let (x, y) = get_xy(n);
    let nn = (n & 0xF) as u8;
    assert(n & 0xF == n % 16) by (bit_vector);
    (x, y, nn)
}

/// Decodes an instruction word; `None` when no instruction has that encoding.
pub fn decode(opcode: u16) -> (r: Option<Instruction>)
    ensures
        r == decode_spec(opcode),
        r matches Some(ins) ==> ins.wf(),
{
    reveal(decode_spec);
    let (a, _, _, _) = split_into_4bits(opcode);
    let (x, kk) = get_xkk(opcode);
    let (_, y, n) = get_xyn(opcode);
    let addr = opcode & ADDR_MASK;
    assert(opcode & 0xFFF == opcode % 4096) by (bit_vector);
    if a == 0 {
        if opcode == 0x00E0 {
            Some(Instruction::Cls)
        } else if opcode == 0x00EE {
            Some(Instruction::Ret)
        } else {
            Some(Instruction::Sys { addr })
        }
    } else if a == 1 {
        Some(Instruction::Jp { addr })
    } else if a == 2 {
        Some(Instruction::Call { addr })
    } else if a == 3 {
        Some(Instruction::SeVxKk { x, kk })
    } else if a == 4 {
        Some(Instruction::SneVxKk { x, kk })
    } else if a == 5 {
        if n == 0 { Some(Instruction::SeVxVy { x, y }) } else { None }
    } else if a == 6 {
        Some(Instruction::LdVxKk { x, kk })
    } else if a == 7 {
        Some(Instruction::AddVxKk { x, kk })
    } else if a == 8 {
        match n {
            0 => Some(Instruction::LdVxVy { x, y }),
            1 => Some(Instruction::OrVxVy { x, y }),
            2 => Some(Instruction::AndVxVy { x, y }),
            3 => Some(Instruction::XorVxVy { x, y }),
            4 => Some(Instruction::AddVxVy { x, y }),
            5 => Some(Instruction::SubVxVy { x, y }),
            6 => Some(Instruction::ShrVxVy { x, y }),
            7 => Some(Instruction::SubnVxVy { x, y }),
            0xE => Some(Instruction::ShlVxVy { x, y }),
            _ => None,
        }
    } else if a == 9 {
        if n == 0 { Some(Instruction::SneVxVy { x, y }) } else { None }
    } else if a == 0xA {
        Some(Instruction::LdIAddr { addr })
    } else if a == 0xB {
        Some(Instruction::JpV0Addr { addr })
    } else if a == 0xC {
        Some(Instruction::RndVxKk { x, kk })
    } else if a == 0xD {
        Some(Instruction::Drw { x, y, n })
    } else if a == 0xE {
        match kk {
            0x9E => Some(Instruction::SkpVx { x }),
            0xA1 => Some(Instruction::SknpVx { x }),
            _ => None,
        }
    } else {
        match kk {
            0x07 => Some(Instruction::LdVxDt { x }),
            0x0A => Some(Instruction::LdVxK { x }),
            0x15 => Some(Instruction::LdDtVx { x }),
            0x18 => Some(Instruction::LdStVx { x }),
            0x1E => Some(Instruction::AddIVx { x }),
            0x29 => Some(Instruction::LdFVx { x }),
            0x33 => Some(Instruction::LdBVx { x }),
            0x55 => Some(Instruction::LdAddrIVx { x }),
            0x65 => Some(Instruction::LdVxAddrI { x }),
            _ => None,
        }
    }
}

/// Pixel `c` (0 = leftmost) of a sprite row: bit `7 - c` of `b`.
pub open spec fn bit_of(b: u8, c: int) -> bool {
    (b >> ((7 - c) as u8)) & 1u8 == 1u8
}

/// The eight pixels of a sprite row, leftmost (most significant bit) first.
pub fn byte_to_bit_array(b: u8) -> (r: [bool; 8])
    ensures
        forall|c: int| 0 <= c < 8 ==> r[c] == bit_of(b, c),
{
    let r = [
        (b & 0x80) == 0x80,
        (b & 0x40) == 0x40,
        (b & 0x20) == 0x20,
        (b & 0x10) == 0x10,
        (b & 0x08) == 0x08,
        (b & 0x04) == 0x04,
        (b & 0x02) == 0x02,
        (b & 0x01) == 0x01,
    ];
    assert(((b & 0x80) == 0x80) == ((b >> 7u8) & 1u8 == 1u8)) by (bit_vector);
    assert(((b & 0x40) == 0x40) == ((b >> 6u8) & 1u8 == 1u8)) by (bit_vector);
    assert(((b & 0x20) == 0x20) == ((b >> 5u8) & 1u8 == 1u8)) by (bit_vector);
    assert(((b & 0x10) == 0x10) == ((b >> 4u8) & 1u8 == 1u8)) by (bit_vector);
    assert(((b & 0x08) == 0x08) == ((b >> 3u8) & 1u8 == 1u8)) by (bit_vector);
    assert(((b & 0x04) == 0x04) == ((b >> 2u8) & 1u8 == 1u8)) by (bit_vector);
    assert(((b & 0x02) == 0x02) == ((b >> 1u8) & 1u8 == 1u8)) by (bit_vector);
    assert(((b & 0x01) == 0x01) == ((b >> 0u8) & 1u8 == 1u8)) by (bit_vector);
    assert forall|c: int| 0 <= c < 8 implies r[c] == bit_of(b, c) by {
        if c == 0 {
        } else if c == 1 {
        } else if c == 2 {
        } else if c == 3 {
        } else if c == 4 {
        } else if c == 5 {
        } else if c == 6 {
        } else {
        }
    }
    r
}

} // verus!
