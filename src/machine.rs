//! The mathematical model of the machine: its state as plain values, and what
//! each instruction, each timer tick and each keypad update does to it.

use vstd::prelude::*;

use crate::decode::{bit_of, decode_spec, Instruction};
use crate::mem::{font_address, wrap};

verus! {

/// Framebuffer width in pixels.
pub const WIDTH: usize = 64;

/// Framebuffer height in pixels.
pub const HEIGHT: usize = 32;

/// Number of framebuffer cells, row-major.
pub const GFX_SIZE: usize = 2048;

/// Maximum depth of the call stack.
pub const STACK_DEPTH: usize = 16;

/// Whether the machine executes instructions or is blocked on the keypad.
#[derive(Clone, Copy, PartialEq, Eq, Debug)]
pub enum Mode {
    /// Instructions execute.
    Running,
    /// An `Fx0A` is waiting for a key press, to be stored in the given register.
    WaitingForKey(usize),
}

/// How an executed instruction moves the program counter.
#[derive(Clone, Copy, PartialEq, Eq, Debug)]
pub enum Flow {
    /// The default: on to the next instruction.
    Next,
    /// Over the next instruction.
    Skip,
    /// To the given address.
    Jump(u16),
}

/// The one error of the core: a word that encodes no instruction.
#[derive(Clone, Copy, PartialEq, Eq, Debug)]
pub enum Chip8Error {
    UnknownOpcode(u16),
}

/// The machine state as plain values.
#[verifier::ext_equal]
pub struct Chip8View {
    pub v: Seq<u8>,
    pub i: u16,
    pub delay_timer: u8,
    pub sound_timer: u8,
    pub pc: u16,
    pub stack: Seq<u16>,
    pub mem: Seq<u8>,
    pub keys: Seq<bool>,
    pub gfx: Seq<bool>,
    pub mode: Mode,
}

impl Chip8View {
    /// Sizes of the state, the stack bound, and a waiting register that exists.
    pub open spec fn wf(self) -> bool {
        &&& self.v.len() == 16
        &&& self.mem.len() == 4096
        &&& self.keys.len() == 16
        &&& self.gfx.len() == 2048
        &&& self.stack.len() <= 16
        &&& (self.mode matches Mode::WaitingForKey(x) ==> x < 16)
    }

    /// The state with register `x` set to `val`.
    pub open spec fn set_v(self, x: int, val: u8) -> Chip8View {
        Chip8View { v: self.v.update(x, val), ..self }
    }
}

/// The flag value of a condition: 1 when it holds, else 0.
pub open spec fn flag(b: bool) -> u8 {
    if b { 1 } else { 0 }
}

/// Whether key `k` is held; a value above `0xF` names no key.
pub open spec fn key_down(keys: Seq<bool>, k: u8) -> bool {
    k < 16 && keys[k as int]
}

/// Column offset of cell `p` from a sprite drawn at column `vx`, wrapping.
pub open spec fn col_offset(vx: u8, p: int) -> int {
    (p % 64 - vx) % 64
}

/// Row offset of cell `p` from a sprite drawn at row `vy`, wrapping.
pub open spec fn row_offset(vy: u8, p: int) -> int {
    (p / 64 - vy) % 32
}

/// Whether the `n`-row sprite at `I`, drawn at `(vx, vy)`, has a set pixel on cell `p`.
pub open spec fn sprite_covers(s: Chip8View, vx: u8, vy: u8, n: u8, p: int) -> bool {
    let dx = col_offset(vx, p);
    let dy = row_offset(vy, p);
    dx < 8 && dy < n && bit_of(s.mem[wrap(s.i + dy)], dx)
}

/// The framebuffer after the sprite is XORed onto it.
pub open spec fn drawn_gfx(s: Chip8View, vx: u8, vy: u8, n: u8) -> Seq<bool> {
    Seq::new(2048, |p: int| s.gfx[p] != sprite_covers(s, vx, vy, n, p))
}

/// Whether drawing the sprite clears a cell that was set.
pub open spec fn draw_collides(s: Chip8View, vx: u8, vy: u8, n: u8) -> bool {
    exists|p: int| 0 <= p < 2048 && s.gfx[p] && #[trigger] sprite_covers(s, vx, vy, n, p)
}

/// Memory after `V0..=Vx` are stored from `I` on.
pub open spec fn stored_registers(s: Chip8View, x: int) -> Seq<u8> {
    Seq::new(
        4096,
        |a: int| if (a - s.i) % 4096 <= x { s.v[(a - s.i) % 4096] } else { s.mem[a] },
    )
}

/// Registers after `V0..=Vx` are loaded from `I` on.
pub open spec fn loaded_registers(s: Chip8View, x: int) -> Seq<u8> {
    Seq::new(16, |k: int| if k <= x { s.mem[wrap(s.i + k)] } else { s.v[k] })
}

/// The address following `pc` by `d` bytes, in 16-bit arithmetic.
pub open spec fn pc_plus(pc: u16, d: int) -> u16 {
    ((pc + d) % 65536) as u16
}

/// What an instruction does to the state, apart from the program counter;
/// `rnd` is the random byte that `Cxkk` uses.
pub open spec fn effect_spec(s: Chip8View, ins: Instruction, rnd: u8) -> Chip8View {
    match ins {
        Instruction::Cls => Chip8View { gfx: Seq::new(2048, |p: int| false), ..s },
        Instruction::Ret => if s.stack.len() > 0 {
            Chip8View { stack: s.stack.drop_last(), ..s }
        } else {
            s
        },
        Instruction::Call { addr } => if s.stack.len() < 16 {
            Chip8View { stack: s.stack.push(pc_plus(s.pc, 2)), ..s }
        } else {
            s
        },
        Instruction::LdVxKk { x, kk } => s.set_v(x as int, kk),
        Instruction::AddVxKk { x, kk } => s.set_v(x as int, ((s.v[x as int] + kk) % 256) as u8),
        Instruction::LdVxVy { x, y } => s.set_v(x as int, s.v[y as int]),
        Instruction::OrVxVy { x, y } => s.set_v(x as int, s.v[x as int] | s.v[y as int]),
        Instruction::AndVxVy { x, y } => s.set_v(x as int, s.v[x as int] & s.v[y as int]),
        Instruction::XorVxVy { x, y } => s.set_v(x as int, s.v[x as int] ^ s.v[y as int]),
        Instruction::AddVxVy { x, y } => {
            let sum = s.v[x as int] + s.v[y as int];
            s.set_v(x as int, (sum % 256) as u8).set_v(15, flag(sum > 255))
        },
        Instruction::SubVxVy { x, y } => {
            let (a, b) = (s.v[x as int], s.v[y as int]);
            s.set_v(x as int, ((a - b) % 256) as u8).set_v(15, flag(a >= b))
        },
        Instruction::ShrVxVy { x, y } => {
            let a = s.v[x as int];
            s.set_v(15, a % 2).set_v(x as int, a / 2)
        },
        Instruction::SubnVxVy { x, y } => {
            let (a, b) = (s.v[x as int], s.v[y as int]);
            s.set_v(x as int, ((b - a) % 256) as u8).set_v(15, flag(b >= a))
        },
        Instruction::ShlVxVy { x, y } => {
            let a = s.v[x as int];
            s.set_v(15, a / 128).set_v(x as int, ((a * 2) % 256) as u8)
        },
        Instruction::LdIAddr { addr } => Chip8View { i: addr, ..s },
        Instruction::RndVxKk { x, kk } => s.set_v(x as int, rnd & kk),
        Instruction::Drw { x, y, n } => {
            let (vx, vy) = (s.v[x as int], s.v[y as int]);
            Chip8View {
                gfx: drawn_gfx(s, vx, vy, n),
                v: s.v.update(15, flag(draw_collides(s, vx, vy, n))),
                ..s
            }
        },
        Instruction::LdVxDt { x } => s.set_v(x as int, s.delay_timer),
        Instruction::LdVxK { x } => Chip8View { mode: Mode::WaitingForKey(x), ..s },
        Instruction::LdDtVx { x } => Chip8View { delay_timer: s.v[x as int], ..s },
        Instruction::LdStVx { x } => Chip8View { sound_timer: s.v[x as int], ..s },
        Instruction::AddIVx { x } => Chip8View { i: pc_plus(s.i, s.v[x as int] as int), ..s },
        Instruction::LdFVx { x } => Chip8View { i: font_address(s.v[x as int]), ..s },
        Instruction::LdBVx { x } => {
            let a = s.v[x as int];
            Chip8View {
                mem: s.mem.update(wrap(s.i as int), a / 100).update(
                    wrap(s.i + 1),
                    (a % 100) / 10,
                ).update(wrap(s.i + 2), a % 10),
                ..s
            }
        },
        Instruction::LdAddrIVx { x } => Chip8View { mem: stored_registers(s, x as int), ..s },
        Instruction::LdVxAddrI { x } => Chip8View { v: loaded_registers(s, x as int), ..s },
        _ => s,
    }
}

/// How an instruction moves the program counter, in state `s`.
pub open spec fn flow_spec(s: Chip8View, ins: Instruction) -> Flow {
    match ins {
        Instruction::Ret => if s.stack.len() > 0 {
            Flow::Jump(s.stack.last())
        } else {
            Flow::Next
        },
        Instruction::Jp { addr } => Flow::Jump(addr),
        Instruction::Call { addr } => if s.stack.len() < 16 {
            Flow::Jump(addr)
        } else {
            Flow::Next
        },
        Instruction::SeVxKk { x, kk } => if s.v[x as int] == kk {
            Flow::Skip
        } else {
            Flow::Next
        },
        Instruction::SneVxKk { x, kk } => if s.v[x as int] != kk {
            Flow::Skip
        } else {
            Flow::Next
        },
        Instruction::SeVxVy { x, y } => if s.v[x as int] == s.v[y as int] {
            Flow::Skip
        } else {
            Flow::Next
        },
        Instruction::SneVxVy { x, y } => if s.v[x as int] != s.v[y as int] {
            Flow::Skip
        } else {
            Flow::Next
        },
        Instruction::JpV0Addr { addr } => Flow::Jump((addr + s.v[0]) as u16),
        Instruction::SkpVx { x } => if key_down(s.keys, s.v[x as int]) {
            Flow::Skip
        } else {
            Flow::Next
        },
        Instruction::SknpVx { x } => if !key_down(s.keys, s.v[x as int]) {
            Flow::Skip
        } else {
            Flow::Next
        },
        _ => Flow::Next,
    }
}

/// The program counter after an instruction at `pc` with the given flow.
pub open spec fn next_pc(pc: u16, f: Flow) -> u16 {
    match f {
        Flow::Next => pc_plus(pc, 2),
        Flow::Skip => pc_plus(pc, 4),
        Flow::Jump(a) => a,
    }
}

/// The whole effect of an instruction, program counter included.
#[verifier::opaque]
pub open spec fn exec_spec(s: Chip8View, ins: Instruction, rnd: u8) -> Chip8View {
    Chip8View { pc: next_pc(s.pc, flow_spec(s, ins)), ..effect_spec(s, ins, rnd) }
}

/// The big-endian word at the program counter.
pub open spec fn fetch(s: Chip8View) -> u16 {
    (s.mem[wrap(s.pc as int)] * 256 + s.mem[wrap(s.pc + 1)]) as u16
}

/// One instruction step: nothing while waiting for a key; otherwise the
/// fetched instruction is executed, or an unknown word is reported and the
/// state left as it is.
pub open spec fn step_spec(s: Chip8View, rnd: u8) -> (Chip8View, Result<(), Chip8Error>) {
    if s.mode is WaitingForKey {
        (s, Ok(()))
    } else {
        match decode_spec(fetch(s)) {
            Some(ins) => (exec_spec(s, ins, rnd), Ok(())),
            None => (s, Err(Chip8Error::UnknownOpcode(fetch(s)))),
        }
    }
}

/// One 60 Hz timer tick: each timer moves one toward zero.
pub open spec fn tick_spec(s: Chip8View) -> Chip8View {
    Chip8View {
        delay_timer: if s.delay_timer > 0 { (s.delay_timer - 1) as u8 } else { 0 },
        sound_timer: if s.sound_timer > 0 { (s.sound_timer - 1) as u8 } else { 0 },
        ..s
    }
}

/// The lowest key at or after `from` that is held in `next` and was not in `prev`;
/// 16 when there is none.
pub open spec fn first_press(prev: Seq<bool>, next: Seq<bool>, from: int) -> int
    decreases 16 - from,
{
    if from >= 16 {
        16
    } else if next[from] && !prev[from] {
        from
    } else {
        first_press(prev, next, from + 1)
    }
}

/// The state after the keypad latch is overwritten with `keys`: a waiting
/// machine takes the lowest newly pressed key into its register and runs on.
pub open spec fn keys_spec(s: Chip8View, keys: Seq<bool>) -> Chip8View {
    let k = first_press(s.keys, keys, 0);
    match s.mode {
        Mode::WaitingForKey(x) => if k < 16 {
            Chip8View { keys, mode: Mode::Running, v: s.v.update(x as int, k as u8), ..s }
        } else {
            Chip8View { keys, ..s }
        },
        Mode::Running => Chip8View { keys, ..s },
    }
}

} // verus!
