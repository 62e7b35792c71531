//! The executor: one handler per instruction and the dispatch over them.
//! Each handler does what `effect_spec` says and reports `flow_spec`; the
//! program counter itself is left to the step driver.

use vstd::prelude::*;

use crate::chip8::Chip8;
use crate::decode::{byte_to_bit_array, Instruction};
use crate::machine::{
    col_offset, draw_collides, drawn_gfx, effect_spec, flow_spec, row_offset, sprite_covers,
    stored_registers, loaded_registers, Chip8View, Flow, Mode, GFX_SIZE, STACK_DEPTH,
};
use crate::mem::{wrap, RAM_SIZE};

verus! {

/// Whether cell `p` lies before row `j`, column `c` of the sprite, in drawing order.
spec fn drawn_before(vx: u8, vy: u8, p: int, j: int, c: int) -> bool {
    row_offset(vy, p) < j || (row_offset(vy, p) == j && col_offset(vx, p) < c)
}

/// Whether a set cell among those drawn so far is covered by the sprite.
spec fn collided_before(s: Chip8View, vx: u8, vy: u8, n: u8, j: int, c: int) -> bool {
    exists|p: int|
        0 <= p < 2048 && s.gfx[p] && #[trigger] sprite_covers(s, vx, vy, n, p) && drawn_before(
            vx,
            vy,
            p,
            j,
            c,
        )
}

/// Sprite pixel `(c, j)` drawn at `(vx, vy)` lands on exactly one cell.
proof fn lemma_cell(vx: u8, vy: u8, c: int, j: int, p: int)
    requires
        0 <= c < 8,
        0 <= j < 16,
        0 <= p < 2048,
    ensures
        (p == ((vy + j) % 32) * 64 + (vx + c) % 64) <==> (col_offset(vx, p) == c && row_offset(
            vy,
            p,
        ) == j),
{
    let px = (vx + c) % 64;
    let py = (vy + j) % 32;
    let q = py * 64 + px;
    assert(q % 64 == px && q / 64 == py);
    assert((px - vx) % 64 == c);
    assert((py - vy) % 32 == j);
    if col_offset(vx, p) == c && row_offset(vy, p) == j {
        assert(p % 64 == px);
        assert(p / 64 == py);
    }
}

impl Chip8 {
    /// Dispatches one decoded instruction to its handler. The state changes as
    /// `effect_spec` says, with `rnd` as the random byte of `Cxkk`; the result
    /// says how the program counter is to move.
    pub fn execute_instruction(&mut self, ins: Instruction, rnd: u8) -> (r: Flow)
        requires
            old(self).wf(),
            ins.wf(),
        ensures
            final(self)@ == effect_spec(old(self)@, ins, rnd),
            r == flow_spec(old(self)@, ins),
            final(self).wf(),
    {
        match ins {
            Instruction::Sys { .. } => Flow::Next,
            Instruction::Cls => {
                self.cls();
                Flow::Next
            },
            Instruction::Ret => self.ret(),
            Instruction::Jp { addr } => Flow::Jump(addr),
            Instruction::Call { addr } => self.call_addr(addr),
            Instruction::SeVxKk { x, kk } => self.se_vx_kk(x, kk),
            Instruction::SneVxKk { x, kk } => self.sne_vx_kk(x, kk),
            Instruction::SeVxVy { x, y } => self.se_vx_vy(x, y),
            Instruction::LdVxKk { x, kk } => {
                self.ld_vx_kk(x, kk);
                Flow::Next
            },
            Instruction::AddVxKk { x, kk } => {
                self.add_vx_kk(x, kk);
                Flow::Next
            },
            Instruction::LdVxVy { x, y } => {
                self.ld_vx_vy(x, y);
                Flow::Next
            },
            Instruction::OrVxVy { x, y } => {
                self.or_vx_vy(x, y);
                Flow::Next
            },
            Instruction::AndVxVy { x, y } => {
                self.and_vx_vy(x, y);
                Flow::Next
            },
            Instruction::XorVxVy { x, y } => {
                self.xor_vx_vy(x, y);
                Flow::Next
            },
            Instruction::AddVxVy { x, y } => {
                self.add_vx_vy(x, y);
                Flow::Next
            },
            Instruction::SubVxVy { x, y } => {
                self.sub_vx_vy(x, y);
                Flow::Next
            },
            Instruction::ShrVxVy { x, y } => {
                self.shr_vx_vy(x, y);
                Flow::Next
            },
            Instruction::SubnVxVy { x, y } => {
                self.subn_vx_vy(x, y);
                Flow::Next
            },
            Instruction::ShlVxVy { x, y } => {
                self.shl_vx_vy(x, y);
                Flow::Next
            },
            Instruction::SneVxVy { x, y } => self.sne_vx_vy(x, y),
            Instruction::LdIAddr { addr } => {
                self.ld_i_addr(addr);
                Flow::Next
            },
            Instruction::JpV0Addr { addr } => self.jp_v0_addr(addr),
            Instruction::RndVxKk { x, kk } => {
                self.rnd_vx_kk(x, kk, rnd);
                Flow::Next
            },
            Instruction::Drw { x, y, n } => {
                self.drw_vx_vy_nibble(x, y, n);
                Flow::Next
            },
            Instruction::SkpVx { x } => self.skp_vx(x),
            Instruction::SknpVx { x } => self.sknp_vx(x),
            Instruction::LdVxDt { x } => {
                self.ld_vx_dt(x);
                Flow::Next
            },
            Instruction::LdVxK { x } => {
                self.ld_vx_k(x);
                Flow::Next
            },
            Instruction::LdDtVx { x } => {
                self.ld_dt_vx(x);
                Flow::Next
            },
            Instruction::LdStVx { x } => {
                self.ld_st_vx(x);
                Flow::Next
            },
            Instruction::AddIVx { x } => {
                self.add_i_vx(x);
                Flow::Next
            },
            Instruction::LdFVx { x } => {
                self.ld_f_vx(x);
                Flow::Next
            },
            Instruction::LdBVx { x } => {
                self.ld_b_vx(x);
                Flow::Next
            },
            Instruction::LdAddrIVx { x } => {
                self.ld_addri_vx(x);
                Flow::Next
            },
            Instruction::LdVxAddrI { x } => {
                self.ld_vx_addri(x);
                Flow::Next
            },
        }
    }

    /// `00E0`: clears the framebuffer.
    pub fn cls(&mut self)
        requires
            old(self).wf(),
        ensures
            final(self)@ == effect_spec(old(self)@, Instruction::Cls, 0),
    {
        self.gfx = [false; GFX_SIZE];
        assert(self@ =~= effect_spec(old(self)@, Instruction::Cls, 0));
    }

    /// `00EE`: pops the return address; on an empty stack nothing happens.
    pub fn ret(&mut self) -> (r: Flow)
        requires
            old(self).wf(),
        ensures
            final(self)@ == effect_spec(old(self)@, Instruction::Ret, 0),
            r == flow_spec(old(self)@, Instruction::Ret),
    {
        match self.stack.pop() {
            Some(addr) => Flow::Jump(addr),
            None => Flow::Next,
        }
    }

    /// `2nnn`: pushes the address after this instruction and jumps to `addr`;
    /// with a full stack nothing happens.
    pub fn call_addr(&mut self, addr: u16) -> (r: Flow)
        requires
            old(self).wf(),
        ensures
            final(self)@ == effect_spec(old(self)@, Instruction::Call { addr }, 0),
            r == flow_spec(old(self)@, Instruction::Call { addr }),
    {
        if self.stack.len() < STACK_DEPTH {
            self.stack.push(self.pc.wrapping_add(2));
            Flow::Jump(addr)
        } else {
            Flow::Next
        }
    }

    /// `3xkk`: skip when `Vx == kk`.
    pub fn se_vx_kk(&self, x: usize, kk: u8) -> (r: Flow)
        requires
            self.wf(),
            x < 16,
        ensures
            r == flow_spec(self@, Instruction::SeVxKk { x, kk }),
    {
        if self.v[x] == kk {
            Flow::Skip
        } else {
            Flow::Next
        }
    }

    /// `4xkk`: skip when `Vx != kk`.
    pub fn sne_vx_kk(&self, x: usize, kk: u8) -> (r: Flow)
        requires
            self.wf(),
            x < 16,
        ensures
            r == flow_spec(self@, Instruction::SneVxKk { x, kk }),
    {
        if self.v[x] != kk {
            Flow::Skip
        } else {
            Flow::Next
        }
    }

    /// `5xy0`: skip when `Vx == Vy`.
    pub fn se_vx_vy(&self, x: usize, y: usize) -> (r: Flow)
        requires
            self.wf(),
            x < 16,
            y < 16,
        ensures
            r == flow_spec(self@, Instruction::SeVxVy { x, y }),
    {
        if self.v[x] == self.v[y] {
            Flow::Skip
        } else {
            Flow::Next
        }
    }

    /// `6xkk`: `Vx := kk`.
    pub fn ld_vx_kk(&mut self, x: usize, kk: u8)
        requires
            old(self).wf(),
            x < 16,
        ensures
            final(self)@ == effect_spec(old(self)@, Instruction::LdVxKk { x, kk }, 0),
    {
        self.v[x] = kk;
        assert(self@ =~= effect_spec(old(self)@, Instruction::LdVxKk { x, kk }, 0));
    }

    /// `7xkk`: `Vx := Vx + kk`, wrapping; `VF` is left alone.
    pub fn add_vx_kk(&mut self, x: usize, kk: u8)
        requires
            old(self).wf(),
            x < 16,
        ensures
            final(self)@ == effect_spec(old(self)@, Instruction::AddVxKk { x, kk }, 0),
    {
        self.v[x] = self.v[x].wrapping_add(kk);
        assert(self@ =~= effect_spec(old(self)@, Instruction::AddVxKk { x, kk }, 0));
    }

    /// `8xy0`: `Vx := Vy`.
    pub fn ld_vx_vy(&mut self, x: usize, y: usize)
        requires
            old(self).wf(),
            x < 16,
            y < 16,
        ensures
            final(self)@ == effect_spec(old(self)@, Instruction::LdVxVy { x, y }, 0),
    {
        self.v[x] = self.v[y];
        assert(self@ =~= effect_spec(old(self)@, Instruction::LdVxVy { x, y }, 0));
    }

    /// `8xy1`: `Vx := Vx | Vy`.
    pub fn or_vx_vy(&mut self, x: usize, y: usize)
        requires
            old(self).wf(),
            x < 16,
            y < 16,
        ensures
            final(self)@ == effect_spec(old(self)@, Instruction::OrVxVy { x, y }, 0),
    {
        self.v[x] = self.v[x] | self.v[y];
        assert(self@ =~= effect_spec(old(self)@, Instruction::OrVxVy { x, y }, 0));
    }

    /// `8xy2`: `Vx := Vx & Vy`.
    pub fn and_vx_vy(&mut self, x: usize, y: usize)
        requires
            old(self).wf(),
            x < 16,
            y < 16,
        ensures
            final(self)@ == effect_spec(old(self)@, Instruction::AndVxVy { x, y }, 0),
    {
        self.v[x] = self.v[x] & self.v[y];
        assert(self@ =~= effect_spec(old(self)@, Instruction::AndVxVy { x, y }, 0));
    }

    /// `8xy3`: `Vx := Vx ^ Vy`.
    pub fn xor_vx_vy(&mut self, x: usize, y: usize)
        requires
            old(self).wf(),
            x < 16,
            y < 16,
        ensures
            final(self)@ == effect_spec(old(self)@, Instruction::XorVxVy { x, y }, 0),
    {
        self.v[x] = self.v[x] ^ self.v[y];
        assert(self@ =~= effect_spec(old(self)@, Instruction::XorVxVy { x, y }, 0));
    }

    /// `8xy4`: `Vx := Vx + Vy`, wrapping; then `VF` := 1 on carry, else 0.
    pub fn add_vx_vy(&mut self, x: usize, y: usize)
        requires
            old(self).wf(),
            x < 16,
            y < 16,
        ensures
            final(self)@ == effect_spec(old(self)@, Instruction::AddVxVy { x, y }, 0),
    {
        let (a, b) = (self.v[x], self.v[y]);
        self.v[x] = a.wrapping_add(b);
        self.v[15] = if a as u16 + b as u16 > 255 {
            1
        } else {
            0
        };
        assert(self@ =~= effect_spec(old(self)@, Instruction::AddVxVy { x, y }, 0));
    }

    /// `8xy5`: `Vx := Vx - Vy`, wrapping; then `VF` := 1 when no borrow (`Vx >= Vy`), else 0.
    pub fn sub_vx_vy(&mut self, x: usize, y: usize)
        requires
            old(self).wf(),
            x < 16,
            y < 16,
        ensures
            final(self)@ == effect_spec(old(self)@, Instruction::SubVxVy { x, y }, 0),
    {
        let (a, b) = (self.v[x], self.v[y]);
        self.v[x] = a.wrapping_sub(b);
        self.v[15] = if a >= b {
            1
        } else {
            0
        };
        assert(self@ =~= effect_spec(old(self)@, Instruction::SubVxVy { x, y }, 0));
    }

    /// `8xy6`: `VF` := low bit of `Vx`; then `Vx := Vx >> 1`.
    pub fn shr_vx_vy(&mut self, x: usize, y: usize)
        requires
            old(self).wf(),
            x < 16,
            y < 16,
        ensures
            final(self)@ == effect_spec(old(self)@, Instruction::ShrVxVy { x, y }, 0),
    {
        let a = self.v[x];
        self.v[15] = a & 1;
        self.v[x] = a >> 1u8;
        assert(a & 1 == a % 2) by (bit_vector);
        assert(a >> 1u8 == a / 2) by (bit_vector);
        assert(self@ =~= effect_spec(old(self)@, Instruction::ShrVxVy { x, y }, 0));
    }

    /// `8xy7`: `Vx := Vy - Vx`, wrapping; then `VF` := 1 when no borrow (`Vy >= Vx`), else 0.
    pub fn subn_vx_vy(&mut self, x: usize, y: usize)
        requires
            old(self).wf(),
            x < 16,
            y < 16,
        ensures
            final(self)@ == effect_spec(old(self)@, Instruction::SubnVxVy { x, y }, 0),
    {
        let (a, b) = (self.v[x], self.v[y]);
        self.v[x] = b.wrapping_sub(a);
        self.v[15] = if b >= a {
            1
        } else {
            0
        };
        assert(self@ =~= effect_spec(old(self)@, Instruction::SubnVxVy { x, y }, 0));
    }

    /// `8xyE`: `VF` := high bit of `Vx`, as 0 or 1; then `Vx := Vx << 1`, wrapping.
    pub fn shl_vx_vy(&mut self, x: usize, y: usize)
        requires
            old(self).wf(),
            x < 16,
            y < 16,
        ensures
            final(self)@ == effect_spec(old(self)@, Instruction::ShlVxVy { x, y }, 0),
    {
        let a = self.v[x];
        self.v[15] = a >> 7u8;
        self.v[x] = a << 1u8;
        assert(a >> 7u8 == a / 128) by (bit_vector);
        assert(a << 1u8 == (a * 2) % 256) by (bit_vector);
        assert(self@ =~= effect_spec(old(self)@, Instruction::ShlVxVy { x, y }, 0));
    }

    /// `9xy0`: skip when `Vx != Vy`.
    pub fn sne_vx_vy(&self, x: usize, y: usize) -> (r: Flow)
        requires
            self.wf(),
            x < 16,
            y < 16,
        ensures
            r == flow_spec(self@, Instruction::SneVxVy { x, y }),
    {
        if self.v[x] != self.v[y] {
            Flow::Skip
        } else {
            Flow::Next
        }
    }

    /// `Annn`: `I := addr`.
    pub fn ld_i_addr(&mut self, addr: u16)
        requires
            old(self).wf(),
        ensures
            final(self)@ == effect_spec(old(self)@, Instruction::LdIAddr { addr }, 0),
    {
        self.i = addr;
    }

    /// `Bnnn`: jump to `addr + V0`.
    pub fn jp_v0_addr(&self, addr: u16) -> (r: Flow)
        requires
            self.wf(),
            addr < 4096,
        ensures
            r == flow_spec(self@, Instruction::JpV0Addr { addr }),
    {
        Flow::Jump(addr + self.v[0] as u16)
    }

    /// `Cxkk`: `Vx := rnd & kk`, where `rnd` is a random byte.
    pub fn rnd_vx_kk(&mut self, x: usize, kk: u8, rnd: u8)
        requires
            old(self).wf(),
            x < 16,
        ensures
            final(self)@ == effect_spec(old(self)@, Instruction::RndVxKk { x, kk }, rnd),
    {
        self.v[x] = rnd & kk;
        assert(self@ =~= effect_spec(old(self)@, Instruction::RndVxKk { x, kk }, rnd));
    }

    /// `Ex9E`: skip when key `Vx` is held.
    pub fn skp_vx(&self, x: usize) -> (r: Flow)
        requires
            self.wf(),
            x < 16,
        ensures
            r == flow_spec(self@, Instruction::SkpVx { x }),
    {
        let k = self.v[x];
        if k < 16 && self.keys[k as usize] {
            Flow::Skip
        } else {
            Flow::Next
        }
    }

    /// `ExA1`: skip when key `Vx` is not held.
    pub fn sknp_vx(&self, x: usize) -> (r: Flow)
        requires
            self.wf(),
            x < 16,
        ensures
            r == flow_spec(self@, Instruction::SknpVx { x }),
    {
        let k = self.v[x];
        if k < 16 && self.keys[k as usize] {
            Flow::Next
        } else {
            Flow::Skip
        }
    }

    /// `Fx07`: `Vx :=` delay timer.
    pub fn ld_vx_dt(&mut self, x: usize)
        requires
            old(self).wf(),
            x < 16,
        ensures
            final(self)@ == effect_spec(old(self)@, Instruction::LdVxDt { x }, 0),
    {
        self.v[x] = self.delay_timer;
        assert(self@ =~= effect_spec(old(self)@, Instruction::LdVxDt { x }, 0));
    }

    /// `Fx0A`: blocks the machine until a key press is stored in `Vx`.
    pub fn ld_vx_k(&mut self, x: usize)
        requires
            old(self).wf(),
            x < 16,
        ensures
            final(self)@ == effect_spec(old(self)@, Instruction::LdVxK { x }, 0),
    {
        self.mode = Mode::WaitingForKey(x);
    }

    /// `Fx15`: delay timer `:= Vx`.
    pub fn ld_dt_vx(&mut self, x: usize)
        requires
            old(self).wf(),
            x < 16,
        ensures
            final(self)@ == effect_spec(old(self)@, Instruction::LdDtVx { x }, 0),
    {
        self.delay_timer = self.v[x];
    }

    /// `Fx18`: sound timer `:= Vx`.
    pub fn ld_st_vx(&mut self, x: usize)
        requires
            old(self).wf(),
            x < 16,
        ensures
            final(self)@ == effect_spec(old(self)@, Instruction::LdStVx { x }, 0),
    {
        self.sound_timer = self.v[x];
    }

    /// `Fx1E`: `I := I + Vx`, wrapping at 16 bits.
    pub fn add_i_vx(&mut self, x: usize)
        requires
            old(self).wf(),
            x < 16,
        ensures
            final(self)@ == effect_spec(old(self)@, Instruction::AddIVx { x }, 0),
    {
        self.i = self.i.wrapping_add(self.v[x] as u16);
    }

    /// `Fx29`: `I :=` address of the font glyph for the low nibble of `Vx`.
    pub fn ld_f_vx(&mut self, x: usize)
        requires
            old(self).wf(),
            x < 16,
        ensures
            final(self)@ == effect_spec(old(self)@, Instruction::LdFVx { x }, 0),
    {
        self.i = self.mem.get_font_address(self.v[x]);
    }

    /// `Fx33`: hundreds, tens and units of `Vx` to memory at `I`, `I + 1`, `I + 2`.
    pub fn ld_b_vx(&mut self, x: usize)
        requires
            old(self).wf(),
            x < 16,
        ensures
            final(self)@ == effect_spec(old(self)@, Instruction::LdBVx { x }, 0),
    {
        let addr = self.i as usize;
        let value = self.v[x];
        self.mem.set(((addr) % RAM_SIZE) as u16, value / 100);
        self.mem.set(((addr + 1) % RAM_SIZE) as u16, (value % 100) / 10);
        self.mem.set(((addr + 2) % RAM_SIZE) as u16, value % 10);
        assert(self@ =~= effect_spec(old(self)@, Instruction::LdBVx { x }, 0));
    }

    /// `Fx55`: `V0..=Vx` to memory from `I` on.
    pub fn ld_addri_vx(&mut self, x: usize)
        requires
            old(self).wf(),
            x < 16,
        ensures
            final(self)@ == effect_spec(old(self)@, Instruction::LdAddrIVx { x }, 0),
    {
        let ghost s0 = self@;
        let mut k: usize = 0;
        while k <= x
            invariant
                s0.wf(),
                x < 16,
                k <= x + 1,
                self@ == (Chip8View {
                    mem: Seq::new(
                        4096,
                        |a: int|
                            if (a - s0.i) % 4096 < k {
                                s0.v[(a - s0.i) % 4096]
                            } else {
                                s0.mem[a]
                            },
                    ),
                    ..s0
                }),
            decreases x + 1 - k,
        {
            let addr = ((self.i as usize + k) % RAM_SIZE) as u16;
            self.mem.set(addr, self.v[k]);
            assert(self@.mem =~= Seq::new(
                4096,
                |a: int|
                    if (a - s0.i) % 4096 < k + 1 {
                        s0.v[(a - s0.i) % 4096]
                    } else {
                        s0.mem[a]
                    },
            ));
            k = k + 1;
        }
        assert(self@.mem =~= stored_registers(s0, x as int));
    }

    /// `Fx65`: memory from `I` on to `V0..=Vx`.
    pub fn ld_vx_addri(&mut self, x: usize)
        requires
            old(self).wf(),
            x < 16,
        ensures
            final(self)@ == effect_spec(old(self)@, Instruction::LdVxAddrI { x }, 0),
    {
        let ghost s0 = self@;
        let mut k: usize = 0;
        while k <= x
            invariant
                s0.wf(),
                x < 16,
                k <= x + 1,
                self@ == (Chip8View {
                    v: Seq::new(
                        16,
                        |j: int| if j < k { s0.mem[wrap(s0.i + j)] } else { s0.v[j] },
                    ),
                    ..s0
                }),
            decreases x + 1 - k,
        {
            let addr = ((self.i as usize + k) % RAM_SIZE) as u16;
            self.v[k] = self.mem.get(addr);
            assert(self@.v =~= Seq::new(
                16,
                |j: int| if j < k + 1 { s0.mem[wrap(s0.i + j)] } else { s0.v[j] },
            ));
            k = k + 1;
        }
        assert(self@.v =~= loaded_registers(s0, x as int));
    }

    /// `Dxyn`: XORs the `n`-row sprite at `I` onto the framebuffer at
    /// `(Vx, Vy)`, wrapping at the edges; `VF` := 1 when a set cell was cleared.
    pub fn drw_vx_vy_nibble(&mut self, x: usize, y: usize, n: u8)
        requires
            old(self).wf(),
            x < 16,
            y < 16,
            n < 16,
        ensures
            final(self)@ == effect_spec(old(self)@, Instruction::Drw { x, y, n }, 0),
    {
        let ghost s0 = self@;
        let vx = self.v[x];
        let vy = self.v[y];
        let data = self.mem.read_bytes(self.i, n);
        let mut gfx = self.gfx;
        let mut collision = false;
        let mut j: usize = 0;
        while j < n as usize
            invariant
                s0 == self@,
                s0.wf(),
                vx == s0.v[x as int],
                vy == s0.v[y as int],
                n < 16,
                j <= n,
                data@ == Seq::new(n as nat, |k: int| s0.mem[wrap(s0.i + k)]),
                forall|p: int|
                    0 <= p < 2048 ==> gfx[p] == (s0.gfx[p] != (sprite_covers(s0, vx, vy, n, p)
                        && drawn_before(vx, vy, p, j as int, 0))),
                collision == collided_before(s0, vx, vy, n, j as int, 0),
            decreases n - j,
        {
            let bits = byte_to_bit_array(data[j]);
            let mut c: usize = 0;
            while c < 8
                invariant
                    s0.wf(),
                    n < 16,
                    j < n,
                    c <= 8,
                    forall|k: int| 0 <= k < 8 ==> bits[k] == crate::decode::bit_of(
                        s0.mem[wrap(s0.i + j)],
                        k,
                    ),
                    forall|p: int|
                        0 <= p < 2048 ==> gfx[p] == (s0.gfx[p] != (sprite_covers(
                            s0,
                            vx,
                            vy,
                            n,
                            p,
                        ) && drawn_before(vx, vy, p, j as int, c as int))),
                    collision == collided_before(s0, vx, vy, n, j as int, c as int),
                decreases 8 - c,
            {
                let px = (vx as usize + c) % 64;
                let py = (vy as usize + j) % 32;
                let pos = py * 64 + px;
                proof {
                    assert forall|p: int| 0 <= p < 2048 implies (p == pos) <==> (col_offset(vx, p)
                        == c && row_offset(vy, p) == j) by {
                        lemma_cell(vx, vy, c as int, j as int, p);
                    }
                    assert(sprite_covers(s0, vx, vy, n, pos as int) == bits[c as int]);
                }
                let prev = gfx[pos];
                let ghost before = collision;
                if prev && bits[c] {
                    collision = true;
                }
                gfx[pos] = prev != bits[c];
                proof {
                    if before {
                        let w = choose|p: int|
                            0 <= p < 2048 && s0.gfx[p] && #[trigger] sprite_covers(
                                s0,
                                vx,
                                vy,
                                n,
                                p,
                            ) && drawn_before(vx, vy, p, j as int, c as int);
                        assert(drawn_before(vx, vy, w, j as int, c as int + 1));
                    }
                    if collided_before(s0, vx, vy, n, j as int, c as int + 1) {
                        let w = choose|p: int|
                            0 <= p < 2048 && s0.gfx[p] && #[trigger] sprite_covers(
                                s0,
                                vx,
                                vy,
                                n,
                                p,
                            ) && drawn_before(vx, vy, p, j as int, c as int + 1);
                        if w != pos {
                            assert(drawn_before(vx, vy, w, j as int, c as int));
                        }
                    }
                }
                c = c + 1;
            }
            proof {
                assert forall|p: int|
                    0 <= p < 2048 implies (sprite_covers(s0, vx, vy, n, p) && drawn_before(
                        vx,
                        vy,
                        p,
                        j as int,
                        8,
                    )) == (sprite_covers(s0, vx, vy, n, p) && drawn_before(
                        vx,
                        vy,
                        p,
                        j as int + 1,
                        0,
                    )) by {}
                if collided_before(s0, vx, vy, n, j as int + 1, 0) {
                    let w = choose|p: int|
                        0 <= p < 2048 && s0.gfx[p] && #[trigger] sprite_covers(s0, vx, vy, n, p)
                            && drawn_before(vx, vy, p, j as int + 1, 0);
                    assert(drawn_before(vx, vy, w, j as int, 8));
                }
                if collided_before(s0, vx, vy, n, j as int, 8) {
                    let w = choose|p: int|
                        0 <= p < 2048 && s0.gfx[p] && #[trigger] sprite_covers(s0, vx, vy, n, p)
                            && drawn_before(vx, vy, p, j as int, 8);
                    assert(drawn_before(vx, vy, w, j as int + 1, 0));
                }
            }
            j = j + 1;
        }
        proof {
            assert forall|p: int| 0 <= p < 2048 implies (sprite_covers(s0, vx, vy, n, p)
                && drawn_before(vx, vy, p, n as int, 0)) == sprite_covers(s0, vx, vy, n, p) by {}
            if draw_collides(s0, vx, vy, n) {
                let w = choose|p: int|
                    0 <= p < 2048 && s0.gfx[p] && #[trigger] sprite_covers(s0, vx, vy, n, p);
                assert(drawn_before(vx, vy, w, n as int, 0));
            }
            assert(gfx@ =~= drawn_gfx(s0, vx, vy, n));
        }
        self.gfx = gfx;
        self.v[15] = if collision {
            1
        } else {
            0
        };
        assert(self@ =~= effect_spec(s0, Instruction::Drw { x, y, n }, 0));
    }
}

} // verus!
