//! Properties of the machine that relate several instructions or steps,
//! stated over the model and proved.

use vstd::prelude::*;

use vstd::arithmetic::div_mod::lemma_fundamental_div_mod_converse;

use crate::decode::{decode_spec, nibbles, x_of, y_of, kk_of, addr_of, Instruction};
use crate::machine::{
    effect_spec, exec_spec, fetch, first_press, flag, flow_spec, keys_spec, pc_plus,
    sprite_covers, step_spec, tick_spec, Chip8View, Flow, Mode,
};

verus! {

/// The fields of the word `a x kk` (first nibble, register nibble, low byte).
proof fn lemma_word_fields(a: int, x: int, kk: int)
    requires
        0 <= a < 16,
        0 <= x < 16,
        0 <= kk < 256,
    ensures
        ({
            let w = (a * 4096 + x * 256 + kk) as u16;
            &&& nibbles(w).0 == a
            &&& x_of(w) == x
            &&& kk_of(w) == kk
            &&& y_of(w) == kk / 16
            &&& nibbles(w).3 == kk % 16
            &&& addr_of(w) == x * 256 + kk
        }),
{
    let w = a * 4096 + x * 256 + kk;
    lemma_fundamental_div_mod_converse(w, 4096, a, x * 256 + kk);
    lemma_fundamental_div_mod_converse(w, 256, a * 16 + x, kk);
    lemma_fundamental_div_mod_converse(a * 16 + x, 16, a, x);
    lemma_fundamental_div_mod_converse(w, 16, a * 256 + x * 16 + kk / 16, kk % 16);
    lemma_fundamental_div_mod_converse(kk, 16, kk / 16, kk % 16);
    lemma_fundamental_div_mod_converse(a * 256 + x * 16 + kk / 16, 16, a * 16 + x, kk / 16);
    lemma_fundamental_div_mod_converse(w, 16, a * 256 + x * 16 + kk / 16, kk % 16);
    assert(w / 16 == a * 256 + x * 16 + kk / 16);
}

/// `6xkk` then `7xkk'` leaves `(kk + kk') mod 256` in `Vx`, and the add does
/// not touch `VF` (unless `Vx` is `VF` itself). The two words decode to these
/// instructions.
pub proof fn lemma_load_then_add_immediate(s: Chip8View, x: usize, kk1: u8, kk2: u8, rnd: u8)
    requires
        s.wf(),
        x < 16,
    ensures
        decode_spec((0x6000 + x * 256 + kk1) as u16) == Some(Instruction::LdVxKk { x, kk: kk1 }),
        decode_spec((0x7000 + x * 256 + kk2) as u16) == Some(Instruction::AddVxKk { x, kk: kk2 }),
        ({
            let s1 = exec_spec(s, Instruction::LdVxKk { x, kk: kk1 }, rnd);
            let s2 = exec_spec(s1, Instruction::AddVxKk { x, kk: kk2 }, rnd);
            &&& s2.v[x as int] == (kk1 + kk2) % 256
            &&& x != 15 ==> s2.v[15] == s1.v[15]
        }),
{
    reveal(decode_spec);
    reveal(exec_spec);
    lemma_word_fields(6, x as int, kk1 as int);
    lemma_word_fields(7, x as int, kk2 as int);
    assert(0x6000 + x * 256 + kk1 == 6 * 4096 + x * 256 + kk1);
    assert(0x7000 + x * 256 + kk2 == 7 * 4096 + x * 256 + kk2);
}

/// `8xy5` with `Vx = 200`, `Vy = 100` leaves `Vx = 100` and `VF = 1` (no
/// borrow); with `Vx = 100`, `Vy = 200` it leaves `Vx = 156` and `VF = 0`.
/// (When `x` is `F` the flag overwrites the difference.)
pub proof fn lemma_sub_borrow_flag(s: Chip8View, x: usize, y: usize, rnd: u8)
    requires
        s.wf(),
        x < 15,
        y < 16,
    ensures
        s.v[x as int] == 200 && s.v[y as int] == 100 ==> ({
            let t = exec_spec(s, Instruction::SubVxVy { x, y }, rnd);
            t.v[x as int] == 100 && t.v[15] == 1
        }),
        s.v[x as int] == 100 && s.v[y as int] == 200 ==> ({
            let t = exec_spec(s, Instruction::SubVxVy { x, y }, rnd);
            t.v[x as int] == 156 && t.v[15] == 0
        }),
{
    reveal(exec_spec);
}

/// `00EE` with an empty stack changes nothing and lets the program counter
/// take its default step: the handler leaves it where it was.
pub proof fn lemma_ret_on_empty_stack(s: Chip8View, rnd: u8)
    requires
        s.wf(),
        s.stack.len() == 0,
    ensures
        effect_spec(s, Instruction::Ret, rnd) == s,
        flow_spec(s, Instruction::Ret) == Flow::Next,
{
}

/// The state after `k` timer ticks.
pub open spec fn ticks(s: Chip8View, k: nat) -> Chip8View
    decreases k,
{
    if k == 0 {
        s
    } else {
        tick_spec(ticks(s, (k - 1) as nat))
    }
}

/// After `k` ticks each timer has gone down by `k`, stopping at zero.
pub proof fn lemma_ticks(s: Chip8View, k: nat)
    ensures
        ticks(s, k).delay_timer == if s.delay_timer >= k { s.delay_timer - k } else { 0 },
        ticks(s, k).sound_timer == if s.sound_timer >= k { s.sound_timer - k } else { 0 },
    decreases k,
{
    if k > 0 {
        lemma_ticks(s, (k - 1) as nat);
    }
}

/// Drawing the same sprite twice at the same place restores the framebuffer.
/// The second draw reports a collision exactly when the first left a covered
/// cell set, so whenever the first set a cell that was clear. (With `x` or `y`
/// equal to `F` the first draw's flag would move the second sprite.)
pub proof fn lemma_draw_twice(s: Chip8View, x: usize, y: usize, n: u8, rnd: u8)
    requires
        s.wf(),
        x < 15,
        y < 15,
        n < 16,
    ensures
        ({
            let ins = Instruction::Drw { x, y, n };
            let s1 = exec_spec(s, ins, rnd);
            let s2 = exec_spec(s1, ins, rnd);
            let vx = s.v[x as int];
            let vy = s.v[y as int];
            &&& s2.gfx == s.gfx
            &&& s2.v[15] == flag(
                exists|p: int|
                    0 <= p < 2048 && s1.gfx[p] && #[trigger] sprite_covers(s, vx, vy, n, p),
            )
            &&& (exists|p: int|
                0 <= p < 2048 && !s.gfx[p] && #[trigger] sprite_covers(s, vx, vy, n, p))
                ==> s2.v[15] == 1
        }),
{
    reveal(exec_spec);
    let ins = Instruction::Drw { x, y, n };
    let s1 = exec_spec(s, ins, rnd);
    let s2 = exec_spec(s1, ins, rnd);
    let vx = s.v[x as int];
    let vy = s.v[y as int];
    assert(s1.v[x as int] == vx && s1.v[y as int] == vy);
    assert forall|p: int| 0 <= p < 2048 implies sprite_covers(s1, vx, vy, n, p) == sprite_covers(
        s,
        vx,
        vy,
        n,
        p,
    ) by {}
    assert(s2.gfx =~= s.gfx);
    if exists|p: int| 0 <= p < 2048 && !s.gfx[p] && #[trigger] sprite_covers(s, vx, vy, n, p) {
        let w = choose|p: int| 0 <= p < 2048 && !s.gfx[p] && #[trigger] sprite_covers(s, vx, vy, n, p);
        assert(s1.gfx[w] && sprite_covers(s1, vx, vy, n, w));
    }
    if exists|p: int| 0 <= p < 2048 && s1.gfx[p] && #[trigger] sprite_covers(s, vx, vy, n, p) {
        let w = choose|p: int| 0 <= p < 2048 && s1.gfx[p] && #[trigger] sprite_covers(s, vx, vy, n, p);
        assert(sprite_covers(s1, vx, vy, n, w));
    }
    if exists|p: int| 0 <= p < 2048 && s1.gfx[p] && #[trigger] sprite_covers(s1, vx, vy, n, p) {
        let w = choose|p: int| 0 <= p < 2048 && s1.gfx[p] && #[trigger] sprite_covers(s1, vx, vy, n, p);
        assert(sprite_covers(s, vx, vy, n, w));
    }
}

/// `Fx0A` puts the machine into `WaitingForKey(x)` and moves on to the next
/// instruction. While it waits, steps change nothing, and so does a keypad
/// update without a newly pressed key. A newly pressed key is stored in `Vx`
/// and the machine runs again: the next step executes the next instruction.
pub proof fn lemma_wait_for_key(
    s: Chip8View,
    x: usize,
    keys: Seq<bool>,
    rnd: u8,
    rnd2: u8,
    next: Instruction,
)
    requires
        s.wf(),
        s.mode == Mode::Running,
        x < 16,
        decode_spec(fetch(s)) == Some(Instruction::LdVxK { x }),
        keys.len() == 16,
    ensures
        ({
            let s1 = step_spec(s, rnd).0;
            let k = first_press(s1.keys, keys, 0);
            let s2 = keys_spec(s1, keys);
            &&& s1.mode == Mode::WaitingForKey(x)
            &&& s1.pc == pc_plus(s.pc, 2)
            &&& step_spec(s1, rnd2) == (s1, Ok::<(), crate::machine::Chip8Error>(()))
            &&& k == 16 ==> s2 == (Chip8View { keys, ..s1 })
            &&& k < 16 ==> s2.mode == Mode::Running && s2.v[x as int] == k
            &&& k < 16 && decode_spec(fetch(s2)) == Some(next) ==> step_spec(s2, rnd2) == (
                exec_spec(s2, next, rnd2),
                Ok::<(), crate::machine::Chip8Error>(()),
            )
        }),
{
    let s1 = step_spec(s, rnd).0;
    assert(s1 == exec_spec(s, Instruction::LdVxK { x }, rnd));
    assert(s1 == (Chip8View { mode: Mode::WaitingForKey(x), pc: pc_plus(s.pc, 2), ..s })) by {
        reveal(exec_spec);
    }
    let s2 = keys_spec(s1, keys);
    lemma_first_press_range(s1.keys, keys, 0);
    if first_press(s1.keys, keys, 0) < 16 && decode_spec(fetch(s2)) == Some(next) {
        lemma_running_step(s2, rnd2, next);
    }
}

/// The first new press at or after `from` is a key from `from` on, or 16.
proof fn lemma_first_press_range(prev: Seq<bool>, next: Seq<bool>, from: int)
    requires
        0 <= from <= 16,
    ensures
        from <= first_press(prev, next, from) <= 16,
    decreases 16 - from,
{
    if from < 16 {
        lemma_first_press_range(prev, next, from + 1);
    }
}

/// A running machine executes the instruction it fetches.
proof fn lemma_running_step(s: Chip8View, rnd: u8, ins: Instruction)
    requires
        s.mode == Mode::Running,
        decode_spec(fetch(s)) == Some(ins),
    ensures
        step_spec(s, rnd) == (exec_spec(s, ins, rnd), Ok::<(), crate::machine::Chip8Error>(())),
{
}

} // verus!
