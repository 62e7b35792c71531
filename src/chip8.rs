//! The machine state and its step driver: one instruction per `execute`, one
//! timer tick per `tick_timers`, keypad updates through `set_keys`.

use vstd::prelude::*;

use crate::decode::{bytes_to_word, decode, Instruction};
use crate::machine::{
    exec_spec, first_press, keys_spec, step_spec, tick_spec, Chip8Error, Chip8View, Flow, Mode,
    GFX_SIZE, STACK_DEPTH,
};
use crate::mem::{Mem, PROGRAM_START, RAM_SIZE};

verus! {

/// A CHIP-8 machine: registers, timers, call stack, memory, keypad latch,
/// framebuffer and execution mode.
pub struct Chip8 {
    /// General registers `V0..=VF`; `VF` doubles as the flag register.
    pub v: [u8; 16],
    /// Index register.
    pub i: u16,
    pub delay_timer: u8,
    pub sound_timer: u8,
    /// Address of the next instruction.
    pub pc: u16,
    /// Return addresses, at most `STACK_DEPTH` of them.
    pub stack: Vec<u16>,
    pub mem: Mem,
    /// Keypad latch, one flag per key `0x0..=0xF`.
    pub keys: [bool; 16],
    /// 64 x 32 framebuffer, row-major.
    pub gfx: [bool; GFX_SIZE],
    pub mode: Mode,
}

impl View for Chip8 {
    type V = Chip8View;

    open spec fn view(&self) -> Chip8View {
        Chip8View {
            v: self.v@,
            i: self.i,
            delay_timer: self.delay_timer,
            sound_timer: self.sound_timer,
            pc: self.pc,
            stack: self.stack@,
            mem: self.mem@,
            keys: self.keys@,
            gfx: self.gfx@,
            mode: self.mode,
        }
    }
}

/// The state of a machine freshly built around memory `mem`.
pub open spec fn initial_state(mem: Seq<u8>) -> Chip8View {
    Chip8View {
        v: Seq::new(16, |k: int| 0u8),
        i: 0,
        delay_timer: 0,
        sound_timer: 0,
        pc: 0x200,
        stack: Seq::empty(),
        mem,
        keys: Seq::new(16, |k: int| false),
        gfx: Seq::new(2048, |p: int| false),
        mode: Mode::Running,
    }
}

/// Relies on `rand::random::<u8>`: a byte drawn from the thread-local
/// generator. Nothing is known of its value.
#[verifier::external_body]
fn random_byte() -> u8 {
    rand::random::<u8>()
}

impl Chip8 {
    /// The machine's invariant: see `Chip8View::wf`.
    pub open spec fn wf(&self) -> bool {
        self@.wf()
    }

    /// A machine around `mem`: registers, timers and keypad cleared, empty
    /// stack, blank framebuffer, running from `PROGRAM_START`.
    pub fn new(mem: Mem) -> (r: Chip8)
        ensures
            r@ == initial_state(mem@),
            r.wf(),
    {
        proof {
            mem.lemma_len();
        }
        let r = Chip8 {
            v: [0; 16],
            i: 0,
            delay_timer: 0,
            sound_timer: 0,
            pc: PROGRAM_START,
            stack: Vec::with_capacity(STACK_DEPTH),
            mem,
            keys: [false; 16],
            gfx: [false; GFX_SIZE],
            mode: Mode::Running,
        };
        assert(r@ =~= initial_state(r.mem@));
        r
    }

    /// One instruction step with `rnd` as the random byte that a `Cxkk` would
    /// use. While waiting for a key nothing happens. Otherwise the word at the
    /// program counter is decoded and executed and the program counter moves
    /// on; a word that encodes no instruction is reported, and nothing changes.
    pub fn step(&mut self, rnd: u8) -> (r: Result<(), Chip8Error>)
        requires
            old(self).wf(),
        ensures
            (final(self)@, r) == step_spec(old(self)@, rnd),
            final(self).wf(),
    {
        if let Mode::WaitingForKey(_) = self.mode {
            return Ok(());
        }
        let pc = self.pc;
        let h = self.mem.get(pc);
        let l = self.mem.get(((pc as usize + 1) % RAM_SIZE) as u16);
        let opcode = bytes_to_word(h, l);
        match decode(opcode) {
            None => Err(Chip8Error::UnknownOpcode(opcode)),
            Some(ins) => {
                self.run(ins, rnd);
                Ok(())
            },
        }
    }

    /// Executes a decoded instruction and moves the program counter as it says.
    fn run(&mut self, ins: Instruction, rnd: u8)
        requires
            old(self).wf(),
            ins.wf(),
        ensures
            final(self)@ == exec_spec(old(self)@, ins, rnd),
            final(self).wf(),
    {
        reveal(exec_spec);
        let pc = self.pc;
        let flow = self.execute_instruction(ins, rnd);
        self.pc = match flow {
            Flow::Next => pc.wrapping_add(2),
            Flow::Skip => pc.wrapping_add(4),
            Flow::Jump(addr) => addr,
        };
    }

    /// One instruction step, drawing the random byte of `Cxkk` from the
    /// thread-local generator: the outcome is that of `step` for some byte.
    pub fn execute(&mut self) -> (r: Result<(), Chip8Error>)
        requires
            old(self).wf(),
        ensures
            exists|rnd: u8| #[trigger] step_spec(old(self)@, rnd) == (final(self)@, r),
            final(self).wf(),
    {
        let rnd = random_byte();
        let r = self.step(rnd);
        assert(step_spec(old(self)@, rnd) == (self@, r));
        r
    }

    /// One 60 Hz tick: each timer above zero goes down by one. The result
    /// says whether the tone sounds on this tick: whether the sound timer was
    /// above zero.
    pub fn tick_timers(&mut self) -> (tone: bool)
        requires
            old(self).wf(),
        ensures
            final(self)@ == tick_spec(old(self)@),
            tone == (old(self).sound_timer > 0),
            final(self).wf(),
    {
        if self.delay_timer > 0 {
            self.delay_timer = self.delay_timer - 1;
        }
        let tone = self.sound_timer > 0;
        if tone {
            self.sound_timer = self.sound_timer - 1;
        }
        tone
    }

    /// Overwrites the keypad latch with `keys`. A machine waiting for a key
    /// takes the lowest key that is held now and was not before into its
    /// register, and runs again.
    pub fn set_keys(&mut self, keys: [bool; 16])
        requires
            old(self).wf(),
        ensures
            final(self)@ == keys_spec(old(self)@, keys@),
            final(self).wf(),
    {
        let mut k: usize = 0;
        while k < 16 && !(keys[k] && !self.keys[k])
            invariant
                k <= 16,
                first_press(self.keys@, keys@, 0) == first_press(self.keys@, keys@, k as int),
            decreases 16 - k,
        {
            k = k + 1;
        }
        if let Mode::WaitingForKey(x) = self.mode {
            if k < 16 {
                self.v[x] = k as u8;
                self.mode = Mode::Running;
            }
        }
        self.keys = keys;
        assert(self@ =~= keys_spec(old(self)@, keys@));
    }
}

} // verus!
