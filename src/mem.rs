//! The machine's 4096-byte memory, with the hexadecimal font pre-seeded.

use vstd::prelude::*;

verus! {

/// Number of addressable bytes.
pub const RAM_SIZE: usize = 4096;

/// Address of the first font glyph.
pub const FONT_BASE: u16 = 0x50;

/// Address where programs are loaded and execution starts.
pub const PROGRAM_START: u16 = 0x200;

/// Largest program that fits between `PROGRAM_START` and the end of memory.
pub const MAX_PROGRAM_LEN: usize = 3584;

/// The built-in font: five rows per hexadecimal digit `0..=F`.
pub open spec fn font_set() -> Seq<u8> {
    seq![
        0xF0u8, 0x90, 0x90, 0x90, 0xF0,
        0x20, 0x60, 0x20, 0x20, 0x70,
        0xF0, 0x10, 0xF0, 0x80, 0xF0,
        0xF0, 0x10, 0xF0, 0x10, 0xF0,
        0x90, 0x90, 0xF0, 0x10, 0x10,
        0xF0, 0x80, 0xF0, 0x10, 0xF0,
        0xF0, 0x80, 0xF0, 0x90, 0xF0,
        0xF0, 0x10, 0x20, 0x40, 0x40,
        0xF0, 0x90, 0xF0, 0x90, 0xF0,
        0xF0, 0x90, 0xF0, 0x10, 0xF0,
        0xF0, 0x90, 0xF0, 0x90, 0x90,
        0xE0, 0x90, 0xE0, 0x90, 0xE0,
        0xF0, 0x80, 0x80, 0x80, 0xF0,
        0xE0, 0x90, 0x90, 0x90, 0xE0,
        0xF0, 0x80, 0xF0, 0x80, 0xF0,
        0xF0, 0x80, 0xF0, 0x80, 0x80,
    ]
}

/// Fresh memory: the font at `FONT_BASE`, zero everywhere else.
pub open spec fn initial_memory() -> Seq<u8> {
    Seq::new(4096, |a: int| if 0x50 <= a < 0xA0 { font_set()[a - 0x50] } else { 0u8 })
}

/// Memory `m` with `rom` copied to `PROGRAM_START` onward.
pub open spec fn with_program(m: Seq<u8>, rom: Seq<u8>) -> Seq<u8> {
    Seq::new(
        m.len(),
        |a: int| if 0x200 <= a < 0x200 + rom.len() { rom[a - 0x200] } else { m[a] },
    )
}

/// The address that `addr` names: addresses wrap modulo the memory size.
pub open spec fn wrap(addr: int) -> int {
    addr % 4096
}

/// The address of the glyph for the low nibble of `font`.
pub open spec fn font_address(font: u8) -> u16 {
    (0x50 + 5 * (font % 16)) as u16
}

/// The machine's memory. Its view is the sequence of its 4096 bytes.
pub struct Mem {
    ram: [u8; 4096],
}

impl View for Mem {
    type V = Seq<u8>;

    closed spec fn view(&self) -> Seq<u8> {
        self.ram@
    }
}

impl Mem {
    /// Fresh memory with the font pre-seeded.
    pub fn new() -> (r: Mem)
        ensures
            r@ == initial_memory(),
    {
        let fonts: [u8; 80] = [
            0xF0, 0x90, 0x90, 0x90, 0xF0,  // 0
            0x20, 0x60, 0x20, 0x20, 0x70,  // 1
            0xF0, 0x10, 0xF0, 0x80, 0xF0,  // 2
            0xF0, 0x10, 0xF0, 0x10, 0xF0,  // 3
            0x90, 0x90, 0xF0, 0x10, 0x10,  // 4
            0xF0, 0x80, 0xF0, 0x10, 0xF0,  // 5
            0xF0, 0x80, 0xF0, 0x90, 0xF0,  // 6
            0xF0, 0x10, 0x20, 0x40, 0x40,  // 7
            0xF0, 0x90, 0xF0, 0x90, 0xF0,  // 8
            0xF0, 0x90, 0xF0, 0x10, 0xF0,  // 9
            0xF0, 0x90, 0xF0, 0x90, 0x90,  // A
            0xE0, 0x90, 0xE0, 0x90, 0xE0,  // B
            0xF0, 0x80, 0x80, 0x80, 0xF0,  // C
            0xE0, 0x90, 0x90, 0x90, 0xE0,  // D
            0xF0, 0x80, 0xF0, 0x80, 0xF0,  // E
            0xF0, 0x80, 0xF0, 0x80, 0x80,  // F
        ];
        assert(fonts@ =~= font_set());
        let mut ram: [u8; 4096] = [0; 4096];
        let mut i: usize = 0;
        while i < 80
            invariant
                i <= 80,
                fonts@ == font_set(),
                ram@ =~= Seq::new(
                    4096,
                    |a: int| if 0x50 <= a < 0x50 + i { font_set()[a - 0x50] } else { 0u8 },
                ),
            decreases 80 - i,
        {
            ram[i + 0x50] = fonts[i];
            i = i + 1;
        }
        Mem { ram }
    }

    /// Copies a program into memory from `PROGRAM_START` on; the font stays as it is.
    pub fn load_rom(&mut self, rom_data: Vec<u8>)
        requires
            rom_data.len() <= MAX_PROGRAM_LEN,
        ensures
            final(self)@ == with_program(old(self)@, rom_data@),
    {
        let mut i: usize = 0;
        while i < rom_data.len()
            invariant
                i <= rom_data.len() <= MAX_PROGRAM_LEN,
                self@ =~= with_program(old(self)@, rom_data@.take(i as int)),
            decreases rom_data.len() - i,
        {
            self.ram[0x200 + i] = rom_data[i];
            i = i + 1;
        }
        assert(rom_data@.take(i as int) =~= rom_data@);
    }

    /// The byte at `address`, wrapped into memory.
    pub fn get(&self, address: u16) -> (r: u8)
        ensures
            r == self@[wrap(address as int)],
    {
        self.ram[address as usize % RAM_SIZE]
    }

    /// Writes `value` at `address`, wrapped into memory.
    pub fn set(&mut self, address: u16, value: u8)
        ensures
            final(self)@ == old(self)@.update(wrap(address as int), value),
    {
        self.ram[address as usize % RAM_SIZE] = value;
    }

    /// The `n` bytes from `address` on, each address wrapped into memory.
    pub fn read_bytes(&self, address: u16, n: u8) -> (r: Vec<u8>)
        ensures
            r@ == Seq::new(n as nat, |k: int| self@[wrap(address + k)]),
    {
        let mut r: Vec<u8> = Vec::new();
        let mut k: usize = 0;
        while k < n as usize
            invariant
                k <= n,
                r@ =~= Seq::new(k as nat, |j: int| self@[wrap(address + j)]),
            decreases n - k,
        {
            r.push(self.ram[(address as usize + k) % RAM_SIZE]);
            k = k + 1;
        }
        r
    }

    /// The address of the font glyph for the low nibble of `font`.
    pub fn get_font_address(&self, font: u8) -> (r: u16)
        ensures
            r == font_address(font),
    {
        FONT_BASE + 5 * (font % 16) as u16
    }

    /// Every address of memory holds a byte: the view has 4096 entries.
    pub proof fn lemma_len(&self)
        ensures
            self@.len() == 4096,
    {
    }
}

} // verus!
