use vstd::prelude::*;
use crate::emu_err::EmuErr;

verus! {

/// Size of the address space in bytes.
pub const MEM_SIZE: usize = 0x1000;
/// Address at which a program is loaded and execution starts.
pub const PG_START: usize = 0x200;
/// Number of font bytes preloaded at address 0.
pub const FONT_LEN: usize = 0xF0;
/// Address of the first large (SUPER-CHIP) glyph.
pub const BIG_FONT_START: u16 = 0x50;

/// Small glyphs for the hex digits (5 bytes each), then large ones (10 bytes each).
pub const FONT_DATA: [u8; FONT_LEN] = [
    0xF0, 0x90, 0x90, 0x90, 0xF0, // 0
    0x20, 0x60, 0x20, 0x20, 0x70, // 1
    0xF0, 0x10, 0xF0, 0x80, 0xF0, // 2
    0xF0, 0x10, 0xF0, 0x10, 0xF0, // 3
    0x90, 0x90, 0xF0, 0x10, 0x10, // 4
    0xF0, 0x80, 0xF0, 0x10, 0xF0, // 5
    0xF0, 0x80, 0xF0, 0x90, 0xF0, // 6
    0xF0, 0x10, 0x20, 0x40, 0x40, // 7
    0xF0, 0x90, 0xF0, 0x90, 0xF0, // 8
    0xF0, 0x90, 0xF0, 0x10, 0xF0, // 9
    0xF0, 0x90, 0xF0, 0x90, 0x90, // A
    0xE0, 0x90, 0xE0, 0x90, 0xE0, // B
    0xF0, 0x80, 0x80, 0x80, 0xF0, // C
    0xE0, 0x90, 0x90, 0x90, 0xE0, // D
    0xF0, 0x80, 0xF0, 0x80, 0xF0, // E
    0xF0, 0x80, 0xF0, 0x80, 0x80, // F
    0xFF, 0xFF, 0xC3, 0xC3, 0xC3, 0xC3, 0xC3, 0xC3, 0xFF, 0xFF, // 0
    0x0C, 0x0C, 0x3C, 0x3C, 0x0C, 0x0C, 0x0C, 0x0C, 0x3F, 0x3F, // 1
    0xFF, 0xFF, 0x03, 0x03, 0xFF, 0xFF, 0xC0, 0xC0, 0xFF, 0xFF, // 2
    0xFF, 0xFF, 0x07, 0x07, 0xFF, 0xFF, 0x07, 0x07, 0xFF, 0xFF, // 3
    0xC3, 0xC3, 0xC3, 0xC3, 0xFF, 0xFF, 0x03, 0x03, 0x03, 0x03, // 4
    0xFF, 0xFF, 0xC0, 0xC0, 0xFF, 0xFF, 0x03, 0x03, 0xFF, 0xFF, // 5
    0xFF, 0xFF, 0xC0, 0xC0, 0xFF, 0xFF, 0xC3, 0xC3, 0xFF, 0xFF, // 6
    0xFF, 0xFF, 0x03, 0x03, 0x0C, 0x0C, 0x30, 0x30, 0x30, 0x30, // 7
    0xFF, 0xFF, 0xC3, 0xC3, 0xFF, 0xFF, 0xC3, 0xC3, 0xFF, 0xFF, // 8
    0xFF, 0xFF, 0xC3, 0xC3, 0xFF, 0xFF, 0x03, 0x03, 0xFF, 0xFF, // 9
    0xFF, 0xFF, 0xC3, 0xC3, 0xFF, 0xFF, 0xC3, 0xC3, 0xC3, 0xC3, // A
    0xFC, 0xFC, 0xC3, 0xC3, 0xFC, 0xFC, 0xC3, 0xC3, 0xFC, 0xFC, // B
    0xFF, 0xFF, 0xC0, 0xC0, 0xC0, 0xC0, 0xC0, 0xC0, 0xFF, 0xFF, // C
    0xFC, 0xFC, 0xC3, 0xC3, 0xC3, 0xC3, 0xC3, 0xC3, 0xFC, 0xFC, // D
    0xFF, 0xFF, 0xC0, 0xC0, 0xFF, 0xFF, 0xC0, 0xC0, 0xFF, 0xFF, // E
    0xFF, 0xFF, 0xC0, 0xC0, 0xFF, 0xFF, 0xC0, 0xC0, 0xC0, 0xC0, // F
];

/// The memory image right after loading `program`: the fonts at address 0, the program
/// at `PG_START`, zero elsewhere.
pub open spec fn loaded_image(program: Seq<u8>) -> Seq<u8> {
    Seq::new(
        MEM_SIZE as nat,
        |a: int|
            if a < FONT_LEN {
                FONT_DATA@[a]
            } else if PG_START <= a < PG_START + program.len() {
                program[a - PG_START]
            } else {
                0u8
            },
    )
}

/// The flat, byte-addressable memory.
pub struct Memory {
    memory: [u8; MEM_SIZE],
}

impl View for Memory {
    type V = Seq<u8>;

    closed spec fn view(&self) -> Seq<u8> {
        self.memory@
    }
}

impl Memory {
    /// Fonts and `program` loaded; fails when the program does not fit after `PG_START`.
    pub fn init_with(program: &[u8]) -> (r: Result<Self, EmuErr>)
        ensures
            program@.len() <= MEM_SIZE - PG_START <==> r is Ok,
            r is Ok ==> r->Ok_0@ == loaded_image(program@),
            r is Err ==> r == Err::<Self, EmuErr>(
                EmuErr::ProgramLength { pg_len: program@.len() as usize, max_len: (MEM_SIZE - PG_START) as usize },
            ),
    {
        let pg_len = program.len();
        let max_len = MEM_SIZE - PG_START;
        if pg_len > max_len {
            return Err(EmuErr::ProgramLength { pg_len, max_len });
        }
        let mut memory = [0u8; MEM_SIZE];
        let font = FONT_DATA;
        let mut a: usize = 0;
        while a < FONT_LEN
            invariant
                a <= FONT_LEN,
                font@ == FONT_DATA@,
                forall|b: int| 0 <= b < a ==> memory@[b] == FONT_DATA@[b],
                forall|b: int| a <= b < MEM_SIZE ==> memory@[b] == 0,
            decreases FONT_LEN - a,
        {
            memory[a] = font[a];
            a = a + 1;
        }
        let mut k: usize = 0;
        while k < pg_len
            invariant
                k <= pg_len,
                pg_len == program@.len(),
                pg_len <= max_len,
                max_len == MEM_SIZE - PG_START,
                forall|b: int| 0 <= b < FONT_LEN ==> memory@[b] == FONT_DATA@[b],
                forall|b: int| PG_START <= b < PG_START + k ==> memory@[b] == program@[b - PG_START],
                forall|b: int| FONT_LEN <= b < MEM_SIZE && !(PG_START <= b < PG_START + k) ==> memory@[b] == 0,
            decreases pg_len - k,
        {
            memory[PG_START + k] = program[k];
            k = k + 1;
        }
        let r = Memory { memory };
        assert(r@ =~= loaded_image(program@));
        Ok(r)
    }

    /// Memory spans the whole address space.
    pub proof fn lemma_len(&self)
        ensures
            self@.len() == MEM_SIZE,
    {
    }

    /// The byte at `addr`.
    pub fn get(&self, addr: usize) -> (r: u8)
        requires
            addr < MEM_SIZE,
        ensures
            r == self@[addr as int],
    {
        self.memory[addr]
    }

    /// Writes `val` at `addr`.
    pub fn set(&mut self, addr: usize, val: u8)
        requires
            addr < MEM_SIZE,
        ensures
            final(self)@ == old(self)@.update(addr as int, val),
    {
        self.memory[addr] = val;
    }

    pub fn len(&self) -> (r: usize)
        ensures
            r == self@.len(),
            r == MEM_SIZE,
    {
        MEM_SIZE
    }
}

/// The sixteen general byte registers `V0..VF`.
pub struct VReg {
    v_reg: [u8; 0x10],
}

impl View for VReg {
    type V = Seq<u8>;

    closed spec fn view(&self) -> Seq<u8> {
        self.v_reg@
    }
}

impl VReg {
    pub fn new() -> (r: Self)
        ensures
            r@ == Seq::new(16, |_i: int| 0u8),
    {
        let r = VReg { v_reg: [0; 0x10] };
        assert(r@ =~= Seq::new(16, |_i: int| 0u8));
        r
    }

    /// The value of register `x`.
    pub fn get(&self, x: usize) -> (r: u8)
        requires
            x < 16,
        ensures
            r == self@[x as int],
    {
        self.v_reg[x]
    }

    /// Writes `val` into register `x`.
    pub fn set(&mut self, x: usize, val: u8)
        requires
            x < 16,
        ensures
            final(self)@ == old(self)@.update(x as int, val),
    {
        self.v_reg[x] = val;
    }

    pub fn len(&self) -> (r: usize)
        ensures
            r == self@.len(),
            r == 16,
    {
        16
    }
}

} // verus!
