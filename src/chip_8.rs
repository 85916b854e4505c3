use vstd::prelude::*;
use bit_vec::BitVec;
use crate::emu_err::EmuErr;
use crate::framebuffer::{bits_of, blank_grid, Framebuffer, DISPLAY_HEIGHT, DISPLAY_WIDTH};
use crate::instruction::Instruction;
use crate::machine::{VF, any_key_down, bcd, execute, execute_0, execute_8, execute_draw, execute_f, flag, fetch, ireg_fits, step, Machine, Quirks};
use crate::memory::{loaded_image, Memory, VReg, BIG_FONT_START, MEM_SIZE, PG_START};
use crate::stack::Stack;

verus! {

/// Relies on `rand::random`: some value of `T`; nothing more is known of it.
pub assume_specification<T>[ rand::random::<T> ]() -> (r: T)
    where
        rand::distributions::Standard: rand::distributions::Distribution<T>,
;

/// The machine right after `program` is loaded with `quirks`.
pub open spec fn initial(quirks: Quirks, program: Seq<u8>) -> Machine {
    Machine {
        quirks,
        memory: loaded_image(program),
        stack: Seq::empty(),
        v: Seq::new(16, |_i: int| 0u8),
        i: 0,
        delay: 0,
        sound: 0xFF,
        pc: PG_START as u16,
        keys: Seq::new(16, |_i: int| false),
        display: blank_grid(),
        high_res: false,
    }
}

/// `after` and `r` are what `res` says, a failure leaving `before` as it was.
pub open spec fn follows(res: Result<Machine, EmuErr>, before: Machine, after: Machine, r: Result<(), EmuErr>) -> bool {
    match res {
        Ok(m) => after == m && r == Ok::<(), EmuErr>(()),
        Err(e) => after == before && r == Err::<(), EmuErr>(e),
    }
}

/// The largest program that fits between `PG_START` and the end of memory.
pub open spec fn max_program_len() -> int {
    MEM_SIZE - PG_START
}

/// A CHIP-8 / SUPER-CHIP machine.
pub struct Chip8 {
    quirks: Quirks,
    memory: Memory,
    stack: Stack,
    v_reg: VReg,
    i_reg: u16,
    delay_reg: u8,
    sound_reg: u8,
    pc: u16,
    pressed_keys: [bool; 0x10],
    display_buffer: Framebuffer,
    high_res: bool,
}

impl View for Chip8 {
    type V = Machine;

    closed spec fn view(&self) -> Machine {
        Machine {
            quirks: self.quirks,
            memory: self.memory@,
            stack: self.stack@,
            v: self.v_reg@,
            i: self.i_reg,
            delay: self.delay_reg,
            sound: self.sound_reg,
            pc: self.pc,
            keys: self.pressed_keys@,
            display: self.display_buffer@,
            high_res: self.high_res,
        }
    }
}

/// The three decimal digits of `num`, hundreds first.
fn u8_to_bcd_array(num: u8) -> (r: [u8; 3])
    ensures
        r@ == bcd(num),
{
    let r = [num / 100, (num / 10) % 10, num % 10];
    assert(r@ =~= bcd(num));
    r
}

/// 1 for true, 0 for false.
fn to_u8(b: bool) -> (r: u8)
    ensures
        r == flag(b),
{
    if b {
        1u8
    } else {
        0u8
    }
}

impl Chip8 {
    pub closed spec fn wf(&self) -> bool {
        &&& self.stack.wf()
        &&& self.display_buffer.wf()
        &&& self@.wf()
    }

    /// A machine with the fonts and `program` loaded; fails when the program is longer
    /// than `MEM_SIZE - PG_START` bytes.
    pub fn new(quirks: Quirks, program: &[u8]) -> (r: Result<Self, EmuErr>)
        ensures
            program@.len() <= max_program_len() <==> r is Ok,
            r is Ok ==> r->Ok_0.wf() && r->Ok_0@ == initial(quirks, program@),
            r is Err ==> r == Err::<Self, EmuErr>(
                EmuErr::ProgramLength { pg_len: program@.len() as usize, max_len: (MEM_SIZE - PG_START) as usize },
            ),
    {
        let memory = match Memory::init_with(program) {
            Ok(memory) => memory,
            Err(e) => return Err(e),
        };
        proof {
            memory.lemma_len();
        }
        let r = Chip8 {
            quirks,
            memory,
            stack: Stack::new(),
            v_reg: VReg::new(),
            i_reg: 0,
            delay_reg: 0,
            sound_reg: 0xFF,
            pc: PG_START as u16,
            pressed_keys: [false; 0x10],
            display_buffer: Framebuffer::new(),
            high_res: false,
        };
        assert(r@.keys =~= Seq::new(16, |_i: int| false));
        assert(r@ == initial(quirks, program@));
        Ok(r)
    }

    /// Fails unless `offset` bytes from I stay inside memory.
    fn check_ireg_offset(&self, offset: u16) -> (r: Result<(), EmuErr>)
        ensures
            r is Ok <==> ireg_fits(self@, offset as int),
            r is Err ==> r == Err::<(), EmuErr>(EmuErr::IregOverflow { ireg: self.i_reg, offset }),
    {
        if self.i_reg as u32 + offset as u32 > MEM_SIZE as u32 {
            return Err(EmuErr::IregOverflow { ireg: self.i_reg, offset });
        }
        Ok(())
    }

    /// Sets register `x` to `val`.
    fn set_v(&mut self, x: usize, val: u8)
        requires
            old(self).wf(),
            x < 16,
        ensures
            final(self).wf(),
            final(self)@ == crate::machine::set_v(old(self)@, x as int, val),
    {
        self.v_reg.set(x, val);
    }

    /// Sets register `x` to `val`, then VF to `f`.
    fn set_v_flag(&mut self, x: usize, val: u8, f: u8)
        requires
            old(self).wf(),
            x < 16,
        ensures
            final(self).wf(),
            final(self)@ == crate::machine::set_v_flag(old(self)@, x as int, val, f),
    {
        self.v_reg.set(x, val);
        self.v_reg.set(VF, f);
    }

    /// Family `0x8`: register arithmetic and logic.
    fn instruction_0x8(&mut self, instruction: Instruction) -> (r: Result<(), EmuErr>)
        requires
            old(self).wf(),
        ensures
            final(self).wf(),
            follows(execute_8(old(self)@, instruction), old(self)@, final(self)@, r),
    {
        proof {
            reveal(execute_8);
        }
        let x = instruction.x();
        let vx = self.v_reg.get(x);
        let vy = self.v_reg.get(instruction.y());
        let reset = self.quirks.vf_reset_quirk;
        match instruction.low_nibble() {
            0x0 => self.set_v(x, vy),
            0x1 => {
                if reset {
                    self.set_v_flag(x, vx | vy, 0);
                } else {
                    self.set_v(x, vx | vy);
                }
            },
            0x2 => {
                if reset {
                    self.set_v_flag(x, vx & vy, 0);
                } else {
                    self.set_v(x, vx & vy);
                }
            },
            0x3 => {
                if reset {
                    self.set_v_flag(x, vx ^ vy, 0);
                } else {
                    self.set_v(x, vx ^ vy);
                }
            },
            0x4 => {
                let sum = vx as u16 + vy as u16;
                self.set_v_flag(x, (sum % 256) as u8, to_u8(sum > 255));
            },
            0x5 => {
                let diff = (vx as u16 + 256 - vy as u16) % 256;
                self.set_v_flag(x, diff as u8, to_u8(vx >= vy));
            },
            0x6 => self.set_v_flag(x, vx / 2, vx % 2),
            0x7 => {
                let diff = (vy as u16 + 256 - vx as u16) % 256;
                self.set_v_flag(x, diff as u8, to_u8(vy >= vx));
            },
            0xE => {
                let doubled = (vx as u16 * 2) % 256;
                self.set_v_flag(x, doubled as u8, vx / 128);
            },
            _ => {
                return Err(EmuErr::BadInstruction { pc: self.pc, instruction });
            },
        }
        Ok(())
    }

    /// Whether any key is held down.
    fn any_key_pressed(&self) -> (r: bool)
        requires
            self.wf(),
        ensures
            r == any_key_down(self@),
    {
        let mut k: usize = 0;
        while k < 16
            invariant
                k <= 16,
                self.wf(),
                forall|j: int| 0 <= j < k ==> !self@.keys[j],
            decreases 16 - k,
        {
            if self.pressed_keys[k] {
                assert(self@.keys[k as int]);
                return true;
            }
            k = k + 1;
        }
        false
    }

    /// `Fx55`: stores `V0..=Vx` from I on.
    fn store_registers(&mut self, x: usize) -> (r: Result<(), EmuErr>)
        requires
            old(self).wf(),
            x < 16,
        ensures
            final(self).wf(),
            follows(crate::machine::store_registers(old(self)@, x as int), old(self)@, final(self)@, r),
    {
        proof {
            reveal(crate::machine::store_registers);
            reveal(crate::machine::load_registers);
        }
        match self.check_ireg_offset(x as u16 + 1) {
            Ok(()) => {},
            Err(e) => return Err(e),
        }
        let ghost m0 = self@;
        let start = self.i_reg as usize;
        let mut k: usize = 0;
        while k <= x
            invariant
                self.wf(),
                k <= x + 1,
                x < 16,
                start == m0.i,
                start + x + 1 <= MEM_SIZE,
                self@ == (Machine { memory: self@.memory, ..m0 }),
                self@.memory == crate::machine::write_bytes(m0.memory, start as int, m0.v.subrange(0, k as int)),
            decreases x + 1 - k,
        {
            let val = self.v_reg.get(k);
            self.memory.set(start + k, val);
            assert(self@.memory =~= crate::machine::write_bytes(m0.memory, start as int, m0.v.subrange(0, k + 1)));
            k = k + 1;
        }
        if self.quirks.jumping_quirk {
            self.i_reg = self.i_reg + x as u16 + 1;
        }
        Ok(())
    }

    /// `Fx65`: loads `V0..=Vx` from I on.
    fn load_registers(&mut self, x: usize) -> (r: Result<(), EmuErr>)
        requires
            old(self).wf(),
            x < 16,
        ensures
            final(self).wf(),
            follows(crate::machine::load_registers(old(self)@, x as int), old(self)@, final(self)@, r),
    {
        proof {
            reveal(crate::machine::store_registers);
            reveal(crate::machine::load_registers);
        }
        match self.check_ireg_offset(x as u16 + 1) {
            Ok(()) => {},
            Err(e) => return Err(e),
        }
        let ghost m0 = self@;
        let start = self.i_reg as usize;
        let mut k: usize = 0;
        while k <= x
            invariant
                self.wf(),
                k <= x + 1,
                x < 16,
                start == m0.i,
                start + x + 1 <= MEM_SIZE,
                self@ == (Machine { v: self@.v, ..m0 }),
                self@.v == crate::machine::write_bytes(m0.v, 0, m0.memory.subrange(start as int, start + k)),
            decreases x + 1 - k,
        {
            let val = self.memory.get(start + k);
            self.v_reg.set(k, val);
            assert(self@.v =~= crate::machine::write_bytes(m0.v, 0, m0.memory.subrange(start as int, start + k + 1)));
            k = k + 1;
        }
        if self.quirks.jumping_quirk {
            self.i_reg = self.i_reg + x as u16 + 1;
        }
        Ok(())
    }

    /// Family `0xF`: timers, keys, the index register and memory transfers.
    fn instruction_0xf(&mut self, instruction: Instruction) -> (r: Result<(), EmuErr>)
        requires
            old(self).wf(),
        ensures
            final(self).wf(),
            follows(execute_f(old(self)@, instruction), old(self)@, final(self)@, r),
    {
        proof {
            reveal(execute_f);
        }
        let x = instruction.x();
        let vx = self.v_reg.get(x);
        match instruction.kk() {
            0x07 => self.set_v(x, self.delay_reg),
            0x0A => {
                if !self.any_key_pressed() {
                    self.pc = self.pc.wrapping_sub(2);
                }
            },
            0x15 => self.delay_reg = vx,
            0x18 => self.sound_reg = vx,
            0x1E => {
                match self.check_ireg_offset(vx as u16) {
                    Ok(()) => {},
                    Err(e) => return Err(e),
                }
                self.i_reg = self.i_reg + vx as u16;
            },
            0x29 => self.i_reg = vx as u16 * 5,
            0x30 => self.i_reg = BIG_FONT_START + vx as u16 * 10,
            0x33 => {
                match self.check_ireg_offset(3) {
                    Ok(()) => {},
                    Err(e) => return Err(e),
                }
                let digits = u8_to_bcd_array(vx);
                let start = self.i_reg as usize;
                let ghost mem0 = self@.memory;
                self.memory.set(start, digits[0]);
                self.memory.set(start + 1, digits[1]);
                self.memory.set(start + 2, digits[2]);
                assert(self@.memory =~= crate::machine::write_bytes(mem0, start as int, bcd(vx)));
            },
            0x55 => return self.store_registers(x),
            0x65 => return self.load_registers(x),
            _ => {
                return Err(EmuErr::BadInstruction { pc: self.pc, instruction });
            },
        }
        Ok(())
    }

    /// `Dxyn`: draws the sprite at I at `(Vx, Vy)`; VF becomes the collision flag.
    fn draw(&mut self, instruction: Instruction) -> (r: Result<(), EmuErr>)
        requires
            old(self).wf(),
        ensures
            final(self).wf(),
            follows(execute_draw(old(self)@, instruction), old(self)@, final(self)@, r),
    {
        proof {
            reveal(execute_draw);
        }
        let n = instruction.low_nibble();
        let len: u16 = if self.high_res && n == 0 { 0x20 } else { n as u16 };
        match self.check_ireg_offset(len) {
            Ok(()) => {},
            Err(e) => return Err(e),
        }
        let vx = self.v_reg.get(instruction.x());
        let vy = self.v_reg.get(instruction.y());
        let collided = self.display_buffer.draw_sprite(&self.memory, self.i_reg as usize, n, vx, vy, self.high_res);
        self.v_reg.set(VF, to_u8(collided));
        Ok(())
    }

    /// `00E0`: turns every pixel off.
    fn clear_display(&mut self)
        requires
            old(self).wf(),
        ensures
            final(self).wf(),
            final(self)@ == (Machine { display: blank_grid(), ..old(self)@ }),
    {
        self.display_buffer.clear();
    }

    /// Skips the next instruction.
    fn skip(&mut self)
        requires
            old(self).wf(),
        ensures
            final(self).wf(),
            final(self)@ == crate::machine::skip(old(self)@),
    {
        self.pc = self.pc.wrapping_add(2);
    }

    /// Executes `instruction`, the program counter already past it; `rnd` is the byte
    /// that `Cxkk` constrains. On failure the machine stays as it was.
    pub fn execute_instruction(&mut self, instruction: Instruction, rnd: u8) -> (r: Result<(), EmuErr>)
        requires
            old(self).wf(),
        ensures
            final(self).wf(),
            follows(execute(old(self)@, instruction, rnd), old(self)@, final(self)@, r),
    {
        proof {
            reveal(execute_0);
        }
        let x = instruction.x();
        let kk = instruction.kk();
        let vx = self.v_reg.get(x);
        match instruction.high_nibble() {
            0x0 => {
                if kk == 0xE0 {
                    self.clear_display();
                } else if kk == 0xEE {
                    match self.stack.pop() {
                        Ok(addr) => self.pc = addr,
                        Err(e) => return Err(e),
                    }
                } else if kk == 0xFE {
                    self.high_res = false;
                } else if kk == 0xFF {
                    self.high_res = true;
                } else {
                    return Err(EmuErr::BadInstruction { pc: self.pc, instruction });
                }
            },
            0x1 => self.pc = instruction.nnn(),
            0x2 => {
                match self.stack.push(self.pc) {
                    Ok(()) => {},
                    Err(e) => return Err(e),
                }
                self.pc = instruction.nnn();
            },
            0x3 => {
                if vx == kk {
                    self.skip();
                }
            },
            0x4 => {
                if vx != kk {
                    self.skip();
                }
            },
            0x5 => {
                if vx == self.v_reg.get(instruction.y()) {
                    self.skip();
                }
            },
            0x6 => self.set_v(x, kk),
            0x7 => self.set_v(x, ((vx as u16 + kk as u16) % 256) as u8),
            0x8 => return self.instruction_0x8(instruction),
            0x9 => {
                if vx != self.v_reg.get(instruction.y()) {
                    self.skip();
                }
            },
            0xA => self.i_reg = instruction.nnn(),
            0xB => self.pc = instruction.nnn() + vx as u16,
            0xC => self.set_v(x, ((rnd as u16) % (kk as u16 + 1)) as u8),
            0xD => return self.draw(instruction),
            0xE => {
                let pressed = (vx as usize) < 16 && self.pressed_keys[vx as usize];
                if kk == 0x9E {
                    if pressed {
                        self.skip();
                    }
                } else if kk == 0xA1 {
                    if !pressed {
                        self.skip();
                    }
                } else {
                    return Err(EmuErr::BadInstruction { pc: self.pc, instruction });
                }
            },
            _ => return self.instruction_0xf(instruction),
        }
        Ok(())
    }

    /// Executes `instruction`, the program counter already past it, drawing a random byte
    /// for `Cxkk`. On failure the machine stays as it was.
    pub fn decode_and_execute(&mut self, instruction: Instruction) -> (r: Result<(), EmuErr>)
        requires
            old(self).wf(),
        ensures
            final(self).wf(),
            exists|rnd: u8| #[trigger] follows(execute(old(self)@, instruction, rnd), old(self)@, final(self)@, r),
    {
        let rnd: u8 = if instruction.high_nibble() == 0xC {
            rand::random::<u8>()
        } else {
            0
        };
        self.execute_instruction(instruction, rnd)
    }

    /// Fetches the opcode at the program counter, advances the counter by 2 and executes
    /// the opcode. A failed instruction leaves the machine as it was after the advance.
    pub fn execute_next(&mut self) -> (r: Result<(), EmuErr>)
        requires
            old(self).wf(),
        ensures
            final(self).wf(),
            exists|rnd: u8| #[trigger] step(old(self)@, rnd) == (final(self)@, r),
    {
        if self.pc as usize >= MEM_SIZE - 1 {
            assert(step(self@, 0) == (self@, Err::<(), EmuErr>(EmuErr::PcOutOfBounds { pc: self.pc })));
            return Err(EmuErr::PcOutOfBounds { pc: self.pc });
        }
        let high = self.memory.get(self.pc as usize) as u16;
        let low = self.memory.get(self.pc as usize + 1) as u16;
        let instruction = Instruction::new(high * 256 + low);
        assert(instruction == Instruction::from_op(fetch(self@)));
        self.pc = self.pc + 2;
        let ghost advanced = self@;
        assert(advanced == (Machine { pc: (old(self)@.pc + 2) as u16, ..old(self)@ }));
        let r = self.decode_and_execute(instruction);
        assert(exists|rnd: u8| #[trigger] step(old(self)@, rnd) == (self@, r)) by {
            let rnd = choose|rnd: u8| #[trigger] follows(execute(advanced, instruction, rnd), advanced, self@, r);
            assert(step(old(self)@, rnd) == (self@, r));
        }
        r
    }

    /// The display columns; column `x` holds the pixels of rows `0..DISPLAY_HEIGHT`.
    pub fn get_display_buffer(&self) -> (r: &[BitVec])
        requires
            self.wf(),
        ensures
            r@.len() == DISPLAY_WIDTH,
            forall|x: int| 0 <= x < DISPLAY_WIDTH ==> bits_of(#[trigger] r@[x]) == self@.display[x],
    {
        self.display_buffer.columns()
    }

    /// The pixel in column `x`, row `y`.
    pub fn pixel(&self, x: usize, y: usize) -> (r: bool)
        requires
            self.wf(),
            x < DISPLAY_WIDTH,
            y < DISPLAY_HEIGHT,
        ensures
            r == self@.display[x as int][y as int],
    {
        self.display_buffer.pixel(x, y)
    }

    /// Marks key `key` as held down.
    pub fn set_key(&mut self, key: usize)
        requires
            old(self).wf(),
            key < 16,
        ensures
            final(self).wf(),
            final(self)@ == (Machine { keys: old(self)@.keys.update(key as int, true), ..old(self)@ }),
    {
        self.pressed_keys[key] = true;
    }

    /// Marks key `key` as released.
    pub fn unset_key(&mut self, key: usize)
        requires
            old(self).wf(),
            key < 16,
        ensures
            final(self).wf(),
            final(self)@ == (Machine { keys: old(self)@.keys.update(key as int, false), ..old(self)@ }),
    {
        self.pressed_keys[key] = false;
    }

    /// One tick of the timers: the delay and sound timers each drop by 1, stopping at 0.
    pub fn dec_delay_reg(&mut self)
        requires
            old(self).wf(),
        ensures
            final(self).wf(),
            final(self)@ == (Machine {
                delay: if old(self)@.delay > 0 { (old(self)@.delay - 1) as u8 } else { 0 },
                sound: if old(self)@.sound > 0 { (old(self)@.sound - 1) as u8 } else { 0 },
                ..old(self)@
            }),
    {
        if self.delay_reg > 0 {
            self.delay_reg = self.delay_reg - 1;
        }
        if self.sound_reg > 0 {
            self.sound_reg = self.sound_reg - 1;
        }
    }

    /// Whether the 128 by 64 mode is active (else only 64 by 32 pixels are drawn on).
    pub fn is_high_res(&self) -> (r: bool)
        ensures
            r == self@.high_res,
    {
        self.high_res
    }

    /// The value of register `x`.
    pub fn v_reg(&self, x: usize) -> (r: u8)
        requires
            self.wf(),
            x < 16,
        ensures
            r == self@.v[x as int],
    {
        self.v_reg.get(x)
    }

    /// The index register.
    pub fn i_reg(&self) -> (r: u16)
        ensures
            r == self@.i,
    {
        self.i_reg
    }

    /// The program counter.
    pub fn pc(&self) -> (r: u16)
        ensures
            r == self@.pc,
    {
        self.pc
    }

    /// The delay timer.
    pub fn delay_reg(&self) -> (r: u8)
        ensures
            r == self@.delay,
    {
        self.delay_reg
    }

    /// The sound timer.
    pub fn sound_reg(&self) -> (r: u8)
        ensures
            r == self@.sound,
    {
        self.sound_reg
    }

    /// The byte at address `addr`.
    pub fn memory_at(&self, addr: usize) -> (r: u8)
        requires
            self.wf(),
            addr < MEM_SIZE,
        ensures
            r == self@.memory[addr as int],
    {
        self.memory.get(addr)
    }

    /// The number of return addresses on the call stack.
    pub fn stack_depth(&self) -> (r: usize)
        requires
            self.wf(),
        ensures
            r == self@.stack.len(),
    {
        self.stack.depth()
    }
}

} // verus!
