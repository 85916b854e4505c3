use vstd::prelude::*;
use crate::emu_err::EmuErr;
use crate::framebuffer::{blank_grid, collides, grid_wf, sprite_at, sprite_len, xor_drawn};
use crate::instruction::{high_nibble_of, kk_of, low_nibble_of, nnn_of, x_of, y_of, Instruction};
use crate::memory::{BIG_FONT_START, MEM_SIZE};
use crate::stack::STACK_LENGTH;

verus! {

/// Index of the flag register VF.
pub const VF: usize = 0xF;

/// Behaviours on which historical interpreters disagree, fixed when a machine is built.
#[derive(Clone, Copy, Debug, PartialEq, Eq, Structural)]
pub struct Quirks {
    /// `8xy1`, `8xy2` and `8xy3` set VF to 0.
    pub vf_reset_quirk: bool,
    /// `Fx55` and `Fx65` leave I just past the bytes they moved.
    pub jumping_quirk: bool,
}

/// The abstract state of a machine.
pub struct Machine {
    pub quirks: Quirks,
    /// The address space, `MEM_SIZE` bytes.
    pub memory: Seq<u8>,
    /// Return addresses, oldest first.
    pub stack: Seq<u16>,
    /// Registers `V0..VF`.
    pub v: Seq<u8>,
    /// The index register.
    pub i: u16,
    pub delay: u8,
    pub sound: u8,
    pub pc: u16,
    /// Which of the 16 keys are held down.
    pub keys: Seq<bool>,
    /// Column `x`, row `y` is `display[x][y]`.
    pub display: Seq<Seq<bool>>,
    pub high_res: bool,
}

impl Machine {
    pub open spec fn wf(self) -> bool {
        &&& self.memory.len() == MEM_SIZE
        &&& self.stack.len() <= STACK_LENGTH
        &&& self.v.len() == 16
        &&& self.keys.len() == 16
        &&& grid_wf(self.display)
    }
}

/// 1 for true, 0 for false.
pub open spec fn flag(b: bool) -> u8 {
    if b { 1 } else { 0 }
}

/// Whether key number `k` exists and is held down.
pub open spec fn key_down(m: Machine, k: int) -> bool {
    0 <= k < 16 && m.keys[k]
}

/// Whether any key is held down.
pub open spec fn any_key_down(m: Machine) -> bool {
    exists|k: int| 0 <= k < 16 && #[trigger] m.keys[k]
}

/// `m` with the next instruction skipped.
pub open spec fn skip(m: Machine) -> Machine {
    Machine { pc: ((m.pc + 2) % 0x10000) as u16, ..m }
}

/// `m` with register `x` set to `val`.
pub open spec fn set_v(m: Machine, x: int, val: u8) -> Machine {
    Machine { v: m.v.update(x, val), ..m }
}

/// `m` with register `x` set to `val` and then VF to `f`.
pub open spec fn set_v_flag(m: Machine, x: int, val: u8, f: u8) -> Machine {
    Machine { v: m.v.update(x, val).update(VF as int, f), ..m }
}

/// The failure for an opcode that matches no rule.
pub open spec fn bad_instruction(m: Machine, ins: Instruction) -> Result<Machine, EmuErr> {
    Err(EmuErr::BadInstruction { pc: m.pc, instruction: ins })
}

/// The failure for a memory access of `offset` bytes from I that leaves memory.
pub open spec fn ireg_overflow(m: Machine, offset: int) -> Result<Machine, EmuErr> {
    Err(EmuErr::IregOverflow { ireg: m.i, offset: offset as u16 })
}

/// Whether `offset` bytes from I stay inside memory.
pub open spec fn ireg_fits(m: Machine, offset: int) -> bool {
    m.i + offset <= MEM_SIZE
}

/// The three decimal digits of `b`, hundreds first.
pub open spec fn bcd(b: u8) -> Seq<u8> {
    seq![b / 100, (b / 10) % 10, b % 10]
}

/// `mem` with `bytes` written from address `at` on.
pub open spec fn write_bytes(mem: Seq<u8>, at: int, bytes: Seq<u8>) -> Seq<u8> {
    Seq::new(mem.len(), |a: int| if at <= a < at + bytes.len() { bytes[a - at] } else { mem[a] })
}

/// Family `0x0`: screen, return and resolution, chosen by `kk`.
#[verifier::opaque]
pub open spec fn execute_0(m: Machine, ins: Instruction) -> Result<Machine, EmuErr> {
    let kk = kk_of(ins@);
    if kk == 0xE0 {
        Ok(Machine { display: blank_grid(), ..m })
    } else if kk == 0xEE {
        if m.stack.len() == 0 {
            Err(EmuErr::StackUnderflow { sp: 0 })
        } else {
            Ok(Machine { pc: m.stack.last(), stack: m.stack.drop_last(), ..m })
        }
    } else if kk == 0xFE {
        Ok(Machine { high_res: false, ..m })
    } else if kk == 0xFF {
        Ok(Machine { high_res: true, ..m })
    } else {
        bad_instruction(m, ins)
    }
}

/// Family `0x8`: register arithmetic and logic, chosen by the low nibble.
#[verifier::opaque]
pub open spec fn execute_8(m: Machine, ins: Instruction) -> Result<Machine, EmuErr> {
    let x = x_of(ins@) as int;
    let vx = m.v[x];
    let vy = m.v[y_of(ins@) as int];
    let reset = m.quirks.vf_reset_quirk;
    let n = low_nibble_of(ins@);
    if n == 0x0 {
        Ok(set_v(m, x, vy))
    } else if n == 0x1 {
        Ok(if reset { set_v_flag(m, x, vx | vy, 0) } else { set_v(m, x, vx | vy) })
    } else if n == 0x2 {
        Ok(if reset { set_v_flag(m, x, vx & vy, 0) } else { set_v(m, x, vx & vy) })
    } else if n == 0x3 {
        Ok(if reset { set_v_flag(m, x, vx ^ vy, 0) } else { set_v(m, x, vx ^ vy) })
    } else if n == 0x4 {
        Ok(set_v_flag(m, x, ((vx + vy) % 256) as u8, flag(vx + vy > 255)))
    } else if n == 0x5 {
        Ok(set_v_flag(m, x, ((vx - vy + 256) % 256) as u8, flag(vx >= vy)))
    } else if n == 0x6 {
        Ok(set_v_flag(m, x, vx / 2, vx % 2))
    } else if n == 0x7 {
        Ok(set_v_flag(m, x, ((vy - vx + 256) % 256) as u8, flag(vy >= vx)))
    } else if n == 0xE {
        Ok(set_v_flag(m, x, ((vx * 2) % 256) as u8, vx / 128))
    } else {
        bad_instruction(m, ins)
    }
}

/// `Fx55`: registers `V0..=Vx` stored from I on.
#[verifier::opaque]
pub open spec fn store_registers(m: Machine, x: int) -> Result<Machine, EmuErr> {
    if !ireg_fits(m, x + 1) {
        ireg_overflow(m, x + 1)
    } else {
        Ok(Machine {
            memory: write_bytes(m.memory, m.i as int, m.v.subrange(0, x + 1)),
            i: if m.quirks.jumping_quirk { (m.i + x + 1) as u16 } else { m.i },
            ..m
        })
    }
}

/// `Fx65`: registers `V0..=Vx` loaded from I on.
#[verifier::opaque]
pub open spec fn load_registers(m: Machine, x: int) -> Result<Machine, EmuErr> {
    if !ireg_fits(m, x + 1) {
        ireg_overflow(m, x + 1)
    } else {
        Ok(Machine {
            v: write_bytes(m.v, 0, m.memory.subrange(m.i as int, m.i + x + 1)),
            i: if m.quirks.jumping_quirk { (m.i + x + 1) as u16 } else { m.i },
            ..m
        })
    }
}

/// Family `0xF`: timers, keys, the index register and memory transfers, chosen by `kk`.
#[verifier::opaque]
pub open spec fn execute_f(m: Machine, ins: Instruction) -> Result<Machine, EmuErr> {
    let x = x_of(ins@) as int;
    let vx = m.v[x];
    let kk = kk_of(ins@);
    if kk == 0x07 {
        Ok(set_v(m, x, m.delay))
    } else if kk == 0x0A {
        Ok(if any_key_down(m) { m } else { Machine { pc: ((m.pc + 0x10000 - 2) % 0x10000) as u16, ..m } })
    } else if kk == 0x15 {
        Ok(Machine { delay: vx, ..m })
    } else if kk == 0x18 {
        Ok(Machine { sound: vx, ..m })
    } else if kk == 0x1E {
        if ireg_fits(m, vx as int) {
            Ok(Machine { i: (m.i + vx) as u16, ..m })
        } else {
            ireg_overflow(m, vx as int)
        }
    } else if kk == 0x29 {
        Ok(Machine { i: (vx * 5) as u16, ..m })
    } else if kk == 0x30 {
        Ok(Machine { i: (BIG_FONT_START + vx * 10) as u16, ..m })
    } else if kk == 0x33 {
        if ireg_fits(m, 3) {
            Ok(Machine { memory: write_bytes(m.memory, m.i as int, bcd(vx)), ..m })
        } else {
            ireg_overflow(m, 3)
        }
    } else if kk == 0x55 {
        store_registers(m, x)
    } else if kk == 0x65 {
        load_registers(m, x)
    } else {
        bad_instruction(m, ins)
    }
}

/// `Dxyn`: the sprite at I XOR-ed onto the display at `(Vx, Vy)`, VF the collision flag.
#[verifier::opaque]
pub open spec fn execute_draw(m: Machine, ins: Instruction) -> Result<Machine, EmuErr> {
    let n = low_nibble_of(ins@) as int;
    let len = sprite_len(n, m.high_res);
    if !ireg_fits(m, len) {
        ireg_overflow(m, len)
    } else {
        let s = sprite_at(m.memory, m.i as int, n, m.v[x_of(ins@) as int] as int, m.v[y_of(ins@) as int] as int, m.high_res);
        Ok(Machine {
            display: xor_drawn(m.display, s),
            v: m.v.update(VF as int, flag(collides(m.display, s))),
            ..m
        })
    }
}

/// What executing `ins` does to `m`, the program counter already past it; `rnd` is the
/// random byte that `Cxkk` draws. On failure the machine stays as it was.
pub open spec fn execute(m: Machine, ins: Instruction, rnd: u8) -> Result<Machine, EmuErr> {
    let op = ins@;
    let x = x_of(op) as int;
    let vx = m.v[x];
    let vy = m.v[y_of(op) as int];
    let kk = kk_of(op);
    let nnn = nnn_of(op);
    let h = high_nibble_of(op);
    if h == 0x0 {
        execute_0(m, ins)
    } else if h == 0x1 {
        Ok(Machine { pc: nnn, ..m })
    } else if h == 0x2 {
        if m.stack.len() >= STACK_LENGTH {
            Err(EmuErr::StackOverflow { sp: STACK_LENGTH })
        } else {
            Ok(Machine { stack: m.stack.push(m.pc), pc: nnn, ..m })
        }
    } else if h == 0x3 {
        Ok(if vx == kk { skip(m) } else { m })
    } else if h == 0x4 {
        Ok(if vx != kk { skip(m) } else { m })
    } else if h == 0x5 {
        Ok(if vx == vy { skip(m) } else { m })
    } else if h == 0x6 {
        Ok(set_v(m, x, kk))
    } else if h == 0x7 {
        Ok(set_v(m, x, ((vx + kk) % 256) as u8))
    } else if h == 0x8 {
        execute_8(m, ins)
    } else if h == 0x9 {
        Ok(if vx != vy { skip(m) } else { m })
    } else if h == 0xA {
        Ok(Machine { i: nnn, ..m })
    } else if h == 0xB {
        Ok(Machine { pc: (nnn + vx) as u16, ..m })
    } else if h == 0xC {
        Ok(set_v(m, x, (rnd as int % (kk + 1)) as u8))
    } else if h == 0xD {
        execute_draw(m, ins)
    } else if h == 0xE {
        if kk == 0x9E {
            Ok(if key_down(m, vx as int) { skip(m) } else { m })
        } else if kk == 0xA1 {
            Ok(if !key_down(m, vx as int) { skip(m) } else { m })
        } else {
            bad_instruction(m, ins)
        }
    } else {
        execute_f(m, ins)
    }
}

/// The opcode word at the program counter, big-endian.
pub open spec fn fetch(m: Machine) -> u16 {
    (m.memory[m.pc as int] * 256 + m.memory[m.pc + 1]) as u16
}

/// One step: fetch at the program counter, advance it by 2, execute. The machine and the
/// outcome; a failed instruction leaves the machine as it was after the advance.
pub open spec fn step(m: Machine, rnd: u8) -> (Machine, Result<(), EmuErr>) {
    if m.pc + 1 >= MEM_SIZE {
        (m, Err(EmuErr::PcOutOfBounds { pc: m.pc }))
    } else {
        let advanced = Machine { pc: (m.pc + 2) as u16, ..m };
        match execute(advanced, Instruction::from_op(fetch(m)), rnd) {
            Ok(next) => (next, Ok(())),
            Err(e) => (advanced, Err(e)),
        }
    }
}

} // verus!
