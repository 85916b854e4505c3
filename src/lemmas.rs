use vstd::prelude::*;
use crate::emu_err::EmuErr;
use crate::framebuffer::{collides, sprite_at, xor_drawn, DISPLAY_HEIGHT, DISPLAY_WIDTH};
use crate::instruction::{lemma_fields_bounded, high_nibble_of, kk_of, low_nibble_of, x_of, y_of, Instruction};
use crate::machine::{execute_0, execute_draw, execute_f, load_registers, store_registers, set_v, any_key_down, execute, fetch, flag, step, Machine, VF};

verus! {

/// Two `7xkk` instructions on one register, with immediates `a` then `b`, give what one
/// with immediate `(a + b) % 256` gives: the register becomes `(Vx + a + b) % 256`, and
/// VF is left alone unless it is the register added to.
pub proof fn lemma_add_immediate_twice(m: Machine, first: Instruction, second: Instruction, sum: Instruction, rnd: u8)
    requires
        m.wf(),
        high_nibble_of(first@) == 7,
        high_nibble_of(second@) == 7,
        high_nibble_of(sum@) == 7,
        x_of(second@) == x_of(first@),
        x_of(sum@) == x_of(first@),
        kk_of(sum@) == (kk_of(first@) + kk_of(second@)) % 256,
    ensures
        execute(m, first, rnd) is Ok,
        execute(execute(m, first, rnd)->Ok_0, second, rnd) == execute(m, sum, rnd),
        execute(m, sum, rnd) is Ok,
        execute(m, sum, rnd)->Ok_0.v[x_of(first@) as int]
            == (m.v[x_of(first@) as int] + kk_of(first@) + kk_of(second@)) % 256,
        x_of(first@) != VF ==> execute(m, sum, rnd)->Ok_0.v[VF as int] == m.v[VF as int],
{
    lemma_fields_bounded(first@);
    let x = x_of(first@) as int;
    lemma_execute_add_immediate(m, first, rnd);
    let m1 = execute(m, first, rnd)->Ok_0;
    lemma_execute_add_immediate(m1, second, rnd);
    lemma_execute_add_immediate(m, sum, rnd);
    let c = m.v[x] as int;
    let a = kk_of(first@) as int;
    let b = kk_of(second@) as int;
    assert(m1.v[x] == (c + a) % 256);
    lemma_byte_sum(c, a, b);
    assert(execute(m1, second, rnd)->Ok_0.v =~= execute(m, sum, rnd)->Ok_0.v);
}

/// Adding two bytes in turn modulo 256 adds their sum modulo 256.
proof fn lemma_byte_sum(c: int, a: int, b: int)
    requires
        0 <= c < 256,
        0 <= a < 256,
        0 <= b < 256,
    ensures
        ((c + a) % 256 + b) % 256 == (c + (a + b) % 256) % 256,
        (c + (a + b) % 256) % 256 == (c + a + b) % 256,
{
    assert(((c + a) % 256 + b) % 256 == (c + a + b) % 256) by {
        if c + a >= 256 {
            assert((c + a) % 256 == c + a - 256);
        }
    }
    assert((c + (a + b) % 256) % 256 == (c + a + b) % 256) by {
        if a + b >= 256 {
            assert((a + b) % 256 == a + b - 256);
        }
    }
}

/// What one `7xkk` does.
proof fn lemma_execute_add_immediate(m: Machine, ins: Instruction, rnd: u8)
    requires
        high_nibble_of(ins@) == 7,
    ensures
        execute(m, ins, rnd) == Ok::<Machine, EmuErr>(set_v(m, x_of(ins@) as int, ((m.v[x_of(ins@) as int] + kk_of(ins@)) % 256) as u8)),
{
}

/// Drawing one sprite twice at one origin (neither coordinate register being VF) gives
/// back the display as it was: every pixel the first draw turned on is off again. The
/// second draw's VF is 1 exactly when some set bit of the sprite landed on a pixel that
/// was off before the first draw, so with no overlap with other content it is 0 only for
/// a sprite without set bits.
pub proof fn lemma_draw_twice(m: Machine, ins: Instruction, rnd: u8)
    requires
        m.wf(),
        high_nibble_of(ins@) == 0xD,
        x_of(ins@) != VF,
        y_of(ins@) != VF,
        execute(m, ins, rnd) is Ok,
    ensures
        execute(execute(m, ins, rnd)->Ok_0, ins, rnd) is Ok,
        execute(execute(m, ins, rnd)->Ok_0, ins, rnd)->Ok_0.display == m.display,
        ({
            let s = sprite_at(m.memory, m.i as int, low_nibble_of(ins@) as int, m.v[x_of(ins@) as int] as int,
                m.v[y_of(ins@) as int] as int, m.high_res);
            execute(execute(m, ins, rnd)->Ok_0, ins, rnd)->Ok_0.v[VF as int] == flag(
                exists|x: int, y: int|
                    0 <= x < DISPLAY_WIDTH && 0 <= y < DISPLAY_HEIGHT && #[trigger] s.hit(x, y) && !m.display[x][y],
            )
        }),
{
    lemma_fields_bounded(ins@);
    reveal(execute_draw);
    let s = sprite_at(m.memory, m.i as int, low_nibble_of(ins@) as int, m.v[x_of(ins@) as int] as int,
        m.v[y_of(ins@) as int] as int, m.high_res);
    let m1 = execute(m, ins, rnd)->Ok_0;
    let m2 = execute(m1, ins, rnd)->Ok_0;
    assert(m1.display == xor_drawn(m.display, s));
    assert(m2.display == xor_drawn(m1.display, s));
    assert(m2.display =~~= m.display) by {
        assert forall|x: int| 0 <= x < m.display.len() implies #[trigger] m2.display[x] =~= m.display[x] by {
        }
    }
    let off = exists|x: int, y: int|
        0 <= x < DISPLAY_WIDTH && 0 <= y < DISPLAY_HEIGHT && #[trigger] s.hit(x, y) && !m.display[x][y];
    assert(collides(m1.display, s) == off) by {
        if off {
            let (x, y) = choose|x: int, y: int|
                0 <= x < DISPLAY_WIDTH && 0 <= y < DISPLAY_HEIGHT && #[trigger] s.hit(x, y) && !m.display[x][y];
            assert(m1.display[x][y]);
        }
        if collides(m1.display, s) {
            let (x, y) = choose|x: int, y: int|
                0 <= x < DISPLAY_WIDTH && 0 <= y < DISPLAY_HEIGHT && #[trigger] s.hit(x, y) && m1.display[x][y];
            assert(!m.display[x][y]);
        }
    }
}

/// `Fx55` then `Fx65` with one `x` and one I give the registers `V0..=Vx` back unchanged.
/// With the jumping quirk `Fx55` leaves I at `I + x + 1`, so I is set back before `Fx65`;
/// without it I is unchanged and the two run back to back.
pub proof fn lemma_store_then_load(m: Machine, store: Instruction, load: Instruction, rnd: u8)
    requires
        m.wf(),
        high_nibble_of(store@) == 0xF,
        kk_of(store@) == 0x55,
        high_nibble_of(load@) == 0xF,
        kk_of(load@) == 0x65,
        x_of(load@) == x_of(store@),
        m.i + x_of(store@) + 1 <= 0x1000,
    ensures
        execute(m, store, rnd) is Ok,
        execute(m, store, rnd)->Ok_0.i == if m.quirks.jumping_quirk { m.i + x_of(store@) + 1 } else { m.i as int },
        execute((Machine { i: m.i, ..execute(m, store, rnd)->Ok_0 }), load, rnd) is Ok,
        execute((Machine { i: m.i, ..execute(m, store, rnd)->Ok_0 }), load, rnd)->Ok_0.v == m.v,
        !m.quirks.jumping_quirk ==> execute(execute(m, store, rnd)->Ok_0, load, rnd) is Ok
            && execute(execute(m, store, rnd)->Ok_0, load, rnd)->Ok_0.v == m.v
            && execute(execute(m, store, rnd)->Ok_0, load, rnd)->Ok_0.i == m.i,
{
    lemma_fields_bounded(store@);
    reveal(execute_f);
    reveal(store_registers);
    reveal(load_registers);
    let x = x_of(store@) as int;
    let m1 = execute(m, store, rnd)->Ok_0;
    let back = Machine { i: m.i, ..m1 };
    assert(!m.quirks.jumping_quirk ==> back == m1);
    let m2 = execute(back, load, rnd)->Ok_0;
    assert(m2.v =~= m.v) by {
        assert forall|k: int| 0 <= k < 16 implies #[trigger] m2.v[k] == m.v[k] by {
            if k <= x {
                assert(m1.memory[m.i + k] == m.v[k]);
            }
        }
    }
}

/// `00EE` on an empty stack fails with a stack underflow, and the program counter stays
/// where the fetch advanced it.
pub proof fn lemma_return_on_empty_stack(m: Machine, rnd: u8)
    requires
        m.wf(),
        m.pc + 1 < 0x1000,
        fetch(m) == 0x00EE,
        m.stack.len() == 0,
    ensures
        step(m, rnd) == ((Machine { pc: (m.pc + 2) as u16, ..m }), Err::<(), EmuErr>(EmuErr::StackUnderflow { sp: 0 })),
{
    reveal(execute_0);
    reveal_op(0x00EE);
}

/// `Fx0A` with no key held down leaves the program counter where it was before the step
/// (advanced by 2, then set back by 2), and changes nothing else; with a key held down it
/// moves on.
pub proof fn lemma_wait_for_key(m: Machine, rnd: u8)
    requires
        m.wf(),
        m.pc + 1 < 0x1000,
        high_nibble_of(fetch(m)) == 0xF,
        kk_of(fetch(m)) == 0x0A,
    ensures
        !any_key_down(m) ==> step(m, rnd) == (m, Ok::<(), EmuErr>(())),
        any_key_down(m) ==> step(m, rnd) == ((Machine { pc: (m.pc + 2) as u16, ..m }), Ok::<(), EmuErr>(())),
{
    reveal(execute_f);
    Instruction::lemma_from_op_view(fetch(m));
}

/// The fields of opcode word `0x00EE`.
proof fn reveal_op(op: u16)
    requires
        op == 0x00EE,
    ensures
        (Instruction::from_op(op))@ == op,
        high_nibble_of(op) == 0,
        kk_of(op) == 0xEE,
{
    Instruction::lemma_from_op_view(op);
    assert(((op >> 12u16) & 0xF) == 0 && (op & 0xFF) == 0xEE) by (bit_vector)
        requires op == 0x00EE;
}

} // verus!
