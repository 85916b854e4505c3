use vstd::prelude::*;
use bit_vec::BitVec;
use crate::memory::{Memory, MEM_SIZE};

verus! {

/// Width of the pixel grid in high-resolution mode.
pub const DISPLAY_WIDTH: usize = 0x80;
/// Height of the pixel grid in high-resolution mode.
pub const DISPLAY_HEIGHT: usize = 0x40;

#[verifier::external_type_specification]
#[verifier::external_body]
#[verifier::reject_recursive_types(B)]
pub struct ExBitVec<B>(BitVec<B>);

/// The bits a `BitVec` holds, first to last.
pub uninterp spec fn bits_of(v: BitVec) -> Seq<bool>;

/// Relies on `BitVec::from_elem`: `nbits` bits, each equal to `bit`.
#[verifier::external_body]
fn bits_from_elem(nbits: usize, bit: bool) -> (r: BitVec)
    ensures
        bits_of(r) == Seq::new(nbits as nat, |_i: int| bit),
{
    BitVec::from_elem(nbits, bit)
}

/// Relies on `BitVec::get`: the bit at `i`, or `None` past the end.
#[verifier::external_body]
fn bit_get(v: &BitVec, i: usize) -> (r: Option<bool>)
    ensures
        i < bits_of(*v).len() ==> r == Some(bits_of(*v)[i as int]),
        i >= bits_of(*v).len() ==> r is None,
{
    v.get(i)
}

/// Relies on `BitVec::set`: bit `i` becomes `x`, the others stay (it panics past the end).
#[verifier::external_body]
fn bit_set(v: &mut BitVec, i: usize, x: bool)
    requires
        i < bits_of(*old(v)).len(),
    ensures
        bits_of(*final(v)) == bits_of(*old(v)).update(i as int, x),
{
    v.set(i, x)
}

/// Relies on `BitVec::clear`: every bit becomes false, the length stays.
#[verifier::external_body]
fn bit_clear(v: &mut BitVec)
    ensures
        bits_of(*final(v)) == Seq::new(bits_of(*old(v)).len(), |_i: int| false),
{
    v.clear()
}


/// Bit `j` of a sprite row byte, `j == 0` being the leftmost (most significant) bit.
pub open spec fn row_bit(byte: u8, j: int) -> bool {
    (byte >> ((7 - j) as u8)) & 1u8 == 1u8
}

/// How far `p` lies past `o` going forward on a ring of `n` places (both on the ring).
pub open spec fn ring_dist(p: int, o: int, n: int) -> int {
    if p >= o {
        p - o
    } else {
        p + n - o
    }
}

/// A sprite placed on the grid: its bytes, its shape and its origin.
pub struct Sprite {
    /// The bytes read from memory: one per row, or two per row for a big sprite.
    pub bytes: Seq<u8>,
    /// A 16 by 16 sprite rather than one 8 pixels wide.
    pub big: bool,
    pub rows: int,
    /// The origin as given, before it is wrapped.
    pub ox: int,
    pub oy: int,
    /// The active resolution decides the wrap.
    pub high_res: bool,
}

impl Sprite {
    pub open spec fn cols(self) -> int {
        if self.big { 16 } else { 8 }
    }

    /// Width of the active display.
    pub open spec fn width(self) -> int {
        if self.high_res { DISPLAY_WIDTH as int } else { DISPLAY_WIDTH as int / 2 }
    }

    /// Height of the active display.
    pub open spec fn height(self) -> int {
        if self.high_res { DISPLAY_HEIGHT as int } else { DISPLAY_HEIGHT as int / 2 }
    }

    /// Whether the sprite's pixel at row `r`, column `c` is set.
    pub open spec fn bit(self, r: int, c: int) -> bool {
        if self.big {
            row_bit(self.bytes[2 * r + c / 8], c % 8)
        } else {
            row_bit(self.bytes[r], c)
        }
    }

    /// The sprite column that lands on display column `x`.
    pub open spec fn col_at(self, x: int) -> int {
        ring_dist(x, self.ox % self.width(), self.width())
    }

    /// The sprite row that lands on display row `y`.
    pub open spec fn row_at(self, y: int) -> int {
        ring_dist(y, self.oy % self.height(), self.height())
    }

    /// Whether a set sprite bit lands on pixel `(x, y)`: the bit at row `r`, column `c`
    /// lands on `((ox + c) % width, (oy + r) % height)`.
    pub open spec fn hit(self, x: int, y: int) -> bool {
        &&& 0 <= x < self.width()
        &&& 0 <= y < self.height()
        &&& self.col_at(x) < self.cols()
        &&& self.row_at(y) < self.rows
        &&& self.bit(self.row_at(y), self.col_at(x))
    }

    /// Like `hit`, for the bits before row `r0`, column `c0` only.
    pub open spec fn hit_before(self, r0: int, c0: int, x: int, y: int) -> bool {
        &&& self.hit(x, y)
        &&& (self.row_at(y) < r0 || (self.row_at(y) == r0 && self.col_at(x) < c0))
    }
}

/// The sprite that instruction `Dxyn` draws from `mem` at `start`, origin `(ox, oy)`:
/// with `n == 0` in high resolution a 16 by 16 one of 32 bytes, else `n` rows of 8.
pub open spec fn sprite_at(mem: Seq<u8>, start: int, n: int, ox: int, oy: int, high_res: bool) -> Sprite {
    let big = high_res && n == 0;
    Sprite {
        bytes: mem.subrange(start, start + sprite_len(n, high_res)),
        big,
        rows: if big { 16 } else { n },
        ox,
        oy,
        high_res,
    }
}

/// The number of bytes a sprite of height `n` reads.
pub open spec fn sprite_len(n: int, high_res: bool) -> int {
    if high_res && n == 0 { 32 } else { n }
}

/// The grid after XOR-ing the sprite's set bits onto `g`.
pub open spec fn xor_drawn(g: Seq<Seq<bool>>, s: Sprite) -> Seq<Seq<bool>> {
    Seq::new(g.len(), |x: int| Seq::new(g[x].len(), |y: int| g[x][y] != s.hit(x, y)))
}

/// Whether a set bit of the sprite lands on a pixel that is on in `g`.
pub open spec fn collides(g: Seq<Seq<bool>>, s: Sprite) -> bool {
    exists|x: int, y: int|
        0 <= x < DISPLAY_WIDTH && 0 <= y < DISPLAY_HEIGHT && #[trigger] s.hit(x, y) && g[x][y]
}

/// Whether a set bit of the sprite before row `r0`, column `c0` lands on a pixel on in `g`.
pub open spec fn collides_before(g: Seq<Seq<bool>>, s: Sprite, r0: int, c0: int) -> bool {
    exists|x: int, y: int|
        0 <= x < DISPLAY_WIDTH && 0 <= y < DISPLAY_HEIGHT && #[trigger] s.hit_before(r0, c0, x, y) && g[x][y]
}

/// Bit `j` of a sprite row byte.
fn byte_bit(byte: u8, j: u8) -> (r: bool)
    requires
        j < 8,
    ensures
        r == row_bit(byte, j as int),
{
    (byte >> (7 - j)) & 1u8 == 1u8
}

/// The pixel grid, as `DISPLAY_WIDTH` columns of `DISPLAY_HEIGHT` pixels each. In
/// low-resolution mode only the top-left quarter is drawn on.
pub struct Framebuffer {
    columns: Vec<BitVec>,
}

/// A blank grid: every pixel of every column off.
pub open spec fn blank_grid() -> Seq<Seq<bool>> {
    Seq::new(DISPLAY_WIDTH as nat, |_x: int| Seq::new(DISPLAY_HEIGHT as nat, |_y: int| false))
}

/// A grid of the full dimensions.
pub open spec fn grid_wf(g: Seq<Seq<bool>>) -> bool {
    &&& g.len() == DISPLAY_WIDTH
    &&& forall|x: int| 0 <= x < DISPLAY_WIDTH ==> #[trigger] g[x].len() == DISPLAY_HEIGHT
}

impl View for Framebuffer {
    type V = Seq<Seq<bool>>;

    /// Column `x`, row `y` is `self@[x][y]`.
    closed spec fn view(&self) -> Seq<Seq<bool>> {
        Seq::new(self.columns@.len(), |x: int| bits_of(self.columns@[x]))
    }
}

impl Framebuffer {
    pub open spec fn wf(&self) -> bool {
        grid_wf(self@)
    }

    pub fn new() -> (r: Self)
        ensures
            r.wf(),
            r@ == blank_grid(),
    {
        let mut columns: Vec<BitVec> = Vec::new();
        let mut x: usize = 0;
        while x < DISPLAY_WIDTH
            invariant
                x <= DISPLAY_WIDTH,
                columns@.len() == x,
                forall|k: int| 0 <= k < x ==> bits_of(#[trigger] columns@[k]) == Seq::new(
                    DISPLAY_HEIGHT as nat,
                    |_y: int| false,
                ),
            decreases DISPLAY_WIDTH - x,
        {
            columns.push(bits_from_elem(DISPLAY_HEIGHT, false));
            x = x + 1;
        }
        let r = Framebuffer { columns };
        assert(r@ =~= blank_grid());
        r
    }

    /// Turns every pixel off.
    pub fn clear(&mut self)
        requires
            old(self).wf(),
        ensures
            final(self).wf(),
            final(self)@ == blank_grid(),
    {
        let ghost start = self@;
        let mut x: usize = 0;
        while x < self.columns.len()
            invariant
                self.columns@.len() == DISPLAY_WIDTH,
                x <= DISPLAY_WIDTH,
                forall|k: int| 0 <= k < x ==> bits_of(#[trigger] self.columns@[k]) == Seq::new(
                    DISPLAY_HEIGHT as nat,
                    |_y: int| false,
                ),
                forall|k: int| x <= k < DISPLAY_WIDTH ==> bits_of(#[trigger] self.columns@[k]) == start[k],
                grid_wf(start),
            decreases DISPLAY_WIDTH - x,
        {
            let col = &mut self.columns[x];
            bit_clear(col);
            x = x + 1;
        }
        assert(self@ =~= blank_grid());
    }

    /// The pixel in column `x`, row `y`.
    pub fn pixel(&self, x: usize, y: usize) -> (r: bool)
        requires
            self.wf(),
            x < DISPLAY_WIDTH,
            y < DISPLAY_HEIGHT,
        ensures
            r == self@[x as int][y as int],
    {
        match bit_get(&self.columns[x], y) {
            Some(b) => b,
            None => false,
        }
    }

    /// Flips the pixel in column `x`, row `y`, and returns what it was before.
    pub fn toggle(&mut self, x: usize, y: usize) -> (was: bool)
        requires
            old(self).wf(),
            x < DISPLAY_WIDTH,
            y < DISPLAY_HEIGHT,
        ensures
            final(self).wf(),
            was == old(self)@[x as int][y as int],
            final(self)@ == old(self)@.update(x as int, old(self)@[x as int].update(y as int, !was)),
    {
        let col = &mut self.columns[x];
        assert(bits_of(*col) == old(self)@[x as int]);
        let was = match bit_get(col, y) {
            Some(b) => b,
            None => false,
        };
        bit_set(col, y, !was);
        assert(self@ =~= old(self)@.update(x as int, old(self)@[x as int].update(y as int, !was)));
        was
    }

    /// XORs the sprite `sprite_at(mem@, start, n, ox, oy, high_res)` onto the grid and
    /// says whether it turned off a pixel that was on.
    pub fn draw_sprite(&mut self, mem: &Memory, start: usize, n: u8, ox: u8, oy: u8, high_res: bool) -> (collided: bool)
        requires
            old(self).wf(),
            n < 16,
            start + sprite_len(n as int, high_res) <= MEM_SIZE,
        ensures
            final(self).wf(),
            final(self)@ == xor_drawn(old(self)@, sprite_at(mem@, start as int, n as int, ox as int, oy as int, high_res)),
            collided == collides(old(self)@, sprite_at(mem@, start as int, n as int, ox as int, oy as int, high_res)),
    {
        proof {
            mem.lemma_len();
        }
        let ghost g0 = self@;
        let ghost s = sprite_at(mem@, start as int, n as int, ox as int, oy as int, high_res);
        let big = high_res && n == 0;
        let (w, h) = if high_res {
            (DISPLAY_WIDTH, DISPLAY_HEIGHT)
        } else {
            (DISPLAY_WIDTH / 2, DISPLAY_HEIGHT / 2)
        };
        let ox0 = (ox as usize) % w;
        let oy0 = (oy as usize) % h;
        let rows: usize = if big { 16 } else { n as usize };
        let cols: usize = if big { 16 } else { 8 };
        assert(w == s.width() && h == s.height() && rows == s.rows && cols == s.cols());
        let mut collided = false;
        let mut r: usize = 0;
        while r < rows
            invariant
                self.wf(),
                0 <= r <= rows,
                w == s.width(), h == s.height(), rows == s.rows, cols == s.cols(),
                ox0 == s.ox % (w as int), oy0 == s.oy % (h as int),
                big == s.big, rows <= 16,
                s == sprite_at(mem@, start as int, n as int, ox as int, oy as int, high_res),
                start + sprite_len(n as int, high_res) <= MEM_SIZE,
                mem@.len() == MEM_SIZE,
                grid_wf(g0),
                forall|x: int, y: int| 0 <= x < DISPLAY_WIDTH && 0 <= y < DISPLAY_HEIGHT ==>
                    #[trigger] self@[x][y] == (g0[x][y] != s.hit_before(r as int, 0, x, y)),
                collided == collides_before(g0, s, r as int, 0),
            decreases rows - r,
        {
            let y = if oy0 + r >= h { oy0 + r - h } else { oy0 + r };
            assert(s.row_at(y as int) == r);
            let mut c: usize = 0;
            while c < cols
                invariant
                    self.wf(),
                    0 <= r < rows,
                    0 <= c <= cols,
                    w == s.width(), h == s.height(), rows == s.rows, cols == s.cols(),
                    ox0 == s.ox % (w as int), oy0 == s.oy % (h as int),
                    big == s.big, rows <= 16,
                    s == sprite_at(mem@, start as int, n as int, ox as int, oy as int, high_res),
                    start + sprite_len(n as int, high_res) <= MEM_SIZE,
                    mem@.len() == MEM_SIZE,
                    y < h, s.row_at(y as int) == r,
                    grid_wf(g0),
                    forall|x: int, y: int| 0 <= x < DISPLAY_WIDTH && 0 <= y < DISPLAY_HEIGHT ==>
                        #[trigger] self@[x][y] == (g0[x][y] != s.hit_before(r as int, c as int, x, y)),
                    collided == collides_before(g0, s, r as int, c as int),
                decreases cols - c,
            {
                let (byte, j) = if big {
                    (mem.get(start + 2 * r + c / 8), (c % 8) as u8)
                } else {
                    (mem.get(start + r), c as u8)
                };
                let x = if ox0 + c >= w { ox0 + c - w } else { ox0 + c };
                assert(s.col_at(x as int) == c);
                let set = byte_bit(byte, j);
                assert(set == s.bit(r as int, c as int)) by {
                    if big {
                        assert(s.bytes[2 * r + c / 8] == mem@[start + 2 * r + c / 8]);
                    } else {
                        assert(s.bytes[r as int] == mem@[start + r]);
                    }
                }
                let ghost before = self@;
                let ghost coll0 = collided;
                if set {
                    assert(s.hit(x as int, y as int));
                    let was = self.toggle(x, y);
                    if was {
                        collided = true;
                    }
                    assert forall|x1: int, y1: int| 0 <= x1 < DISPLAY_WIDTH && 0 <= y1 < DISPLAY_HEIGHT implies
                        #[trigger] self@[x1][y1] == (g0[x1][y1] != s.hit_before(r as int, c + 1, x1, y1)) by {
                        if x1 == x && y1 == y {
                        } else {
                            assert(before[x1][y1] == self@[x1][y1]);
                        }
                    }
                    assert(collided == collides_before(g0, s, r as int, c + 1)) by {
                        if collided {
                            if coll0 {
                                let (x1, y1) = choose|x1: int, y1: int|
                                    0 <= x1 < DISPLAY_WIDTH && 0 <= y1 < DISPLAY_HEIGHT && #[trigger] s.hit_before(r as int, c as int, x1, y1) && g0[x1][y1];
                                assert(s.hit_before(r as int, c + 1, x1, y1));
                            } else {
                                assert(s.hit_before(r as int, c + 1, x as int, y as int));
                            }
                        } else {
                            assert forall|x1: int, y1: int| 0 <= x1 < DISPLAY_WIDTH && 0 <= y1 < DISPLAY_HEIGHT && #[trigger] s.hit_before(r as int, c + 1, x1, y1) implies !g0[x1][y1] by {
                                if x1 == x && y1 == y {
                                } else {
                                    assert(s.hit_before(r as int, c as int, x1, y1));
                                }
                            }
                        }
                    }
                } else {
                    assert forall|x1: int, y1: int| 0 <= x1 < DISPLAY_WIDTH && 0 <= y1 < DISPLAY_HEIGHT implies
                        s.hit_before(r as int, c + 1, x1, y1) == #[trigger] s.hit_before(r as int, c as int, x1, y1) by {
                    }
                    assert(collides_before(g0, s, r as int, c + 1) == collides_before(g0, s, r as int, c as int)) by {
                        if collides_before(g0, s, r as int, c + 1) {
                            let (x1, y1) = choose|x1: int, y1: int|
                                0 <= x1 < DISPLAY_WIDTH && 0 <= y1 < DISPLAY_HEIGHT && #[trigger] s.hit_before(r as int, c + 1, x1, y1) && g0[x1][y1];
                            assert(s.hit_before(r as int, c as int, x1, y1));
                        }
                        if collides_before(g0, s, r as int, c as int) {
                            let (x1, y1) = choose|x1: int, y1: int|
                                0 <= x1 < DISPLAY_WIDTH && 0 <= y1 < DISPLAY_HEIGHT && #[trigger] s.hit_before(r as int, c as int, x1, y1) && g0[x1][y1];
                            assert(s.hit_before(r as int, c + 1, x1, y1));
                        }
                    }
                }
                c = c + 1;
            }
            assert forall|x1: int, y1: int| 0 <= x1 < DISPLAY_WIDTH && 0 <= y1 < DISPLAY_HEIGHT implies
                s.hit_before(r + 1, 0, x1, y1) == #[trigger] s.hit_before(r as int, cols as int, x1, y1) by {
            }
            assert(collides_before(g0, s, r + 1, 0) == collides_before(g0, s, r as int, cols as int)) by {
                if collides_before(g0, s, r + 1, 0) {
                    let (x1, y1) = choose|x1: int, y1: int|
                        0 <= x1 < DISPLAY_WIDTH && 0 <= y1 < DISPLAY_HEIGHT && #[trigger] s.hit_before(r + 1, 0, x1, y1) && g0[x1][y1];
                    assert(s.hit_before(r as int, cols as int, x1, y1));
                }
                if collides_before(g0, s, r as int, cols as int) {
                    let (x1, y1) = choose|x1: int, y1: int|
                        0 <= x1 < DISPLAY_WIDTH && 0 <= y1 < DISPLAY_HEIGHT && #[trigger] s.hit_before(r as int, cols as int, x1, y1) && g0[x1][y1];
                    assert(s.hit_before(r + 1, 0, x1, y1));
                }
            }
            r = r + 1;
        }
        assert forall|x1: int, y1: int| 0 <= x1 < DISPLAY_WIDTH && 0 <= y1 < DISPLAY_HEIGHT implies
            s.hit(x1, y1) == #[trigger] s.hit_before(rows as int, 0, x1, y1) by {
        }
        assert(self@ =~= xor_drawn(g0, s)) by {
            assert forall|x1: int| 0 <= x1 < DISPLAY_WIDTH implies #[trigger] self@[x1] =~= xor_drawn(g0, s)[x1] by {
                assert forall|y1: int| 0 <= y1 < DISPLAY_HEIGHT implies #[trigger] self@[x1][y1] == xor_drawn(g0, s)[x1][y1] by {
                    assert(s.hit(x1, y1) == s.hit_before(rows as int, 0, x1, y1));
                }
            }
        }
        assert(collided == collides(g0, s)) by {
            if collided {
                let (x1, y1) = choose|x1: int, y1: int|
                    0 <= x1 < DISPLAY_WIDTH && 0 <= y1 < DISPLAY_HEIGHT && #[trigger] s.hit_before(rows as int, 0, x1, y1) && g0[x1][y1];
                assert(s.hit(x1, y1));
            }
            if collides(g0, s) {
                let (x1, y1) = choose|x1: int, y1: int|
                    0 <= x1 < DISPLAY_WIDTH && 0 <= y1 < DISPLAY_HEIGHT && #[trigger] s.hit(x1, y1) && g0[x1][y1];
                assert(s.hit_before(rows as int, 0, x1, y1));
            }
        }
        collided
    }

    /// The columns of the grid.
    pub fn columns(&self) -> (r: &[BitVec])
        ensures
            r@.len() == self@.len(),
            forall|x: int| 0 <= x < r@.len() ==> bits_of(#[trigger] r@[x]) == self@[x],
    {
        self.columns.as_slice()
    }
}

} // verus!
