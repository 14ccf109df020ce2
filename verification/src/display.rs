//! The logical monochrome framebuffer: a 64 x 32 grid of binary pixels with
//! XOR sprite plotting, collision detection and a dirty flag. Turning the
//! grid into an on-screen image is the host renderer's concern.

use vstd::arithmetic::div_mod::{
    lemma_fundamental_div_mod, lemma_fundamental_div_mod_converse, lemma_mod_bound,
};
use vstd::prelude::*;

verus! {

pub const DISPLAY_WIDTH: usize = 64;

pub const DISPLAY_HEIGHT: usize = 32;

/// Flat index of the wrapped coordinate pair `(x mod 64, y mod 32)` in the
/// row-major pixel grid.
pub open spec fn pix(x: int, y: int) -> int {
    (y % 32) * 64 + (x % 64)
}

/// Bit `b` of a sprite row byte, counting from the most significant bit
/// (`b = 0` is bit 7).
pub open spec fn sprite_bit(byte: u8, b: int) -> u8
    recommends
        0 <= b < 8,
{
    (byte >> ((7 - b) as u8)) & 1
}

/// The pixel grid after XOR-plotting an `n`-row sprite read from
/// `mem[i..i + n]` at wrapped origin `(vx, vy)`. Each sprite cell `(r, b)`
/// lands on the distinct pixel `pix(vx + b, vy + r)`; every other pixel is
/// untouched.
pub open spec fn draw_vram(v0: Seq<u8>, mem: Seq<u8>, i: int, vx: int, vy: int, n: int) -> Seq<
    u8,
>
    recommends
        v0.len() == 2048,
        0 <= vx && 0 <= vy && 0 <= n <= 15,
        0 <= i && i + n <= mem.len(),
{
    Seq::new(
        v0.len(),
        |p: int|
            {
                let r = (p / 64 - vy) % 32;
                let b = (p % 64 - vx) % 64;
                if r < n && b < 8 {
                    v0[p] ^ sprite_bit(mem[i + r], b)
                } else {
                    v0[p]
                }
            },
    )
}

/// Whether XOR-plotting the sprite turns some lit pixel off: some sprite
/// cell holds a one bit and lands on a pixel that is already lit.
pub open spec fn draw_collision(
    v0: Seq<u8>,
    mem: Seq<u8>,
    i: int,
    vx: int,
    vy: int,
    n: int,
) -> bool {
    exists|r: int, b: int|
        0 <= r < n && 0 <= b < 8 && #[trigger] sprite_bit(mem[i + r], b) == 1 && v0[pix(
            vx + b,
            vy + r,
        )] == 1
}

/// Wrapping an offset `r < d` around base `a` and subtracting the base again
/// recovers the offset.
pub proof fn lemma_wrap_inverse(a: int, r: int, d: int)
    requires
        0 < d,
        0 <= r < d,
    ensures
        ((a + r) % d - a) % d == r,
{
    lemma_fundamental_div_mod(a + r, d);
    lemma_mod_bound(a + r, d);
    let q = (a + r) / d;
    assert((a + r) % d - a == (-q) * d + r) by (nonlinear_arith)
        requires
            a + r == d * q + (a + r) % d,
    ;
    lemma_fundamental_div_mod_converse((a + r) % d - a, d, -q, r);
}

/// A wrapped coordinate determines the cell that produced it: if `p` in
/// `[0, d)` yields offset `(p - a) % d`, then wrapping that offset around
/// `a` gives back `p`.
pub proof fn lemma_wrap_unique(a: int, p: int, d: int)
    requires
        0 < d,
        0 <= p < d,
    ensures
        (a + ((p - a) % d)) % d == p,
{
    lemma_fundamental_div_mod(p - a, d);
    lemma_mod_bound(p - a, d);
    let q = (p - a) / d;
    assert(a + ((p - a) % d) == (-q) * d + p) by (nonlinear_arith)
        requires
            p - a == d * q + (p - a) % d,
    ;
    lemma_fundamental_div_mod_converse(a + ((p - a) % d), d, -q, p);
}

/// Bitwise `&`, `|` and `^` on single-bit bytes act as boolean and, or and
/// exclusive or.
pub proof fn lemma_bit01(a: u8, b: u8)
    by (bit_vector)
    requires
        a <= 1,
        b <= 1,
    ensures
        a & b == (if a == 1 && b == 1 {
            1u8
        } else {
            0u8
        }),
        a | b == (if a == 1 || b == 1 {
            1u8
        } else {
            0u8
        }),
        a ^ b == (if a != b {
            1u8
        } else {
            0u8
        }),
{
}

/// A sprite bit is a single-bit value.
pub proof fn lemma_sprite_bit_bound(byte: u8, sh: u8)
    by (bit_vector)
    ensures
        (byte >> sh) & 1 <= 1,
{
}

/// The pixel grid after plotting only the sprite cells `(r, b)` with
/// `r * 8 + b < prog`: the prefix of the sprite walked in row-major order.
spec fn partial_vram(
    v0: Seq<u8>,
    mem: Seq<u8>,
    i: int,
    vx: int,
    vy: int,
    n: int,
    prog: int,
) -> Seq<u8> {
    Seq::new(
        v0.len(),
        |p: int|
            {
                let r = (p / 64 - vy) % 32;
                let b = (p % 64 - vx) % 64;
                if r < n && b < 8 && r * 8 + b < prog {
                    v0[p] ^ sprite_bit(mem[i + r], b)
                } else {
                    v0[p]
                }
            },
    )
}

/// Collision among only the sprite cells `(r, b)` with `r * 8 + b < prog`.
spec fn partial_collision(
    v0: Seq<u8>,
    mem: Seq<u8>,
    i: int,
    vx: int,
    vy: int,
    n: int,
    prog: int,
) -> bool {
    exists|r: int, b: int|
        0 <= r < n && 0 <= b < 8 && r * 8 + b < prog && #[trigger] sprite_bit(mem[i + r], b) == 1
            && v0[pix(vx + b, vy + r)] == 1
}

/// Before any sprite cell is plotted the grid is unchanged and no collision
/// has been seen.
proof fn lemma_partial_zero(v0: Seq<u8>, mem: Seq<u8>, i: int, vx: int, vy: int, n: int)
    requires
        v0.len() == 2048,
    ensures
        partial_vram(v0, mem, i, vx, vy, n, 0) == v0,
        !partial_collision(v0, mem, i, vx, vy, n, 0),
{
    assert(partial_vram(v0, mem, i, vx, vy, n, 0) =~= v0);
}

/// Once every sprite cell is plotted, the partial grid and collision agree
/// with [`draw_vram`] and [`draw_collision`].
proof fn lemma_partial_full(v0: Seq<u8>, mem: Seq<u8>, i: int, vx: int, vy: int, n: int)
    requires
        v0.len() == 2048,
        0 <= n <= 15,
    ensures
        partial_vram(v0, mem, i, vx, vy, n, n * 8) == draw_vram(v0, mem, i, vx, vy, n),
        partial_collision(v0, mem, i, vx, vy, n, n * 8) == draw_collision(v0, mem, i, vx, vy, n),
{
    assert forall|p: int| 0 <= p < 2048 implies partial_vram(v0, mem, i, vx, vy, n, n * 8)[p]
        == draw_vram(v0, mem, i, vx, vy, n)[p] by {
        lemma_mod_bound(p / 64 - vy, 32);
        lemma_mod_bound(p % 64 - vx, 64);
    }
    assert(partial_vram(v0, mem, i, vx, vy, n, n * 8) =~= draw_vram(v0, mem, i, vx, vy, n));
    if partial_collision(v0, mem, i, vx, vy, n, n * 8) {
        let (rc, bc) = choose|rc: int, bc: int|
            0 <= rc < n && 0 <= bc < 8 && rc * 8 + bc < n * 8 && #[trigger] sprite_bit(
                mem[i + rc],
                bc,
            ) == 1 && v0[pix(vx + bc, vy + rc)] == 1;
        assert(draw_collision(v0, mem, i, vx, vy, n));
    }
    if draw_collision(v0, mem, i, vx, vy, n) {
        let (rc, bc) = choose|rc: int, bc: int|
            0 <= rc < n && 0 <= bc < 8 && #[trigger] sprite_bit(mem[i + rc], bc) == 1 && v0[pix(
                vx + bc,
                vy + rc,
            )] == 1;
        assert(rc * 8 + bc < n * 8);
        assert(partial_collision(v0, mem, i, vx, vy, n, n * 8));
    }
}

/// Plotting the single sprite cell `(r, b)` advances the row-major prefix by
/// one: the cell lands on pixel `pix(vx + b, vy + r)`, which no earlier cell
/// touched, and the collision seen so far grows by exactly that cell's test
/// against the original grid.
proof fn lemma_draw_step(
    v0: Seq<u8>,
    mem: Seq<u8>,
    i: int,
    vx: int,
    vy: int,
    n: int,
    r: int,
    b: int,
)
    requires
        v0.len() == 2048,
        0 <= vx,
        0 <= vy,
        0 <= r < n,
        n <= 15,
        0 <= b < 8,
        0 <= i,
        i + n <= mem.len(),
    ensures
        pix(vx + b, vy + r) == ((vy + r) % 32) * 64 + ((vx + b) % 64),
        0 <= pix(vx + b, vy + r) < 2048,
        (pix(vx + b, vy + r) / 64 - vy) % 32 == r,
        (pix(vx + b, vy + r) % 64 - vx) % 64 == b,
        partial_vram(v0, mem, i, vx, vy, n, r * 8 + b)[pix(vx + b, vy + r)] == v0[pix(
            vx + b,
            vy + r,
        )],
        partial_vram(v0, mem, i, vx, vy, n, r * 8 + b + 1) == partial_vram(
            v0,
            mem,
            i,
            vx,
            vy,
            n,
            r * 8 + b,
        ).update(pix(vx + b, vy + r), v0[pix(vx + b, vy + r)] ^ sprite_bit(mem[i + r], b)),
        partial_collision(v0, mem, i, vx, vy, n, r * 8 + b + 1) <==> (partial_collision(
            v0,
            mem,
            i,
            vx,
            vy,
            n,
            r * 8 + b,
        ) || (sprite_bit(mem[i + r], b) == 1 && v0[pix(vx + b, vy + r)] == 1)),
{
    let py = (vy + r) % 32;
    let px = (vx + b) % 64;
    let idx = pix(vx + b, vy + r);
    lemma_mod_bound(vy + r, 32);
    lemma_mod_bound(vx + b, 64);
    assert(0 <= idx < 2048);
    lemma_fundamental_div_mod_converse(idx, 64, py, px);
    lemma_wrap_inverse(vy, r, 32);
    lemma_wrap_inverse(vx, b, 64);
    assert((idx / 64 - vy) % 32 == r);
    assert((idx % 64 - vx) % 64 == b);
    let s1 = partial_vram(v0, mem, i, vx, vy, n, r * 8 + b);
    let s2 = partial_vram(v0, mem, i, vx, vy, n, r * 8 + b + 1);
    assert forall|p: int| 0 <= p < 2048 && p != idx implies s2[p] == s1[p] by {
        lemma_fundamental_div_mod(p, 64);
        lemma_mod_bound(p, 64);
        lemma_mod_bound(p / 64 - vy, 32);
        lemma_mod_bound(p % 64 - vx, 64);
        let rp = (p / 64 - vy) % 32;
        let bp = (p % 64 - vx) % 64;
        if rp < n && bp < 8 && rp * 8 + bp == r * 8 + b {
            assert(rp == r && bp == b);
            lemma_wrap_unique(vy, p / 64, 32);
            lemma_wrap_unique(vx, p % 64, 64);
            assert(p / 64 == py && p % 64 == px);
            assert(false);
        }
    }
    assert(s2 =~= s1.update(idx, v0[idx] ^ sprite_bit(mem[i + r], b)));
    if partial_collision(v0, mem, i, vx, vy, n, r * 8 + b + 1) {
        let (rc, bc) = choose|rc: int, bc: int|
            0 <= rc < n && 0 <= bc < 8 && rc * 8 + bc < r * 8 + b + 1 && #[trigger] sprite_bit(
                mem[i + rc],
                bc,
            ) == 1 && v0[pix(vx + bc, vy + rc)] == 1;
        if rc * 8 + bc == r * 8 + b {
            assert(rc == r && bc == b);
        } else {
            assert(partial_collision(v0, mem, i, vx, vy, n, r * 8 + b));
        }
    }
    if partial_collision(v0, mem, i, vx, vy, n, r * 8 + b) {
        let (rc, bc) = choose|rc: int, bc: int|
            0 <= rc < n && 0 <= bc < 8 && rc * 8 + bc < r * 8 + b && #[trigger] sprite_bit(
                mem[i + rc],
                bc,
            ) == 1 && v0[pix(vx + bc, vy + rc)] == 1;
        assert(partial_collision(v0, mem, i, vx, vy, n, r * 8 + b + 1));
    }
    if sprite_bit(mem[i + r], b) == 1 && v0[idx] == 1 {
        assert(0 <= r < n && 0 <= b < 8 && r * 8 + b < r * 8 + b + 1 && sprite_bit(mem[i + r], b)
            == 1 && v0[pix(vx + b, vy + r)] == 1);
        assert(partial_collision(v0, mem, i, vx, vy, n, r * 8 + b + 1));
    }
}

/// XOR is an involution on bytes.
pub proof fn lemma_xor_involution(a: u8, b: u8)
    by (bit_vector)
    ensures
        (a ^ b) ^ b == a,
{
}

/// Drawing the identical sprite at the identical position twice in
/// succession restores the prior pixel state; and if the first draw turned
/// some pixel on, the second draw reports a collision.
pub proof fn lemma_draw_twice(v0: Seq<u8>, mem: Seq<u8>, i: int, vx: int, vy: int, n: int)
    requires
        v0.len() == 2048,
        0 <= vx,
        0 <= vy,
        0 <= n <= 15,
        0 <= i,
        i + n <= mem.len(),
    ensures
        draw_vram(draw_vram(v0, mem, i, vx, vy, n), mem, i, vx, vy, n) == v0,
        (exists|r: int, b: int|
            0 <= r < n && 0 <= b < 8 && #[trigger] sprite_bit(mem[i + r], b) == 1 && v0[pix(
                vx + b,
                vy + r,
            )] == 0) ==> draw_collision(draw_vram(v0, mem, i, vx, vy, n), mem, i, vx, vy, n),
{
    let s1 = draw_vram(v0, mem, i, vx, vy, n);
    let s2 = draw_vram(s1, mem, i, vx, vy, n);
    assert forall|p: int| 0 <= p < 2048 implies s2[p] == v0[p] by {
        let r = (p / 64 - vy) % 32;
        let b = (p % 64 - vx) % 64;
        if r < n && b < 8 {
            lemma_xor_involution(v0[p], sprite_bit(mem[i + r], b));
        }
    }
    assert(s2 =~= v0);
    if exists|r: int, b: int|
        0 <= r < n && 0 <= b < 8 && #[trigger] sprite_bit(mem[i + r], b) == 1 && v0[pix(
            vx + b,
            vy + r,
        )] == 0 {
        let (r, b) = choose|r: int, b: int|
            0 <= r < n && 0 <= b < 8 && #[trigger] sprite_bit(mem[i + r], b) == 1 && v0[pix(
                vx + b,
                vy + r,
            )] == 0;
        lemma_draw_step(v0, mem, i, vx, vy, n, r, b);
        let idx = pix(vx + b, vy + r);
        assert(s1[idx] == v0[idx] ^ sprite_bit(mem[i + r], b));
        assert(0u8 ^ 1u8 == 1u8) by (bit_vector);
        assert(s1[pix(vx + b, vy + r)] == 1);
        assert(draw_collision(s1, mem, i, vx, vy, n));
    }
}

/// The logical framebuffer: row-major 64 x 32 grid of binary pixels
/// (`vram[y * 64 + x]`) and a dirty flag the renderer consumes.
pub struct Display {
    /// Row-major pixel grid; every entry is 0 or 1.
    pub vram: Vec<u8>,
    /// Set whenever pixels changed or the screen was cleared; cleared once
    /// the external renderer consumes the frame.
    pub needs_draw: bool,
}

impl Display {
    pub open spec fn wf(&self) -> bool {
        &&& self.vram@.len() == 2048
        &&& forall|k: int| 0 <= k < 2048 ==> self.vram@[k] <= 1
    }

    /// A blank framebuffer: all pixels off, frame clean.
    pub fn new() -> (d: Display)
        ensures
            d.wf(),
            d.vram@ == Seq::new(2048nat, |p: int| 0u8),
            !d.needs_draw,
    {
        let d = Display { vram: blank_vram(), needs_draw: false };
        proof {
            assert(d.vram@ =~= Seq::new(2048nat, |p: int| 0u8));
        }
        d
    }

    /// Fill the grid with zero and mark the frame dirty.
    pub fn clear(&mut self)
        ensures
            final(self).wf(),
            final(self).vram@ == Seq::new(2048nat, |p: int| 0u8),
            final(self).needs_draw,
    {
        self.vram = blank_vram();
        self.needs_draw = true;
        proof {
            assert(self.vram@ =~= Seq::new(2048nat, |p: int| 0u8));
        }
    }

    /// Mark the current frame consumed by the renderer.
    pub fn update(&mut self)
        ensures
            final(self).vram@ == old(self).vram@,
            !final(self).needs_draw,
    {
        self.needs_draw = false;
    }

    /// XOR-plot an `n`-row sprite read from `memory[i..i + n]` at wrapped
    /// origin `(vx, vy)` and mark the frame dirty; returns 1 exactly when
    /// some lit pixel was turned off (the collision flag value).
    pub fn draw_sprite(&mut self, memory: &Vec<u8>, i: usize, vx: u8, vy: u8, n: usize) -> (vf:
        u8)
        requires
            old(self).wf(),
            n <= 15,
            i + n <= memory@.len(),
        ensures
            final(self).wf(),
            final(self).vram@ == draw_vram(
                old(self).vram@,
                memory@,
                i as int,
                vx as int,
                vy as int,
                n as int,
            ),
            final(self).needs_draw,
            vf <= 1,
            (vf == 1) == draw_collision(
                old(self).vram@,
                memory@,
                i as int,
                vx as int,
                vy as int,
                n as int,
            ),
    {
        let ghost v0 = self.vram@;
        let ghost m = memory@;
        let mem_len = memory.len();
        proof {
            lemma_partial_zero(v0, m, i as int, vx as int, vy as int, n as int);
        }
        let mut vf: u8 = 0;
        let mut row: usize = 0;
        while row < n
            invariant
                self.vram@.len() == 2048,
                v0.len() == 2048,
                forall|k: int| 0 <= k < 2048 ==> v0[k] <= 1,
                forall|k: int| 0 <= k < 2048 ==> self.vram@[k] <= 1,
                n <= 15,
                i + n <= m.len(),
                mem_len == m.len(),
                memory@ == m,
                row <= n,
                self.vram@ == partial_vram(v0, m, i as int, vx as int, vy as int, n as int, row * 8),
                vf <= 1,
                (vf == 1) == partial_collision(
                    v0,
                    m,
                    i as int,
                    vx as int,
                    vy as int,
                    n as int,
                    row * 8,
                ),
            decreases n - row,
        {
            let py = ((vy as usize) + row) % 32;
            let mut bit: usize = 0;
            while bit < 8
                invariant
                    self.vram@.len() == 2048,
                    v0.len() == 2048,
                    forall|k: int| 0 <= k < 2048 ==> v0[k] <= 1,
                    forall|k: int| 0 <= k < 2048 ==> self.vram@[k] <= 1,
                    n <= 15,
                    i + n <= m.len(),
                    mem_len == m.len(),
                    memory@ == m,
                    row < n,
                    bit <= 8,
                    py == ((vy as int) + row) % 32,
                    self.vram@ == partial_vram(
                        v0,
                        m,
                        i as int,
                        vx as int,
                        vy as int,
                        n as int,
                        row * 8 + bit,
                    ),
                    vf <= 1,
                    (vf == 1) == partial_collision(
                        v0,
                        m,
                        i as int,
                        vx as int,
                        vy as int,
                        n as int,
                        row * 8 + bit,
                    ),
                decreases 8 - bit,
            {
                let px = ((vx as usize) + bit) % 64;
                let idx = py * 64 + px;
                proof {
                    lemma_draw_step(
                        v0,
                        m,
                        i as int,
                        vx as int,
                        vy as int,
                        n as int,
                        row as int,
                        bit as int,
                    );
                    assert(idx == pix(vx as int + bit, vy as int + row));
                }
                let byte = memory[i + row];
                let shift: u8 = (7 - bit) as u8;
                let color = (byte >> shift) & 1;
                let cur = self.vram[idx];
                proof {
                    lemma_sprite_bit_bound(byte, shift);
                    assert(color == sprite_bit(m[i as int + row], bit as int));
                    lemma_bit01(color, cur);
                    lemma_bit01(vf, color & cur);
                }
                vf = vf | (color & cur);
                self.vram[idx] = cur ^ color;
                proof {
                    lemma_bit01(cur, color);
                }
                bit = bit + 1;
            }
            row = row + 1;
        }
        proof {
            lemma_partial_full(v0, m, i as int, vx as int, vy as int, n as int);
        }
        self.needs_draw = true;
        vf
    }

    /// The pixel at column `x`, row `y`.
    pub fn pixel(&self, x: usize, y: usize) -> (p: u8)
        requires
            self.wf(),
            x < 64,
            y < 32,
        ensures
            p == self.vram@[y * 64 + x],
    {
        self.vram[y * 64 + x]
    }
}

/// A 64 x 32 grid of zero pixels.
fn blank_vram() -> (v: Vec<u8>)
    ensures
        v@.len() == 2048,
        forall|k: int| 0 <= k < 2048 ==> v@[k] == 0u8,
{
    let mut v: Vec<u8> = Vec::new();
    let mut k: usize = 0;
    while k < 2048
        invariant
            k <= 2048,
            v@.len() == k,
            forall|j: int| 0 <= j < k ==> v@[j] == 0u8,
        decreases 2048 - k,
    {
        v.push(0);
        k = k + 1;
    }
    v
}

} // verus!
