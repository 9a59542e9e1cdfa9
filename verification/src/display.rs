//! The 64x32 monochrome framebuffer, stored row-major. Pixels are mutated
//! only by the XOR sprite blit and by `clear`; coordinates wrap toroidally.
//!
//! The blit is specified by `draw_buf` / `draw_collision`: a fold over the
//! sprite's bits, processed row by row and, within a row, from the most
//! significant bit down. Bit number `k` of the sprite targets the pixel at
//! `((x + k % 8) mod 64, (y + k / 8) mod 32)`; a set bit toggles that pixel,
//! and a collision is recorded whenever a set bit finds its pixel already on.

use vstd::prelude::*;

verus! {

pub const WIDTH: usize = 64;

pub const HEIGHT: usize = 32;

/// The all-off framebuffer contents.
pub open spec fn blank_screen() -> Seq<bool> {
    Seq::new(2048, |i: int| false)
}

/// Bit `k` of the sprite (row `k / 8`, bit `k % 8` counted from the most
/// significant end of the row's byte).
pub open spec fn sprite_bit(sprite: Seq<u8>, k: int) -> bool
    recommends
        0 <= k < 8 * sprite.len(),
{
    (sprite[k / 8] >> ((7 - (k % 8)) as u8)) & 1 == 1
}

/// Index of the pixel targeted by sprite bit `k` when drawing at `(x, y)`.
pub open spec fn target_idx(x: int, y: int, k: int) -> int {
    ((y + k / 8) % 32) * 64 + ((x + k % 8) % 64)
}

/// Framebuffer contents after processing the first `k` sprite bits.
pub open spec fn draw_buf(buf: Seq<bool>, x: int, y: int, sprite: Seq<u8>, k: int) -> Seq<bool>
    decreases k,
{
    if k <= 0 {
        buf
    } else {
        let prev = draw_buf(buf, x, y, sprite, k - 1);
        if sprite_bit(sprite, k - 1) {
            let t = target_idx(x, y, k - 1);
            prev.update(t, !prev[t])
        } else {
            prev
        }
    }
}

/// Whether processing the first `k` sprite bits ever turned a pixel off,
/// i.e. a set sprite bit met a pixel that was on at that moment.
pub open spec fn draw_collision(buf: Seq<bool>, x: int, y: int, sprite: Seq<u8>, k: int) -> bool
    decreases k,
{
    if k <= 0 {
        false
    } else {
        draw_collision(buf, x, y, sprite, k - 1) || (sprite_bit(sprite, k - 1)
            && draw_buf(buf, x, y, sprite, k - 1)[target_idx(x, y, k - 1)])
    }
}

pub proof fn lemma_draw_buf_len(buf: Seq<bool>, x: int, y: int, sprite: Seq<u8>, k: int)
    requires
        0 <= x,
        0 <= y,
        buf.len() == 2048,
    ensures
        draw_buf(buf, x, y, sprite, k).len() == 2048,
    decreases k,
{
    if k > 0 {
        lemma_draw_buf_len(buf, x, y, sprite, k - 1);
        lemma_target_in_range(x, y, k - 1);
    }
}

/// Every target index names a real pixel.
pub proof fn lemma_target_in_range(x: int, y: int, k: int)
    requires
        0 <= x,
        0 <= y,
        0 <= k,
    ensures
        0 <= target_idx(x, y, k) < 2048,
{
}

/// The buffer with pixel `t` toggled.
pub open spec fn toggle(buf: Seq<bool>, t: int) -> Seq<bool> {
    buf.update(t, !buf[t])
}

proof fn lemma_draw_buf_toggle(buf: Seq<bool>, x: int, y: int, sprite: Seq<u8>, k: int, t: int)
    requires
        0 <= x,
        0 <= y,
        buf.len() == 2048,
        0 <= t < 2048,
    ensures
        draw_buf(toggle(buf, t), x, y, sprite, k) == toggle(draw_buf(buf, x, y, sprite, k), t),
    decreases k,
{
    lemma_draw_buf_len(buf, x, y, sprite, k);
    if k <= 0 {
    } else {
        lemma_draw_buf_toggle(buf, x, y, sprite, k - 1, t);
        lemma_draw_buf_len(buf, x, y, sprite, k - 1);
        lemma_target_in_range(x, y, k - 1);
        let prev = draw_buf(buf, x, y, sprite, k - 1);
        let tk = target_idx(x, y, k - 1);
        if sprite_bit(sprite, k - 1) {
            if t == tk {
                assert(draw_buf(toggle(buf, t), x, y, sprite, k) =~= toggle(
                    draw_buf(buf, x, y, sprite, k),
                    t,
                ));
            } else {
                assert(draw_buf(toggle(buf, t), x, y, sprite, k) =~= toggle(
                    draw_buf(buf, x, y, sprite, k),
                    t,
                ));
            }
        }
    }
}

/// Drawing the same sprite twice at the same position restores every pixel:
/// the XOR blit is its own inverse.
pub proof fn lemma_draw_twice_restores(buf: Seq<bool>, x: int, y: int, sprite: Seq<u8>, k: int)
    requires
        0 <= x,
        0 <= y,
        buf.len() == 2048,
    ensures
        draw_buf(draw_buf(buf, x, y, sprite, k), x, y, sprite, k) == buf,
    decreases k,
{
    if k <= 0 {
    } else {
        lemma_draw_twice_restores(buf, x, y, sprite, k - 1);
        lemma_draw_buf_len(buf, x, y, sprite, k - 1);
        lemma_target_in_range(x, y, k - 1);
        let prev = draw_buf(buf, x, y, sprite, k - 1);
        let tk = target_idx(x, y, k - 1);
        if sprite_bit(sprite, k - 1) {
            let once = toggle(prev, tk);
            lemma_draw_buf_toggle(prev, x, y, sprite, k - 1, tk);
            assert(draw_buf(once, x, y, sprite, k - 1) == toggle(
                draw_buf(prev, x, y, sprite, k - 1),
                tk,
            ));
            assert(draw_buf(prev, x, y, sprite, k - 1) == buf);
            assert(draw_buf(once, x, y, sprite, k) == toggle(toggle(buf, tk), tk));
            assert(toggle(toggle(buf, tk), tk) =~= buf);
        }
    }
}

proof fn lemma_wrap_distinct(base: int, a: int, b: int, m: int)
    requires
        0 <= base,
        0 <= a < m,
        0 <= b < m,
        a != b,
        m > 0,
    ensures
        (base + a) % m != (base + b) % m,
{
    vstd::arithmetic::div_mod::lemma_add_mod_noop(base, a, m);
    vstd::arithmetic::div_mod::lemma_add_mod_noop(base, b, m);
    vstd::arithmetic::div_mod::lemma_mod_bound(base, m);
    vstd::arithmetic::div_mod::lemma_small_mod(a as nat, m as nat);
    vstd::arithmetic::div_mod::lemma_small_mod(b as nat, m as nat);
    let b0 = base % m;
    assert((base + a) % m == (b0 + a) % m);
    assert((base + b) % m == (b0 + b) % m);
    assert((b0 + a) % m == if b0 + a < m {
        b0 + a
    } else {
        b0 + a - m
    }) by {
        if b0 + a < m {
            vstd::arithmetic::div_mod::lemma_small_mod((b0 + a) as nat, m as nat);
        } else {
            vstd::arithmetic::div_mod::lemma_mod_sub_multiples_vanish(b0 + a, m);
            vstd::arithmetic::div_mod::lemma_small_mod((b0 + a - m) as nat, m as nat);
        }
    }
    assert((b0 + b) % m == if b0 + b < m {
        b0 + b
    } else {
        b0 + b - m
    }) by {
        if b0 + b < m {
            vstd::arithmetic::div_mod::lemma_small_mod((b0 + b) as nat, m as nat);
        } else {
            vstd::arithmetic::div_mod::lemma_mod_sub_multiples_vanish(b0 + b, m);
            vstd::arithmetic::div_mod::lemma_small_mod((b0 + b - m) as nat, m as nat);
        }
    }
}

/// When the sprite has at most 32 rows, different sprite bits land on
/// different pixels.
pub proof fn lemma_targets_distinct(x: int, y: int, len: int, k1: int, k2: int)
    requires
        0 <= x,
        0 <= y,
        len <= 32,
        0 <= k1 < 8 * len,
        0 <= k2 < 8 * len,
        k1 != k2,
    ensures
        target_idx(x, y, k1) != target_idx(x, y, k2),
{
    let j1 = k1 / 8;
    let i1 = k1 % 8;
    let j2 = k2 / 8;
    let i2 = k2 % 8;
    vstd::arithmetic::div_mod::lemma_fundamental_div_mod(k1, 8);
    vstd::arithmetic::div_mod::lemma_fundamental_div_mod(k2, 8);
    vstd::arithmetic::div_mod::lemma_mod_bound(k1, 8);
    vstd::arithmetic::div_mod::lemma_mod_bound(k2, 8);
    assert(0 <= j1 < len && 0 <= j2 < len) by (nonlinear_arith)
        requires
            k1 == 8 * j1 + i1,
            k2 == 8 * j2 + i2,
            0 <= i1 < 8,
            0 <= i2 < 8,
            0 <= k1 < 8 * len,
            0 <= k2 < 8 * len,
    ;
    vstd::arithmetic::div_mod::lemma_mod_bound(y + j1, 32);
    vstd::arithmetic::div_mod::lemma_mod_bound(y + j2, 32);
    vstd::arithmetic::div_mod::lemma_mod_bound(x + i1, 64);
    vstd::arithmetic::div_mod::lemma_mod_bound(x + i2, 64);
    if j1 == j2 {
        lemma_wrap_distinct(x, i1, i2, 64);
    } else {
        lemma_wrap_distinct(y, j1, j2, 32);
    }
}

/// A pixel whose sprite bit has not been processed yet is still unchanged.
proof fn lemma_draw_untouched(buf: Seq<bool>, x: int, y: int, sprite: Seq<u8>, k: int, m: int)
    requires
        0 <= x,
        0 <= y,
        buf.len() == 2048,
        sprite.len() <= 32,
        0 <= k <= m < 8 * sprite.len(),
    ensures
        draw_buf(buf, x, y, sprite, k)[target_idx(x, y, m)] == buf[target_idx(x, y, m)],
    decreases k,
{
    if k > 0 {
        lemma_draw_untouched(buf, x, y, sprite, k - 1, m);
        lemma_draw_buf_len(buf, x, y, sprite, k - 1);
        lemma_target_in_range(x, y, k - 1);
        lemma_target_in_range(x, y, m);
        lemma_targets_distinct(x, y, sprite.len() as int, k - 1, m);
    }
}

/// After processing `k` bits, a pixel already covered by bit `m` holds its
/// old value XORed with that sprite bit.
pub proof fn lemma_pixel_after(buf: Seq<bool>, x: int, y: int, sprite: Seq<u8>, k: int, m: int)
    requires
        0 <= x,
        0 <= y,
        buf.len() == 2048,
        sprite.len() <= 32,
        0 <= m < k <= 8 * sprite.len(),
    ensures
        draw_buf(buf, x, y, sprite, k)[target_idx(x, y, m)] == (buf[target_idx(x, y, m)]
            != sprite_bit(sprite, m)),
    decreases k,
{
    lemma_draw_buf_len(buf, x, y, sprite, k - 1);
    lemma_target_in_range(x, y, k - 1);
    lemma_target_in_range(x, y, m);
    if m == k - 1 {
        lemma_draw_untouched(buf, x, y, sprite, k - 1, m);
    } else {
        lemma_pixel_after(buf, x, y, sprite, k - 1, m);
        lemma_targets_distinct(x, y, sprite.len() as int, k - 1, m);
    }
}

/// The collision flag is exactly "some set sprite bit fell on a pixel that
/// was already on before the blit" (for sprites of at most 32 rows, where no
/// pixel is visited twice).
pub proof fn lemma_collision_exact(buf: Seq<bool>, x: int, y: int, sprite: Seq<u8>, k: int)
    requires
        0 <= x,
        0 <= y,
        buf.len() == 2048,
        sprite.len() <= 32,
        0 <= k <= 8 * sprite.len(),
    ensures
        draw_collision(buf, x, y, sprite, k) <==> exists|m: int|
            0 <= m < k && sprite_bit(sprite, m) && buf[target_idx(x, y, m)],
    decreases k,
{
    if k > 0 {
        lemma_collision_exact(buf, x, y, sprite, k - 1);
        lemma_draw_untouched(buf, x, y, sprite, k - 1, k - 1);
        if draw_collision(buf, x, y, sprite, k) {
            if draw_collision(buf, x, y, sprite, k - 1) {
                let m = choose|m: int|
                    0 <= m < k - 1 && sprite_bit(sprite, m) && buf[target_idx(x, y, m)];
                assert(0 <= m < k && sprite_bit(sprite, m) && buf[target_idx(x, y, m)]);
            } else {
                assert(sprite_bit(sprite, k - 1) && buf[target_idx(x, y, k - 1)]);
            }
        }
        if exists|m: int| 0 <= m < k && sprite_bit(sprite, m) && buf[target_idx(x, y, m)] {
            let m = choose|m: int| 0 <= m < k && sprite_bit(sprite, m) && buf[target_idx(x, y, m)];
            if m < k - 1 {
                assert(draw_collision(buf, x, y, sprite, k - 1));
            } else {
                assert(draw_buf(buf, x, y, sprite, k - 1)[target_idx(x, y, k - 1)] == buf[target_idx(
                    x,
                    y,
                    k - 1,
                )]);
            }
        }
    }
}

/// Collision flags of a double blit over an all-off region: the first draw
/// reports no collision, and the second draw (which turns those same pixels
/// back off) reports a collision exactly when the sprite has any set bit.
pub proof fn lemma_double_draw_collision(buf: Seq<bool>, x: int, y: int, sprite: Seq<u8>)
    requires
        0 <= x,
        0 <= y,
        buf.len() == 2048,
        sprite.len() <= 32,
        forall|m: int| 0 <= m < 8 * sprite.len() ==> !buf[target_idx(x, y, m)],
    ensures
        !draw_collision(buf, x, y, sprite, 8 * sprite.len() as int),
        draw_collision(
            draw_buf(buf, x, y, sprite, 8 * sprite.len() as int),
            x,
            y,
            sprite,
            8 * sprite.len() as int,
        ) <==> exists|m: int| 0 <= m < 8 * sprite.len() && sprite_bit(sprite, m),
{
    let k = 8 * sprite.len() as int;
    lemma_collision_exact(buf, x, y, sprite, k);
    let d = draw_buf(buf, x, y, sprite, k);
    lemma_draw_buf_len(buf, x, y, sprite, k);
    lemma_collision_exact(d, x, y, sprite, k);
    assert forall|m: int| 0 <= m < k implies d[target_idx(x, y, m)] == sprite_bit(sprite, m) by {
        lemma_pixel_after(buf, x, y, sprite, k, m);
    }
    if draw_collision(d, x, y, sprite, k) {
        let m = choose|m: int| 0 <= m < k && sprite_bit(sprite, m) && d[target_idx(x, y, m)];
        assert(0 <= m < 8 * sprite.len() && sprite_bit(sprite, m));
    }
    if exists|m: int| 0 <= m < 8 * sprite.len() && sprite_bit(sprite, m) {
        let m = choose|m: int| 0 <= m < 8 * sprite.len() && sprite_bit(sprite, m);
        assert(0 <= m < k && sprite_bit(sprite, m) && d[target_idx(x, y, m)]);
    }
}

pub struct Display {
    buffer: Vec<bool>,
}

impl View for Display {
    type V = Seq<bool>;

    closed spec fn view(&self) -> Seq<bool> {
        self.buffer@
    }
}

impl Display {
    pub closed spec fn wf(&self) -> bool {
        self.buffer@.len() == 2048
    }

    pub fn new() -> (d: Display)
        ensures
            d.wf(),
            d@ == blank_screen(),
    {
        let d = Display { buffer: vec![false; 2048] };
        proof {
            assert(d@ =~= blank_screen());
        }
        d
    }

    /// Reset every pixel to off, whatever the buffer held before.
    pub fn clear(&mut self)
        ensures
            final(self).wf(),
            final(self)@ == blank_screen(),
    {
        self.buffer = vec![false; 2048];
        proof {
            assert(self@ =~= blank_screen());
        }
    }

    /// A copy of the current pixel grid, row-major.
    pub fn get_buffer(&self) -> (buf: Vec<bool>)
        requires
            self.wf(),
        ensures
            buf@ == self@,
    {
        let mut out: Vec<bool> = Vec::new();
        let mut i: usize = 0;
        while i < 2048
            invariant
                i <= 2048,
                self.wf(),
                out@ == self@.subrange(0, i as int),
            decreases 2048 - i,
        {
            out.push(self.buffer[i]);
            proof {
                assert(out@ =~= self@.subrange(0, i + 1));
            }
            i += 1;
        }
        proof {
            assert(out@ =~= self@);
        }
        out
    }

    /// XOR-blit the sprite at `(starting_x, starting_y)` with toroidal
    /// wrap-around; the result reports whether any pixel went from on to off.
    pub fn draw(&mut self, starting_x: u8, starting_y: u8, memory: &[u8]) -> (collision: bool)
        requires
            old(self).wf(),
        ensures
            final(self).wf(),
            final(self)@ == draw_buf(
                old(self)@,
                starting_x as int,
                starting_y as int,
                memory@,
                8 * memory@.len() as int,
            ),
            collision == draw_collision(
                old(self)@,
                starting_x as int,
                starting_y as int,
                memory@,
                8 * memory@.len() as int,
            ),
    {
        let ghost buf0 = self@;
        let ghost gx = starting_x as int;
        let ghost gy = starting_y as int;
        let n = memory.len();
        let mut collision = false;
        let mut j: usize = 0;
        let mut cur_y: usize = (starting_y as usize) % 32;
        proof {
            vstd::arithmetic::div_mod::lemma_add_mod_noop(gy, 0, 32);
        }
        while j < n
            invariant
                j <= n,
                n == memory@.len(),
                self.wf(),
                cur_y == (gy + j) % 32,
                self@ == draw_buf(buf0, gx, gy, memory@, 8 * j),
                collision == draw_collision(buf0, gx, gy, memory@, 8 * j),
                buf0.len() == 2048,
                gx == starting_x as int,
                gy == starting_y as int,
            decreases n - j,
        {
            let block = memory[j];
            let mut i: usize = 0;
            while i < 8
                invariant
                    i <= 8,
                    j < n,
                    n == memory@.len(),
                    block == memory@[j as int],
                    self.wf(),
                    cur_y == (gy + j) % 32,
                    self@ == draw_buf(buf0, gx, gy, memory@, 8 * j + i),
                    collision == draw_collision(buf0, gx, gy, memory@, 8 * j + i),
                    buf0.len() == 2048,
                    gx == starting_x as int,
                    gy == starting_y as int,
                decreases 8 - i,
            {
                let ghost k: int = 8 * (j as int) + (i as int);
                proof {
                    assert(k / 8 == j as int && k % 8 == i as int) by (nonlinear_arith)
                        requires
                            k == 8 * (j as int) + (i as int),
                            0 <= (i as int) < 8,
                            0 <= (j as int),
                    ;
                }
                let cur_x: usize = (starting_x as usize + i) % 64;
                let idx: usize = cur_y * 64 + cur_x;
                proof {
                    assert(cur_y < 32 && cur_x < 64);
                    assert(cur_x as int == (gx + k % 8) % 64);
                    assert(cur_y as int == (gy + k / 8) % 32);
                    assert(idx == target_idx(gx, gy, k));
                }
                let shift: u8 = (7 - i) as u8;
                let cur_bit: u8 = (block >> shift) & 1;
                proof {
                    assert(cur_bit == 1 <==> sprite_bit(memory@, k));
                }
                if cur_bit == 1 {
                    let px = self.buffer[idx];
                    self.buffer[idx] = !px;
                    if px {
                        collision = true;
                    }
                }
                proof {
                    assert(self@ == draw_buf(buf0, gx, gy, memory@, k + 1));
                    assert(collision == draw_collision(buf0, gx, gy, memory@, k + 1));
                }
                i += 1;
            }
            proof {
                vstd::arithmetic::div_mod::lemma_add_mod_noop((gy + j) % 32, 1, 32);
                vstd::arithmetic::div_mod::lemma_mod_twice(gy + j, 32);
                vstd::arithmetic::div_mod::lemma_add_mod_noop(gy + j, 1, 32);
            }
            cur_y = (cur_y + 1) % 32;
            j += 1;
        }
        collision
    }
}

} // verus!
