use vstd::prelude::*;
use crate::color::{ColorScheme, Rgb, spec_color_of};
use crate::glyphs;
use crate::rng;
use crate::settings::{Settings, MAX_DROP_LEN};

verus! {

/// One cell write emitted by a drop's advance: a glyph and its color at a
/// visible screen position, or a blank that erases the trailing edge.
#[derive(Clone, Copy, PartialEq, Eq, Structural, Debug)]
pub struct DrawCmd {
    pub x: u16,
    pub y: u16,
    pub glyph: char,
    pub color: Rgb,
}

/// Turn a spec channel triple into the stored color.
pub open spec fn rgb_of(t: (int, int, int)) -> Rgb {
    Rgb { r: t.0 as u8, g: t.1 as u8, b: t.2 as u8 }
}

/// One falling column: a fixed horizontal index, a head row that may lie
/// above or below the visible area, a speed divisor, and a glyph trail.
pub struct Drop {
    pub x: u16,
    pub y: i32,
    pub speed: u8,
    pub length: usize,
    pub glyphs: Vec<char>,
    pub tick: u8,
}

impl Drop {
    /// The invariant every drop keeps: the trail holds exactly `length`
    /// charset glyphs, the speed divisor is positive and bounds the tick
    /// counter, and the head never sits above its spawn range.
    pub open spec fn wf(self) -> bool {
        &&& 1 <= self.length <= MAX_DROP_LEN
        &&& self.glyphs@.len() == self.length
        &&& (forall|i: int|
            0 <= i < self.glyphs@.len() ==> glyphs::charset().contains(#[trigger] self.glyphs@[i]))
        &&& 1 <= self.speed
        &&& self.tick < self.speed
        &&& -30 <= self.y
    }

    /// The tail has moved strictly past the bottom of the visible area,
    /// with the full height as extra slack before removal.
    pub open spec fn done_spec(self, height: u16) -> bool {
        self.y - self.length > height
    }

    /// The cell `i` positions behind the head, as painted this frame.
    pub open spec fn spec_draw_at(self, scheme: ColorScheme, i: int) -> DrawCmd {
        DrawCmd {
            x: self.x,
            y: (self.y - i) as u16,
            glyph: self.glyphs@[i],
            color: rgb_of(spec_color_of(scheme, i, self.length as int, self.x as int)),
        }
    }

    /// Whether the cell `i` positions behind the head is on screen.
    pub open spec fn spec_visible(self, height: u16, i: int) -> bool {
        0 <= self.y - i < height
    }

    /// The visible cells among the first `n` trail positions, in order.
    pub open spec fn spec_draws_prefix(self, scheme: ColorScheme, height: u16, n: int) -> Seq<
        DrawCmd,
    >
        decreases n,
    {
        if n <= 0 {
            Seq::empty()
        } else {
            self.spec_draws_prefix(scheme, height, n - 1) + if self.spec_visible(height, n - 1) {
                seq![self.spec_draw_at(scheme, n - 1)]
            } else {
                Seq::empty()
            }
        }
    }

    /// The blank that erases the cell just past the tail, when visible.
    pub open spec fn spec_tail_draw(self, height: u16) -> Seq<DrawCmd> {
        if 0 <= self.y - self.length < height {
            seq![
                DrawCmd {
                    x: self.x,
                    y: (self.y - self.length) as u16,
                    glyph: ' ',
                    color: Rgb { r: 0, g: 0, b: 0 },
                },
            ]
        } else {
            Seq::empty()
        }
    }

    /// Everything one advancing frame paints: the visible trail cells from
    /// the head backwards, then the blank at the trailing edge.
    pub open spec fn spec_frame_draws(self, scheme: ColorScheme, height: u16) -> Seq<DrawCmd> {
        self.spec_draws_prefix(scheme, height, self.length as int) + self.spec_tail_draw(height)
    }

    /// Spawn a drop at column `x`: length and speed sampled from the
    /// settings ranges, the head a little above the visible area, and the
    /// trail filled with charset glyphs.
    pub fn new(x: u16, settings: &Settings) -> (d: Drop)
        requires
            settings.wf(),
        ensures
            d.wf(),
            d.x == x,
            -30 <= d.y < 0,
            settings.min_length <= d.length <= settings.max_length,
            settings.min_speed <= d.speed <= settings.max_speed,
            d.tick == 0,
    {
        proof {
            glyphs::lemma_charset_len();
        }
        let length = rng::rand_between(settings.min_length as u64, settings.max_length as u64)
            as usize;
        let speed = rng::rand_between(settings.min_speed as u64, settings.max_speed as u64) as u8;
        let y = -(rng::rand_between(1, 30) as i32);
        let n = glyphs::charset_len();
        let mut buf: Vec<char> = Vec::new();
        let mut k: usize = 0;
        while k < length
            invariant
                k <= length,
                buf@.len() == k,
                n == glyphs::charset().len(),
                n == 133,
                forall|i: int|
                    0 <= i < buf@.len() ==> glyphs::charset().contains(#[trigger] buf@[i]),
            decreases length - k,
        {
            let idx = rng::rand_between(0, (n - 1) as u64) as usize;
            buf.push(glyphs::charset_char(idx));
            k += 1;
        }
        Drop { x, y, speed, length, glyphs: buf, tick: 0 }
    }

    /// One simulation tick. Every `speed` ticks the head advances one row,
    /// up to two trail glyphs shimmer, and the frame's cell writes are
    /// returned; on every other tick nothing is painted and only the tick
    /// counter moves.
    pub fn update(&mut self, height: u16, color_scheme: ColorScheme) -> (draws: Vec<DrawCmd>)
        requires
            old(self).wf(),
            old(self).y <= 1000000,
        ensures
            final(self).wf(),
            final(self).x == old(self).x,
            final(self).length == old(self).length,
            final(self).speed == old(self).speed,
            final(self).tick == ((old(self).tick + 1) % (old(self).speed as int)) as u8,
            final(self).tick != 0 ==> final(self).y == old(self).y,
            final(self).tick != 0 ==> final(self).glyphs@ == old(self).glyphs@,
            final(self).tick != 0 ==> draws@ === Seq::<DrawCmd>::empty(),
            final(self).tick == 0 ==> final(self).y == old(self).y + 1,
            final(self).tick == 0 ==> (draws@ === final(self).spec_frame_draws(color_scheme, height)),
    {
        proof {
            glyphs::lemma_charset_len();
        }
        self.tick = (self.tick + 1) % self.speed;
        if self.tick != 0 {
            return Vec::new();
        }
        self.y = self.y + 1;

        // Shimmer: up to two uniformly chosen trail glyphs are replaced.
        let n = glyphs::charset_len();
        let shimmer_count = rng::rand_between(0, 2);
        let ghost frame = *self;
        let mut s: u64 = 0;
        while s < shimmer_count
            invariant
                s <= shimmer_count,
                self.wf(),
                self.x == frame.x,
                self.y == frame.y,
                self.speed == frame.speed,
                self.length == frame.length,
                self.tick == frame.tick,
                n == glyphs::charset().len(),
                n == 133,
            decreases shimmer_count - s,
        {
            if rng::rand_between(0, 1) == 1 {
                let idx = rng::rand_between(0, (self.length - 1) as u64) as usize;
                let c = glyphs::charset_char(rng::rand_between(0, (n - 1) as u64) as usize);
                self.glyphs[idx] = c;
            }
            s += 1;
        }

        // Emit the visible trail cells, head first.
        let mut draws: Vec<DrawCmd> = Vec::new();
        let mut i: usize = 0;
        while i < self.length
            invariant
                self.wf(),
                -29 <= self.y <= 1000001,
                i <= self.length,
                draws@ === self.spec_draws_prefix(color_scheme, height, i as int),
            decreases self.length - i,
        {
            let cy = self.y - (i as i32);
            if cy >= 0 && cy < height as i32 {
                let color = color_scheme.get_colors(i, self.length, self.x);
                let cmd = DrawCmd { x: self.x, y: cy as u16, glyph: self.glyphs[i], color };
                proof {
                    assert(cmd == self.spec_draw_at(color_scheme, i as int));
                }
                draws.push(cmd);
            }
            proof {
                assert(self.spec_draws_prefix(color_scheme, height, i + 1)
                    =~= self.spec_draws_prefix(color_scheme, height, i as int)
                    + if self.spec_visible(height, i as int) {
                        seq![self.spec_draw_at(color_scheme, i as int)]
                    } else {
                        Seq::empty()
                    });
            }
            i += 1;
        }

        // Blank the cell just past the tail so no permanent trail is left.
        let tail_y = self.y - (self.length as i32);
        if tail_y >= 0 && tail_y < height as i32 {
            draws.push(
                DrawCmd { x: self.x, y: tail_y as u16, glyph: ' ', color: Rgb { r: 0, g: 0, b: 0 } },
            );
        }
        proof {
            assert(draws@ =~= self.spec_frame_draws(color_scheme, height));
        }
        draws
    }

    /// Whether the field should retire this drop.
    pub fn is_done(&self, height: u16) -> (r: bool)
        requires
            self.wf(),
            self.y <= 1000001,
        ensures
            r == self.done_spec(height),
    {
        self.y - (self.length as i32) > height as i32
    }
}

/// Every cell in the first `n` trail positions' draws lies on screen.
proof fn lemma_draws_prefix_on_screen(d: Drop, scheme: ColorScheme, height: u16, n: int)
    ensures
        forall|i: int|
            0 <= i < d.spec_draws_prefix(scheme, height, n).len() ==> (#[trigger] d.spec_draws_prefix(
                scheme,
                height,
                n,
            )[i]).y < height,
    decreases n,
{
    if n > 0 {
        lemma_draws_prefix_on_screen(d, scheme, height, n - 1);
        let pre = d.spec_draws_prefix(scheme, height, n - 1);
        let cur = d.spec_draws_prefix(scheme, height, n);
        assert forall|i: int| 0 <= i < cur.len() implies (#[trigger] cur[i]).y < height by {
            if i < pre.len() {
                assert(cur[i] == pre[i]);
            } else {
                assert(d.spec_visible(height, n - 1));
                assert(cur[i] == d.spec_draw_at(scheme, n - 1));
            }
        }
    }
}

/// Every cell a frame's advance paints lies on screen: rows only in
/// `[0, height)`.
pub proof fn lemma_frame_draws_on_screen(d: Drop, scheme: ColorScheme, height: u16)
    ensures
        forall|i: int|
            0 <= i < d.spec_frame_draws(scheme, height).len() ==> (#[trigger] d.spec_frame_draws(
                scheme,
                height,
            )[i]).y < height,
{
    lemma_draws_prefix_on_screen(d, scheme, height, d.length as int);
}

/// A freshly spawned drop is never done: its head is still above the
/// visible area, so its tail cannot have passed below it.
pub proof fn lemma_fresh_drop_not_done(d: Drop, height: u16)
    requires
        d.wf(),
        d.y < 0,
    ensures
        !d.done_spec(height),
{
}

/// The speed divisor in numbers: starting from a zero tick counter, the
/// counter wraps to zero on every `speed`-th tick and on no other, so
/// after `t` ticks the head has advanced exactly `t / speed` rows — the
/// count grows by one precisely on the ticks where `update` reports a
/// wrapped counter.
pub proof fn lemma_advances_per_tick(t: int, speed: int)
    requires
        0 <= t,
        1 <= speed,
    ensures
        (t + 1) / speed == t / speed + if (t + 1) % speed == 0 {
            1int
        } else {
            0int
        },
{
    let q0 = t / speed;
    let r0 = t % speed;
    let q1 = (t + 1) / speed;
    let r1 = (t + 1) % speed;
    vstd::arithmetic::div_mod::lemma_fundamental_div_mod(t, speed);
    vstd::arithmetic::div_mod::lemma_fundamental_div_mod(t + 1, speed);
    vstd::arithmetic::div_mod::lemma_mod_bound(t, speed);
    vstd::arithmetic::div_mod::lemma_mod_bound(t + 1, speed);
    if r1 == 0 {
        assert(q1 == q0 + 1) by (nonlinear_arith)
            requires
                speed * q1 + r1 == speed * q0 + r0 + 1,
                r1 == 0,
                0 <= r0 < speed,
                1 <= speed,
        ;
    } else {
        assert(q1 == q0) by (nonlinear_arith)
            requires
                speed * q1 + r1 == speed * q0 + r0 + 1,
                1 <= r1 < speed,
                0 <= r0 < speed,
                1 <= speed,
        ;
    }
}

/// When a drop's head has advanced `m` rows from its initial row `y0`, it
/// is done exactly when `m` exceeds `height + length - y0`: the drop
/// retires after exactly `height + length - y0 + 1` one-row advances, each
/// of which takes `speed` ticks.
pub proof fn lemma_done_threshold(d: Drop, height: u16, y0: int, m: int)
    requires
        d.y == y0 + m,
    ensures
        d.done_spec(height) <==> m > height + d.length - y0,
{
}

} // verus!
