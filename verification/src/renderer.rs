//! Rasterization of the particle population into a pixel buffer: each
//! particle is drawn as a filled disc (a pixel is covered when its center's
//! squared distance from the particle center is at most the squared radius),
//! clipped to the viewport, later particles painted over earlier ones.

use vstd::prelude::*;
use vstd::arithmetic::div_mod::lemma_fundamental_div_mod;
use crate::fixed::{MAG_MAX, SCALE};
use crate::interaction::{models, wf_all};
use crate::particle::PModel;
use crate::simulation::Simulation;
use crate::vec2::{bounded, Vec2, V2};

verus! {

/// Pixel `(x, y)` lies in the filled disc of the particle: the squared
/// distance from the pixel center (in milli-units) to the particle center
/// is at most the squared radius.
pub open spec fn covers(pos: V2, radius: int, x: int, y: int) -> bool {
    let dx = x * (SCALE as int) - pos.x;
    let dy = y * (SCALE as int) - pos.y;
    dx * dx + dy * dy <= radius * radius
}

/// The color a pixel shows after the whole sequence is drawn in order: the
/// last particle covering it, or 0 (cleared) if none does.
pub open spec fn pixel_color(s: Seq<PModel>, x: int, y: int) -> int
    decreases s.len(),
{
    if s.len() == 0 {
        0
    } else if covers(s.last().position, s.last().radius, x, y) {
        s.last().color
    } else {
        pixel_color(s.drop_last(), x, y)
    }
}

/// Rasterizes particle snapshots into an owned pixel buffer.
pub struct Renderer {
    pub width: usize,
    pub height: usize,
    pub buffer: Vec<u32>,
}

impl Renderer {
    /// A renderer over a `width × height` pixel viewport, cleared to black.
    pub fn new(width: usize, height: usize) -> (r: Renderer)
        requires
            1 <= width <= 1_000_000_000,
            1 <= height <= 1_000_000_000,
            width * height <= usize::MAX,
        ensures
            r.width == width,
            r.height == height,
            r.buffer@.len() == width * height,
            forall|k: int| 0 <= k < r.buffer@.len() ==> r.buffer@[k] == 0,
    {
        proof {
            assert(width * height <= usize::MAX) by (nonlinear_arith)
                requires
                    width * height <= usize::MAX,
            ;
        }
        Renderer { width, height, buffer: vec![0u32; width * height] }
    }

    /// Clear the buffer and draw every particle of the simulation in order;
    /// the result shows, at each pixel, the last particle covering it.
    pub fn render(&mut self, simulation: &Simulation) -> (r: Vec<u32>)
        requires
            1 <= old(self).width <= 1_000_000_000,
            1 <= old(self).height <= 1_000_000_000,
            old(self).width * old(self).height <= usize::MAX,
            wf_all(models(simulation.particles@)),
        ensures
            final(self).width == old(self).width,
            final(self).height == old(self).height,
            r@ =~= final(self).buffer@,
            r@.len() == old(self).width * old(self).height,
            forall|x: int, y: int|
                0 <= x < old(self).width && 0 <= y < old(self).height
                    ==> r@[y * old(self).width + x] as int == #[trigger] pixel_color(
                    models(simulation.particles@),
                    x,
                    y,
                ),
    {
        let w = self.width;
        let h = self.height;
        proof {
            assert(w * h <= usize::MAX) by (nonlinear_arith)
                requires
                    w * h <= usize::MAX,
            ;
        }
        self.buffer = vec![0u32; w * h];
        let ghost s = models(simulation.particles@);
        proof {
            assert forall|x: int, y: int| 0 <= x < w && 0 <= y < h
                implies self.buffer@[y * w + x] as int == pixel_color(s.take(0), x, y) by {
                assert(0 <= y * (w as int) + x < (w as int) * (h as int)) by (nonlinear_arith)
                    requires
                        0 <= x < w as int,
                        0 <= y < h as int,
                ;
            }
        }
        let n = simulation.particles.len();
        let mut k: usize = 0;
        while k < n
            invariant
                n == simulation.particles@.len(),
                k <= n,
                s == models(simulation.particles@),
                wf_all(s),
                self.width == w,
                self.height == h,
                1 <= w <= 1_000_000_000,
                1 <= h <= 1_000_000_000,
                w * h <= usize::MAX,
                self.buffer@.len() == w * h,
                forall|x: int, y: int|
                    0 <= x < w && 0 <= y < h ==> self.buffer@[y * w + x] as int
                        == #[trigger] pixel_color(s.take(k as int), x, y),
            decreases n - k,
        {
            let p = simulation.particles[k];
            proof {
                assert(models(simulation.particles@)[k as int] == p@);
                assert(crate::particle::wf(p@));
            }
            let ghost before = self.buffer@;
            self.draw_particle(p.position, p.radius, p.color);
            proof {
                assert(s.take(k as int + 1).drop_last() =~= s.take(k as int));
                assert(s.take(k as int + 1).last() == p@);
                assert forall|x: int, y: int|
                    0 <= x < w && 0 <= y < h implies self.buffer@[y * w + x] as int
                    == #[trigger] pixel_color(s.take(k as int + 1), x, y) by {
                    assert(0 <= y * (w as int) + x < (w as int) * (h as int)) by (nonlinear_arith)
                        requires
                            0 <= x < w as int,
                            0 <= y < h as int,
                    ;
                    assert(before[y * w + x] as int == pixel_color(s.take(k as int), x, y));
                }
            }
            k = k + 1;
        }
        proof {
            assert(s.take(n as int) =~= s);
        }
        let r = self.buffer.clone();
        proof {
            assert(r@ =~= self.buffer@);
        }
        r
    }

    /// Paint the filled disc of one particle, clipped to the viewport.
    fn draw_particle(&mut self, position: Vec2, radius: i64, color: u32)
        requires
            bounded(position@),
            1 <= radius <= MAG_MAX,
            1 <= old(self).width <= 1_000_000_000,
            1 <= old(self).height <= 1_000_000_000,
            old(self).width * old(self).height <= usize::MAX,
            old(self).buffer@.len() == old(self).width * old(self).height,
        ensures
            final(self).width == old(self).width,
            final(self).height == old(self).height,
            final(self).buffer@.len() == old(self).buffer@.len(),
            forall|x: int, y: int|
                0 <= x < old(self).width && 0 <= y < old(self).height
                    ==> final(self).buffer@[y * old(self).width + x] == (
                    if covers(position@, radius as int, x, y) {
                        color
                    } else {
                        old(self).buffer@[y * old(self).width + x]
                    }),
    {
        let w = self.width;
        let h = self.height;
        let wi: i64 = w as i64;
        let hi: i64 = h as i64;
        let x_lo: i64 = position.x - radius;
        let x_hi: i64 = position.x + radius;
        let y_lo: i64 = position.y - radius;
        let y_hi: i64 = position.y + radius;
        let ghost old_buf = self.buffer@;

        // Clipped pixel band certainly containing every covered pixel.
        let sx: i64 = if x_lo < 0 {
            0
        } else {
            crate::fixed::muldiv(x_lo, 1, SCALE)
        };
        let ex_raw: i64 = if x_hi < 0 {
            -1
        } else {
            crate::fixed::muldiv(x_hi, 1, SCALE)
        };
        let ex: i64 = if ex_raw > wi - 1 {
            wi - 1
        } else {
            ex_raw
        };
        let sy: i64 = if y_lo < 0 {
            0
        } else {
            crate::fixed::muldiv(y_lo, 1, SCALE)
        };
        let ey_raw: i64 = if y_hi < 0 {
            -1
        } else {
            crate::fixed::muldiv(y_hi, 1, SCALE)
        };
        let ey: i64 = if ey_raw > hi - 1 {
            hi - 1
        } else {
            ey_raw
        };

        proof {
            lemma_band(position@, radius as int, x_lo as int, x_hi as int, sx as int, ex as int, wi as int);
            lemma_band(V2 { x: position@.y, y: position@.x }, radius as int, y_lo as int, y_hi as int, sy as int, ey as int, hi as int);
            assert forall|a: int, b: int| #![auto]
                0 <= a < w && 0 <= b < h && covers(position@, radius as int, a, b)
                implies sx <= a <= ex && sy <= b <= ey by {
                assert(covers(V2 { x: position@.y, y: position@.x }, radius as int, b, a));
            }
        }

        proof {
            assert(self.buffer@ == old_buf);
            assert forall|a: int, b: int|
                0 <= a < w && 0 <= b < h implies #[trigger] painted_at(
                self.buffer@, old_buf, position@, radius as int, color, w as int, sy as int,
                sx as int, a, b,
            ) by {
                if covers(position@, radius as int, a, b) {
                    assert(sx <= a <= ex && sy <= b <= ey);
                }
            }
            assert(disc_painted(
                self.buffer@, old_buf, position@, radius as int, color, w as int, h as int,
                sy as int, sx as int,
            ));
        }

        let mut yy: i64 = sy;
        while yy <= ey
            invariant
                sy <= yy <= ey + 1 || (ey < sy && yy == sy),
                0 <= sy,
                ey <= hi - 1,
                0 <= sx,
                ex <= wi - 1,
                bounded(position@),
                1 <= radius <= MAG_MAX,
                wi == w,
                hi == h,
                1 <= w <= 1_000_000_000,
                1 <= h <= 1_000_000_000,
                w * h <= usize::MAX,
                self.width == w,
                self.height == h,
                self.buffer@.len() == w * h,
                forall|a: int, b: int| #![auto]
                    0 <= a < w && 0 <= b < h && covers(position@, radius as int, a, b)
                        ==> sx <= a <= ex && sy <= b <= ey,
                disc_painted(
                    self.buffer@, old_buf, position@, radius as int, color, w as int, h as int,
                    yy as int, sx as int,
                ),
            decreases ey + 1 - yy,
        {
            let mut xx: i64 = sx;
            while xx <= ex
                invariant
                    sx <= xx <= ex + 1 || (ex < sx && xx == sx),
                    0 <= sx,
                    ex <= wi - 1,
                    sy <= yy <= ey,
                    0 <= sy,
                    ey <= hi - 1,
                    bounded(position@),
                    1 <= radius <= MAG_MAX,
                    wi == w,
                    hi == h,
                    1 <= w <= 1_000_000_000,
                    1 <= h <= 1_000_000_000,
                    w * h <= usize::MAX,
                    self.width == w,
                    self.height == h,
                    self.buffer@.len() == w * h,
                    forall|a: int, b: int| #![auto]
                        0 <= a < w && 0 <= b < h && covers(position@, radius as int, a, b)
                            ==> sx <= a <= ex && sy <= b <= ey,
                    disc_painted(
                        self.buffer@, old_buf, position@, radius as int, color, w as int,
                        h as int, yy as int, xx as int,
                    ),
                decreases ex + 1 - xx,
            {
                let dx: i64 = xx * SCALE - position.x;
                let dy: i64 = yy * SCALE - position.y;
                proof {
                    assert((dx as int) * (dx as int) + (dy as int) * (dy as int)
                        < 0x1000_0000_0000_0000_0000_0000_0000_0000int) by (nonlinear_arith)
                        requires
                            -5_000_000_000_000_000int <= dx as int <= 5_000_000_000_000_000int,
                            -5_000_000_000_000_000int <= dy as int <= 5_000_000_000_000_000int,
                    ;
                    assert(0 <= (dx as int) * (dx as int) && 0 <= (dy as int) * (dy as int))
                        by (nonlinear_arith);
                    assert((radius as int) * (radius as int)
                        < 0x1000_0000_0000_0000_0000_0000_0000_0000int) by (nonlinear_arith)
                        requires
                            1 <= radius as int <= 4_000_000_000_000_000int,
                    ;
                }
                let d2: i128 = (dx as i128) * (dx as i128) + (dy as i128) * (dy as i128);
                let r2: i128 = (radius as i128) * (radius as i128);
                let ghost prev = self.buffer@;
                if d2 <= r2 {
                    proof {
                        assert((yy as int) * (w as int) + (xx as int) < (w as int) * (h as int))
                            by (nonlinear_arith)
                            requires
                                0 <= (xx as int) < w as int,
                                0 <= (yy as int) < h as int,
                        ;
                        assert(covers(position@, radius as int, xx as int, yy as int));
                    }
                    let idx: usize = (yy as usize) * w + (xx as usize);
                    self.buffer[idx] = color;
                    proof {
                        assert(self.buffer@ == prev.update(idx as int, color));
                        assert forall|a: int, b: int|
                            0 <= a < w && 0 <= b < h implies #[trigger] painted_at(
                            self.buffer@, old_buf, position@, radius as int, color, w as int,
                            yy as int, xx as int + 1, a, b,
                        ) by {
                            assert(painted_at(
                                prev, old_buf, position@, radius as int, color, w as int,
                                yy as int, xx as int, a, b,
                            ));
                            assert(0 <= b * (w as int) + a < (w as int) * (h as int))
                                by (nonlinear_arith)
                                requires
                                    0 <= a < w as int,
                                    0 <= b < h as int,
                            ;
                            if b * (w as int) + a == idx as int {
                                assert(a == xx as int && b == yy as int) by (nonlinear_arith)
                                    requires
                                        0 <= a < w as int,
                                        0 <= b < h as int,
                                        0 <= (xx as int) < w as int,
                                        0 <= (yy as int) < h as int,
                                        b * (w as int) + a == (yy as int) * (w as int) + xx as int,
                                ;
                            } else {
                                assert(self.buffer@[b * w + a] == prev[b * w + a]);
                            }
                        }
                        assert(disc_painted(
                            self.buffer@, old_buf, position@, radius as int, color, w as int,
                            h as int, yy as int, xx as int + 1,
                        ));
                    }
                } else {
                    proof {
                        assert(!covers(position@, radius as int, xx as int, yy as int));
                        assert forall|a: int, b: int|
                            0 <= a < w && 0 <= b < h implies #[trigger] painted_at(
                            self.buffer@, old_buf, position@, radius as int, color, w as int,
                            yy as int, xx as int + 1, a, b,
                        ) by {
                            assert(painted_at(
                                self.buffer@, old_buf, position@, radius as int, color, w as int,
                                yy as int, xx as int, a, b,
                            ));
                            if a == xx as int && b == yy as int {
                                assert(!covers(position@, radius as int, a, b));
                            }
                        }
                        assert(disc_painted(
                            self.buffer@, old_buf, position@, radius as int, color, w as int,
                            h as int, yy as int, xx as int + 1,
                        ));
                    }
                }
                xx = xx + 1;
            }
            proof {
                assert forall|a: int, b: int|
                    0 <= a < w && 0 <= b < h implies #[trigger] painted_at(
                    self.buffer@, old_buf, position@, radius as int, color, w as int,
                    yy as int + 1, sx as int, a, b,
                ) by {
                    assert(painted_at(
                        self.buffer@, old_buf, position@, radius as int, color, w as int,
                        yy as int, xx as int, a, b,
                    ));
                    if covers(position@, radius as int, a, b) {
                        assert(sx <= a <= ex && sy <= b <= ey);
                    }
                }
                assert(disc_painted(
                    self.buffer@, old_buf, position@, radius as int, color, w as int, h as int,
                    yy as int + 1, sx as int,
                ));
            }
            yy = yy + 1;
        }
        proof {
            assert forall|x: int, y: int|
                0 <= x < w && 0 <= y < h implies self.buffer@[y * w + x] == (
                if covers(position@, radius as int, x, y) {
                    color
                } else {
                    old_buf[y * w + x]
                }) by {
                assert(painted_at(
                    self.buffer@, old_buf, position@, radius as int, color, w as int,
                    yy as int, sx as int, x, y,
                ));
                if covers(position@, radius as int, x, y) {
                    assert(sx <= x <= ex && sy <= y <= ey);
                }
            }
        }
    }
}

/// One pixel's content agrees with a row-major sweep of the disc that has
/// passed row `yy` up to column `xx`: the pixel shows `color` when the disc
/// covers it and the sweep has visited it, and its prior content otherwise.
pub open spec fn painted_at(
    buf: Seq<u32>,
    base: Seq<u32>,
    pos: V2,
    radius: int,
    color: u32,
    w: int,
    yy: int,
    xx: int,
    a: int,
    b: int,
) -> bool {
    buf[b * w + a] == (
    if covers(pos, radius, a, b) && (b < yy || (b == yy && a < xx)) {
        color
    } else {
        base[b * w + a]
    })
}

/// Every viewport pixel agrees with the sweep state `(yy, xx)`.
pub open spec fn disc_painted(
    buf: Seq<u32>,
    base: Seq<u32>,
    pos: V2,
    radius: int,
    color: u32,
    w: int,
    h: int,
    yy: int,
    xx: int,
) -> bool {
    forall|a: int, b: int|
        0 <= a < w && 0 <= b < h ==> #[trigger] painted_at(
            buf, base, pos, radius, color, w, yy, xx, a, b,
        )
}

/// Every pixel column `a` of a covered pixel lies inside the clipped band
/// `[s, e]` computed from the particle's extent on that axis. Stated for one
/// axis; the other follows by swapping coordinates.
proof fn lemma_band(pos: V2, radius: int, lo: int, hi_m: int, s: int, e: int, extent: int)
    requires
        radius >= 1,
        lo == pos.x - radius,
        hi_m == pos.x + radius,
        s == (if lo < 0 { 0int } else { crate::fixed::sat(crate::fixed::tdiv(lo, SCALE as int)) }),
        e == (if hi_m < 0 { -1int } else if crate::fixed::sat(crate::fixed::tdiv(hi_m, SCALE as int)) > extent - 1 { extent - 1 } else { crate::fixed::sat(crate::fixed::tdiv(hi_m, SCALE as int)) }),
        -(MAG_MAX as int) <= pos.x <= MAG_MAX as int,
        radius <= MAG_MAX as int,
    ensures
        forall|a: int, b: int| #![auto] 0 <= a < extent && covers(pos, radius, a, b)
            ==> s <= a <= e,
{
    assert forall|a: int, b: int| #![auto] 0 <= a < extent && covers(pos, radius, a, b)
        implies s <= a <= e by {
        let dx = a * (SCALE as int) - pos.x;
        let dy = b * (SCALE as int) - pos.y;
        assert(dx * dx <= radius * radius) by (nonlinear_arith)
            requires
                dx * dx + dy * dy <= radius * radius,
        ;
        assert(-radius <= dx <= radius) by (nonlinear_arith)
            requires
                dx * dx <= radius * radius,
                radius >= 1,
        ;
        assert(lo <= a * (SCALE as int) <= hi_m);
        // Left edge: a * SCALE >= lo implies a >= floor(lo / SCALE).
        if lo >= 0 {
            lemma_fundamental_div_mod(lo, SCALE as int);
            let q = lo / (SCALE as int);
            assert(q * (SCALE as int) <= lo);
            assert(a >= q) by (nonlinear_arith)
                requires
                    a * (SCALE as int) >= q * (SCALE as int),
                    SCALE as int > 0,
            ;
            assert(crate::fixed::tdiv(lo, SCALE as int) == q);
            assert(-(MAG_MAX as int) <= q <= MAG_MAX as int) by (nonlinear_arith)
                requires
                    0 <= lo <= 2 * (MAG_MAX as int),
                    q == lo / (SCALE as int),
                    q * (SCALE as int) <= lo,
                    q >= 0,
                    SCALE as int == 1000,
            ;
        }
        // Right edge: a * SCALE <= hi_m implies a <= floor(hi_m / SCALE).
        assert(a * (SCALE as int) >= 0) by (nonlinear_arith)
            requires
                a >= 0,
        ;
        assert(hi_m >= 0);
        lemma_fundamental_div_mod(hi_m, SCALE as int);
        let qh = hi_m / (SCALE as int);
        assert(a <= qh) by (nonlinear_arith)
            requires
                a * (SCALE as int) <= hi_m,
                hi_m == qh * (SCALE as int) + hi_m % (SCALE as int),
                0 <= hi_m % (SCALE as int) < SCALE as int,
                SCALE as int > 0,
        ;
        assert(crate::fixed::tdiv(hi_m, SCALE as int) == qh);
        assert(0 <= qh <= MAG_MAX as int) by (nonlinear_arith)
            requires
                0 <= hi_m <= 2 * (MAG_MAX as int),
                qh == hi_m / (SCALE as int),
                hi_m == qh * (SCALE as int) + hi_m % (SCALE as int),
                0 <= hi_m % (SCALE as int) < SCALE as int,
                SCALE as int == 1000,
        ;
    }
}

} // verus!
