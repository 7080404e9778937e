//! The off-screen framebuffer every frame is drawn into before it is
//! flushed to the panel: one RGB565 value per pixel, row by row.

use vstd::prelude::*;
use vstd::arithmetic::div_mod::{lemma_fundamental_div_mod, lemma_fundamental_div_mod_converse};

use crate::display::{DISP_H, DISP_W, PIXEL_COUNT};

verus! {

/// A rectangle by its top-left corner and size, as drawing calls give it.
#[derive(Debug, Clone, Copy, PartialEq, Eq, Structural)]
pub struct Rect {
    pub x: i32,
    pub y: i32,
    pub w: u32,
    pub h: u32,
}

/// `v` clamped into `lo..=hi`.
pub open spec fn clamp_int(v: int, lo: int, hi: int) -> int {
    if v < lo {
        lo
    } else if v > hi {
        hi
    } else {
        v
    }
}

/// A size reinterpreted as a signed 32-bit value, as `as i32` does.
pub open spec fn wrapped_i32(v: u32) -> int {
    if v <= i32::MAX {
        v as int
    } else {
        v - 0x1_0000_0000
    }
}

fn wrap_i32(v: u32) -> (res: i64)
    ensures
        res == wrapped_i32(v),
{
    if v <= 0x7FFF_FFFF {
        v as i64
    } else {
        v as i64 - 0x1_0000_0000
    }
}

/// Whether the far edges of `r` can be computed in `i32` without overflow
/// (`x + w - 1` and `y + h - 1`, with the size converted by `as i32`).
pub open spec fn rect_in_range(r: Rect) -> bool {
    i32::MIN <= r.x + wrapped_i32(r.w) - 1 <= i32::MAX && i32::MIN <= r.y + wrapped_i32(r.h) - 1
        <= i32::MAX
}

/// The on-screen part of `r` as inclusive bounds `(x0, y0, x1, y1)`: each
/// edge clamped to the display; empty when `x0 > x1` or `y0 > y1`.
pub open spec fn clip(r: Rect) -> (int, int, int, int) {
    (
        clamp_int(r.x as int, 0, DISP_W - 1),
        clamp_int(r.y as int, 0, DISP_H - 1),
        clamp_int(r.x + wrapped_i32(r.w) - 1, 0, DISP_W - 1),
        clamp_int(r.y + wrapped_i32(r.h) - 1, 0, DISP_H - 1),
    )
}

/// Whether pixel index `p` lies in the inclusive box `(x0, y0, x1, y1)`.
pub open spec fn in_box(p: int, b: (int, int, int, int)) -> bool {
    b.0 <= p % 240 <= b.2 && b.1 <= p / 240 <= b.3
}

/// The position of pixel `p` in row-major order within box `b`.
pub open spec fn box_rank(p: int, b: (int, int, int, int)) -> int {
    (p / 240 - b.1) * (b.2 - b.0 + 1) + (p % 240 - b.0)
}

/// Where the pixels of a fill come from: a slice of colours used in order
/// (the fill stops when it runs out), or one colour repeated.
pub enum ColorSource<'a> {
    Slice(&'a [u16]),
    Solid(u16),
}

/// How many colours a source supplies (`None`: unlimited).
pub open spec fn source_len(s: ColorSource) -> Option<int> {
    match s {
        ColorSource::Slice(c) => Some(c@.len() as int),
        ColorSource::Solid(_) => None,
    }
}

/// The `k`-th colour of a source.
pub open spec fn source_color(s: ColorSource, k: int) -> u16 {
    match s {
        ColorSource::Slice(c) => c@[k],
        ColorSource::Solid(v) => v,
    }
}

/// The pixels after filling box `b` row by row from `src`: pixel `p` of the
/// box takes the colour of its rank when the source has that many; every
/// other pixel keeps its value.
pub open spec fn fill_box(px: Seq<u16>, b: (int, int, int, int), src: ColorSource) -> Seq<u16> {
    Seq::new(
        px.len(),
        |p: int|
            if in_box(p, b) && (match source_len(src) {
                Some(n) => box_rank(p, b) < n,
                None => true,
            }) {
                source_color(src, box_rank(p, b))
            } else {
                px[p]
            },
    )
}

/// The pixels after a fill of `r`: the on-screen box filled, or nothing
/// when no part of `r` is on screen.
pub open spec fn fill_spec(px: Seq<u16>, r: Rect, src: ColorSource) -> Seq<u16> {
    let b = clip(r);
    if b.0 > b.2 || b.1 > b.3 {
        px
    } else {
        fill_box(px, b, src)
    }
}

/// The pixels after drawing `ps` in order: each on-screen `(x, y, colour)`
/// overwrites its pixel, off-screen ones are skipped.
pub open spec fn draw_spec(px: Seq<u16>, ps: Seq<(i32, i32, u16)>) -> Seq<u16>
    decreases ps.len(),
{
    if ps.len() == 0 {
        px
    } else {
        let drawn = draw_spec(px, ps.drop_last());
        let (x, y, c) = ps.last();
        if 0 <= x < DISP_W && 0 <= y < DISP_H {
            drawn.update(y * 240 + x, c)
        } else {
            drawn
        }
    }
}

/// The RGB565 framebuffer.
pub struct DisplayBuffer {
    pixels: Vec<u16>,
}

impl View for DisplayBuffer {
    type V = Seq<u16>;

    closed spec fn view(&self) -> Seq<u16> {
        self.pixels@
    }
}

/// The red, green and blue components of a raw RGB565 value.
pub open spec fn rgb565_components(raw: u16) -> (u8, u8, u8) {
    ((raw / 2048) as u8, ((raw / 32) % 64) as u8, (raw % 32) as u8)
}

proof fn lemma_rank_below_total(p: int, b: (int, int, int, int))
    requires
        in_box(p, b),
    ensures
        0 <= box_rank(p, b) < (b.2 - b.0 + 1) * (b.3 - b.1 + 1),
{
    let w = b.2 - b.0 + 1;
    let dy = p / 240 - b.1;
    let dx = p % 240 - b.0;
    assert(0 <= dy * w + dx < w * (b.3 - b.1 + 1)) by (nonlinear_arith)
        requires
            0 <= dy <= b.3 - b.1,
            0 <= dx < w,
    ;
}

proof fn lemma_rank_position(i: int, b: (int, int, int, int))
    requires
        0 <= b.0 <= b.2 < 240,
        0 <= b.1 <= b.3 < 320,
        0 <= i < (b.2 - b.0 + 1) * (b.3 - b.1 + 1),
    ensures
        ({
            let w = b.2 - b.0 + 1;
            let p = (b.1 + i / w) * 240 + b.0 + i % w;
            &&& 0 <= p < 76800
            &&& in_box(p, b)
            &&& box_rank(p, b) == i
            &&& forall|q: int| #![trigger in_box(q, b), box_rank(q, b)]
                0 <= q && in_box(q, b) && box_rank(q, b) == i ==> q == p
        }),
{
    let w = b.2 - b.0 + 1;
    let h = b.3 - b.1 + 1;
    lemma_fundamental_div_mod(i, w);
    let qd = i / w;
    let rm = i % w;
    assert(0 <= rm < w);
    assert(0 <= qd < h) by (nonlinear_arith)
        requires
            i == w * qd + rm,
            0 <= rm < w,
            0 <= i < w * h,
            w > 0,
    ;
    let p = (b.1 + qd) * 240 + b.0 + rm;
    assert(p / 240 == b.1 + qd && p % 240 == b.0 + rm) by {
        lemma_fundamental_div_mod_converse(p, 240, b.1 + qd, b.0 + rm);
    }
    assert(0 <= p < 76800);
    assert(in_box(p, b));
    assert(box_rank(p, b) == qd * w + rm);
    assert(qd * w + rm == i) by (nonlinear_arith)
        requires
            i == w * qd + rm,
    ;
    assert forall|q: int| #![trigger in_box(q, b), box_rank(q, b)]
        0 <= q && in_box(q, b) && box_rank(q, b) == i implies q == p by {
        lemma_fundamental_div_mod_converse(i, w, q / 240 - b.1, q % 240 - b.0);
        lemma_fundamental_div_mod(q, 240);
    }
}

impl DisplayBuffer {
    /// One pixel per display position.
    pub closed spec fn wf(&self) -> bool {
        self.pixels@.len() == PIXEL_COUNT
    }

    /// A black framebuffer.
    pub fn new() -> (res: Self)
        ensures
            res.wf(),
            res@ == Seq::new(PIXEL_COUNT as nat, |p: int| 0u16),
    {
        let mut pixels: Vec<u16> = Vec::new();
        while pixels.len() < PIXEL_COUNT
            invariant
                pixels@.len() <= PIXEL_COUNT,
                forall|p: int| 0 <= p < pixels@.len() ==> pixels@[p] == 0u16,
            decreases PIXEL_COUNT - pixels@.len(),
        {
            pixels.push(0);
        }
        let res = DisplayBuffer { pixels };
        assert(res@ =~= Seq::new(PIXEL_COUNT as nat, |p: int| 0u16));
        res
    }

    /// The display size, width then height.
    pub fn size(&self) -> (res: (u32, u32))
        ensures
            res == (DISP_W as u32, DISP_H as u32),
    {
        (DISP_W as u32, DISP_H as u32)
    }

    /// The raw colour of pixel `index` (row-major).
    pub fn pixel(&self, index: usize) -> (res: u16)
        requires
            self.wf(),
            index < PIXEL_COUNT,
        ensures
            res == self@[index as int],
    {
        self.pixels[index]
    }

    /// The colour components of pixel `index`, as sent to the panel.
    pub fn pixel_rgb(&self, index: usize) -> (res: (u8, u8, u8))
        requires
            self.wf(),
            index < PIXEL_COUNT,
        ensures
            res == rgb565_components(self@[index as int]),
    {
        let raw = self.pixels[index];
        let r: u8 = ((raw >> 11) & 0x1F) as u8;
        let g: u8 = ((raw >> 5) & 0x3F) as u8;
        let b: u8 = (raw & 0x1F) as u8;
        assert(r == (raw / 2048) as u8 && g == ((raw / 32) % 64) as u8 && b == (raw % 32) as u8)
            by (bit_vector)
            requires
                r == ((raw >> 11) & 0x1F) as u8,
                g == ((raw >> 5) & 0x3F) as u8,
                b == (raw & 0x1F) as u8,
        ;
        (r, g, b)
    }

    /// Draws individual pixels in order, skipping those off screen.
    pub fn draw_iter(&mut self, pixels: &[(i32, i32, u16)])
        requires
            old(self).wf(),
        ensures
            final(self).wf(),
            final(self)@ == draw_spec(old(self)@, pixels@),
    {
        let mut i: usize = 0;
        while i < pixels.len()
            invariant
                i <= pixels@.len(),
                self.wf(),
                self@ == draw_spec(old(self)@, pixels@.take(i as int)),
            decreases pixels@.len() - i,
        {
            let (x, y, c) = pixels[i];
            if x >= 0 && x < DISP_W as i32 && y >= 0 && y < DISP_H as i32 {
                let idx = (y as usize) * 240 + (x as usize);
                self.pixels.set(idx, c);
            }
            proof {
                assert(pixels@.take(i + 1).drop_last() =~= pixels@.take(i as int));
            }
            i = i + 1;
        }
        assert(pixels@.take(pixels@.len() as int) =~= pixels@);
    }

    fn fill_from(&mut self, area: Rect, src: ColorSource)
        requires
            old(self).wf(),
            rect_in_range(area),
        ensures
            final(self).wf(),
            final(self)@ == fill_spec(old(self)@, area, src),
    {
        let last_x: i32 = (area.x as i64 + wrap_i32(area.w) - 1) as i32;
        let last_y: i32 = (area.y as i64 + wrap_i32(area.h) - 1) as i32;
        let x0 = clamp_usize(area.x, DISP_W as i32 - 1);
        let y0 = clamp_usize(area.y, DISP_H as i32 - 1);
        let x1 = clamp_usize(last_x, DISP_W as i32 - 1);
        let y1 = clamp_usize(last_y, DISP_H as i32 - 1);
        let ghost b = (x0 as int, y0 as int, x1 as int, y1 as int);
        assert(b == clip(area));
        if x0 > x1 || y0 > y1 {
            return;
        }
        let row_w = x1 - x0 + 1;
        let rows = y1 - y0 + 1;
        assert(row_w * rows <= 76800) by (nonlinear_arith)
            requires
                1 <= row_w <= 240,
                1 <= rows <= 320,
        ;
        let total = row_w * rows;
        let ghost old_px = self@;
        let mut i: usize = 0;
        loop
            invariant
                self.wf(),
                i <= total,
                total == (b.2 - b.0 + 1) * (b.3 - b.1 + 1),
                row_w == b.2 - b.0 + 1,
                0 <= b.0 <= b.2 < 240,
                0 <= b.1 <= b.3 < 320,
                b.0 == x0 && b.1 == y0,
                old_px == old(self)@,
                match src {
                    ColorSource::Slice(c) => i <= c@.len(),
                    ColorSource::Solid(_) => true,
                },
                forall|p: int|
                    0 <= p < PIXEL_COUNT ==> #[trigger] self@[p] == (if in_box(p, b) && box_rank(p, b)
                        < i {
                        source_color(src, box_rank(p, b))
                    } else {
                        old_px[p]
                    }),
            ensures
                self.wf(),
                forall|p: int|
                    0 <= p < PIXEL_COUNT ==> #[trigger] self@[p] == (if in_box(p, b) && box_rank(p, b)
                        < i {
                        source_color(src, box_rank(p, b))
                    } else {
                        old_px[p]
                    }),
                i == total || (match src {
                    ColorSource::Slice(c) => i == c@.len(),
                    ColorSource::Solid(_) => false,
                }),
            decreases total - i,
        {
            if i >= total {
                break;
            }
            let color = match src {
                ColorSource::Slice(c) => {
                    if i >= c.len() {
                        break;
                    }
                    c[i]
                },
                ColorSource::Solid(v) => v,
            };
            proof {
                lemma_rank_position(i as int, b);
            }
            let px = x0 + i % row_w;
            let py = y0 + i / row_w;
            let idx = py * 240 + px;
            if idx >= PIXEL_COUNT {
                break;
            }
            let ghost before = self@;
            self.pixels.set(idx, color);
            proof {
                assert forall|p: int| 0 <= p < PIXEL_COUNT implies #[trigger] self@[p] == (if in_box(
                    p,
                    b,
                ) && box_rank(p, b) < i + 1 {
                    source_color(src, box_rank(p, b))
                } else {
                    old_px[p]
                }) by {
                    if p != idx {
                        assert(self@[p] == before[p]);
                        if in_box(p, b) && box_rank(p, b) == i {
                            assert(false);
                        }
                    }
                }
            }
            i = i + 1;
        }
        proof {
            assert forall|p: int| 0 <= p < PIXEL_COUNT implies #[trigger] self@[p] == fill_box(
                old_px,
                b,
                src,
            )[p] by {
                if in_box(p, b) {
                    lemma_rank_below_total(p, b);
                }
            }
            assert(self@ =~= fill_box(old_px, b, src));
        }
    }

    /// Fills the on-screen part of `area` row by row with `colors`, stopping
    /// when the area is full or the colours run out.
    pub fn fill_contiguous(&mut self, area: Rect, colors: &[u16])
        requires
            old(self).wf(),
            rect_in_range(area),
        ensures
            final(self).wf(),
            final(self)@ == fill_spec(old(self)@, area, ColorSource::Slice(colors)),
    {
        self.fill_from(area, ColorSource::Slice(colors));
    }

    /// Fills the on-screen part of `area` with one colour.
    pub fn fill_solid(&mut self, area: Rect, color: u16)
        requires
            old(self).wf(),
            rect_in_range(area),
        ensures
            final(self).wf(),
            final(self)@ == fill_spec(old(self)@, area, ColorSource::Solid(color)),
    {
        self.fill_from(area, ColorSource::Solid(color));
    }
}

fn clamp_usize(v: i32, hi: i32) -> (res: usize)
    requires
        0 <= hi,
    ensures
        res as int == clamp_int(v as int, 0, hi as int),
{
    if v < 0 {
        0
    } else if v > hi {
        hi as usize
    } else {
        v as usize
    }
}

/// A pixel drawn on screen reads back as the colour written; drawing it
/// leaves every other pixel as it was.
pub proof fn law_draw_then_read(px: Seq<u16>, x: i32, y: i32, c: u16, q: int)
    requires
        px.len() == PIXEL_COUNT,
        0 <= x < DISP_W,
        0 <= y < DISP_H,
        0 <= q < PIXEL_COUNT,
    ensures
        draw_spec(px, seq![(x, y, c)])[y * 240 + x] == c,
        q != y * 240 + x ==> draw_spec(px, seq![(x, y, c)])[q] == px[q],
{
    let ps = seq![(x, y, c)];
    assert(ps.drop_last() =~= Seq::<(i32, i32, u16)>::empty());
    assert(draw_spec(px, ps.drop_last()) == px);
    assert(ps.last() == (x, y, c));
}

} // verus!
