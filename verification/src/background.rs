//! A horizontally repeating visual band (sky, ground, ...): the scrolling
//! tile placement algorithm and its laws.
//!
//! Every `draw` places `ceil(viewport / tileWidth) + 1` tiles; tile `i`'s
//! left edge sits at `-1 + tileWidth * i + (offset reduced mod tileWidth)`,
//! the reduction landing in `(-tileWidth, 0]` whatever the offset's sign, so
//! one leading edge always sits at or before the left viewport edge; the
//! extra tile keeps the right edge covered while the reduction shifts the
//! row left. `update` accumulates `offset -= delta * speed`; positive speed
//! scrolls content to the left.

use vstd::prelude::*;

use crate::drawable::Drawable;
use crate::frame::{DrawCmd, Frame};
use crate::units::{
    mod_window, mod_window_i64, lemma_mod_window_multiple, lemma_mod_window_periodic,
    lemma_mod_window_range, lemma_mod_window_small, MAX_BLOCK_WIDTH, MAX_OFFSET, MAX_SPEED,
    SCALE, VIEW_SPAN,
};

verus! {

/// One repeating band. All lengths are nano-units; `speed` is nano-units per
/// microsecond; `tag` names the texture resource the band owns.
#[derive(Clone, Copy, Debug)]
pub struct Background {
    pub tag: u64,
    pub block_width: i64,
    pub speed: i64,
    pub offset: i64,
    pub height: i64,
}

/// How many tiles one draw call places for the given tile width:
/// enough to span the viewport, plus one for the fractional shift.
pub open spec fn spec_tile_count(block_width: int) -> int
    recommends
        0 < block_width,
{
    (VIEW_SPAN + block_width - 1) / block_width + 1
}

/// The left edge of tile `i` for the given width and accumulated offset.
pub open spec fn tile_x(block_width: int, offset: int, i: int) -> int
    recommends
        0 < block_width,
{
    -SCALE + block_width * i + mod_window(offset, block_width)
}

/// The tile count spans the viewport: it is at least 2, at most one tile per
/// nano-unit plus one, and width times (count - 1) reaches across the view.
pub proof fn lemma_tile_count_bounds(block_width: int)
    requires
        0 < block_width,
    ensures
        2 <= spec_tile_count(block_width) <= VIEW_SPAN + 1,
        block_width * (spec_tile_count(block_width) - 1) >= VIEW_SPAN,
        block_width * (spec_tile_count(block_width) - 1) <= VIEW_SPAN + block_width - 1,
{
    let c = (VIEW_SPAN + block_width - 1) / block_width;
    vstd::arithmetic::div_mod::lemma_fundamental_div_mod(VIEW_SPAN + block_width - 1, block_width);
    vstd::arithmetic::div_mod::lemma_mod_bound(VIEW_SPAN + block_width - 1, block_width);
    let r = (VIEW_SPAN + block_width - 1) % block_width;
    assert(block_width * c == VIEW_SPAN + block_width - 1 - r);
    assert(block_width * c >= VIEW_SPAN) by (nonlinear_arith)
        requires
            block_width * c == VIEW_SPAN + block_width - 1 - r,
            r < block_width,
    ;
    assert(c >= 1) by (nonlinear_arith)
        requires
            0 < block_width,
            block_width * c >= VIEW_SPAN,
            VIEW_SPAN >= 2,
    ;
    assert(c <= VIEW_SPAN) by (nonlinear_arith)
        requires
            0 < block_width,
            block_width * c <= VIEW_SPAN + block_width - 1,
            VIEW_SPAN >= 1,
    ;
}

impl Background {
    /// Internal invariant: a positive, bounded tile width, bounded speed and
    /// offset, and a band height inside the viewport.
    pub open spec fn wf(&self) -> bool {
        &&& 0 < self.block_width <= MAX_BLOCK_WIDTH
        &&& -MAX_SPEED <= self.speed <= MAX_SPEED
        &&& -MAX_OFFSET <= self.offset <= MAX_OFFSET
        &&& 0 <= self.height <= VIEW_SPAN
    }

    /// The commands one draw call records: one tile per index, left to
    /// right, each pinned to the bottom of the viewport.
    pub open spec fn spec_cmds(&self) -> Seq<DrawCmd> {
        Seq::new(
            spec_tile_count(self.block_width as int) as nat,
            |i: int| DrawCmd::Tile {
                tag: self.tag,
                x: tile_x(self.block_width as int, self.offset as int, i) as i64,
                y: (self.height - SCALE) as i64,
            },
        )
    }

    /// The offset an update moves to, before any overflow normalization.
    pub open spec fn raw_stepped_offset(&self, delta_us: int) -> int {
        self.offset - delta_us * self.speed
    }

    /// The state an update leaves behind: the accumulated offset, reduced by
    /// whole tile widths only in the far-fetched case that it would leave
    /// the representable range (a reduction that provably keeps every tile
    /// placement, see `lemma_normalization_keeps_placement`).
    pub open spec fn spec_stepped(&self, delta_us: int) -> Background {
        let raw = self.raw_stepped_offset(delta_us);
        let off = if -MAX_OFFSET <= raw <= MAX_OFFSET {
            raw
        } else {
            mod_window(raw, self.block_width as int)
        };
        Background {
            tag: self.tag,
            block_width: self.block_width,
            speed: self.speed,
            offset: off as i64,
            height: self.height,
        }
    }

    /// Create a band with the given tile width, scroll speed and band
    /// height; the accumulated offset starts at zero.
    pub fn new(tag: u64, block_width: i64, speed: i64, height: i64) -> (bg: Background)
        requires
            0 < block_width <= MAX_BLOCK_WIDTH,
            -MAX_SPEED <= speed <= MAX_SPEED,
            0 <= height <= VIEW_SPAN,
        ensures
            bg.wf(),
            bg.tag == tag,
            bg.block_width == block_width,
            bg.speed == speed,
            bg.height == height,
            bg.offset == 0,
    {
        Background { tag, block_width, speed, offset: 0, height }
    }

    /// How many tiles the next draw call will place.
    pub fn tile_count(&self) -> (n: i64)
        requires
            self.wf(),
        ensures
            n == spec_tile_count(self.block_width as int),
            2 <= n <= VIEW_SPAN + 1,
    {
        proof {
            lemma_tile_count_bounds(self.block_width as int);
        }
        let num: i64 = VIEW_SPAN + self.block_width - 1;
        let c: u64 = (num as u64) / (self.block_width as u64);
        (c as i64) + 1
    }
}

impl Drawable for Background {
    open spec fn inv(&self) -> bool {
        self.wf()
    }

    open spec fn cmds(&self) -> Seq<DrawCmd> {
        self.spec_cmds()
    }

    open spec fn stepped(&self, delta_us: int) -> Background {
        self.spec_stepped(delta_us)
    }

    fn draw(&self, frame: Frame) -> (out: Frame) {
        let ghost orig = frame@;
        proof {
            lemma_tile_count_bounds(self.block_width as int);
        }
        let n = self.tile_count();
        let m = mod_window_i64(self.offset, self.block_width);
        let y = self.height - SCALE;
        let mut out = frame;
        let mut i: i64 = 0;
        while i < n
            invariant
                self.wf(),
                n == spec_tile_count(self.block_width as int),
                m == mod_window(self.offset as int, self.block_width as int),
                -self.block_width < m <= 0,
                y == self.height - SCALE,
                0 <= i <= n,
                out@ == orig + self.spec_cmds().take(i as int),
            decreases n - i,
        {
            proof {
                let bw = self.block_width as int;
                lemma_tile_count_bounds(bw);
                assert(0 <= bw * i && bw * i <= VIEW_SPAN + bw - 1) by (nonlinear_arith)
                    requires
                        0 < bw,
                        0 <= i,
                        i <= spec_tile_count(bw) - 1,
                        bw * (spec_tile_count(bw) - 1) <= VIEW_SPAN + bw - 1,
                ;
            }
            let x = -SCALE + self.block_width * i + m;
            out.record(DrawCmd::Tile { tag: self.tag, x, y });
            proof {
                assert(out@ =~= orig + self.spec_cmds().take(i + 1 as int));
            }
            i = i + 1;
        }
        proof {
            assert(self.spec_cmds().take(n as int) =~= self.spec_cmds());
        }
        out
    }

    fn update(&mut self, delta_us: u64) {
        let d = delta_us as i64;
        proof {
            assert(d * self.speed <= 1_000_000_000_000_000_000
                && -1_000_000_000_000_000_000 <= d * self.speed) by (nonlinear_arith)
                requires
                    0 <= d <= 1_000_000_000,
                    -MAX_SPEED <= self.speed <= MAX_SPEED,
            ;
        }
        let raw = self.offset - d * self.speed;
        if raw < -MAX_OFFSET || MAX_OFFSET < raw {
            proof {
                lemma_mod_window_range(raw as int, self.block_width as int);
            }
            self.offset = mod_window_i64(raw, self.block_width);
        } else {
            self.offset = raw;
        }
    }
}

/// LAW: full coverage. For every tile width and every offset, the placed
/// tiles cover the viewport: each point of [-1, 1] lies inside some tile's
/// span. The non-positive reduction window keeps the first tile's leading
/// edge at or before the left edge whichever way the row has scrolled.
pub proof fn lemma_tiles_cover(block_width: int, offset: int, p: int)
    requires
        0 < block_width,
        -SCALE <= p <= SCALE,
    ensures
        exists|i: int|
            0 <= i < spec_tile_count(block_width)
                && #[trigger] tile_x(block_width, offset, i) <= p
                && p < tile_x(block_width, offset, i) + block_width,
{
    let m = mod_window(offset, block_width);
    lemma_mod_window_range(offset, block_width);
    lemma_tile_count_bounds(block_width);
    let base = -SCALE + m;
    let w = p - base;
    vstd::arithmetic::div_mod::lemma_fundamental_div_mod(w, block_width);
    vstd::arithmetic::div_mod::lemma_mod_bound(w, block_width);
    let iw = w / block_width;
    vstd::arithmetic::div_mod::lemma_div_pos_is_pos(w, block_width);
    assert(tile_x(block_width, offset, iw) == base + block_width * iw);
    assert(tile_x(block_width, offset, iw) <= p);
    assert(p < tile_x(block_width, offset, iw) + block_width);
    assert(w <= VIEW_SPAN + block_width - 1);
    vstd::arithmetic::div_mod::lemma_div_is_ordered(w, VIEW_SPAN + block_width - 1, block_width);
    assert(iw < spec_tile_count(block_width));
}

/// LAW: tiling is periodic. Shifting the offset by any whole number of tile
/// widths — any integer `k`, crossing zero or not — leaves every tile
/// placement unchanged.
pub proof fn lemma_tiling_periodic(block_width: int, offset: int, k: int)
    requires
        0 < block_width,
    ensures
        forall|i: int| #[trigger] tile_x(block_width, offset + k * block_width, i)
            == tile_x(block_width, offset, i),
{
    lemma_mod_window_periodic(offset, block_width, k);
}

/// LAW: an offset that is an exact whole number of tile widths places every
/// tile exactly as offset zero does, whatever its sign.
pub proof fn lemma_tiles_multiple_of_width(block_width: int, k: int)
    requires
        0 < block_width,
    ensures
        forall|i: int| #[trigger] tile_x(block_width, k * block_width, i)
            == tile_x(block_width, 0, i),
{
    lemma_mod_window_multiple(block_width, k);
    vstd::arithmetic::div_mod::lemma_mod_multiples_basic(0, block_width);
}

/// The sum of a sequence of time deltas.
pub open spec fn sum_deltas(deltas: Seq<int>) -> int
    decreases deltas.len(),
{
    if deltas.len() == 0 {
        0
    } else {
        deltas[0] + sum_deltas(deltas.drop_first())
    }
}

/// The offset reached by applying the update rule once per delta, in order,
/// without the overflow normalization.
pub open spec fn offset_after_updates(offset: int, speed: int, deltas: Seq<int>) -> int
    decreases deltas.len(),
{
    if deltas.len() == 0 {
        offset
    } else {
        offset_after_updates(offset - deltas[0] * speed, speed, deltas.drop_first())
    }
}

/// LAW: update is linear in elapsed time. Updating once per delta moves the
/// offset exactly where one update with the summed delta moves it: there is
/// no hidden accumulation error.
pub proof fn lemma_update_linear(offset: int, speed: int, deltas: Seq<int>)
    ensures
        offset_after_updates(offset, speed, deltas) == offset - sum_deltas(deltas) * speed,
    decreases deltas.len(),
{
    if deltas.len() == 0 {
        assert(sum_deltas(deltas) * speed == 0) by (nonlinear_arith)
            requires
                sum_deltas(deltas) == 0,
        ;
    } else {
        lemma_update_linear(offset - deltas[0] * speed, speed, deltas.drop_first());
        assert((deltas[0] + sum_deltas(deltas.drop_first())) * speed
            == deltas[0] * speed + sum_deltas(deltas.drop_first()) * speed) by (nonlinear_arith);
    }
}

/// The overflow normalization in `spec_stepped` keeps every tile placement:
/// the stepped state places its tiles exactly where the raw (unnormalized)
/// offset would.
pub proof fn lemma_normalization_keeps_placement(bg: Background, delta_us: int)
    requires
        bg.wf(),
    ensures
        forall|i: int| #[trigger] tile_x(
            bg.block_width as int,
            bg.spec_stepped(delta_us).offset as int,
            i,
        ) == tile_x(bg.block_width as int, bg.raw_stepped_offset(delta_us), i),
{
    let b = bg.block_width as int;
    let raw = bg.raw_stepped_offset(delta_us);
    if !(-MAX_OFFSET <= raw <= MAX_OFFSET) {
        lemma_mod_window_range(raw, b);
        lemma_mod_window_small(mod_window(raw, b), b);
    }
}

} // verus!
