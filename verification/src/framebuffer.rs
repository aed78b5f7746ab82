//! The framebuffer: a color buffer with a parallel depth buffer, written
//! only through a single depth-tested point operation.
//!
//! Depth convention: smaller fixed-point depth values are nearer; `clear`
//! resets every depth entry to `DEPTH_FAR`, the farthest representable
//! depth, so the first in-bounds write at any depth below it lands.

use crate::geom::Color;
use vstd::prelude::*;

verus! {

/// The farthest representable depth, stored by `clear`.
pub const DEPTH_FAR: i64 = 0x7fff_ffff_ffff_ffff;

/// The mathematical state of a framebuffer: parallel color and depth
/// grids in row-major order, the background color, and the dimensions.
#[verifier::ext_equal]
pub ghost struct FbState {
    pub colors: Seq<Color>,
    pub depths: Seq<i64>,
    pub background: Color,
    pub width: nat,
    pub height: nat,
}

impl FbState {
    /// A state is well formed when both grids cover exactly the pixel
    /// rectangle.
    pub open spec fn wf(self) -> bool {
        &&& self.colors.len() == self.width * self.height
        &&& self.depths.len() == self.width * self.height
    }

    /// The row-major index of pixel `(x, y)`.
    pub open spec fn idx(self, x: int, y: int) -> int {
        y * self.width + x
    }
}

/// The depth-tested write: outside the bounds nothing changes; inside,
/// color and depth are stored exactly when the new depth is strictly
/// nearer (smaller) than the stored one.
pub open spec fn point_spec(s: FbState, x: int, y: int, depth: i64, color: Color) -> FbState {
    if 0 <= x < s.width && 0 <= y < s.height {
        if depth < s.depths[s.idx(x, y)] {
            FbState {
                colors: s.colors.update(s.idx(x, y), color),
                depths: s.depths.update(s.idx(x, y), depth),
                ..s
            }
        } else {
            s
        }
    } else {
        s
    }
}

/// The cleared state: every pixel holds the background color and the
/// farthest depth.
pub open spec fn clear_spec(s: FbState) -> FbState {
    FbState {
        colors: Seq::new(s.colors.len(), |i: int| s.background),
        depths: Seq::new(s.depths.len(), |i: int| DEPTH_FAR),
        ..s
    }
}

/// Writing the same point twice leaves exactly the state of writing it
/// once: the depth test rejects the repeated depth.
pub proof fn lemma_point_idempotent(s: FbState, x: int, y: int, depth: i64, color: Color)
    requires
        s.wf(),
    ensures
        point_spec(point_spec(s, x, y, depth, color), x, y, depth, color)
            == point_spec(s, x, y, depth, color),
{
    let s1 = point_spec(s, x, y, depth, color);
    if 0 <= x < s.width && 0 <= y < s.height && depth < s.depths[s.idx(x, y)] {
        lemma_idx_in_range(s, x, y);
        assert(s1.depths[s1.idx(x, y)] == depth);
        assert(point_spec(s1, x, y, depth, color) == s1);
    }
}

/// Nearest wins: for two writes to one pixel with depths `d1 < d2`, in
/// either order, the final state is exactly the state after the nearer
/// write alone; submission order does not matter.
pub proof fn lemma_point_nearest_wins(
    s: FbState,
    x: int,
    y: int,
    d1: i64,
    c1: Color,
    d2: i64,
    c2: Color,
)
    requires
        s.wf(),
        d1 < d2,
    ensures
        point_spec(point_spec(s, x, y, d1, c1), x, y, d2, c2) == point_spec(s, x, y, d1, c1),
        point_spec(point_spec(s, x, y, d2, c2), x, y, d1, c1) == point_spec(s, x, y, d1, c1),
{
    if 0 <= x < s.width && 0 <= y < s.height {
        lemma_idx_in_range(s, x, y);
        let i = s.idx(x, y);
        let near = point_spec(s, x, y, d1, c1);
        if d1 < s.depths[i] {
            assert(near.depths[i] == d1);
        }
        let far = point_spec(s, x, y, d2, c2);
        if d2 < s.depths[i] {
            assert(far.depths[i] == d2);
            assert(point_spec(far, x, y, d1, c1).colors =~= near.colors);
            assert(point_spec(far, x, y, d1, c1).depths =~= near.depths);
            assert(point_spec(far, x, y, d1, c1) =~= near);
        }
    }
}

/// A color buffer of `width * height` pixels with a parallel depth buffer.
/// Pixels are written only through `point`, the single depth-tested
/// chokepoint, so the nearest fragment wins regardless of write order.
pub struct Framebuffer {
    width: usize,
    height: usize,
    colors: Vec<Color>,
    depths: Vec<i64>,
    background: Color,
}

impl Framebuffer {
    /// The abstract state; the struct's fields are private so that
    /// `point` stays the only write path.
    pub closed spec fn view(self) -> FbState {
        FbState {
            colors: self.colors@,
            depths: self.depths@,
            background: self.background,
            width: self.width as nat,
            height: self.height as nat,
        }
    }

    /// Well-formed: the grids cover the rectangle and the dimensions
    /// leave row-major indexing within `usize`.
    pub closed spec fn wf(self) -> bool {
        &&& self@.wf()
        &&& self.width <= 0x8000
        &&& self.height <= 0x8000
    }

    pub fn width(&self) -> (w: usize)
        ensures
            w == self@.width,
            self.wf() ==> w <= 0x8000,
    {
        self.width
    }

    pub fn height(&self) -> (h: usize)
        ensures
            h == self@.height,
            self.wf() ==> h <= 0x8000,
    {
        self.height
    }

    /// A fresh framebuffer, black background, fully cleared.
    pub fn new(width: usize, height: usize) -> (fb: Framebuffer)
        requires
            width <= 0x8000,
            height <= 0x8000,
        ensures
            fb.wf(),
            fb@.width == width,
            fb@.height == height,
            fb@.background == (Color { r: 0, g: 0, b: 0, a: 255 }),
            fb@ == clear_spec(fb@),
    {
        proof {
            assert(width * height <= 0x4000_0000) by (nonlinear_arith)
                requires
                    0 <= width <= 0x8000,
                    0 <= height <= 0x8000,
            ;
        }
        let n: usize = width * height;
        let mut colors: Vec<Color> = Vec::new();
        let mut depths: Vec<i64> = Vec::new();
        let background = Color { r: 0, g: 0, b: 0, a: 255 };
        let mut i: usize = 0;
        while i < n
            invariant
                i <= n,
                colors@.len() == i,
                depths@.len() == i,
                forall|j: int| 0 <= j < i ==> colors@[j] == background,
                forall|j: int| 0 <= j < i ==> depths@[j] == DEPTH_FAR,
            decreases n - i,
        {
            colors.push(background);
            depths.push(DEPTH_FAR);
            i = i + 1;
        }
        let fb = Framebuffer { width, height, colors, depths, background };
        proof {
            assert(fb@.colors =~= Seq::new(fb@.colors.len(), |j: int| fb@.background));
            assert(fb@.depths =~= Seq::new(fb@.depths.len(), |j: int| DEPTH_FAR));
            assert(fb@ =~= clear_spec(fb@));
        }
        fb
    }

    /// Replace the background color used by the next `clear`.
    pub fn set_background_color(&mut self, color: Color)
        requires
            old(self).wf(),
        ensures
            final(self).wf(),
            final(self)@ == (FbState { background: color, ..old(self)@ }),
    {
        self.background = color;
    }

    /// Reset every pixel to the background color and every depth entry to
    /// `DEPTH_FAR`. Runs at the start of every frame.
    pub fn clear(&mut self)
        requires
            old(self).wf(),
        ensures
            final(self).wf(),
            final(self)@ == clear_spec(old(self)@),
    {
        let n: usize = self.colors.len();
        let mut i: usize = 0;
        while i < n
            invariant
                i <= n,
                n == self.colors@.len(),
                n == self.depths@.len(),
                self.width == old(self).width,
                self.height == old(self).height,
                self.background == old(self).background,
                forall|j: int| 0 <= j < i ==> self.colors@[j] == self.background,
                forall|j: int| 0 <= j < i ==> self.depths@[j] == DEPTH_FAR,
            decreases n - i,
        {
            self.colors.set(i, self.background);
            self.depths.set(i, DEPTH_FAR);
            i = i + 1;
        }
        proof {
            assert(self@.colors =~= clear_spec(old(self)@).colors);
            assert(self@.depths =~= clear_spec(old(self)@).depths);
            assert(self@ =~= clear_spec(old(self)@));
        }
    }

    /// The depth-tested point write. Out-of-bounds coordinates are a
    /// silent no-op (a required defensive bound); otherwise color and
    /// depth are stored exactly when `depth` is nearer than the stored
    /// depth. No other code path writes pixels.
    pub fn point(&mut self, x: usize, y: usize, depth: i64, color: Color)
        requires
            old(self).wf(),
        ensures
            final(self).wf(),
            final(self)@ == point_spec(old(self)@, x as int, y as int, depth, color),
    {
        if x < self.width && y < self.height {
            proof {
                lemma_idx_in_range(self@, x as int, y as int);
                lemma_usize_idx(self.width, self.height, x, y);
            }
            let i: usize = y * self.width + x;
            if depth < self.depths[i] {
                self.colors.set(i, color);
                self.depths.set(i, depth);
            }
        }
    }

    /// The stored color at an in-bounds pixel.
    pub fn get_color(&self, x: usize, y: usize) -> (c: Color)
        requires
            self.wf(),
            x < self@.width,
            y < self@.height,
        ensures
            c == self@.colors[self@.idx(x as int, y as int)],
    {
        proof {
            lemma_idx_in_range(self@, x as int, y as int);
            lemma_usize_idx(self.width, self.height, x, y);
        }
        self.colors[y * self.width + x]
    }

    /// The stored depth at an in-bounds pixel.
    pub fn get_depth(&self, x: usize, y: usize) -> (d: i64)
        requires
            self.wf(),
            x < self@.width,
            y < self@.height,
        ensures
            d == self@.depths[self@.idx(x as int, y as int)],
    {
        proof {
            lemma_idx_in_range(self@, x as int, y as int);
            lemma_usize_idx(self.width, self.height, x, y);
        }
        self.depths[y * self.width + x]
    }
}

/// In-bounds pixel indices computed on machine integers neither overflow
/// nor leave the buffers, given the dimension caps.
proof fn lemma_usize_idx(w: usize, h: usize, x: usize, y: usize)
    requires
        w <= 0x8000,
        h <= 0x8000,
        x < w,
        y < h,
    ensures
        y * w + x < w * h,
        w * h <= 0x4000_0000,
{
    assert(y * w + x < w * h && w * h <= 0x4000_0000) by (nonlinear_arith)
        requires
            w <= 0x8000,
            h <= 0x8000,
            0 <= x < w,
            0 <= y < h,
    ;
}

/// Row-major indices of in-bounds pixels stay within the buffers.
pub proof fn lemma_idx_in_range(s: FbState, x: int, y: int)
    requires
        s.wf(),
        0 <= x < s.width,
        0 <= y < s.height,
    ensures
        0 <= s.idx(x, y) < s.width * s.height,
        y * s.width + x < s.width * s.height,
{
    assert(y * s.width + x < s.width * s.height) by (nonlinear_arith)
        requires
            0 <= x < s.width,
            0 <= y < s.height,
    ;
    assert(y * s.width + x >= 0) by (nonlinear_arith)
        requires
            0 <= x,
            0 <= y,
            s.width >= 0,
    ;
}

} // verus!
