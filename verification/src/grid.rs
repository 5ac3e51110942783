//! The toroidal grid: a fixed-size row-major array of cell colors, with
//! wraparound addressing so that every signed coordinate denotes a cell.

use vstd::prelude::*;
use vstd::arithmetic::div_mod::{
    lemma_fundamental_div_mod, lemma_fundamental_div_mod_converse_div,
    lemma_fundamental_div_mod_converse_mod, lemma_mod_add_multiples_vanish, lemma_mod_bound,
    lemma_mod_self_0, lemma_mod_sub_multiples_vanish, lemma_multiply_divide_lt, lemma_small_mod,
};
use crate::color::{background, channel, Color};

verus! {

/// The wrapped form of a signed coordinate on an axis of the given extent:
/// the Euclidean remainder, which lies in `[0, extent)` whenever
/// `extent > 0`.
pub open spec fn wrap_spec(coord: int, extent: int) -> int {
    coord % extent
}

/// Wrap a signed coordinate into `[0, extent)`, treating the axis as a
/// circle of `extent` cells. Total over every `isize`, not only over
/// single-step excursions.
pub fn wrap(coord: isize, extent: usize) -> (r: usize)
    requires
        0 < extent <= isize::MAX,
    ensures
        r == wrap_spec(coord as int, extent as int),
        r < extent,
{
    let e = extent as isize;
    let m = coord % e;
    proof {
        lemma_mod_bound(coord as int, e as int);
        if coord < 0 {
            lemma_mod_bound(-(coord as int), e as int);
            lemma_fundamental_div_mod(-(coord as int), e as int);
            let k = (-(coord as int)) % (e as int);
            let q = (-(coord as int)) / (e as int);
            if k == 0 {
                assert((-q) * (e as int) + 0 == -((e as int) * q + k)) by (nonlinear_arith)
                    requires
                        k == 0,
                ;
                lemma_fundamental_div_mod_converse_mod(coord as int, e as int, -q, 0);
            } else {
                assert((-q - 1) * (e as int) + ((e as int) - k) == -((e as int) * q + k))
                    by (nonlinear_arith);
                lemma_fundamental_div_mod_converse_mod(coord as int, e as int, -q - 1, e - k);
            }
        }
    }
    if m < 0 {
        (m + e) as usize
    } else {
        m as usize
    }
}

/// Wraparound totality. For every signed coordinate and positive extent the
/// wrapped coordinate lies in `[0, extent)` and agrees with the normalized
/// remainder `((x % w) + w) % w`; correcting by one extent in either
/// direction does not change it; and for a coordinate at most one extent out
/// of range — the farthest a single-step excursion reaches — one such
/// correction already lands in range.
pub proof fn lemma_wrap_totality(x: int, w: int)
    requires
        0 < w,
    ensures
        0 <= wrap_spec(x, w) < w,
        wrap_spec(x, w) == ((x % w) + w) % w,
        wrap_spec(x + w, w) == wrap_spec(x, w),
        wrap_spec(x - w, w) == wrap_spec(x, w),
        0 <= x < w ==> wrap_spec(x, w) == x,
        -w <= x < 0 ==> wrap_spec(x, w) == x + w,
        w <= x < 2 * w ==> wrap_spec(x, w) == x - w,
{
    lemma_mod_bound(x, w);
    lemma_mod_add_multiples_vanish(x % w, w);
    lemma_small_mod((x % w) as nat, w as nat);
    lemma_mod_add_multiples_vanish(x, w);
    lemma_mod_sub_multiples_vanish(x, w);
    if 0 <= x < w {
        lemma_small_mod(x as nat, w as nat);
    }
    if -w <= x < 0 {
        lemma_small_mod((x + w) as nat, w as nat);
    }
    if w <= x < 2 * w {
        lemma_small_mod((x - w) as nat, w as nat);
    }
}

/// Toroidal continuity. An agent that stepped one cell past the right edge
/// is addressed at `x == 0` by the next access, and one that stepped past
/// the left edge at `x == width - 1`; the y coordinate is untouched. The
/// same holds of the y axis by the symmetric argument.
pub proof fn lemma_toroidal_continuity(g: GridModel, y: int)
    requires
        g.wf(),
        0 <= y < g.height,
    ensures
        g.index_of(g.width, y) == g.index_of(0, y),
        g.index_of(-1, y) == g.index_of(g.width - 1, y),
{
    lemma_mod_self_0(g.width);
    lemma_small_mod(0nat, g.width as nat);
    lemma_small_mod((g.width - 1) as nat, g.width as nat);
    lemma_mod_add_multiples_vanish(-1, g.width);
    lemma_small_mod(y as nat, g.height as nat);
}

/// Extents a grid can be built with: positive, small enough for the signed
/// coordinate space, and with a cell count that fits the address space.
pub open spec fn valid_extents(width: int, height: int) -> bool {
    &&& 0 < width <= isize::MAX
    &&& 0 < height <= isize::MAX
    &&& width * height <= usize::MAX
}

/// The mathematical state of a grid: its extents and the row-major sequence
/// of cell colors.
pub ghost struct GridModel {
    pub width: int,
    pub height: int,
    pub cells: Seq<Color>,
}

impl GridModel {
    /// Well-formed grid state: positive extents that fit the signed
    /// coordinate space, and one stored color per cell.
    pub open spec fn wf(self) -> bool {
        &&& 0 < self.width <= isize::MAX
        &&& 0 < self.height <= isize::MAX
        &&& self.width * self.height <= usize::MAX
        &&& self.cells.len() == self.width * self.height
    }

    /// The linear index that a signed coordinate pair denotes, after
    /// wrapping both coordinates into range.
    pub open spec fn index_of(self, x: int, y: int) -> int {
        wrap_spec(y, self.height) * self.width + wrap_spec(x, self.width)
    }

    /// The color of the cell that `(x, y)` denotes.
    pub open spec fn cell(self, x: int, y: int) -> Color {
        self.cells[self.index_of(x, y)]
    }

    /// The grid after overwriting the cell that `(x, y)` denotes.
    pub open spec fn write(self, x: int, y: int, value: Color) -> GridModel {
        GridModel { cells: self.cells.update(self.index_of(x, y), value), ..self }
    }

    /// Every cell holds the unmarked background color.
    pub open spec fn all_background(self) -> bool {
        forall|i: int| 0 <= i < self.cells.len() ==> self.cells[i] == background()
    }
}

/// A wrapped coordinate pair always denotes a cell: its linear index is in
/// range for every well-formed grid.
pub proof fn lemma_index_in_range(g: GridModel, x: int, y: int)
    requires
        g.wf(),
    ensures
        0 <= g.index_of(x, y) < g.cells.len(),
{
    lemma_mod_bound(x, g.width);
    lemma_mod_bound(y, g.height);
    let wx = wrap_spec(x, g.width);
    let wy = wrap_spec(y, g.height);
    assert(0 <= wy * g.width + wx < g.width * g.height) by (nonlinear_arith)
        requires
            0 <= wx < g.width,
            0 <= wy < g.height,
    ;
}

/// Distinct in-range coordinate pairs denote distinct cells: the row-major
/// index is injective on `[0, width) x [0, height)`.
pub proof fn lemma_index_injective(g: GridModel, x1: int, y1: int, x2: int, y2: int)
    requires
        g.wf(),
        0 <= x1 < g.width,
        0 <= y1 < g.height,
        0 <= x2 < g.width,
        0 <= y2 < g.height,
        x1 != x2 || y1 != y2,
    ensures
        g.index_of(x1, y1) != g.index_of(x2, y2),
{
    lemma_small_mod(x1 as nat, g.width as nat);
    lemma_small_mod(x2 as nat, g.width as nat);
    lemma_small_mod(y1 as nat, g.height as nat);
    lemma_small_mod(y2 as nat, g.height as nat);
    lemma_fundamental_div_mod_converse_div(y1 * g.width + x1, g.width, y1, x1);
    lemma_fundamental_div_mod_converse_mod(y1 * g.width + x1, g.width, y1, x1);
    lemma_fundamental_div_mod_converse_div(y2 * g.width + x2, g.width, y2, x2);
    lemma_fundamental_div_mod_converse_mod(y2 * g.width + x2, g.width, y2, x2);
}

/// The toroidal grid of cell colors, stored row-major: the cell at wrapped
/// coordinates `(x, y)` lives at linear index `y * width + x`.
pub struct Grid {
    width: usize,
    height: usize,
    cells: Vec<Color>,
}

impl View for Grid {
    type V = GridModel;

    closed spec fn view(&self) -> GridModel {
        GridModel { width: self.width as int, height: self.height as int, cells: self.cells@ }
    }
}

impl Grid {
    /// A fresh grid of the given extents with every cell set to the
    /// unmarked background color.
    pub fn new(width: usize, height: usize) -> (g: Grid)
        requires
            valid_extents(width as int, height as int),
        ensures
            g@.wf(),
            g@.width == width,
            g@.height == height,
            g@.all_background(),
    {
        let cells = vec![Color::background(); width * height];
        Grid { width, height, cells }
    }

    /// A fresh grid if the extents are usable, and `None` exactly when they
    /// are not: extents are validated here, once, so that every later access
    /// is total.
    pub fn try_new(width: usize, height: usize) -> (r: Option<Grid>)
        ensures
            match r {
                Some(g) => {
                    &&& valid_extents(width as int, height as int)
                    &&& g@.wf()
                    &&& g@.width == width
                    &&& g@.height == height
                    &&& g@.all_background()
                },
                None => !valid_extents(width as int, height as int),
            },
    {
        if width == 0 || height == 0 {
            return None;
        }
        if width > isize::MAX as usize || height > isize::MAX as usize {
            return None;
        }
        match width.checked_mul(height) {
            Some(_) => Some(Grid::new(width, height)),
            None => None,
        }
    }

    /// The grid's extent along the x axis.
    pub fn width(&self) -> (w: usize)
        ensures
            w == self@.width,
    {
        self.width
    }

    /// The grid's extent along the y axis.
    pub fn height(&self) -> (h: usize)
        ensures
            h == self@.height,
    {
        self.height
    }

    /// The color of the cell that the signed coordinates denote, wrapping
    /// both into range. Total: every coordinate pair denotes some cell.
    pub fn get(&self, x: isize, y: isize) -> (c: Color)
        requires
            self@.wf(),
        ensures
            c == self@.cell(x as int, y as int),
    {
        let wx = wrap(x, self.width);
        let wy = wrap(y, self.height);
        proof {
            lemma_index_in_range(self@, x as int, y as int);
        }
        self.cells[wy * self.width + wx]
    }

    /// Overwrite the cell that the signed coordinates denote, wrapping both
    /// into range. Exactly one cell changes.
    pub fn set(&mut self, x: isize, y: isize, value: Color)
        requires
            old(self)@.wf(),
        ensures
            final(self)@ == old(self)@.write(x as int, y as int, value),
            final(self)@.wf(),
    {
        let wx = wrap(x, self.width);
        let wy = wrap(y, self.height);
        proof {
            lemma_index_in_range(self@, x as int, y as int);
        }
        let idx = wy * self.width + wx;
        self.cells[idx] = value;
    }

    /// Read-only snapshot of the cells in row-major order, for rendering or
    /// export.
    pub fn cells(&self) -> (c: &Vec<Color>)
        ensures
            c@ == self@.cells,
    {
        &self.cells
    }

    /// One frame of the grid scaled by `zoom`, as row-major RGBA bytes:
    /// exactly the sequence that `frame_bytes` describes, ready for an
    /// exporter or renderer to consume.
    pub fn rgba_bytes(&self, zoom: usize) -> (buf: Vec<u8>)
        requires
            self@.wf(),
            0 < zoom,
            self@.width * zoom * (self@.height * zoom) * 4 <= usize::MAX,
        ensures
            buf@ == frame_bytes(self@, zoom as int),
    {
        proof {
            assert(self@.width * zoom <= self@.width * zoom * (self@.height * zoom) * 4
                && self@.height * zoom <= self@.width * zoom * (self@.height * zoom) * 4
                && (self@.width * zoom) * (self@.height * zoom) * 4 == self@.width * zoom * (
            self@.height * zoom) * 4) by (nonlinear_arith)
                requires
                    0 < self@.width,
                    0 < self@.height,
                    0 < zoom,
            ;
        }
        let w2 = self.width * zoom;
        let h2 = self.height * zoom;
        let ghost frame = frame_bytes(self@, zoom as int);
        let mut buf: Vec<u8> = Vec::new();
        let mut py: usize = 0;
        while py < h2
            invariant
                self@.wf(),
                0 < zoom,
                w2 == self@.width * zoom,
                h2 == self@.height * zoom,
                w2 * h2 * 4 <= usize::MAX,
                frame == frame_bytes(self@, zoom as int),
                frame.len() == w2 * h2 * 4,
                py <= h2,
                buf@.len() == py * w2 * 4,
                forall|n: int| 0 <= n < buf@.len() ==> buf@[n] == frame[n],
            decreases h2 - py,
        {
            proof {
                assert(py * w2 <= h2 * w2 && (py + 1) * w2 == py * w2 + w2 && (py + 1) * w2 <= h2
                    * w2 && h2 * w2 == w2 * h2) by (nonlinear_arith)
                    requires
                        py < h2,
                        0 <= w2,
                ;
            }
            let mut px: usize = 0;
            while px < w2
                invariant
                    self@.wf(),
                    0 < zoom,
                    w2 == self@.width * zoom,
                    h2 == self@.height * zoom,
                    w2 * h2 * 4 <= usize::MAX,
                    frame == frame_bytes(self@, zoom as int),
                    frame.len() == w2 * h2 * 4,
                    py < h2,
                    px <= w2,
                    buf@.len() == (py * w2 + px) * 4,
                    (py * w2 + w2) * 4 <= frame.len(),
                    forall|n: int| 0 <= n < buf@.len() ==> buf@[n] == frame[n],
                decreases w2 - px,
            {
                let cy = py / zoom;
                let cx = px / zoom;
                proof {
                    assert(py < zoom * self@.height && px < zoom * self@.width)
                        by (nonlinear_arith)
                        requires
                            py < h2,
                            px < w2,
                            w2 == self@.width * zoom,
                            h2 == self@.height * zoom,
                    ;
                    lemma_multiply_divide_lt(py as int, zoom as int, self@.height);
                    lemma_multiply_divide_lt(px as int, zoom as int, self@.width);
                    assert(0 <= cy * self@.width + cx < self@.width * self@.height)
                        by (nonlinear_arith)
                        requires
                            0 <= cx < self@.width,
                            0 <= cy < self@.height,
                    ;
                }
                let cell = self.cells[cy * self.width + cx];
                let ghost buf0 = buf@;
                let ghost n0 = (py * w2 + px) * 4int;
                buf.push(cell.r);
                buf.push(cell.g);
                buf.push(cell.b);
                buf.push(cell.a);
                proof {
                    let pix = py * w2 + px;
                    assert forall|n: int| n0 <= n < n0 + 4 implies frame[n] == channel(
                        self@.cells[cy * self@.width + cx],
                        n - n0,
                    ) by {
                        lemma_fundamental_div_mod_converse_div(n, 4, pix, n - n0);
                        lemma_fundamental_div_mod_converse_mod(n, 4, pix, n - n0);
                        lemma_fundamental_div_mod_converse_div(pix, w2 as int, py as int, px as int);
                        lemma_fundamental_div_mod_converse_mod(pix, w2 as int, py as int, px as int);
                    }
                    assert(buf@[n0 + 0] == cell.r && buf@[n0 + 1] == cell.g && buf@[n0 + 2]
                        == cell.b && buf@[n0 + 3] == cell.a);
                    assert forall|n: int| 0 <= n < buf@.len() implies buf@[n] == frame[n] by {
                        if n < n0 {
                            assert(buf@[n] == buf0[n]);
                        } else {
                            assert(frame[n] == channel(self@.cells[cy * self@.width + cx], n - n0));
                        }
                    }
                    assert(buf@.len() == (pix + 1) * 4);
                }
                px = px + 1;
            }
            py = py + 1;
        }
        proof {
            assert(h2 * w2 * 4 == w2 * h2 * 4) by (nonlinear_arith);
            assert(buf@ =~= frame);
        }
        buf
    }
}

/// The expected content of an exported frame: the grid scaled by `zoom`,
/// laid out as row-major RGBA bytes, four per output pixel. Output pixel
/// `(px, py)` shows the cell at `(px / zoom, py / zoom)`.
pub open spec fn frame_bytes(g: GridModel, zoom: int) -> Seq<u8> {
    Seq::new(
        (g.width * zoom * (g.height * zoom) * 4) as nat,
        |n: int|
            {
                let pix = n / 4;
                let k = n % 4;
                let py = pix / (g.width * zoom);
                let px = pix % (g.width * zoom);
                channel(g.cells[(py / zoom) * g.width + px / zoom], k)
            },
    )
}

} // verus!
