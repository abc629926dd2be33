//! Two-dimensional areas, points and rectangles over row-major sample
//! buffers, and cropping by a rectangle.

use vstd::prelude::*;

verus! {

/// Width and height of a two-dimensional area.
#[derive(Debug, Clone, Copy, PartialEq, Eq, Structural, Default)]
pub struct Dim2 {
    pub w: usize,
    pub h: usize,
}

impl Dim2 {
    pub fn new(w: usize, h: usize) -> (r: Dim2)
        ensures
            r.w == w,
            r.h == h,
    {
        Dim2 { w, h }
    }

    /// Whether both sides are zero.
    pub fn is_empty(&self) -> (r: bool)
        ensures
            r == (self.w == 0 && self.h == 0),
    {
        self.w == 0 && self.h == 0
    }
}

/// A point by column (`x`) and row (`y`).
#[derive(Debug, Clone, Copy, PartialEq, Eq, Structural, Default)]
pub struct Point {
    pub x: usize,
    pub y: usize,
}

impl Point {
    pub fn new(x: usize, y: usize) -> (r: Point)
        ensures
            r.x == x,
            r.y == y,
    {
        Point { x, y }
    }

    pub fn zero() -> (r: Point)
        ensures
            r.x == 0,
            r.y == 0,
    {
        Point { x: 0, y: 0 }
    }
}

/// A rectangle by its top-left point and its dimension.
#[derive(Debug, Clone, Copy, PartialEq, Eq, Structural, Default)]
pub struct Rect {
    pub p: Point,
    pub d: Dim2,
}

impl Rect {
    pub fn new(p: Point, d: Dim2) -> (r: Rect)
        ensures
            r.p == p,
            r.d == d,
    {
        Rect { p, d }
    }

    /// The rectangle from the top-left point `p1` to the bottom-right point
    /// `p2`, exclusive.
    pub fn new_with_points(p1: Point, p2: Point) -> (r: Rect)
        requires
            p1.x <= p2.x,
            p1.y <= p2.y,
        ensures
            r.p == p1,
            r.d.w == p2.x - p1.x,
            r.d.h == p2.y - p1.y,
    {
        Rect { p: p1, d: Dim2 { w: p2.x - p1.x, h: p2.y - p1.y } }
    }

    /// The rectangle left inside an area of dimension `dim` by the borders
    /// left, top, right and bottom.
    pub fn new_with_borders(dim: Dim2, borders: &[usize; 4]) -> (r: Rect)
        requires
            borders@[2] <= dim.w,
            borders@[3] <= dim.h,
            borders@[0] <= dim.w - borders@[2],
            borders@[1] <= dim.h - borders@[3],
        ensures
            r.p.x == borders@[0],
            r.p.y == borders@[1],
            r.d.w == dim.w - borders@[2] - borders@[0],
            r.d.h == dim.h - borders@[3] - borders@[1],
    {
        Rect::new_with_points(
            Point::new(borders[0], borders[1]),
            Point::new(dim.w - borders[2], dim.h - borders[3]),
        )
    }

    /// Whether the dimension is empty.
    pub fn is_empty(&self) -> (r: bool)
        ensures
            r == (self.d.w == 0 && self.d.h == 0),
    {
        self.d.is_empty()
    }

    /// Left, top, right and bottom.
    pub fn as_ltrb(&self) -> (r: [usize; 4])
        requires
            self.p.x + self.d.w <= usize::MAX,
            self.p.y + self.d.h <= usize::MAX,
        ensures
            r@ == seq![self.p.x, self.p.y, (self.p.x + self.d.w) as usize, (self.p.y + self.d.h) as usize],
    {
        let r = [self.p.x, self.p.y, self.p.x + self.d.w, self.p.y + self.d.h];
        assert(r@ =~= seq![self.p.x, self.p.y, (self.p.x + self.d.w) as usize, (self.p.y + self.d.h) as usize]);
        r
    }

    /// Top, left, bottom and right.
    pub fn as_tlbr(&self) -> (r: [usize; 4])
        requires
            self.p.x + self.d.w <= usize::MAX,
            self.p.y + self.d.h <= usize::MAX,
        ensures
            r@ == seq![self.p.y, self.p.x, (self.p.y + self.d.h) as usize, (self.p.x + self.d.w) as usize],
    {
        let r = [self.p.y, self.p.x, self.p.y + self.d.h, self.p.x + self.d.w];
        assert(r@ =~= seq![self.p.y, self.p.x, (self.p.y + self.d.h) as usize, (self.p.x + self.d.w) as usize]);
        r
    }
}

/// The number of rows that a crop from row `y`, `h` rows high, takes from a
/// buffer of `len` samples in whole rows of `w` samples: the rows past the
/// last whole one are not there.
pub open spec fn crop_rows(len: int, w: int, y: int, h: int) -> int {
    let avail = len / w;
    if y >= avail {
        0
    } else if h <= avail - y {
        h
    } else {
        avail - y
    }
}

/// The samples of `area` in the row-major buffer `input` of width `dim.w`,
/// row after row.
pub fn crop<T: Clone>(input: &[T], dim: Dim2, area: Rect) -> (r: Vec<T>)
    requires
        dim.w > 0,
        area.p.x + area.d.w <= dim.w,
    ensures
        ({
            let rows = crop_rows(input@.len() as int, dim.w as int, area.p.y as int, area.d.h as int);
            &&& r@.len() == rows * area.d.w
            &&& forall|i: int, c: int|
                0 <= i < rows && 0 <= c < area.d.w ==> cloned(
                    input@[(area.p.y + i) * dim.w + area.p.x + c],
                    #[trigger] r@[i * area.d.w + c],
                )
        }),
{
    let width = dim.w;
    let n: usize = input.len();
    let avail: usize = n / width;
    let rows: usize = if area.p.y >= avail {
        0
    } else if area.d.h <= avail - area.p.y {
        area.d.h
    } else {
        avail - area.p.y
    };
    let ghost len = input@.len() as int;
    let w: usize = area.d.w;
    let x: usize = area.p.x;
    let y: usize = area.p.y;
    proof {
        vstd::arithmetic::div_mod::lemma_fundamental_div_mod(len, width as int);
    }
    let mut out: Vec<T> = Vec::new();
    let mut i: usize = 0;
    while i < rows
        invariant
            i <= rows,
            rows == crop_rows(len, width as int, y as int, area.d.h as int),
            rows > 0 ==> y + rows <= avail,
            avail == len / width as int,
            len == width * (len / width as int) + len % (width as int),
            0 <= len % (width as int),
            width > 0,
            x + w <= width,
            w == area.d.w,
            x == area.p.x,
            y == area.p.y,
            len == input@.len(),
            len <= usize::MAX,
            out@.len() == i * w,
            forall|k: int, c: int|
                0 <= k < i && 0 <= c < w ==> cloned(
                    input@[(y + k) * width + x + c],
                    #[trigger] out@[k * w + c],
                ),
        decreases rows - i,
    {
        proof {
            let (yy, ii, ww, av) = (y as int, i as int, width as int, avail as int);
            assert((yy + ii + 1) * ww <= av * ww) by (nonlinear_arith)
                requires
                    yy + ii + 1 <= av,
                    ww > 0,
            ;
            assert((yy + ii) * ww + ww == (yy + ii + 1) * ww) by (nonlinear_arith);
            assert(av * ww <= len) by (nonlinear_arith)
                requires
                    len == ww * av + len % ww,
                    0 <= len % ww,
            ;
            assert((yy + ii) * ww + x + w <= len);
        }
        let base: usize = (y + i) * width + x;
        let mut c: usize = 0;
        while c < w
            invariant
                i < rows,
                c <= w,
                base == (y + i) * width + x,
                base + w <= len,
                w == area.d.w,
                len == input@.len(),
                len <= usize::MAX,
                out@.len() == i * w + c,
                forall|k: int, cc: int|
                    0 <= k < i && 0 <= cc < w ==> cloned(
                        input@[(y + k) * width + x + cc],
                        #[trigger] out@[k * w + cc],
                    ),
                forall|cc: int|
                    0 <= cc < c ==> cloned(input@[base + cc], #[trigger] out@[i * w + cc]),
            decreases w - c,
        {
            let v = input[base + c].clone();
            let ghost before = out@;
            out.push(v);
            proof {
                assert forall|k: int, cc: int| 0 <= k < i && 0 <= cc < w implies cloned(
                    input@[(y + k) * width + x + cc],
                    #[trigger] out@[k * w + cc],
                ) by {
                    assert(k * w + cc < i * w) by (nonlinear_arith)
                        requires
                            0 <= k < i,
                            0 <= cc < w,
                    ;
                    assert(out@[k * w + cc] == before[k * w + cc]);
                }
            }
            c = c + 1;
        }
        proof {
            assert(i * w + w == (i + 1) * w) by (nonlinear_arith);
            assert forall|k: int, cc: int| 0 <= k < i + 1 && 0 <= cc < w implies cloned(
                input@[(y + k) * width + x + cc],
                #[trigger] out@[k * w + cc],
            ) by {}
        }
        i = i + 1;
    }
    out
}

} // verus!
