//! A display with a framebuffer of which only what changed is sent.
//!
//! Drawing marks rectangles as dirty; a flush sends the box around all of them.

use vstd::prelude::*;

verus! {

/// Bytes of a pixel.
pub const PIXEL_SIZE: usize = 2;

#[derive(Clone, Copy, Debug, PartialEq, Eq, Structural)]
pub struct Point {
    pub x: i32,
    pub y: i32,
}

/// A rectangle: its upper left corner and its size.
#[derive(Clone, Copy, Debug, PartialEq, Eq, Structural)]
pub struct Rectangle {
    pub top_left: Point,
    pub width: u32,
    pub height: u32,
}

/// The pixels between two corners, both of them included.
pub struct Bounds {
    pub left: int,
    pub top: int,
    pub right: int,
    pub bottom: int,
}

pub open spec fn lesser(a: int, b: int) -> int {
    if a < b {
        a
    } else {
        b
    }
}

pub open spec fn greater(a: int, b: int) -> int {
    if a > b {
        a
    } else {
        b
    }
}

impl Bounds {
    pub open spec fn has(self, x: int, y: int) -> bool {
        self.left <= x <= self.right && self.top <= y <= self.bottom
    }

    /// The smallest box around two boxes.
    pub open spec fn around(self, other: Bounds) -> Bounds {
        Bounds {
            left: lesser(self.left, other.left),
            top: lesser(self.top, other.top),
            right: greater(self.right, other.right),
            bottom: greater(self.bottom, other.bottom),
        }
    }
}

/// The pixels common to two sets of pixels.
pub open spec fn common(a: Option<Bounds>, b: Option<Bounds>) -> Option<Bounds> {
    match (a, b) {
        (Some(a), Some(b)) => {
            let c = Bounds {
                left: greater(a.left, b.left),
                top: greater(a.top, b.top),
                right: lesser(a.right, b.right),
                bottom: lesser(a.bottom, b.bottom),
            };
            if c.left <= c.right && c.top <= c.bottom {
                Some(c)
            } else {
                None
            }
        },
        _ => None,
    }
}

impl Rectangle {
    /// Every corner of the rectangle, and the one past it, can be told.
    pub open spec fn fits(self) -> bool {
        self.top_left.x + self.width <= i32::MAX && self.top_left.y + self.height <= i32::MAX
            && self.width <= i32::MAX && self.height <= i32::MAX
    }

    /// The pixels of a rectangle, if it has any.
    pub open spec fn bounds(self) -> Option<Bounds> {
        if self.width > 0 && self.height > 0 {
            Some(
                Bounds {
                    left: self.top_left.x as int,
                    top: self.top_left.y as int,
                    right: self.top_left.x + self.width - 1,
                    bottom: self.top_left.y + self.height - 1,
                },
            )
        } else {
            None
        }
    }
}

/// `embedded_graphics::primitives::Rectangle::intersection`: the pixels common to
/// both rectangles. Without common pixels the result has none, and where it lies
/// then is left unsaid; its corners can be told as those of the two can.
#[verifier::external_body]
fn intersection(a: &Rectangle, b: &Rectangle) -> (r: Rectangle)
    requires
        a.fits(),
        b.fits(),
    ensures
        r.bounds() == common(a.bounds(), b.bounds()),
        r.fits(),
{
    let first = embedded_graphics::primitives::Rectangle::new(
        embedded_graphics::geometry::Point::new(a.top_left.x, a.top_left.y),
        embedded_graphics::geometry::Size::new(a.width, a.height),
    );
    let second = embedded_graphics::primitives::Rectangle::new(
        embedded_graphics::geometry::Point::new(b.top_left.x, b.top_left.y),
        embedded_graphics::geometry::Size::new(b.width, b.height),
    );
    let r = first.intersection(&second);
    let top_left = Point { x: r.top_left.x, y: r.top_left.y };
    Rectangle { top_left, width: r.size.width, height: r.size.height }
}

/// `embedded_graphics::primitives::Rectangle::with_corners`: the rectangle between
/// two corners, whichever of them is which.
#[verifier::external_body]
fn with_corners(a: Point, b: Point) -> (r: Rectangle)
    requires
        -i32::MAX <= a.x - b.x <= i32::MAX,
        -i32::MAX <= a.y - b.y <= i32::MAX,
    ensures
        r.bounds() == Some(
            Bounds {
                left: lesser(a.x as int, b.x as int),
                top: lesser(a.y as int, b.y as int),
                right: greater(a.x as int, b.x as int),
                bottom: greater(a.y as int, b.y as int),
            },
        ),
{
    let r = embedded_graphics::primitives::Rectangle::with_corners(
        embedded_graphics::geometry::Point::new(a.x, a.y),
        embedded_graphics::geometry::Point::new(b.x, b.y),
    );
    let top_left = Point { x: r.top_left.x, y: r.top_left.y };
    Rectangle { top_left, width: r.size.width, height: r.size.height }
}

/// `embedded_graphics::primitives::Rectangle::bottom_right`: the last pixel of a
/// rectangle that has any.
#[verifier::external_body]
fn bottom_right(a: &Rectangle) -> (r: Option<Point>)
    requires
        a.fits(),
    ensures
        match r {
            Some(p) => a.bounds() matches Some(b) && p.x == b.right && p.y == b.bottom,
            None => a.bounds() is None,
        },
{
    let outside = embedded_graphics::primitives::Rectangle::new(
        embedded_graphics::geometry::Point::new(a.top_left.x, a.top_left.y),
        embedded_graphics::geometry::Size::new(a.width, a.height),
    );
    match outside.bottom_right() {
        Some(p) => Some(Point { x: p.x, y: p.y }),
        None => None,
    }
}

fn component_min(a: Point, b: Point) -> (r: Point)
    ensures
        r.x == lesser(a.x as int, b.x as int),
        r.y == lesser(a.y as int, b.y as int),
{
    Point {
        x: if a.x < b.x {
            a.x
        } else {
            b.x
        },
        y: if a.y < b.y {
            a.y
        } else {
            b.y
        },
    }
}

fn component_max(a: Point, b: Point) -> (r: Point)
    ensures
        r.x == greater(a.x as int, b.x as int),
        r.y == greater(a.y as int, b.y as int),
{
    Point {
        x: if a.x > b.x {
            a.x
        } else {
            b.x
        },
        y: if a.y > b.y {
            a.y
        } else {
            b.y
        },
    }
}

/// A run of whole or partial rows that is sent in one transfer.
#[derive(Clone, Copy, Debug, PartialEq, Eq, Structural)]
pub struct Transfer {
    pub x: u16,
    pub y: u16,
    pub width: u16,
    pub height: u16,
}

/// How a flush goes about it.
#[derive(Clone, Copy, Debug, PartialEq, Eq, Structural)]
pub enum FlushPlan {
    /// Nothing is dirty.
    Nothing,
    /// Rows of the dirty rectangle are gathered, that many at a time.
    Staged { x: usize, y: usize, width: usize, height: usize, rows_per_pass: usize },
    /// Whole rows, which lie in the framebuffer one after the other.
    Rows { y: usize, height: usize },
}

/// The dirty state of a display of `W` by `H` pixels.
pub struct LcdAsyncDisplay<const W: usize, const H: usize> {
    dirty: Option<Rectangle>,
    staging: Option<usize>,
}

impl<const W: usize, const H: usize> LcdAsyncDisplay<W, H> {
    /// What was drawn since the last flush: the box around it.
    pub closed spec fn dirty(&self) -> Option<Bounds> {
        match self.dirty {
            Some(d) => d.bounds(),
            None => None,
        }
    }

    /// Bytes of the scratch for gathering rows.
    pub closed spec fn staging_len(&self) -> Option<usize> {
        self.staging
    }

    pub open spec fn screen() -> Option<Bounds> {
        if W > 0 && H > 0 {
            Some(Bounds { left: 0, top: 0, right: W - 1, bottom: H - 1 })
        } else {
            None
        }
    }

    /// Displays have at most 65535 pixels in either direction.
    pub open spec fn dimensions_ok() -> bool {
        0 < W <= 65535 && 0 < H <= 65535
    }

    /// What is dirty lies on the screen.
    pub closed spec fn wf(&self) -> bool {
        &&& Self::dimensions_ok()
        &&& self.dirty matches Some(d) ==> {
            &&& d.bounds() matches Some(b) && 0 <= b.left && b.right < W && 0 <= b.top && b.bottom
                < H
            &&& d.fits()
        }
    }

    /// A display whose framebuffer holds `buffer_len` bytes. All of it is to be
    /// sent first.
    pub fn new(buffer_len: usize) -> (r: Self)
        requires
            Self::dimensions_ok(),
            buffer_len == W * H * PIXEL_SIZE,
        ensures
            r.wf(),
            r.dirty() == Self::screen(),
            r.staging_len() is None,
    {
        LcdAsyncDisplay {
            dirty: Some(
                Rectangle {
                    top_left: Point { x: 0, y: 0 },
                    width: W as u32,
                    height: H as u32,
                },
            ),
            staging: None,
        }
    }

    /// Scratch for sending a sub-width dirty rectangle in one transfer instead of
    /// widening it to full rows. `width * height * 2` bytes covers the largest
    /// rectangle in one call; a smaller buffer takes more passes, and one too small
    /// for a single row falls back to full rows.
    pub fn with_staging(self, staging_len: usize) -> (r: Self)
        requires
            self.wf(),
        ensures
            r.wf(),
            r.dirty() == self.dirty(),
            r.staging_len() == Some(staging_len),
    {
        LcdAsyncDisplay { dirty: self.dirty, staging: Some(staging_len) }
    }

    /// Merge `area` (clipped to the screen) into the dirty region.
    pub fn mark_dirty(&mut self, area: &Rectangle)
        requires
            old(self).wf(),
            area.fits(),
        ensures
            final(self).wf(),
            final(self).staging_len() == old(self).staging_len(),
            final(self).dirty() == match common(area.bounds(), Self::screen()) {
                None => old(self).dirty(),
                Some(a) => match old(self).dirty() {
                    None => Some(a),
                    Some(d) => Some(d.around(a)),
                },
            },
    {
        let screen = Rectangle {
            top_left: Point { x: 0, y: 0 },
            width: W as u32,
            height: H as u32,
        };
        let clipped = intersection(area, &screen);
        let last = match bottom_right(&clipped) {
            None => return,
            Some(p) => p,
        };
        match self.dirty {
            None => {
                self.dirty = Some(clipped);
            },
            Some(d) => {
                let d_last = match bottom_right(&d) {
                    Some(p) => p,
                    None => d.top_left,
                };
                let a = component_min(d.top_left, clipped.top_left);
                let b = component_max(d_last, last);
                let merged = with_corners(a, b);
                proof {
                    assert(merged.bounds() == Some(
                        d.bounds()->Some_0.around(clipped.bounds()->Some_0),
                    ));
                }
                self.dirty = Some(merged);
            },
        }
    }

    /// Marks the pixels of a drawing: the box around all their positions.
    pub fn mark_pixels(&mut self, pixels: &Vec<Point>)
        requires
            old(self).wf(),
            box_around(pixels@) matches Some(b) ==> b.right < i32::MAX && b.bottom < i32::MAX
                && b.right - b.left < i32::MAX && b.bottom - b.top < i32::MAX,
        ensures
            final(self).wf(),
            final(self).staging_len() == old(self).staging_len(),
            final(self).dirty() == match common(box_around(pixels@), Self::screen()) {
                None => old(self).dirty(),
                Some(a) => match old(self).dirty() {
                    None => Some(a),
                    Some(d) => Some(d.around(a)),
                },
            },
    {
        if pixels.len() == 0 {
            return;
        }
        let mut min = pixels[0];
        let mut max = pixels[0];
        let mut i: usize = 1;
        proof {
            let p = pixels@.subrange(0, 1);
            assert(p.last() == pixels@[0]);
            assert(box_around(p.drop_last()) is None);
        }
        while i < pixels.len()
            invariant
                1 <= i <= pixels@.len(),
                min.x <= max.x,
                min.y <= max.y,
                box_around(pixels@.subrange(0, i as int)) == Some(
                    Bounds {
                        left: min.x as int,
                        top: min.y as int,
                        right: max.x as int,
                        bottom: max.y as int,
                    },
                ),
            decreases pixels@.len() - i,
        {
            proof {
                let p = pixels@.subrange(0, i + 1);
                assert(p.drop_last() =~= pixels@.subrange(0, i as int));
                assert(p.last() == pixels@[i as int]);
            }
            min = component_min(min, pixels[i]);
            max = component_max(max, pixels[i]);
            i = i + 1;
        }
        assert(pixels@.subrange(0, i as int) =~= pixels@);
        let area = with_corners(min, max);
        self.mark_dirty(&area);
    }

    /// How the dirty region is sent.
    pub fn flush_plan(&self) -> (r: FlushPlan)
        requires
            self.wf(),
        ensures
            match self.dirty() {
                None => r == FlushPlan::Nothing,
                Some(b) => {
                    let width = b.right - b.left + 1;
                    let height = b.bottom - b.top + 1;
                    match self.staging_len() {
                        Some(len) => if width < W && len >= width * 2 {
                            r == (FlushPlan::Staged {
                                x: b.left as usize,
                                y: b.top as usize,
                                width: width as usize,
                                height: height as usize,
                                rows_per_pass: (len as int / (width * 2)) as usize,
                            })
                        } else {
                            r == (FlushPlan::Rows { y: b.top as usize, height: height as usize })
                        },
                        None => r == (FlushPlan::Rows {
                            y: b.top as usize,
                            height: height as usize,
                        }),
                    }
                },
            },
    {
        let d = match self.dirty {
            None => return FlushPlan::Nothing,
            Some(d) => d,
        };
        let x: usize = d.top_left.x as usize;
        let y: usize = d.top_left.y as usize;
        let width: usize = d.width as usize;
        let height: usize = d.height as usize;
        if let Some(len) = self.staging {
            if width < W && len >= width * 2 {
                let rows_per_pass: usize = len / (width * 2);
                proof {
                    assert(0 <= len as int / (width * 2) <= len) by (nonlinear_arith)
                        requires
                            width > 0,
                            len >= 0,
                    ;
                }
                return FlushPlan::Staged { x, y, width, height, rows_per_pass };
            }
        }
        FlushPlan::Rows { y, height }
    }

    /// Everything was sent.
    pub fn flushed(&mut self)
        requires
            old(self).wf(),
        ensures
            final(self).wf(),
            final(self).dirty() is None,
            final(self).staging_len() == old(self).staging_len(),
    {
        self.dirty = None;
    }
}

/// The smallest box around some pixels.
pub open spec fn box_around(pixels: Seq<Point>) -> Option<Bounds>
    decreases pixels.len(),
{
    if pixels.len() == 0 {
        None
    } else {
        let p = pixels.last();
        let here = Bounds {
            left: p.x as int,
            top: p.y as int,
            right: p.x as int,
            bottom: p.y as int,
        };
        match box_around(pixels.drop_last()) {
            None => Some(here),
            Some(b) => Some(b.around(here)),
        }
    }
}

/// Rows of the next pass of a staged flush: what is left, at most as many as fit.
/// `at` is the first row that was not sent, `end` the one after the last.
pub fn pass_rows(at: usize, end: usize, rows_per_pass: usize) -> (count: usize)
    requires
        at < end,
        rows_per_pass > 0,
    ensures
        count == lesser(rows_per_pass as int, end - at),
        0 < count <= end - at,
{
    if rows_per_pass < end - at {
        rows_per_pass
    } else {
        end - at
    }
}

/// Where byte `k` of row `n` of a pass lies in the framebuffer.
pub open spec fn source_of(stride: int, x: int, y: int, n: int, k: int) -> int {
    ((y + n) * stride + x) * 2 + k
}

/// Gathers rows of a rectangle: `count` rows from row `y`, each `width` pixels from
/// column `x`, out of a framebuffer of `stride` pixels a row.
pub fn gather(
    buffer: &[u8],
    staging: &mut Vec<u8>,
    stride: usize,
    x: usize,
    y: usize,
    width: usize,
    count: usize,
)
    requires
        0 < width,
        x + width <= stride <= 65535,
        y + count <= 65535,
        (y + count) * stride * 2 <= buffer@.len(),
        count * width * 2 <= old(staging)@.len(),
    ensures
        final(staging)@.len() == old(staging)@.len(),
        forall|n: int, k: int|
            0 <= n < count && 0 <= k < width * 2 ==> final(staging)@[#[trigger] (n * (width * 2)
                + k)] == buffer@[source_of(stride as int, x as int, y as int, n, k)],
        forall|i: int|
            count * width * 2 <= i < old(staging)@.len() ==> #[trigger] final(staging)@[i] == old(
                staging,
            )@[i],
{
    let row_len: usize = width * 2;
    let total: usize = buffer.len();
    let room: usize = staging.len();
    let mut n: usize = 0;
    proof {
        assert(0 * row_len == 0);
    }
    while n < count
        invariant
            0 < width,
            row_len == width * 2,
            x + width <= stride <= 65535,
            y + count <= 65535,
            n <= count,
            total == buffer@.len(),
            room == old(staging)@.len(),
            (y + count) * stride * 2 <= total,
            count * width * 2 <= room,
            staging@.len() == room,
            forall|m: int, k: int|
                0 <= m < n && 0 <= k < row_len ==> staging@[#[trigger] (m * row_len + k)]
                    == buffer@[source_of(stride as int, x as int, y as int, m, k)],
            forall|i: int| n * row_len <= i < room ==> #[trigger] staging@[i] == old(staging)@[i],
        decreases count - n,
    {
        proof {
            lemma_row_fits(stride as int, x as int, y as int, width as int, n as int, count as int);
            assert(n * row_len + row_len <= count * width * 2) by (nonlinear_arith)
                requires
                    row_len == width * 2,
                    n + 1 <= count,
                    width > 0,
            ;
            assert((y + n) * stride <= 65535 * 65535) by (nonlinear_arith)
                requires
                    y + n <= 65535,
                    stride <= 65535,
                    y + n >= 0,
                    stride >= 0,
            ;
        }
        let from: usize = ((y + n) * stride + x) * 2;
        let to: usize = n * row_len;
        let mut k: usize = 0;
        while k < row_len
            invariant
                0 < width,
                row_len == width * 2,
                n < count,
                k <= row_len,
                total == buffer@.len(),
                room == old(staging)@.len(),
                from + row_len <= total,
                from == ((y + n) * stride + x) * 2,
                to == n * row_len,
                to + row_len <= room,
                staging@.len() == room,
                forall|m: int, j: int|
                    0 <= m < n && 0 <= j < row_len ==> staging@[#[trigger] (m * row_len + j)]
                        == buffer@[source_of(stride as int, x as int, y as int, m, j)],
                forall|i: int|
                    to <= i < to + k ==> #[trigger] staging@[i] == buffer@[from + (i - to)],
                forall|i: int|
                    to + k <= i < room ==> #[trigger] staging@[i] == old(staging)@[i],
            decreases row_len - k,
        {
            let ghost before = staging@;
            staging.set(to + k, buffer[from + k]);
            proof {
                assert forall|m: int, j: int| 0 <= m < n && 0 <= j < row_len implies staging@[
                #[trigger] (m * row_len + j)] == buffer@[source_of(
                    stride as int,
                    x as int,
                    y as int,
                    m,
                    j,
                )] by {
                    assert(m * row_len + j < n * row_len) by (nonlinear_arith)
                        requires
                            m + 1 <= n,
                            j < row_len,
                            row_len > 0,
                    ;
                    assert(before[m * row_len + j] == staging@[m * row_len + j]);
                }
            }
            k = k + 1;
        }
        proof {
            assert forall|m: int, j: int| 0 <= m < n + 1 && 0 <= j < row_len implies staging@[
            #[trigger] (m * row_len + j)] == buffer@[source_of(
                stride as int,
                x as int,
                y as int,
                m,
                j,
            )] by {
                if m == n {
                    assert(staging@[to + j] == buffer@[from + j]);
                }
            }
            assert((n + 1) * row_len == n * row_len + row_len) by (nonlinear_arith);
        }
        n = n + 1;
    }
    proof {
        assert(count * row_len == count * width * 2) by (nonlinear_arith)
            requires
                row_len == width * 2,
        ;
    }
}

proof fn lemma_row_fits(stride: int, x: int, y: int, width: int, n: int, count: int)
    requires
        0 < width,
        0 <= x,
        x + width <= stride,
        0 <= y,
        0 <= n < count,
    ensures
        ((y + n) * stride + x) * 2 + width * 2 <= (y + count) * stride * 2,
        0 <= ((y + n) * stride + x) * 2,
{
    assert((y + n) * stride + stride <= (y + count) * stride) by (nonlinear_arith)
        requires
            n + 1 <= count,
            stride > 0,
    ;
    assert(0 <= (y + n) * stride) by (nonlinear_arith)
        requires
            y + n >= 0,
            stride > 0,
    ;
}

// ---------------------------------------------------------------------------
// Laws
// ---------------------------------------------------------------------------

/// Nothing drawn is lost: every pixel of the screen that a drawing touches is
/// within the dirty box afterwards, and so is everything that was dirty before.
pub proof fn law_what_was_drawn_is_sent(
    before: Option<Bounds>,
    area: Option<Bounds>,
    screen: Option<Bounds>,
    after: Option<Bounds>,
    x: int,
    y: int,
)
    requires
        after == match common(area, screen) {
            None => before,
            Some(a) => match before {
                None => Some(a),
                Some(d) => Some(d.around(a)),
            },
        },
        (before matches Some(b) && b.has(x, y)) || (area matches Some(a) && a.has(x, y)
            && (screen matches Some(s) && s.has(x, y))),
    ensures
        after matches Some(d) && d.has(x, y),
{
}

/// Rows sent by the passes of a staged flush, from row `at` on.
pub open spec fn passes(at: int, end: int, rows_per_pass: int) -> Seq<(int, int)>
    decreases end - at,
{
    if at >= end || rows_per_pass <= 0 {
        Seq::empty()
    } else {
        let count = lesser(rows_per_pass, end - at);
        seq![(at, count)] + passes(at + count, end, rows_per_pass)
    }
}

/// The passes of a staged flush send every row exactly once: each starts where the
/// one before ended, the first at the first row, and the last ends at the last.
pub proof fn law_every_row_is_sent_once(at: int, end: int, rows_per_pass: int)
    requires
        at < end,
        rows_per_pass > 0,
    ensures
        passes(at, end, rows_per_pass).len() > 0,
        passes(at, end, rows_per_pass)[0].0 == at,
        ({
            let last = passes(at, end, rows_per_pass).last();
            last.0 + last.1 == end
        }),
        forall|i: int|
            0 <= i < passes(at, end, rows_per_pass).len() - 1 ==> (#[trigger] passes(
                at,
                end,
                rows_per_pass,
            )[i + 1]).0 == passes(at, end, rows_per_pass)[i].0 + passes(
                at,
                end,
                rows_per_pass,
            )[i].1,
    decreases end - at,
{
    let count = lesser(rows_per_pass, end - at);
    let rest = passes(at + count, end, rows_per_pass);
    let all = passes(at, end, rows_per_pass);
    if at + count < end {
        law_every_row_is_sent_once(at + count, end, rows_per_pass);
        assert(all.last() == rest.last());
        assert forall|i: int| 0 <= i < all.len() - 1 implies (#[trigger] all[i + 1]).0 == all[i].0
            + all[i].1 by {
            if i > 0 {
                assert(all[i] == rest[i - 1]);
                assert(all[i + 1] == rest[(i - 1) + 1]);
            }
        }
    } else {
        assert(rest.len() == 0);
    }
}

/// The box around two boxes is the smallest: it holds both, and each of its sides is a side of
/// one of them.
pub proof fn law_the_box_around_two_is_the_smallest(a: Bounds, b: Bounds, x: int, y: int)
    ensures
        a.has(x, y) || b.has(x, y) ==> a.around(b).has(x, y),
        a.around(b).left == a.left || a.around(b).left == b.left,
        a.around(b).right == a.right || a.around(b).right == b.right,
        a.around(b).top == a.top || a.around(b).top == b.top,
        a.around(b).bottom == a.bottom || a.around(b).bottom == b.bottom,
        a.around(b).left <= a.left && a.around(b).left <= b.left,
        a.around(b).right >= a.right && a.around(b).right >= b.right,
        a.around(b).top <= a.top && a.around(b).top <= b.top,
        a.around(b).bottom >= a.bottom && a.around(b).bottom >= b.bottom,
{
}

/// The pixels common to two rectangles are those that both have.
pub proof fn law_common_pixels_are_in_both(a: Option<Bounds>, b: Option<Bounds>, x: int, y: int)
    ensures
        (common(a, b) matches Some(c) && c.has(x, y)) <==> (a matches Some(p) && p.has(x, y)) && (
        b matches Some(q) && q.has(x, y)),
{
}

/// A rectangle has its width times its height of pixels, from its upper left corner on.
pub proof fn law_a_rectangle_has_its_pixels(r: Rectangle, x: int, y: int)
    ensures
        (r.bounds() matches Some(b) && b.has(x, y)) <==> r.top_left.x <= x < r.top_left.x + r.width
            && r.top_left.y <= y < r.top_left.y + r.height,
{
}

/// The box around some pixels holds each of them, and is no larger than they ask for.
pub proof fn law_the_box_around_pixels_holds_them(pixels: Seq<Point>, i: int)
    requires
        0 <= i < pixels.len(),
    ensures
        box_around(pixels) is Some,
        box_around(pixels)->0.has(pixels[i].x as int, pixels[i].y as int),
        exists|k: int|
            0 <= k < pixels.len() && (#[trigger] pixels[k]).x == box_around(pixels)->0.left,
        exists|k: int|
            0 <= k < pixels.len() && (#[trigger] pixels[k]).x == box_around(pixels)->0.right,
        exists|k: int|
            0 <= k < pixels.len() && (#[trigger] pixels[k]).y == box_around(pixels)->0.top,
        exists|k: int|
            0 <= k < pixels.len() && (#[trigger] pixels[k]).y == box_around(pixels)->0.bottom,
    decreases pixels.len(),
{
    let p = pixels.drop_last();
    let last = pixels.len() - 1;
    let here = pixels[last];
    if p.len() > 0 {
        law_the_box_around_pixels_holds_them(
            p,
            if i < last {
                i
            } else {
                0
            },
        );
        let b = box_around(p)->0;
        let l = choose|k: int| 0 <= k < p.len() && (#[trigger] p[k]).x == b.left;
        let r = choose|k: int| 0 <= k < p.len() && (#[trigger] p[k]).x == b.right;
        let t = choose|k: int| 0 <= k < p.len() && (#[trigger] p[k]).y == b.top;
        let m = choose|k: int| 0 <= k < p.len() && (#[trigger] p[k]).y == b.bottom;
        assert(pixels[l] == p[l] && pixels[r] == p[r] && pixels[t] == p[t] && pixels[m] == p[m]);
        if i < last {
            assert(pixels[i] == p[i]);
        }
    } else {
        assert(box_around(p) is None);
    }
    assert(pixels[last] == here);
}

/// A framebuffer holds its pixels row by row, two bytes each: the next byte lies behind, the next
/// pixel two bytes on, and the next row as many pixels on as a row has.
pub proof fn law_pixels_lie_row_by_row(stride: int, x: int, y: int, n: int, k: int)
    ensures
        source_of(stride, 0, 0, 0, 0) == 0,
        source_of(stride, x, y, n, k + 1) == source_of(stride, x, y, n, k) + 1,
        source_of(stride, x + 1, y, n, k) == source_of(stride, x, y, n, k + 2),
        source_of(stride, x, y + 1, n, k) == source_of(stride, x, y, n + 1, k),
        source_of(stride, x, y, n + 1, k) == source_of(stride, x + stride, y, n, k),
        source_of(stride, x, y, n + 1, k) == source_of(stride, x, y, n, k) + 2 * stride,
{
    assert((y + (n + 1)) * stride == (y + n) * stride + stride) by (nonlinear_arith);
    assert((y + 1) + n == y + (n + 1));
    assert((0int + 0int) * stride == 0) by (nonlinear_arith);
}

/// The screen has the pixels of its columns and rows, counted from nought.
pub proof fn law_the_screen_has_its_pixels<const W: usize, const H: usize>(x: int, y: int)
    ensures
        (LcdAsyncDisplay::<W, H>::screen() matches Some(b) && b.has(x, y)) <==> 0 <= x < W && 0 <= y
            < H,
{
}

/// A flush sends every pixel that was drawn, gathers only what was drawn, and gathers as many rows
/// at a time as the scratch holds.
pub proof fn law_a_flush_sends_what_was_drawn<const W: usize, const H: usize>(
    display: LcdAsyncDisplay<W, H>,
    r: FlushPlan,
    px: int,
    py: int,
)
    requires
        display.wf(),
        LcdAsyncDisplay::<W, H>::flush_plan.ensures((&display,), r),
    ensures
        r is Nothing <==> display.dirty() is None,
        r matches FlushPlan::Staged { x, y, width, height, rows_per_pass } ==> {
            &&& (display.dirty() matches Some(b) && b.has(px, py)) <==> x <= px < x + width && y
                <= py < y + height
            &&& display.staging_len() is Some
            &&& 0 < width < W
            &&& 1 <= rows_per_pass
            &&& rows_per_pass * (width * 2) <= display.staging_len()->0 < (rows_per_pass + 1) * (
            width * 2)
        },
        r matches FlushPlan::Rows { y, height } ==> {
            &&& (display.dirty() matches Some(b) && b.has(px, py)) ==> y <= py < y + height
            &&& display.dirty() matches Some(b) && y == b.top && y + height == b.bottom + 1
        },
{
    if let Some(b) = display.dirty() {
        let row = (b.right - b.left + 1) * 2;
        if let Some(len) = display.staging_len() {
            let n = len as int;
            if row > 0 && n >= row {
                assert(1 <= n / row && (n / row) * row <= n < (n / row + 1) * row && n / row <= n)
                    by (nonlinear_arith)
                    requires
                        row > 0,
                        n >= row,
                ;
            }
        }
    }
}

} // verus!
