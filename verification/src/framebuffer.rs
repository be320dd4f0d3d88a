//! The BGRA framebuffer that holds the decoded remote desktop.
use crate::text::{decimal, to_decimal};
use vstd::prelude::*;

verus! {

/// A rectangle of the framebuffer that changed since the last frame.
#[derive(Debug, Clone, Copy, PartialEq, Eq, Structural)]
pub struct DamageRect {
    /// Left edge in pixels.
    pub left: u32,
    /// Top edge in pixels.
    pub top: u32,
    /// Width in pixels.
    pub width: u32,
    /// Height in pixels.
    pub height: u32,
}

impl Default for DamageRect {
    fn default() -> (r: Self)
        ensures
            r.left == 0 && r.top == 0 && r.width == 0 && r.height == 0,
    {
        DamageRect { left: 0, top: 0, width: 0, height: 0 }
    }
}

/// The smaller of two numbers.
fn lesser(a: u32, b: u32) -> (r: u32)
    ensures
        r == if a < b {
            a
        } else {
            b
        },
{
    if a < b {
        a
    } else {
        b
    }
}

/// The larger of two numbers.
fn greater(a: u32, b: u32) -> (r: u32)
    ensures
        r == if a < b {
            b
        } else {
            a
        },
{
    if a < b {
        b
    } else {
        a
    }
}

/// Where a span that starts at `start` begins once it is kept below `limit`.
pub open spec fn clamped_start(start: u32, limit: u32) -> u32 {
    if limit == 0 {
        0
    } else if start < limit {
        start
    } else {
        (limit - 1) as u32
    }
}

/// How much of a span of `length` from `start` stays below `limit`.
pub open spec fn clamped_length(start: u32, length: u32, limit: u32) -> u32 {
    let room = limit - clamped_start(start, limit);
    if length < room {
        length
    } else {
        room as u32
    }
}

impl DamageRect {
    /// Whether the rectangle covers no pixels.
    pub open spec fn empty(self) -> bool {
        self.width == 0 || self.height == 0
    }

    /// Whether the rectangle covers a pixel.
    pub open spec fn covers(self, x: int, y: int) -> bool {
        self.left <= x < self.left + self.width && self.top <= y < self.top + self.height
    }

    /// Whether every pixel of another rectangle is covered.
    pub open spec fn encloses(self, other: DamageRect) -> bool {
        forall|x: int, y: int| other.covers(x, y) ==> #[trigger] self.covers(x, y)
    }

    /// Whether the right and bottom edges are representable.
    pub open spec fn fits(self) -> bool {
        self.left + self.width <= u32::MAX && self.top + self.height <= u32::MAX
    }

    /// The rectangle kept within bounds.
    pub open spec fn within(self, width: u32, height: u32) -> DamageRect {
        DamageRect {
            left: clamped_start(self.left, width),
            top: clamped_start(self.top, height),
            width: clamped_length(self.left, self.width, width),
            height: clamped_length(self.top, self.height, height),
        }
    }

    /// Whether two rectangles have a bounding box.
    pub open spec fn joinable(self, other: DamageRect) -> bool {
        self.empty() || other.empty() || (self.fits() && other.fits())
    }

    /// The bounding box of two rectangles.
    pub open spec fn bounding(self, other: DamageRect) -> DamageRect {
        if self.empty() {
            other
        } else if other.empty() {
            self
        } else {
            let left = if self.left < other.left { self.left } else { other.left };
            let top = if self.top < other.top { self.top } else { other.top };
            let right = if self.left + self.width < other.left + other.width {
                other.left + other.width
            } else {
                self.left + self.width
            };
            let bottom = if self.top + self.height < other.top + other.height {
                other.top + other.height
            } else {
                self.top + self.height
            };
            DamageRect {
                left,
                top,
                width: (right - left) as u32,
                height: (bottom - top) as u32,
            }
        }
    }

    /// True when the rectangle covers no pixels.
    pub fn is_empty(&self) -> (r: bool)
        ensures
            r == self.empty(),
    {
        self.width == 0 || self.height == 0
    }

    /// Clamps the rectangle to the framebuffer bounds.
    pub fn clamped(self, width: u32, height: u32) -> (r: Self)
        ensures
            r == self.within(width, height),
    {
        let left = lesser(self.left, width.saturating_sub(1));
        let top = lesser(self.top, height.saturating_sub(1));
        DamageRect {
            left,
            top,
            width: lesser(self.width, width - left),
            height: lesser(self.height, height - top),
        }
    }

    /// Merges two rectangles into their bounding box.
    pub fn union(self, other: Self) -> (r: Self)
        requires
            self.joinable(other),
        ensures
            r == self.bounding(other),
    {
        if self.is_empty() {
            return other;
        }
        if other.is_empty() {
            return self;
        }
        let left = lesser(self.left, other.left);
        let top = lesser(self.top, other.top);
        let right = greater(self.left + self.width, other.left + other.width);
        let bottom = greater(self.top + self.height, other.top + other.height);
        DamageRect { left, top, width: right - left, height: bottom - top }
    }
}

/// The bounding box of two rectangles covers every pixel of both, and any box
/// that covers both covers it.
pub proof fn bounding_boxes_are_tight(a: DamageRect, b: DamageRect, other: DamageRect)
    requires
        a.joinable(b),
    ensures
        a.bounding(b).encloses(a),
        a.bounding(b).encloses(b),
        other.encloses(a) && other.encloses(b) ==> other.encloses(a.bounding(b)),
{
    if other.encloses(a) && other.encloses(b) {
        if !a.empty() {
            assert(a.covers(a.left as int, a.top as int));
            assert(a.covers(a.left + a.width - 1, a.top + a.height - 1));
            assert(other.covers(a.left as int, a.top as int));
            assert(other.covers(a.left + a.width - 1, a.top + a.height - 1));
        }
        if !b.empty() {
            assert(b.covers(b.left as int, b.top as int));
            assert(b.covers(b.left + b.width - 1, b.top + b.height - 1));
            assert(other.covers(b.left as int, b.top as int));
            assert(other.covers(b.left + b.width - 1, b.top + b.height - 1));
        }
    }
}

/// Clamping keeps a rectangle inside the bounds, and leaves alone one that
/// already lies inside.
pub proof fn clamped_rectangles_lie_inside(rect: DamageRect, width: u32, height: u32)
    ensures
        rect.within(width, height).left + rect.within(width, height).width <= width,
        rect.within(width, height).top + rect.within(width, height).height <= height,
        rect.within(width, height).within(width, height) == rect.within(width, height),
        rect.left < width && rect.left + rect.width <= width && rect.top < height && rect.top
            + rect.height <= height ==> rect.within(width, height) == rect,
{
}

/// Position of one colour byte of a pixel in row-major order.
pub open spec fn byte_index(width: int, x: int, y: int, c: int) -> int {
    (y * width + x) * 4 + c
}

/// One colour byte of a pixel.
pub open spec fn byte_at(pixels: Seq<u8>, width: int, x: int, y: int, c: int) -> u8 {
    pixels[byte_index(width, x, y, c)]
}

/// Whether coordinates name a colour byte of a picture.
pub open spec fn in_picture(width: int, height: int, x: int, y: int, c: int) -> bool {
    0 <= x < width && 0 <= y < height && 0 <= c < 4
}

/// What a framebuffer shows.
pub ghost struct FramebufferView {
    /// Width in pixels.
    pub width: u32,
    /// Height in pixels.
    pub height: u32,
    /// Colour bytes in row-major order.
    pub pixels: Seq<u8>,
    /// What changed since the last frame.
    pub damage: Option<DamageRect>,
}

/// Damage with one more rectangle.
pub open spec fn merged(damage: Option<DamageRect>, rect: DamageRect) -> Option<DamageRect> {
    match damage {
        Some(last) => Some(last.bounding(rect)),
        None => Some(rect),
    }
}

/// Whether a rectangle can be added to damage.
pub open spec fn mergeable(damage: Option<DamageRect>, rect: DamageRect) -> bool {
    damage is Some ==> damage->0.joinable(rect)
}

/// A dimension of at least one pixel.
pub open spec fn at_least_one(n: u32) -> u32 {
    if n < 1 {
        1
    } else {
        n
    }
}

/// Whether a bitmap replaces the pixels of a clamped rectangle.
pub open spec fn drawable(rect: DamageRect, bytes: nat) -> bool {
    !rect.empty() && bytes >= rect.width * rect.height * 4
}

proof fn rows_do_not_overlap(
    width: int,
    left: int,
    span: int,
    row: int,
    x: int,
    y: int,
    c: int,
)
    requires
        0 <= x < width,
        0 <= y,
        0 <= c < 4,
        0 <= row,
        0 <= left,
        0 <= span,
        left + span <= width,
    ensures
        byte_index(width, left, row, 0) <= byte_index(width, x, y, c) < byte_index(
            width,
            left,
            row,
            0,
        ) + span * 4 <==> y == row && left <= x < left + span,
{
    if y < row {
        assert((y + 1) * width <= row * width) by (nonlinear_arith)
            requires
                y + 1 <= row,
                0 <= width,
        ;
        assert((y + 1) * width == y * width + width) by (nonlinear_arith);
    } else if y > row {
        assert((row + 1) * width <= y * width) by (nonlinear_arith)
            requires
                row + 1 <= y,
                0 <= width,
        ;
        assert((row + 1) * width == row * width + width) by (nonlinear_arith);
    }
}

proof fn index_in_picture(width: int, height: int, x: int, y: int, c: int)
    requires
        in_picture(width, height, x, y, c),
    ensures
        0 <= byte_index(width, x, y, c) < width * height * 4,
{
    assert((y + 1) * width <= height * width) by (nonlinear_arith)
        requires
            y + 1 <= height,
            0 <= width,
    ;
    assert((y + 1) * width == y * width + width) by (nonlinear_arith);
    assert(0 <= y * width) by (nonlinear_arith)
        requires
            0 <= y,
            0 <= width,
    ;
    assert(height * width == width * height) by (nonlinear_arith);
}

/// Every byte of a picture belongs to exactly one pixel, so a statement about
/// all pixels fixes all bytes.
pub proof fn every_byte_is_a_pixel_byte(width: int, height: int, k: int)
    requires
        0 < width,
        0 <= k < width * height * 4,
    ensures
        in_picture(width, height, (k / 4) % width, (k / 4) / width, k % 4),
        byte_index(width, (k / 4) % width, (k / 4) / width, k % 4) == k,
{
    let q = k / 4;
    let x = q % width;
    let y = q / width;
    assert(q == y * width + x && 0 <= x < width && 0 <= y) by (nonlinear_arith)
        requires
            x == q % width,
            y == q / width,
            0 < width,
            0 <= q,
    ;
    assert(q < width * height);
    assert(y < height) by (nonlinear_arith)
        requires
            q == y * width + x,
            0 <= x,
            q < width * height,
            0 < width,
    ;
}

/// Copies a run of bytes.
fn copy_run(target: &mut Vec<u8>, at: usize, source: &[u8], from: usize, count: usize)
    requires
        at + count <= old(target)@.len(),
        from + count <= source@.len(),
    ensures
        final(target)@.len() == old(target)@.len(),
        forall|k: int|
            0 <= k < old(target)@.len() ==> #[trigger] final(target)@[k] == if at <= k < at
                + count {
                source@[from + k - at]
            } else {
                old(target)@[k]
            },
{
    let end: usize = target.len();
    let limit: usize = source.len();
    let mut i: usize = 0;
    while i < count
        invariant
            i <= count,
            target@.len() == end,
            source@.len() == limit,
            at + count <= target@.len(),
            from + count <= source@.len(),
            target@.len() == old(target)@.len(),
            forall|k: int|
                0 <= k < target@.len() ==> #[trigger] target@[k] == if at <= k < at + i {
                    source@[from + k - at]
                } else {
                    old(target)@[k]
                },
        decreases count - i,
    {
        target[at + i] = source[from + i];
        i = i + 1;
    }
}

/// A BGRA8 framebuffer with damage tracking.
#[derive(Debug)]
pub struct Framebuffer {
    width: u32,
    height: u32,
    pixels: Vec<u8>,
    damage: Vec<DamageRect>,
}

impl View for Framebuffer {
    type V = FramebufferView;

    closed spec fn view(&self) -> FramebufferView {
        FramebufferView {
            width: self.width,
            height: self.height,
            pixels: self.pixels@,
            damage: if self.damage@.len() == 0 {
                None
            } else {
                Some(self.damage@.last())
            },
        }
    }
}

impl Framebuffer {
    /// The picture has pixels for its whole size and at most one damaged box.
    pub closed spec fn wf(self) -> bool {
        &&& self.width >= 1
        &&& self.height >= 1
        &&& self.width * self.height * 4 <= u32::MAX
        &&& self.pixels@.len() == self.width * self.height * 4
        &&& self.damage@.len() <= 1
    }

    /// Creates a black framebuffer of the given size.
    pub fn new(width: u32, height: u32) -> (r: Self)
        requires
            at_least_one(width) * at_least_one(height) * 4 <= u32::MAX,
        ensures
            r.wf(),
            r@.width == at_least_one(width),
            r@.height == at_least_one(height),
            r@.pixels == Seq::new(
                (at_least_one(width) * at_least_one(height) * 4) as nat,
                |i: int| 0u8,
            ),
            r@.damage is None,
    {
        let width = greater(width, 1);
        let height = greater(height, 1);
        let count = Self::byte_count(width, height);
        let pixels: Vec<u8> = vec![0u8; count];
        let r = Framebuffer { width, height, pixels, damage: Vec::new() };
        assert(r@.pixels =~= Seq::new((width * height * 4) as nat, |i: int| 0u8));
        r
    }

    /// Number of bytes of a picture.
    fn byte_count(width: u32, height: u32) -> (r: usize)
        requires
            width * height * 4 <= u32::MAX,
        ensures
            r == width * height * 4,
    {
        assert(width * height >= 0) by (nonlinear_arith)
            requires
                width >= 0,
                height >= 0,
        ;
        (width * height * 4) as usize
    }

    /// Width in pixels.
    pub fn width(&self) -> (r: u32)
        ensures
            r == self@.width,
    {
        self.width
    }

    /// Height in pixels.
    pub fn height(&self) -> (r: u32)
        ensures
            r == self@.height,
    {
        self.height
    }

    /// The raw BGRA pixel data.
    pub fn pixels(&self) -> (r: &[u8])
        ensures
            r@ == self@.pixels,
    {
        self.pixels.as_slice()
    }

    /// Bytes per row.
    pub fn stride(&self) -> (r: usize)
        requires
            self.wf(),
        ensures
            r == self@.width * 4,
    {
        assert(self.width * 4 <= self.width * self.height * 4) by (nonlinear_arith)
            requires
                self.height >= 1,
                self.width >= 1,
        ;
        self.width as usize * 4
    }

    /// Resizes, preserving the overlapping region.
    pub fn resize(&mut self, width: u32, height: u32)
        requires
            old(self).wf(),
            at_least_one(width) * at_least_one(height) * 4 <= u32::MAX,
        ensures
            final(self).wf(),
            final(self)@.width == at_least_one(width),
            final(self)@.height == at_least_one(height),
            at_least_one(width) == old(self)@.width && at_least_one(height) == old(self)@.height
                ==> final(self)@ == old(self)@,
            at_least_one(width) != old(self)@.width || at_least_one(height) != old(self)@.height
                ==> {
                &&& final(self)@.damage == Some(
                    DamageRect {
                        left: 0,
                        top: 0,
                        width: at_least_one(width),
                        height: at_least_one(height),
                    },
                )
                &&& final(self)@.pixels.len() == at_least_one(width) * at_least_one(height) * 4
                &&& forall|x: int, y: int, c: int|
                    in_picture(at_least_one(width) as int, at_least_one(height) as int, x, y, c)
                        ==> #[trigger] byte_at(
                        final(self)@.pixels,
                        at_least_one(width) as int,
                        x,
                        y,
                        c,
                    ) == if x < old(self)@.width && y < old(self)@.height {
                        byte_at(old(self)@.pixels, old(self)@.width as int, x, y, c)
                    } else {
                        0
                    }
            },
    {
        let width = greater(width, 1);
        let height = greater(height, 1);
        if width == self.width && height == self.height {
            return;
        }
        let count = Self::byte_count(width, height);
        let mut next: Vec<u8> = vec![0u8; count];
        let rows = lesser(height, self.height);
        let columns = lesser(width, self.width);
        let ghost w = width as int;
        let ghost v = self.width as int;
        let ghost before = self.pixels@;
        let mut row: u32 = 0;
        assert forall|x: int, y: int, c: int| in_picture(w, height as int, x, y, c) implies
            #[trigger] byte_at(next@, w, x, y, c) == 0 by {
            index_in_picture(w, height as int, x, y, c);
        }
        while row < rows
            invariant
                row <= rows,
                rows <= height,
                rows <= self.height,
                columns <= width,
                columns <= self.width,
                columns == if width < self.width {
                    width
                } else {
                    self.width
                },
                w == width,
                v == self.width,
                w >= 1,
                v >= 1,
                before == self.pixels@,
                before.len() == self.width * self.height * 4,
                self.width * self.height * 4 <= u32::MAX,
                next@.len() == width * height * 4,
                width * height * 4 <= u32::MAX,
                forall|x: int, y: int, c: int|
                    in_picture(w, height as int, x, y, c) ==> #[trigger] byte_at(next@, w, x, y, c)
                        == if x < v && y < row {
                        byte_at(before, v, x, y, c)
                    } else {
                        0
                    },
            decreases rows - row,
        {
            proof {
                index_in_picture(w, height as int, w - 1, row as int, 3);
                index_in_picture(v, self.height as int, v - 1, row as int, 3);
                index_in_picture(w, height as int, 0, row as int, 0);
                index_in_picture(v, self.height as int, 0, row as int, 0);
            }
            let target: usize = (row * width) as usize * 4;
            let source: usize = (row * self.width) as usize * 4;
            let ghost held = next@;
            copy_run(&mut next, target, self.pixels.as_slice(), source, columns as usize * 4);
            proof {
                assert forall|x: int, y: int, c: int| in_picture(w, height as int, x, y, c) implies
                    #[trigger] byte_at(next@, w, x, y, c) == if x < v && y < row + 1 {
                    byte_at(before, v, x, y, c)
                } else {
                    0
                } by {
                    index_in_picture(w, height as int, x, y, c);
                    rows_do_not_overlap(w, 0, columns as int, row as int, x, y, c);
                    assert(byte_at(held, w, x, y, c) == if x < v && y < row {
                        byte_at(before, v, x, y, c)
                    } else {
                        0
                    });
                }
            }
            row = row + 1;
        }
        self.width = width;
        self.height = height;
        self.pixels = next;
        self.damage = Vec::new();
        self.mark_dirty(DamageRect { left: 0, top: 0, width, height });
    }

    /// Blits a decoded bitmap into the framebuffer and records the damage.
    ///
    /// The rows of `data` are as wide as the rectangle that lies inside the
    /// framebuffer. A truncated update would smear stale pixels across the
    /// screen, so it is dropped instead.
    pub fn blit(&mut self, rect: DamageRect, data: &[u8])
        requires
            old(self).wf(),
            ({
                let inner = rect.within(old(self)@.width, old(self)@.height);
                drawable(inner, data@.len()) ==> mergeable(old(self)@.damage, inner)
            }),
        ensures
            final(self).wf(),
            final(self)@.width == old(self)@.width,
            final(self)@.height == old(self)@.height,
            ({
                let inner = rect.within(old(self)@.width, old(self)@.height);
                let w = old(self)@.width as int;
                if drawable(inner, data@.len()) {
                    &&& final(self)@.damage == merged(old(self)@.damage, inner)
                    &&& final(self)@.pixels.len() == old(self)@.pixels.len()
                    &&& forall|x: int, y: int, c: int|
                        in_picture(w, old(self)@.height as int, x, y, c) ==> #[trigger] byte_at(
                            final(self)@.pixels,
                            w,
                            x,
                            y,
                            c,
                        ) == if inner.covers(x, y) {
                            byte_at(data@, inner.width as int, x - inner.left, y - inner.top, c)
                        } else {
                            byte_at(old(self)@.pixels, w, x, y, c)
                        }
                } else {
                    final(self)@ == old(self)@
                }
            }),
    {
        let rect = rect.clamped(self.width, self.height);
        if rect.is_empty() {
            return;
        }
        let ghost w = self.width as int;
        let ghost h = self.height as int;
        let ghost before = self.pixels@;
        proof {
            assert(rect.width * rect.height <= w * h) by (nonlinear_arith)
                requires
                    rect.width <= w,
                    rect.height <= h,
                    0 <= rect.width,
                    0 <= rect.height,
            ;
        }
        let expected = Self::byte_count(rect.width, rect.height);
        if data.len() < expected {
            return;
        }
        let mut row: u32 = 0;
        while row < rect.height
            invariant
                row <= rect.height,
                1 <= rect.width,
                rect.left + rect.width <= w,
                rect.top + rect.height <= h,
                w == self.width,
                h == self.height,
                w * h * 4 <= u32::MAX,
                rect.width * rect.height * 4 <= data@.len(),
                rect.width * rect.height <= w * h,
                self.pixels@.len() == w * h * 4,
                before.len() == w * h * 4,
                self.damage@ == old(self).damage@,
                forall|x: int, y: int, c: int|
                    in_picture(w, h, x, y, c) ==> #[trigger] byte_at(self.pixels@, w, x, y, c)
                        == if rect.covers(x, y) && y < rect.top + row {
                        byte_at(data@, rect.width as int, x - rect.left, y - rect.top, c)
                    } else {
                        byte_at(before, w, x, y, c)
                    },
            decreases rect.height - row,
        {
            let ghost t = (rect.top + row) as int;
            proof {
                index_in_picture(w, h, rect.left + rect.width - 1, t, 3);
                index_in_picture(w, h, rect.left as int, t, 0);
                index_in_picture(rect.width as int, rect.height as int, rect.width - 1, row as int, 3);
                index_in_picture(rect.width as int, rect.height as int, 0, row as int, 0);
                index_in_picture(w, h, 0, t, 0);
            }
            let target: usize = ((rect.top + row) * self.width + rect.left) as usize * 4;
            let source: usize = (row * rect.width) as usize * 4;
            let ghost held = self.pixels@;
            copy_run(&mut self.pixels, target, data, source, rect.width as usize * 4);
            proof {
                assert forall|x: int, y: int, c: int| in_picture(w, h, x, y, c) implies #[trigger] byte_at(
                    self.pixels@,
                    w,
                    x,
                    y,
                    c,
                ) == if rect.covers(x, y) && y < rect.top + row + 1 {
                    byte_at(data@, rect.width as int, x - rect.left, y - rect.top, c)
                } else {
                    byte_at(before, w, x, y, c)
                } by {
                    index_in_picture(w, h, x, y, c);
                    rows_do_not_overlap(w, rect.left as int, rect.width as int, t, x, y, c);
                    assert(byte_at(held, w, x, y, c) == if rect.covers(x, y) && y < rect.top + row {
                        byte_at(data@, rect.width as int, x - rect.left, y - rect.top, c)
                    } else {
                        byte_at(before, w, x, y, c)
                    });
                }
            }
            row = row + 1;
        }
        self.mark_dirty(rect);
    }

    /// Fills a rectangle with a solid colour (used by surface commands).
    pub fn fill(&mut self, rect: DamageRect, bgra: [u8; 4])
        requires
            old(self).wf(),
            ({
                let inner = rect.within(old(self)@.width, old(self)@.height);
                inner.empty() || mergeable(old(self)@.damage, inner)
            }),
        ensures
            final(self).wf(),
            final(self)@.width == old(self)@.width,
            final(self)@.height == old(self)@.height,
            final(self)@.pixels.len() == old(self)@.pixels.len(),
            ({
                let inner = rect.within(old(self)@.width, old(self)@.height);
                let w = old(self)@.width as int;
                &&& final(self)@.damage == if inner.empty() {
                    old(self)@.damage
                } else {
                    merged(old(self)@.damage, inner)
                }
                &&& forall|x: int, y: int, c: int|
                    in_picture(w, old(self)@.height as int, x, y, c) ==> #[trigger] byte_at(
                        final(self)@.pixels,
                        w,
                        x,
                        y,
                        c,
                    ) == if inner.covers(x, y) {
                        bgra@[c]
                    } else {
                        byte_at(old(self)@.pixels, w, x, y, c)
                    }
            }),
    {
        let rect = rect.clamped(self.width, self.height);
        if rect.is_empty() {
            return;
        }
        let ghost w = self.width as int;
        let ghost h = self.height as int;
        let ghost before = self.pixels@;
        let mut row: u32 = 0;
        while row < rect.height
            invariant
                row <= rect.height,
                rect.left + rect.width <= w,
                rect.top + rect.height <= h,
                w == self.width,
                h == self.height,
                w >= 1,
                h >= 1,
                rect.left < w,
                w * h * 4 <= u32::MAX,
                self.pixels@.len() == w * h * 4,
                before.len() == w * h * 4,
                self.damage@ == old(self).damage@,
                forall|x: int, y: int, c: int|
                    in_picture(w, h, x, y, c) ==> #[trigger] byte_at(self.pixels@, w, x, y, c)
                        == if rect.covers(x, y) && y < rect.top + row {
                        bgra@[c]
                    } else {
                        byte_at(before, w, x, y, c)
                    },
            decreases rect.height - row,
        {
            let ghost t = (rect.top + row) as int;
            proof {
                index_in_picture(w, h, rect.left as int, t, 0);
                index_in_picture(w, h, 0, t, 0);
            }
            let start: usize = ((rect.top + row) * self.width + rect.left) as usize * 4;
            let mut column: u32 = 0;
            while column < rect.width
                invariant
                    column <= rect.width,
                    row < rect.height,
                    rect.left + rect.width <= w,
                    rect.top + rect.height <= h,
                    t == rect.top + row,
                    start == byte_index(w, rect.left as int, t, 0),
                    w == self.width,
                    h == self.height,
                    w * h * 4 <= u32::MAX,
                    self.pixels@.len() == w * h * 4,
                    before.len() == w * h * 4,
                    self.damage@ == old(self).damage@,
                    forall|x: int, y: int, c: int|
                        in_picture(w, h, x, y, c) ==> #[trigger] byte_at(self.pixels@, w, x, y, c)
                            == if rect.covers(x, y) && (y < t || y == t && x < rect.left
                            + column) {
                            bgra@[c]
                        } else {
                            byte_at(before, w, x, y, c)
                        },
                decreases rect.width - column,
            {
                proof {
                    index_in_picture(w, h, rect.left + column, t, 3);
                    index_in_picture(w, h, rect.left + column, t, 0);
                }
                let at: usize = start + column as usize * 4;
                let ghost held = self.pixels@;
                copy_run(&mut self.pixels, at, bgra.as_slice(), 0, 4);
                proof {
                    assert forall|x: int, y: int, c: int| in_picture(w, h, x, y, c) implies
                        #[trigger] byte_at(self.pixels@, w, x, y, c) == if rect.covers(x, y) && (y
                        < t || y == t && x < rect.left + column + 1) {
                        bgra@[c]
                    } else {
                        byte_at(before, w, x, y, c)
                    } by {
                        index_in_picture(w, h, x, y, c);
                        rows_do_not_overlap(w, rect.left + column, 1, t, x, y, c);
                        assert(byte_at(held, w, x, y, c) == if rect.covers(x, y) && (y < t || y == t
                            && x < rect.left + column) {
                            bgra@[c]
                        } else {
                            byte_at(before, w, x, y, c)
                        });
                    }
                }
                column = column + 1;
            }
            row = row + 1;
        }
        self.mark_dirty(rect);
    }

    /// Records additional damage.
    ///
    /// Keeping a single bounding box is enough for a texture upload and avoids
    /// unbounded growth during scrolling.
    pub fn mark_dirty(&mut self, rect: DamageRect)
        requires
            old(self).wf(),
            mergeable(old(self)@.damage, rect),
        ensures
            final(self).wf(),
            final(self)@ == (FramebufferView {
                damage: merged(old(self)@.damage, rect),
                ..old(self)@
            }),
    {
        let count = self.damage.len();
        if count > 0 {
            let last = self.damage[count - 1];
            self.damage[count - 1] = last.union(rect);
        } else {
            self.damage.push(rect);
        }
    }

    /// Takes the accumulated damage, clearing it.
    pub fn take_damage(&mut self) -> (r: Vec<DamageRect>)
        requires
            old(self).wf(),
        ensures
            final(self).wf(),
            final(self)@ == (FramebufferView { damage: None, ..old(self)@ }),
            r@ == match old(self)@.damage {
                Some(rect) => seq![rect],
                None => Seq::empty(),
            },
    {
        let mut taken: Vec<DamageRect> = Vec::new();
        std::mem::swap(&mut taken, &mut self.damage);
        assert(taken@ =~= match old(self)@.damage {
            Some(rect) => seq![rect],
            None => Seq::empty(),
        });
        taken
    }

    /// True when something changed since the last frame.
    pub fn is_dirty(&self) -> (r: bool)
        ensures
            r == self@.damage is Some,
    {
        self.damage.len() != 0
    }

    /// Describes the size and the pixel format.
    pub fn to_string(&self) -> (r: String)
        ensures
            r@ == decimal(self@.width as nat) + "x"@ + decimal(self@.height as nat) + " BGRA"@,
    {
        let mut r = to_decimal(self.width as u64);
        r.push_str("x");
        r.push_str(to_decimal(self.height as u64).as_str());
        r.push_str(" BGRA");
        r
    }
}

impl Clone for Framebuffer {
    fn clone(&self) -> (r: Self)
        ensures
            r@ == self@,
            self.wf() ==> r.wf(),
    {
        let pixels = self.pixels.clone();
        let damage = self.damage.clone();
        assert(pixels@ =~= self.pixels@);
        assert(damage@ =~= self.damage@);
        Framebuffer { width: self.width, height: self.height, pixels, damage }
    }
}

/// The bytes of the picture lie line by line, each line pixel by pixel and each pixel
/// in four bytes.
pub proof fn pixels_lie_line_by_line(pixels: Seq<u8>, width: int, x: int, y: int, c: int)
    ensures
        byte_at(pixels, width, x, y, c) == pixels[4 * width * y + 4 * x + c],
{
    assert((y * width + x) * 4 + c == 4 * width * y + 4 * x + c) by (nonlinear_arith);
}

/// Clamping to the picture cuts off what lies outside of it and keeps the rest, for a
/// rectangle that starts inside.
pub proof fn clamping_keeps_what_is_inside(
    rect: DamageRect,
    width: u32,
    height: u32,
    x: int,
    y: int,
)
    requires
        rect.left < width,
        rect.top < height,
    ensures
        rect.within(width, height).covers(x, y) <==> rect.left <= x < rect.left + rect.width
            && rect.top <= y < rect.top + rect.height && x < width && y < height,
{
}

/// A bitmap is drawn when its rectangle is not empty and its bytes suffice, four for
/// each pixel.
pub proof fn bitmaps_need_all_their_bytes(rect: DamageRect, bytes: nat)
    ensures
        drawable(rect, bytes) <==> rect.width > 0 && rect.height > 0 && bytes >= 4 * (rect.width
            * rect.height),
{
}

/// The damage is the new rectangle, or the bounding box of it and the earlier damage.
pub proof fn damage_adds_up(damage: Option<DamageRect>, rect: DamageRect, x: int, y: int)
    requires
        mergeable(damage, rect),
    ensures
        merged(damage, rect) is Some,
        damage is None ==> merged(damage, rect)->0 == rect,
        rect.covers(x, y) ==> merged(damage, rect)->0.covers(x, y),
        damage is Some && damage->0.covers(x, y) ==> merged(damage, rect)->0.covers(x, y),
{
    if let Some(last) = damage {
        bounding_boxes_are_tight(last, rect, rect);
        assert(last.bounding(rect).encloses(rect));
        assert(last.bounding(rect).encloses(last));
    }
}

} // verus!
