//! The raster buffer and the three ways of painting into it.
//!
//! A frame is a row-major sequence of cells of four bytes each: red, green,
//! blue, alpha. Painting is stated once, for any shape, by [`painted`]; each
//! writer says which shape it fills.

use vstd::prelude::*;
use vstd::arithmetic::div_mod::{lemma_fundamental_div_mod, lemma_fundamental_div_mod_converse};
use crate::error::ConfigurationError;
use crate::event::Shape;

verus! {

/// The frame rate that a sink is told. It labels the presentation and does
/// not depend on how many frames a render cuts.
pub const FRAME_RATE: u32 = 60;

/// The four bytes a packed colour is stored as. The top byte of the colour
/// is ignored and the alpha byte is always full.
pub open spec fn rgba(color: u32) -> Seq<u8> {
    seq![
        ((color >> 16) & 0xff) as u8,
        ((color >> 8) & 0xff) as u8,
        (color & 0xff) as u8,
        0xffu8,
    ]
}

/// The world column of the cell that byte `i` of a frame belongs to.
pub open spec fn cell_x(i: int, x1: int, width: int) -> int {
    x1 + (i / 4) % width
}

/// The world row of the cell that byte `i` of a frame belongs to.
pub open spec fn cell_y(i: int, y1: int, width: int) -> int {
    y1 + (i / 4) / width
}

/// The frame after `shape` was filled with `color`: every cell that the
/// shape covers holds the colour's four bytes, every other byte its old value.
pub open spec fn painted(
    frame: Seq<u8>,
    x1: int,
    y1: int,
    width: int,
    shape: Shape,
    color: u32,
) -> Seq<u8> {
    Seq::new(
        frame.len(),
        |i: int|
            if shape.covers(cell_x(i, x1, width), cell_y(i, y1, width)) {
                rgba(color)[i % 4]
            } else {
                frame[i]
            },
    )
}

/// The frame while `shape` is being filled row by row: the cells of the shape
/// above `row`, and those in `row` left of `col`, are done.
spec fn swept(
    frame: Seq<u8>,
    x1: int,
    y1: int,
    width: int,
    shape: Shape,
    color: u32,
    row: int,
    col: int,
) -> Seq<u8> {
    Seq::new(
        frame.len(),
        |i: int|
            {
                let x = cell_x(i, x1, width);
                let y = cell_y(i, y1, width);
                if shape.covers(x, y) && (y < row || (y == row && x < col)) {
                    rgba(color)[i % 4]
                } else {
                    frame[i]
                }
            },
    )
}

/// Byte `i` lies in the cell at column `col` of row `row` exactly when it is
/// one of the four bytes that start at `4 * (row * width + col)`.
pub proof fn lemma_bytes_of_cell(i: int, width: int, col: int, row: int)
    requires
        width > 0,
        0 <= col < width,
    ensures
        ((i / 4) % width == col && (i / 4) / width == row) <==> (4 * (row * width + col) <= i < 4
            * (row * width + col) + 4),
{
    let k = i / 4;
    if k % width == col && k / width == row {
        lemma_fundamental_div_mod(k, width);
        assert(width * (k / width) == row * width) by (nonlinear_arith)
            requires
                k / width == row,
        ;
    }
    if k == row * width + col {
        lemma_fundamental_div_mod_converse(k, width, row, col);
    }
}

/// Every byte of a frame of `width * height` cells belongs to a cell inside
/// the window.
pub proof fn lemma_cell_in_window(i: int, width: int, height: int)
    requires
        width > 0,
        0 <= i < width * height * 4,
    ensures
        0 <= (i / 4) % width < width,
        0 <= (i / 4) / width < height,
{
    let k = i / 4;
    lemma_fundamental_div_mod(k, width);
    let q = k / width;
    assert(0 <= q < height) by (nonlinear_arith)
        requires
            0 <= k < width * height,
            width > 0,
            k == width * q + k % width,
            0 <= k % width < width,
    ;
}

/// Writes one cell of a raw frame whose top-left cell is `(x1, y1)`.
///
/// A write outside the frame's window is dropped.
pub fn put_pixel(
    frame: &mut Vec<u8>,
    canvas_x: i32,
    canvas_y: i32,
    color: u32,
    x1: i32,
    y1: i32,
    width: usize,
    height: usize,
)
    requires
        old(frame)@.len() == width * height * 4,
    ensures
        final(frame)@ == painted(
            old(frame)@,
            x1 as int,
            y1 as int,
            width as int,
            Shape::Point { x: canvas_x, y: canvas_y },
            color,
        ),
        !(0 <= canvas_x - x1 < width && 0 <= canvas_y - y1 < height) ==> final(frame)@ == old(
            frame,
        )@,
{
    let x: i64 = canvas_x as i64 - x1 as i64;
    let y: i64 = canvas_y as i64 - y1 as i64;
    let ghost before = frame@;
    let ghost point = Shape::Point { x: canvas_x, y: canvas_y };
    if x < 0 || y < 0 || x as u64 >= width as u64 || y as u64 >= height as u64 {
        proof {
            assert forall|i: int| 0 <= i < before.len() implies !point.covers(
                cell_x(i, x1 as int, width as int),
                cell_y(i, y1 as int, width as int),
            ) by {
                lemma_cell_in_window(i, width as int, height as int);
            }
        }
        return ;
    }
    let col: usize = x as usize;
    let row: usize = y as usize;
    proof {
        assert(0 <= row * width && row * width + col < width * height) by (nonlinear_arith)
            requires
                0 <= col < width,
                0 <= row < height,
        ;
        assert(width * height * 4 == frame.len());
    }
    let at: usize = (row * width + col) * 4;
    assert(((color >> 16) & 0xff) < 256) by (bit_vector);
    assert(((color >> 8) & 0xff) < 256) by (bit_vector);
    assert((color & 0xff) < 256) by (bit_vector);
    let r: u8 = ((color >> 16) & 0xff) as u8;
    let g: u8 = ((color >> 8) & 0xff) as u8;
    let b: u8 = (color & 0xff) as u8;
    frame.set(at, r);
    frame.set(at + 1, g);
    frame.set(at + 2, b);
    frame.set(at + 3, 0xff);
    proof {
        let after = painted(before, x1 as int, y1 as int, width as int, point, color);
        assert forall|i: int| 0 <= i < before.len() implies frame@[i] == after[i] by {
            lemma_bytes_of_cell(i, width as int, col as int, row as int);
        }
    }
}

/// The rectangle of world cells that a render shows, corners included.
#[derive(Clone, Copy, Debug, PartialEq, Eq, Structural)]
pub struct Viewport {
    pub x1: i32,
    pub y1: i32,
    pub x2: i32,
    pub y2: i32,
}

impl Viewport {
    pub open spec fn width(self) -> int {
        self.x2 - self.x1 + 1
    }

    pub open spec fn height(self) -> int {
        self.y2 - self.y1 + 1
    }

    /// The size in bytes of a frame of this viewport.
    pub open spec fn byte_len(self) -> int {
        self.width() * self.height() * 4
    }

    /// The corners are in order and a frame can be addressed.
    pub open spec fn wf(self) -> bool {
        &&& self.x1 <= self.x2
        &&& self.y1 <= self.y2
        &&& self.byte_len() <= usize::MAX
    }

    pub open spec fn contains(self, x: int, y: int) -> bool {
        self.x1 <= x <= self.x2 && self.y1 <= y <= self.y2
    }

    /// Checks the corners and the size of the frame they ask for.
    pub fn new(x1: i32, y1: i32, x2: i32, y2: i32) -> (r: Result<Viewport, ConfigurationError>)
        ensures
            r is Ok <==> (Viewport { x1, y1, x2, y2 }).wf(),
            r is Ok ==> r->Ok_0 == (Viewport { x1, y1, x2, y2 }),
            r is Err ==> r->Err_0 == (if x2 < x1 || y2 < y1 {
                ConfigurationError::InvertedViewport
            } else {
                ConfigurationError::ViewportTooLarge
            }),
    {
        if x2 < x1 || y2 < y1 {
            return Err(ConfigurationError::InvertedViewport);
        }
        let w: u128 = (x2 as i64 - x1 as i64 + 1) as u128;
        let h: u128 = (y2 as i64 - y1 as i64 + 1) as u128;
        assert(w * h * 4 <= 0x4_0000_0000_0000_0000) by (nonlinear_arith)
            requires
                0 < w <= 0x1_0000_0000,
                0 < h <= 0x1_0000_0000,
        ;
        if w * h * 4 > usize::MAX as u128 {
            return Err(ConfigurationError::ViewportTooLarge);
        }
        Ok(Viewport { x1, y1, x2, y2 })
    }

    /// The number of columns.
    pub fn columns(&self) -> (w: usize)
        requires
            self.wf(),
        ensures
            w == self.width(),
    {
        proof {
            self.lemma_sides_fit();
        }
        (self.x2 as i64 - self.x1 as i64 + 1) as usize
    }

    /// The number of rows.
    pub fn rows(&self) -> (h: usize)
        requires
            self.wf(),
        ensures
            h == self.height(),
    {
        proof {
            self.lemma_sides_fit();
        }
        (self.y2 as i64 - self.y1 as i64 + 1) as usize
    }

    /// Tests whether a world cell lies inside the viewport.
    pub fn holds(&self, x: i32, y: i32) -> (r: bool)
        ensures
            r == self.contains(x as int, y as int),
    {
        self.x1 <= x && x <= self.x2 && self.y1 <= y && y <= self.y2
    }

    /// Neither side of an addressable viewport is longer than the frame.
    pub proof fn lemma_sides_fit(self)
        requires
            self.wf(),
        ensures
            0 < self.width() <= self.byte_len(),
            0 < self.height() <= self.byte_len(),
            self.byte_len() <= usize::MAX,
    {
        let w = self.width();
        let h = self.height();
        assert(w <= w * h * 4 && h <= w * h * 4) by (nonlinear_arith)
            requires
                w > 0,
                h > 0,
        ;
    }
}

/// A point of a disk lies in the square around it.
proof fn lemma_disk_in_square(dx: int, dy: int, radius: int)
    requires
        radius >= 0,
        dx * dx + dy * dy <= radius * radius,
    ensures
        -radius <= dx <= radius,
        -radius <= dy <= radius,
{
    assert(-radius <= dx <= radius && -radius <= dy <= radius) by (nonlinear_arith)
        requires
            radius >= 0,
            dx * dx + dy * dy <= radius * radius,
    ;
}

/// A box holds every cell of the window that a shape covers.
spec fn box_bounds(
    shape: Shape,
    window: Viewport,
    left: int,
    right: int,
    top: int,
    bottom: int,
) -> bool {
    forall|x: int, y: int|
        window.contains(x, y) && #[trigger] shape.covers(x, y) ==> left <= x <= right && top <= y
            <= bottom
}

/// Before the first cell of the box nothing is painted.
proof fn lemma_sweep_start(
    frame: Seq<u8>,
    window: Viewport,
    shape: Shape,
    color: u32,
    left: int,
    right: int,
    top: int,
    bottom: int,
)
    requires
        window.wf(),
        frame.len() == window.byte_len(),
        box_bounds(shape, window, left, right, top, bottom),
    ensures
        swept(frame, window.x1 as int, window.y1 as int, window.width(), shape, color, top, left)
            == frame,
{
    let done = swept(
        frame,
        window.x1 as int,
        window.y1 as int,
        window.width(),
        shape,
        color,
        top,
        left,
    );
    assert forall|i: int| 0 <= i < frame.len() implies done[i] == frame[i] by {
        lemma_cell_in_window(i, window.width(), window.height());
    }
}

/// Visiting one cell, and writing it when the shape covers it, moves the
/// sweep one column on.
proof fn lemma_sweep_cell(
    frame: Seq<u8>,
    x1: int,
    y1: int,
    width: int,
    shape: Shape,
    color: u32,
    x: i32,
    y: i32,
)
    ensures
        shape.covers(x as int, y as int) ==> painted(
            swept(frame, x1, y1, width, shape, color, y as int, x as int),
            x1,
            y1,
            width,
            Shape::Point { x, y },
            color,
        ) == swept(frame, x1, y1, width, shape, color, y as int, x + 1),
        !shape.covers(x as int, y as int) ==> swept(
            frame,
            x1,
            y1,
            width,
            shape,
            color,
            y as int,
            x as int,
        ) == swept(frame, x1, y1, width, shape, color, y as int, x + 1),
{
}

/// Past the right edge of the box a row is done.
proof fn lemma_sweep_row(
    frame: Seq<u8>,
    window: Viewport,
    shape: Shape,
    color: u32,
    left: int,
    right: int,
    top: int,
    bottom: int,
    row: int,
)
    requires
        window.wf(),
        frame.len() == window.byte_len(),
        box_bounds(shape, window, left, right, top, bottom),
    ensures
        swept(
            frame,
            window.x1 as int,
            window.y1 as int,
            window.width(),
            shape,
            color,
            row,
            right + 1,
        ) == swept(
            frame,
            window.x1 as int,
            window.y1 as int,
            window.width(),
            shape,
            color,
            row + 1,
            left,
        ),
{
    let a = swept(
        frame,
        window.x1 as int,
        window.y1 as int,
        window.width(),
        shape,
        color,
        row,
        right + 1,
    );
    let b = swept(
        frame,
        window.x1 as int,
        window.y1 as int,
        window.width(),
        shape,
        color,
        row + 1,
        left,
    );
    assert forall|i: int| 0 <= i < frame.len() implies a[i] == b[i] by {
        lemma_cell_in_window(i, window.width(), window.height());
    }
}

/// Past the last row of the box the shape is filled.
proof fn lemma_sweep_end(
    frame: Seq<u8>,
    window: Viewport,
    shape: Shape,
    color: u32,
    left: int,
    right: int,
    top: int,
    bottom: int,
)
    requires
        window.wf(),
        frame.len() == window.byte_len(),
        box_bounds(shape, window, left, right, top, bottom),
    ensures
        swept(
            frame,
            window.x1 as int,
            window.y1 as int,
            window.width(),
            shape,
            color,
            bottom + 1,
            left,
        ) == painted(frame, window.x1 as int, window.y1 as int, window.width(), shape, color),
{
    let a = swept(
        frame,
        window.x1 as int,
        window.y1 as int,
        window.width(),
        shape,
        color,
        bottom + 1,
        left,
    );
    let b = painted(frame, window.x1 as int, window.y1 as int, window.width(), shape, color);
    assert forall|i: int| 0 <= i < frame.len() implies a[i] == b[i] by {
        lemma_cell_in_window(i, window.width(), window.height());
    }
}

/// A shape that covers no cell of the window leaves the frame as it is.
proof fn lemma_nothing_covered(frame: Seq<u8>, window: Viewport, shape: Shape, color: u32)
    requires
        window.wf(),
        frame.len() == window.byte_len(),
        forall|x: int, y: int| window.contains(x, y) ==> !#[trigger] shape.covers(x, y),
    ensures
        painted(frame, window.x1 as int, window.y1 as int, window.width(), shape, color) == frame,
{
    let b = painted(frame, window.x1 as int, window.y1 as int, window.width(), shape, color);
    assert forall|i: int| 0 <= i < frame.len() implies b[i] == frame[i] by {
        lemma_cell_in_window(i, window.width(), window.height());
    }
}

/// The four bytes of the cell `(x, y)` of a frame.
pub open spec fn cell_bytes(frame: Seq<u8>, window: Viewport, x: int, y: int) -> Seq<u8> {
    let at = ((y - window.y1) * window.width() + (x - window.x1)) * 4;
    frame.subrange(at, at + 4)
}

/// Filling a shape paints exactly its cells: a cell of the viewport that the
/// shape covers holds the colour afterwards, whatever it held before, and
/// every other cell holds what it held.
pub proof fn lemma_painted_cell(
    frame: Seq<u8>,
    window: Viewport,
    shape: Shape,
    color: u32,
    x: int,
    y: int,
)
    requires
        window.wf(),
        frame.len() == window.byte_len(),
        window.contains(x, y),
    ensures
        cell_bytes(
            painted(frame, window.x1 as int, window.y1 as int, window.width(), shape, color),
            window,
            x,
            y,
        ) == if shape.covers(x, y) {
            rgba(color)
        } else {
            cell_bytes(frame, window, x, y)
        },
{
    let width = window.width();
    let height = window.height();
    let col = x - window.x1;
    let row = y - window.y1;
    let at = (row * width + col) * 4;
    assert(0 <= row * width + col < width * height) by (nonlinear_arith)
        requires
            0 <= col < width,
            0 <= row < height,
    ;
    let after = painted(frame, window.x1 as int, window.y1 as int, width, shape, color);
    let got = cell_bytes(after, window, x, y);
    let want = if shape.covers(x, y) {
        rgba(color)
    } else {
        cell_bytes(frame, window, x, y)
    };
    assert forall|j: int| 0 <= j < 4 implies got[j] == want[j] by {
        lemma_bytes_of_cell(at + j, width, col, row);
    }
}

/// The order of a rectangle's corners does not matter.
pub proof fn lemma_rectangle_corner_order(
    frame: Seq<u8>,
    x1: int,
    y1: int,
    width: int,
    a: (i32, i32),
    b: (i32, i32),
    color: u32,
)
    ensures
        painted(frame, x1, y1, width, Shape::Rectangle { ax: a.0, ay: a.1, bx: b.0, by: b.1 }, color)
            == painted(
            frame,
            x1,
            y1,
            width,
            Shape::Rectangle { ax: b.0, ay: b.1, bx: a.0, by: a.1 },
            color,
        ),
{
    assert(painted(
        frame,
        x1,
        y1,
        width,
        Shape::Rectangle { ax: a.0, ay: a.1, bx: b.0, by: b.1 },
        color,
    ) =~= painted(
        frame,
        x1,
        y1,
        width,
        Shape::Rectangle { ax: b.0, ay: b.1, bx: a.0, by: a.1 },
        color,
    ));
}

/// A frame that is painted into, together with the viewport it shows.
pub struct Canvas {
    window: Viewport,
    pixels: Vec<u8>,
}

/// The frame of a viewport on which nothing was painted: opaque white.
pub open spec fn blank(window: Viewport) -> Seq<u8> {
    Seq::new(window.byte_len() as nat, |i: int| 0xffu8)
}

impl Canvas {
    /// The viewport that the canvas shows.
    pub closed spec fn window(&self) -> Viewport {
        self.window
    }

    /// The bytes of the frame as it stands.
    pub closed spec fn bytes(&self) -> Seq<u8> {
        self.pixels@
    }

    /// The frame has the size of the viewport.
    pub closed spec fn wf(&self) -> bool {
        &&& self.window.wf()
        &&& self.pixels@.len() == self.window.byte_len()
    }

    /// The bytes after `shape` was filled with `color`.
    pub open spec fn filled(&self, shape: Shape, color: u32) -> Seq<u8> {
        painted(
            self.bytes(),
            self.window().x1 as int,
            self.window().y1 as int,
            self.window().width(),
            shape,
            color,
        )
    }

    /// A well-formed canvas has as many bytes as its viewport asks for.
    pub proof fn lemma_len(&self)
        requires
            self.wf(),
        ensures
            self.window().wf(),
            self.bytes().len() == self.window().byte_len(),
    {
    }

    /// Filling a point outside the viewport changes no byte.
    pub proof fn lemma_point_outside(&self, x: i32, y: i32, color: u32)
        requires
            self.wf(),
            !self.window().contains(x as int, y as int),
        ensures
            self.filled(Shape::Point { x, y }, color) == self.bytes(),
    {
        lemma_nothing_covered(self.pixels@, self.window, Shape::Point { x, y }, color);
    }

    /// Allocates an opaque white canvas for `window`.
    pub fn new(window: Viewport) -> (canvas: Canvas)
        requires
            window.wf(),
        ensures
            canvas.wf(),
            canvas.window() == window,
            canvas.bytes() == blank(window),
    {
        let w = window.columns();
        let h = window.rows();
        proof {
            window.lemma_sides_fit();
            assert(0 <= w * h <= w * h * 4) by (nonlinear_arith)
                requires
                    w > 0,
                    h > 0,
            ;
        }
        let pixels = vec![0xffu8; w * h * 4];
        Canvas { window, pixels }
    }

    /// The viewport that the canvas shows.
    pub fn viewport(&self) -> (window: Viewport)
        ensures
            window == self.window(),
    {
        self.window
    }

    /// Writes one cell, given in world coordinates. A cell outside the
    /// viewport is left out and nothing changes.
    pub fn set_pixel(&mut self, world_x: i32, world_y: i32, color: u32)
        requires
            old(self).wf(),
        ensures
            final(self).wf(),
            final(self).window() == old(self).window(),
            final(self).bytes() == old(self).filled(Shape::Point { x: world_x, y: world_y }, color),
            !old(self).window().contains(world_x as int, world_y as int) ==> final(self).bytes()
                == old(self).bytes(),
    {
        let w = self.window.columns();
        let h = self.window.rows();
        put_pixel(&mut self.pixels, world_x, world_y, color, self.window.x1, self.window.y1, w, h);
    }

    /// Visits the cells of a box inside the viewport row by row and writes
    /// those that `shape` covers.
    fn fill_box(&mut self, shape: &Shape, left: i32, right: i32, top: i32, bottom: i32, color: u32)
        requires
            old(self).wf(),
            old(self).window().x1 <= left <= right <= old(self).window().x2,
            old(self).window().y1 <= top <= bottom <= old(self).window().y2,
            box_bounds(*shape, old(self).window(), left as int, right as int, top as int, bottom as int),
        ensures
            final(self).wf(),
            final(self).window() == old(self).window(),
            final(self).bytes() == old(self).filled(*shape, color),
    {
        let ghost start = self.pixels@;
        let ghost window = self.window;
        let ghost x1 = window.x1 as int;
        let ghost y1 = window.y1 as int;
        let ghost width = window.width();
        proof {
            lemma_sweep_start(
                start,
                window,
                *shape,
                color,
                left as int,
                right as int,
                top as int,
                bottom as int,
            );
        }
        let mut y: i64 = top as i64;
        while y <= bottom as i64
            invariant
                top <= y <= bottom + 1,
                left <= right,
                self.wf(),
                self.window == window,
                start.len() == window.byte_len(),
                window.wf(),
                x1 == window.x1,
                y1 == window.y1,
                width == window.width(),
                box_bounds(*shape, window, left as int, right as int, top as int, bottom as int),
                self.pixels@ == swept(start, x1, y1, width, *shape, color, y as int, left as int),
            decreases bottom + 1 - y,
        {
            let mut x: i64 = left as i64;
            while x <= right as i64
                invariant
                    top <= y <= bottom,
                    left <= x <= right + 1,
                    self.wf(),
                    self.window == window,
                    x1 == window.x1,
                    y1 == window.y1,
                    width == window.width(),
                    self.pixels@ == swept(start, x1, y1, width, *shape, color, y as int, x as int),
                decreases right + 1 - x,
            {
                proof {
                    lemma_sweep_cell(start, x1, y1, width, *shape, color, x as i32, y as i32);
                }
                if shape.contains(x as i32, y as i32) {
                    self.set_pixel(x as i32, y as i32, color);
                }
                x += 1;
            }
            proof {
                lemma_sweep_row(
                    start,
                    window,
                    *shape,
                    color,
                    left as int,
                    right as int,
                    top as int,
                    bottom as int,
                    y as int,
                );
            }
            y += 1;
        }
        proof {
            lemma_sweep_end(
                start,
                window,
                *shape,
                color,
                left as int,
                right as int,
                top as int,
                bottom as int,
            );
        }
    }

    /// Fills the rectangle with the two given cells as opposite corners, both
    /// corners included and in either order. The part outside the viewport is
    /// left out.
    pub fn fill_rectangle(&mut self, corner_a: (i32, i32), corner_b: (i32, i32), color: u32)
        requires
            old(self).wf(),
        ensures
            final(self).wf(),
            final(self).window() == old(self).window(),
            final(self).bytes() == old(self).filled(
                Shape::Rectangle { ax: corner_a.0, ay: corner_a.1, bx: corner_b.0, by: corner_b.1 },
                color,
            ),
    {
        let shape = Shape::Rectangle {
            ax: corner_a.0,
            ay: corner_a.1,
            bx: corner_b.0,
            by: corner_b.1,
        };
        let min_x: i32 = if corner_a.0 <= corner_b.0 { corner_a.0 } else { corner_b.0 };
        let max_x: i32 = if corner_a.0 <= corner_b.0 { corner_b.0 } else { corner_a.0 };
        let min_y: i32 = if corner_a.1 <= corner_b.1 { corner_a.1 } else { corner_b.1 };
        let max_y: i32 = if corner_a.1 <= corner_b.1 { corner_b.1 } else { corner_a.1 };
        let left: i32 = if min_x < self.window.x1 { self.window.x1 } else { min_x };
        let right: i32 = if max_x > self.window.x2 { self.window.x2 } else { max_x };
        let top: i32 = if min_y < self.window.y1 { self.window.y1 } else { min_y };
        let bottom: i32 = if max_y > self.window.y2 { self.window.y2 } else { max_y };
        if left > right || top > bottom {
            proof {
                lemma_nothing_covered(self.pixels@, self.window, shape, color);
            }
            return ;
        }
        self.fill_box(&shape, left, right, top, bottom, color);
    }

    /// Fills the disk of all cells whose squared distance from `center` is
    /// at most the square of `radius`. A negative radius fills nothing. The
    /// part outside the viewport is left out.
    pub fn fill_circle(&mut self, center: (i32, i32), radius: i32, color: u32)
        requires
            old(self).wf(),
        ensures
            final(self).wf(),
            final(self).window() == old(self).window(),
            final(self).bytes() == old(self).filled(
                Shape::Circle { cx: center.0, cy: center.1, radius },
                color,
            ),
    {
        let shape = Shape::Circle { cx: center.0, cy: center.1, radius };
        if radius < 0 {
            proof {
                lemma_nothing_covered(self.pixels@, self.window, shape, color);
            }
            return ;
        }
        let min_x: i64 = center.0 as i64 - radius as i64;
        let max_x: i64 = center.0 as i64 + radius as i64;
        let min_y: i64 = center.1 as i64 - radius as i64;
        let max_y: i64 = center.1 as i64 + radius as i64;
        let left: i64 = if min_x < self.window.x1 as i64 { self.window.x1 as i64 } else { min_x };
        let right: i64 = if max_x > self.window.x2 as i64 { self.window.x2 as i64 } else { max_x };
        let top: i64 = if min_y < self.window.y1 as i64 { self.window.y1 as i64 } else { min_y };
        let bottom: i64 = if max_y > self.window.y2 as i64 { self.window.y2 as i64 } else { max_y };
        proof {
            assert forall|x: int, y: int| #[trigger] shape.covers(x, y) implies min_x <= x <= max_x
                && min_y <= y <= max_y by {
                lemma_disk_in_square(x - center.0, y - center.1, radius as int);
            }
        }
        if left > right || top > bottom {
            proof {
                lemma_nothing_covered(self.pixels@, self.window, shape, color);
            }
            return ;
        }
        self.fill_box(&shape, left as i32, right as i32, top as i32, bottom as i32, color);
    }

    /// An independent copy of the frame as it stands.
    pub fn snapshot(&self) -> (frame: Vec<u8>)
        ensures
            frame@ == self.bytes(),
    {
        self.pixels.clone()
    }
}

} // verus!
