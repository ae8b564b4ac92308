//! The off-screen canvas: a grid of colours with clipped drawing primitives
//! and text rasterisation.

use vstd::prelude::*;
use crate::color::Color;
use crate::grid::{cell_index, lemma_cell_distinct, lemma_cell_in_range, lemma_cell_of_index};

verus! {

/// The most pixels that a canvas may hold.
pub const MAX_PIXELS: i32 = 16_777_216;

/// Which of a panel's two buffers a canvas is.
#[derive(Clone, Copy, Debug, PartialEq, Eq, Structural)]
pub enum BufferId {
    A,
    B,
}

impl BufferId {
    /// The other buffer of the pair.
    pub open spec fn spec_other(self) -> BufferId {
        match self {
            BufferId::A => BufferId::B,
            BufferId::B => BufferId::A,
        }
    }

    /// The other buffer of the pair.
    #[verifier::when_used_as_spec(spec_other)]
    pub fn other(self) -> (id: BufferId)
        ensures
            id == self.spec_other(),
    {
        match self {
            BufferId::A => BufferId::B,
            BufferId::B => BufferId::A,
        }
    }
}

/// A canvas as a mathematical value. The pixels are held row by row.
pub struct CanvasView {
    pub id: BufferId,
    pub width: int,
    pub height: int,
    pub background: Color,
    pub pixels: Seq<Color>,
}

impl CanvasView {
    /// Whether the canvas has a positive size within the limit and one colour
    /// for each pixel.
    pub open spec fn wf(self) -> bool {
        &&& 0 < self.width
        &&& 0 < self.height
        &&& self.width * self.height <= MAX_PIXELS
        &&& self.pixels.len() == self.width * self.height
    }

    /// Whether (`x`, `y`) is a pixel of the canvas.
    pub open spec fn contains(self, x: int, y: int) -> bool {
        0 <= x < self.width && 0 <= y < self.height
    }

    /// The colour of the pixel at (`x`, `y`).
    pub open spec fn at(self, x: int, y: int) -> Color {
        self.pixels[cell_index(self.width, x, y)]
    }

    /// Whether two canvases are the same buffer with the same size and
    /// background, whatever their pixels hold.
    pub open spec fn same_buffer(self, other: CanvasView) -> bool {
        &&& self.id == other.id
        &&& self.width == other.width
        &&& self.height == other.height
        &&& self.background == other.background
    }

    /// The canvas with every pixel set to the background colour.
    pub open spec fn cleared(self) -> CanvasView {
        CanvasView { pixels: Seq::new(self.pixels.len(), |i: int| self.background), ..self }
    }

    /// The canvas with the pixel at (`x`, `y`) set to `color`; the canvas
    /// itself where it has no such pixel.
    pub open spec fn with_pixel(self, x: int, y: int, color: Color) -> CanvasView {
        if self.contains(x, y) {
            CanvasView { pixels: self.pixels.update(cell_index(self.width, x, y), color), ..self }
        } else {
            self
        }
    }
}

/// Two canvases of the same shape whose pixels agree everywhere are equal.
pub proof fn lemma_canvas_equal(a: CanvasView, b: CanvasView)
    requires
        a.wf(),
        b.wf(),
        a.same_buffer(b),
        forall|x: int, y: int| a.contains(x, y) ==> a.at(x, y) == b.at(x, y),
    ensures
        a == b,
{
    assert forall|i: int| 0 <= i < a.pixels.len() implies a.pixels[i] == b.pixels[i] by {
        lemma_cell_of_index(a.width, a.height, i);
        assert(a.contains(i % a.width, i / a.width));
        assert(a.at(i % a.width, i / a.width) == b.at(i % a.width, i / a.width));
    }
    assert(a.pixels =~= b.pixels);
}

/// Reading a canvas after one pixel was written: the written pixel holds the
/// new colour, every other pixel its old one, and a write outside the canvas
/// changes nothing.
pub proof fn lemma_with_pixel(canvas: CanvasView, x: int, y: int, color: Color, px: int, py: int)
    requires
        canvas.wf(),
        canvas.contains(px, py),
    ensures
        canvas.with_pixel(x, y, color).wf(),
        canvas.with_pixel(x, y, color).same_buffer(canvas),
        canvas.with_pixel(x, y, color).at(px, py) == if px == x && py == y {
            color
        } else {
            canvas.at(px, py)
        },
        !canvas.contains(x, y) ==> canvas.with_pixel(x, y, color) == canvas,
{
    lemma_cell_in_range(canvas.width, canvas.height, px, py);
    if canvas.contains(x, y) {
        lemma_cell_in_range(canvas.width, canvas.height, x, y);
        if px != x || py != y {
            lemma_cell_distinct(canvas.width, x, y, px, py);
        }
    }
}

/// Every pixel of a cleared canvas holds the background colour.
pub proof fn lemma_cleared(canvas: CanvasView, px: int, py: int)
    requires
        canvas.wf(),
        canvas.contains(px, py),
    ensures
        canvas.cleared().wf(),
        canvas.cleared().same_buffer(canvas),
        canvas.cleared().at(px, py) == canvas.background,
{
    lemma_cell_in_range(canvas.width, canvas.height, px, py);
}

/// A pixel buffer that is drawn into before it is shown.
#[derive(Debug)]
pub struct Canvas {
    id: BufferId,
    width: i32,
    height: i32,
    background: Color,
    pixels: Vec<Color>,
}

impl View for Canvas {
    type V = CanvasView;

    closed spec fn view(&self) -> CanvasView {
        CanvasView {
            id: self.id,
            width: self.width as int,
            height: self.height as int,
            background: self.background,
            pixels: self.pixels@,
        }
    }
}

impl Canvas {
    #[verifier::type_invariant]
    pub(crate) open spec fn inv(self) -> bool {
        self@.wf()
    }

    /// Allocates a canvas whose pixels all hold `background`.
    pub(crate) fn allocate(id: BufferId, width: i32, height: i32, background: Color) -> (canvas:
        Canvas)
        requires
            0 < width,
            0 < height,
            width * height <= MAX_PIXELS,
        ensures
            canvas@.wf(),
            canvas@.id == id,
            canvas@.width == width,
            canvas@.height == height,
            canvas@.background == background,
            canvas@ == canvas@.cleared(),
    {
        assert(0 < width * height) by (nonlinear_arith)
            requires
                0 < width,
                0 < height,
        ;
        let cells: usize = (width * height) as usize;
        let mut pixels: Vec<Color> = Vec::new();
        let mut at: usize = 0;
        while at < cells
            invariant
                at <= cells,
                pixels@.len() == at,
                forall|i: int| 0 <= i < at ==> pixels@[i] == background,
            decreases cells - at,
        {
            pixels.push(background);
            at += 1;
        }
        let canvas = Canvas { id, width, height, background, pixels };
        assert(canvas@.pixels =~= canvas@.cleared().pixels);
        canvas
    }

    /// A copy of the canvas as it is now, to keep as a record.
    pub(crate) fn snapshot(&self) -> (copy: Canvas)
        ensures
            copy@ == self@,
    {
        proof {
            use_type_invariant(self);
        }
        let mut pixels: Vec<Color> = Vec::new();
        let mut at: usize = 0;
        while at < self.pixels.len()
            invariant
                at <= self.pixels.len(),
                pixels@ == self.pixels@.take(at as int),
            decreases self.pixels.len() - at,
        {
            pixels.push(self.pixels[at]);
            assert(pixels@ =~= self.pixels@.take(at + 1));
            at += 1;
        }
        assert(pixels@ =~= self.pixels@);
        Canvas {
            id: self.id,
            width: self.width,
            height: self.height,
            background: self.background,
            pixels,
        }
    }

    /// Which of its panel's two buffers this canvas is.
    pub fn id(&self) -> (id: BufferId)
        ensures
            id == self@.id,
    {
        self.id
    }

    /// The number of pixel columns.
    pub fn width(&self) -> (width: i32)
        ensures
            width == self@.width,
            self@.wf(),
    {
        proof {
            use_type_invariant(self);
        }
        self.width
    }

    /// The number of pixel rows.
    pub fn height(&self) -> (height: i32)
        ensures
            height == self@.height,
            self@.wf(),
    {
        proof {
            use_type_invariant(self);
        }
        self.height
    }

    /// The colour that `clear` fills the canvas with.
    pub fn background(&self) -> (color: Color)
        ensures
            color == self@.background,
    {
        self.background
    }

    /// Sets the colour that `clear` fills the canvas with. No pixel changes.
    pub fn set_background(&mut self, color: Color)
        ensures
            final(self)@ == (CanvasView { background: color, ..old(self)@ }),
    {
        proof {
            use_type_invariant(&*self);
        }
        self.background = color;
    }

    /// The colour of the pixel at (`x`, `y`), or `None` outside the canvas.
    pub fn pixel(&self, x: i32, y: i32) -> (color: Option<Color>)
        ensures
            self@.wf(),
            color == if self@.contains(x as int, y as int) {
                Some(self@.at(x as int, y as int))
            } else {
                None
            },
    {
        proof {
            use_type_invariant(self);
        }
        if 0 <= x && x < self.width && 0 <= y && y < self.height {
            proof {
                lemma_cell_in_range(self.width as int, self.height as int, x as int, y as int);
            }
            let index: i64 = y as i64 * self.width as i64 + x as i64;
            Some(self.pixels[index as usize])
        } else {
            None
        }
    }

    /// Sets every pixel to the background colour.
    pub fn clear(&mut self)
        ensures
            final(self)@ == old(self)@.cleared(),
            final(self)@.wf(),
            forall|x: int, y: int|
                old(self)@.contains(x, y) ==> #[trigger] final(self)@.at(x, y) == old(
                    self,
                )@.background,
    {
        proof {
            use_type_invariant(&*self);
        }
        let mut at: usize = 0;
        while at < self.pixels.len()
            invariant
                at <= self.pixels.len(),
                self.id == old(self).id,
                self.width == old(self).width,
                self.height == old(self).height,
                self.background == old(self).background,
                self.pixels@.len() == old(self).pixels@.len(),
                old(self)@.wf(),
                forall|i: int| 0 <= i < at ==> self.pixels@[i] == self.background,
            decreases self.pixels.len() - at,
        {
            let fill = self.background;
            self.pixels[at] = fill;
            at += 1;
        }
        assert(self@.pixels =~= old(self)@.cleared().pixels);
        assert forall|x: int, y: int| old(self)@.contains(x, y) implies #[trigger] self@.at(x, y)
            == old(self)@.background by {
            lemma_cleared(old(self)@, x, y);
        }
    }

    /// Writes one pixel. A position outside the canvas is clipped: the call
    /// changes nothing.
    pub fn set_pixel(&mut self, x: i32, y: i32, color: Color)
        ensures
            final(self)@ == old(self)@.with_pixel(x as int, y as int, color),
            final(self)@.wf(),
            forall|px: int, py: int|
                old(self)@.contains(px, py) ==> #[trigger] final(self)@.at(px, py) == if px == x
                    && py == y {
                    color
                } else {
                    old(self)@.at(px, py)
                },
    {
        self.plot(x as i64, y as i64, color);
    }

    /// Writes one pixel at a position that may lie far outside the canvas.
    pub(crate) fn plot(&mut self, x: i64, y: i64, color: Color)
        ensures
            final(self)@ == old(self)@.with_pixel(x as int, y as int, color),
            final(self)@.wf(),
            forall|px: int, py: int|
                old(self)@.contains(px, py) ==> #[trigger] final(self)@.at(px, py) == if px == x
                    && py == y {
                    color
                } else {
                    old(self)@.at(px, py)
                },
    {
        proof {
            use_type_invariant(&*self);
        }
        if 0 <= x && x < self.width as i64 && 0 <= y && y < self.height as i64 {
            proof {
                lemma_cell_in_range(self.width as int, self.height as int, x as int, y as int);
            }
            let index: i64 = y * self.width as i64 + x;
            self.pixels[index as usize] = color;
        }
        assert forall|px: int, py: int| old(self)@.contains(px, py) implies #[trigger] self@.at(
            px,
            py,
        ) == if px == x && py == y {
            color
        } else {
            old(self)@.at(px, py)
        } by {
            lemma_with_pixel(old(self)@, x as int, y as int, color, px, py);
        }
    }
}

} // verus!
