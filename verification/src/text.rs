//! Text rasterisation: where the pen stands before each character, which
//! pixels a string covers, and the drawing itself.

use vstd::prelude::*;
use crate::canvas::{lemma_canvas_equal, Canvas, CanvasView};
use crate::color::Color;
use crate::font::{lemma_last_defined_member, Font, FontView, Glyph};
use crate::grid::{lemma_cell_in_range, lemma_index_of_cell};

verus! {

/// `value`, or the nearest pen position that can be represented.
pub open spec fn clamped(value: int) -> int {
    if value < i32::MIN {
        i32::MIN as int
    } else if value > i32::MAX {
        i32::MAX as int
    } else {
        value
    }
}

/// The pen's horizontal position after the first `count` characters of
/// `text`, when it starts at `x`: each character moves it by its advance and
/// the letter spacing, and it stops at the ends of the representable range.
pub open spec fn pen_after(font: FontView, text: Seq<char>, x: int, spacing: int, count: int) -> int
    decreases count,
{
    if count <= 0 {
        x
    } else {
        clamped(
            pen_after(font, text, x, spacing, count - 1) + font.advance(text[count - 1]) + spacing,
        )
    }
}

/// Whether character `index` of `text` covers the pixel (`px`, `py`) when
/// the text is drawn with its pen starting at (`x`, `y`).
pub open spec fn inked_by(
    font: FontView,
    text: Seq<char>,
    x: int,
    y: int,
    spacing: int,
    index: int,
    px: int,
    py: int,
) -> bool {
    match font.glyph(text[index]) {
        Some(glyph) => glyph.covers(px - pen_after(font, text, x, spacing, index), py - y),
        None => false,
    }
}

/// Whether one of the first `count` characters of `text` covers the pixel
/// (`px`, `py`).
pub open spec fn inked(
    font: FontView,
    text: Seq<char>,
    x: int,
    y: int,
    spacing: int,
    count: int,
    px: int,
    py: int,
) -> bool {
    exists|index: int|
        0 <= index < count && #[trigger] inked_by(font, text, x, y, spacing, index, px, py)
}

/// One more character covers what the characters before it cover, and what
/// it covers itself.
pub proof fn lemma_inked_step(
    font: FontView,
    text: Seq<char>,
    x: int,
    y: int,
    spacing: int,
    count: int,
    px: int,
    py: int,
)
    requires
        0 <= count,
    ensures
        inked(font, text, x, y, spacing, count + 1, px, py) == (inked(
            font,
            text,
            x,
            y,
            spacing,
            count,
            px,
            py,
        ) || inked_by(font, text, x, y, spacing, count, px, py)),
{
    if inked(font, text, x, y, spacing, count + 1, px, py) {
        let index = choose|index: int|
            0 <= index < count + 1 && #[trigger] inked_by(
                font,
                text,
                x,
                y,
                spacing,
                index,
                px,
                py,
            );
        if index < count {
            assert(inked(font, text, x, y, spacing, count, px, py));
        }
    }
    if inked(font, text, x, y, spacing, count, px, py) {
        let index = choose|index: int|
            0 <= index < count && #[trigger] inked_by(font, text, x, y, spacing, index, px, py);
        assert(0 <= index < count + 1 && inked_by(font, text, x, y, spacing, index, px, py));
    }
    if inked_by(font, text, x, y, spacing, count, px, py) {
        assert(0 <= count < count + 1 && inked_by(font, text, x, y, spacing, count, px, py));
    }
}

/// The canvas with `text` drawn on it: every pixel that one of the
/// characters covers holds `color`, every other pixel what it held.
pub open spec fn with_text(
    canvas: CanvasView,
    font: FontView,
    text: Seq<char>,
    x: int,
    y: int,
    color: Color,
    spacing: int,
) -> CanvasView {
    CanvasView {
        pixels: Seq::new(
            canvas.pixels.len(),
            |i: int|
                if inked(
                    font,
                    text,
                    x,
                    y,
                    spacing,
                    text.len() as int,
                    i % canvas.width,
                    i / canvas.width,
                ) {
                    color
                } else {
                    canvas.pixels[i]
                },
        ),
        ..canvas
    }
}

/// Reading a canvas after text was drawn: a pixel that the text covers holds
/// the text's colour, every other pixel its old one.
pub proof fn lemma_with_text(
    canvas: CanvasView,
    font: FontView,
    text: Seq<char>,
    x: int,
    y: int,
    color: Color,
    spacing: int,
    px: int,
    py: int,
)
    requires
        canvas.wf(),
        canvas.contains(px, py),
    ensures
        with_text(canvas, font, text, x, y, color, spacing).wf(),
        with_text(canvas, font, text, x, y, color, spacing).same_buffer(canvas),
        with_text(canvas, font, text, x, y, color, spacing).at(px, py) == if inked(
            font,
            text,
            x,
            y,
            spacing,
            text.len() as int,
            px,
            py,
        ) {
            color
        } else {
            canvas.at(px, py)
        },
{
    lemma_cell_in_range(canvas.width, canvas.height, px, py);
    lemma_index_of_cell(canvas.width, canvas.height, px, py);
}

/// Drawing the empty string is a no-op: the canvas stays as it is and the
/// pen stays at `x`, whatever the font, the colour and the spacing.
pub proof fn lemma_empty_text(
    canvas: CanvasView,
    font: FontView,
    x: int,
    y: int,
    color: Color,
    spacing: int,
)
    requires
        canvas.wf(),
    ensures
        with_text(canvas, font, Seq::<char>::empty(), x, y, color, spacing) == canvas,
        pen_after(font, Seq::<char>::empty(), x, spacing, 0) == x,
{
    let text = Seq::<char>::empty();
    let drawn = with_text(canvas, font, text, x, y, color, spacing);
    assert forall|px: int, py: int| drawn.contains(px, py) implies drawn.at(px, py) == canvas.at(
        px,
        py,
    ) by {
        lemma_with_text(canvas, font, text, x, y, color, spacing, px, py);
    }
    lemma_with_text(canvas, font, text, x, y, color, spacing, 0, 0);
    lemma_canvas_equal(drawn, canvas);
}

/// Whether every pixel that `text` covers lies at or beyond column `edge`.
pub open spec fn right_of(
    font: FontView,
    text: Seq<char>,
    x: int,
    y: int,
    spacing: int,
    edge: int,
) -> bool {
    forall|index: int, px: int, py: int|
        0 <= index < text.len() && #[trigger] inked_by(font, text, x, y, spacing, index, px, py)
            ==> px >= edge
}

/// Text that lies entirely beyond the right edge of a canvas draws no
/// pixel of it: the canvas stays as it is.
pub proof fn lemma_text_beyond_right_edge(
    canvas: CanvasView,
    font: FontView,
    text: Seq<char>,
    x: int,
    y: int,
    color: Color,
    spacing: int,
)
    requires
        canvas.wf(),
        right_of(font, text, x, y, spacing, canvas.width),
    ensures
        with_text(canvas, font, text, x, y, color, spacing) == canvas,
{
    let drawn = with_text(canvas, font, text, x, y, color, spacing);
    assert forall|px: int, py: int| drawn.contains(px, py) implies drawn.at(px, py) == canvas.at(
        px,
        py,
    ) by {
        lemma_with_text(canvas, font, text, x, y, color, spacing, px, py);
        if inked(font, text, x, y, spacing, text.len() as int, px, py) {
            let index = choose|index: int|
                0 <= index < text.len() && #[trigger] inked_by(
                    font,
                    text,
                    x,
                    y,
                    spacing,
                    index,
                    px,
                    py,
                );
            assert(px >= canvas.width);
        }
    }
    lemma_with_text(canvas, font, text, x, y, color, spacing, 0, 0);
    lemma_canvas_equal(drawn, canvas);
}

/// With a spacing that is not negative the pen never moves left.
pub proof fn lemma_pen_moves_right(
    font: FontView,
    text: Seq<char>,
    x: int,
    spacing: int,
    count: int,
)
    requires
        font.wf(),
        i32::MIN <= x <= i32::MAX,
        0 <= spacing,
        0 <= count <= text.len(),
    ensures
        x <= pen_after(font, text, x, spacing, count),
    decreases count,
{
    if count > 0 {
        lemma_pen_moves_right(font, text, x, spacing, count - 1);
        lemma_last_defined_member(font.glyphs, text[count - 1] as u32);
    }
}

/// Text whose pen starts at or beyond the right edge lies entirely beyond
/// it, provided that the spacing is not negative and that no glyph of the
/// font reaches left of its pen.
pub proof fn lemma_start_beyond_right_edge(
    font: FontView,
    text: Seq<char>,
    x: int,
    y: int,
    spacing: int,
    edge: int,
)
    requires
        font.wf(),
        i32::MIN <= x <= i32::MAX,
        0 <= spacing,
        edge <= x,
        forall|i: int| 0 <= i < font.glyphs.len() ==> (#[trigger] font.glyphs[i]).metrics.left >= 0,
    ensures
        right_of(font, text, x, y, spacing, edge),
{
    assert forall|index: int, px: int, py: int|
        0 <= index < text.len() && #[trigger] inked_by(
            font,
            text,
            x,
            y,
            spacing,
            index,
            px,
            py,
        ) implies px >= edge by {
        lemma_pen_moves_right(font, text, x, spacing, index);
        lemma_last_defined_member(font.glyphs, text[index] as u32);
    }
}

impl Canvas {
    /// Draws one glyph with the pen at (`x`, `y`): every pixel of the canvas
    /// that the glyph covers takes `color`, and no other pixel changes.
    pub fn draw_glyph(&mut self, glyph: &Glyph, x: i32, y: i32, color: Color)
        ensures
            final(self)@.wf(),
            final(self)@.same_buffer(old(self)@),
            forall|px: int, py: int|
                old(self)@.contains(px, py) ==> #[trigger] final(self)@.at(px, py) == if glyph@.covers(
                    px - x,
                    py - y,
                ) {
                    color
                } else {
                    old(self)@.at(px, py)
                },
    {
        let metrics = glyph.metrics();
        let ghost shape = glyph@;
        let ghost before = self@;
        proof {
            use_type_invariant(&*self);
        }
        let mut dy: i32 = metrics.top;
        while dy < metrics.top + metrics.height
            invariant
                metrics == shape.metrics,
                shape == glyph@,
                shape.wf(),
                before.wf(),
                metrics.top <= dy <= metrics.top + metrics.height,
                self@.wf(),
                self@.same_buffer(before),
                forall|px: int, py: int|
                    before.contains(px, py) ==> #[trigger] self@.at(px, py) == if shape.covers(
                        px - x,
                        py - y,
                    ) && py - y < dy {
                        color
                    } else {
                        before.at(px, py)
                    },
            decreases metrics.top + metrics.height - dy,
        {
            let mut dx: i32 = metrics.left;
            while dx < metrics.left + metrics.width
                invariant
                    metrics == shape.metrics,
                    shape == glyph@,
                    shape.wf(),
                    before.wf(),
                    metrics.top <= dy < metrics.top + metrics.height,
                    metrics.left <= dx <= metrics.left + metrics.width,
                    self@.wf(),
                    self@.same_buffer(before),
                    forall|px: int, py: int|
                        before.contains(px, py) ==> #[trigger] self@.at(px, py) == if shape.covers(
                            px - x,
                            py - y,
                        ) && (py - y < dy || (py - y == dy && px - x < dx)) {
                            color
                        } else {
                            before.at(px, py)
                        },
                decreases metrics.left + metrics.width - dx,
            {
                if glyph.covers(dx, dy) {
                    self.plot(x as i64 + dx as i64, y as i64 + dy as i64, color);
                }
                dx += 1;
            }
            dy += 1;
        }
    }

    /// Draws `text` with the pen starting at (`x`, `y`), where `y` is the
    /// baseline. Each character in turn is looked up in `font`; its glyph, if
    /// it has one, is drawn at the pen in `color`, and the pen moves right by
    /// the character's advance and `letter_spacing`. A character without a
    /// glyph draws nothing and moves the pen by the font's fallback advance.
    /// Pixels outside the canvas are clipped. Returns the pen's final
    /// horizontal position.
    ///
    /// Bitmap fonts carry no kerning pairs, so `kerning_enabled` changes
    /// nothing.
    pub fn draw_text(
        &mut self,
        font: &Font,
        text: &str,
        x: i32,
        y: i32,
        color: Color,
        letter_spacing: i32,
        kerning_enabled: bool,
    ) -> (pen: i32)
        ensures
            final(self)@ == with_text(
                old(self)@,
                font@,
                text@,
                x as int,
                y as int,
                color,
                letter_spacing as int,
            ),
            final(self)@.wf(),
            final(self)@.same_buffer(old(self)@),
            forall|px: int, py: int|
                old(self)@.contains(px, py) ==> #[trigger] final(self)@.at(px, py) == if inked(
                    font@,
                    text@,
                    x as int,
                    y as int,
                    letter_spacing as int,
                    text@.len() as int,
                    px,
                    py,
                ) {
                    color
                } else {
                    old(self)@.at(px, py)
                },
            pen == pen_after(
                font@,
                text@,
                x as int,
                letter_spacing as int,
                text@.len() as int,
            ),
    {
        let ghost before = self@;
        proof {
            use_type_invariant(&*self);
        }
        let _ = kerning_enabled;
        let mut pen: i32 = x;
        for c in it: text.chars()
            invariant
                it.seq() == text@,
                before.wf(),
                self@.wf(),
                self@.same_buffer(before),
                pen == pen_after(font@, text@, x as int, letter_spacing as int, it.index()),
                forall|px: int, py: int|
                    before.contains(px, py) ==> #[trigger] self@.at(px, py) == if inked(
                        font@,
                        text@,
                        x as int,
                        y as int,
                        letter_spacing as int,
                        it.index(),
                        px,
                        py,
                    ) {
                        color
                    } else {
                        before.at(px, py)
                    },
        {
            let ghost count = it.index();
            let ghost middle = self@;
            let advance: i32 = match font.glyph_for(c) {
                Some(glyph) => {
                    self.draw_glyph(glyph, pen, y, color);
                    glyph.metrics().advance
                },
                None => font.fallback_advance(),
            };
            proof {
                assert forall|px: int, py: int| before.contains(px, py) implies #[trigger] self@.at(
                    px,
                    py,
                ) == if inked(
                    font@,
                    text@,
                    x as int,
                    y as int,
                    letter_spacing as int,
                    count + 1,
                    px,
                    py,
                ) {
                    color
                } else {
                    before.at(px, py)
                } by {
                    lemma_inked_step(
                        font@,
                        text@,
                        x as int,
                        y as int,
                        letter_spacing as int,
                        count,
                        px,
                        py,
                    );
                    assert(middle.contains(px, py));
                }
            }
            let moved: i64 = pen as i64 + advance as i64 + letter_spacing as i64;
            pen = if moved < i32::MIN as i64 {
                i32::MIN
            } else if moved > i32::MAX as i64 {
                i32::MAX
            } else {
                moved as i32
            };
        }
        proof {
            let drawn = with_text(
                before,
                font@,
                text@,
                x as int,
                y as int,
                color,
                letter_spacing as int,
            );
            assert forall|px: int, py: int| self@.contains(px, py) implies self@.at(px, py)
                == drawn.at(px, py) by {
                lemma_with_text(
                    before,
                    font@,
                    text@,
                    x as int,
                    y as int,
                    color,
                    letter_spacing as int,
                    px,
                    py,
                );
                assert(before.contains(px, py));
            }
            assert(drawn.wf()) by {
                lemma_with_text(
                    before,
                    font@,
                    text@,
                    x as int,
                    y as int,
                    color,
                    letter_spacing as int,
                    0,
                    0,
                );
            }
            lemma_canvas_equal(self@, drawn);
        }
        pen
    }
}

} // verus!
