//! Bitmap fonts: glyphs and the table that maps characters to them.

use vstd::prelude::*;
use crate::grid::{cell_index, lemma_cell_in_range};

verus! {

/// The largest width, height, offset or advance that a glyph may declare.
pub const MAX_EXTENT: i32 = 1024;

/// Why a font could not be loaded.
#[derive(Clone, Copy, Debug, PartialEq, Eq, Structural)]
pub enum FontLoadError {
    /// The resource could not be had.
    Missing,
    /// The resource does not follow the format.
    Malformed,
    /// The resource is well formed but defines no glyph.
    NoGlyphs,
}

/// The bounding box that a glyph declares: the size of its bitmap, the offset
/// of its left edge from the pen, and the height of its bottom edge above the
/// baseline.
#[derive(Clone, Copy, Debug, PartialEq, Eq, Structural)]
pub struct Frame {
    pub width: i32,
    pub height: i32,
    pub left: i32,
    pub lift: i32,
}

impl Frame {
    /// Whether every field lies within the limits of the format.
    pub open spec fn wf(self) -> bool {
        &&& 0 <= self.width <= MAX_EXTENT
        &&& 0 <= self.height <= MAX_EXTENT
        &&& -MAX_EXTENT <= self.left <= MAX_EXTENT
        &&& -MAX_EXTENT <= self.lift <= MAX_EXTENT
    }
}

/// The numbers that describe a glyph: its character code, how far it moves
/// the pen, and where its bitmap lies relative to the pen. `left` and `top`
/// are the offsets of the bitmap's top-left pixel; rows grow downwards, so a
/// glyph that stands on the baseline has a negative `top`.
#[derive(Clone, Copy, Debug, PartialEq, Eq, Structural)]
pub struct Metrics {
    pub code: u32,
    pub advance: i32,
    pub left: i32,
    pub top: i32,
    pub width: i32,
    pub height: i32,
}

impl Metrics {
    /// Whether every field lies within the limits of the format.
    pub open spec fn wf(self) -> bool {
        &&& 0 <= self.advance <= MAX_EXTENT
        &&& -MAX_EXTENT <= self.left <= MAX_EXTENT
        &&& -2 * MAX_EXTENT <= self.top <= MAX_EXTENT
        &&& 0 <= self.width <= MAX_EXTENT
        &&& 0 <= self.height <= MAX_EXTENT
    }
}

/// A glyph as a mathematical value: its metrics and its bitmap, row by row.
pub struct GlyphView {
    pub metrics: Metrics,
    pub bits: Seq<bool>,
}

impl GlyphView {
    /// Whether the metrics are within limits and the bitmap has their size.
    pub open spec fn wf(self) -> bool {
        &&& self.metrics.wf()
        &&& self.bits.len() == self.metrics.width * self.metrics.height
    }

    /// Whether the glyph covers the pixel at offset (`dx`, `dy`) from the pen.
    pub open spec fn covers(self, dx: int, dy: int) -> bool {
        let column = dx - self.metrics.left;
        let row = dy - self.metrics.top;
        &&& 0 <= column < self.metrics.width
        &&& 0 <= row < self.metrics.height
        &&& self.bits[cell_index(self.metrics.width as int, column, row)]
    }
}

/// One character's bitmap with its metrics.
#[derive(Debug)]
pub struct Glyph {
    metrics: Metrics,
    bits: Vec<bool>,
}

impl View for Glyph {
    type V = GlyphView;

    closed spec fn view(&self) -> GlyphView {
        GlyphView { metrics: self.metrics, bits: self.bits@ }
    }
}

impl Glyph {
    #[verifier::type_invariant]
    spec fn inv(self) -> bool {
        self@.wf()
    }

    /// Builds a glyph from its metrics and its bitmap, given row by row.
    /// Returns `None` unless the metrics lie within the limits and the bitmap
    /// holds one bit for each pixel of the bounding box.
    pub fn new(metrics: Metrics, bits: Vec<bool>) -> (made: Option<Glyph>)
        ensures
            match made {
                Some(glyph) => glyph@ == (GlyphView { metrics, bits: bits@ }) && glyph@.wf(),
                None => !(GlyphView { metrics, bits: bits@ }).wf(),
            },
    {
        if 0 <= metrics.advance && metrics.advance <= MAX_EXTENT && -MAX_EXTENT <= metrics.left
            && metrics.left <= MAX_EXTENT && -2 * MAX_EXTENT <= metrics.top && metrics.top
            <= MAX_EXTENT && 0 <= metrics.width && metrics.width <= MAX_EXTENT && 0
            <= metrics.height && metrics.height <= MAX_EXTENT {
            assert(metrics.width * metrics.height <= MAX_EXTENT * MAX_EXTENT) by (nonlinear_arith)
                requires
                    0 <= metrics.width <= MAX_EXTENT,
                    0 <= metrics.height <= MAX_EXTENT,
            ;
            let cells: i32 = metrics.width * metrics.height;
            if bits.len() == cells as usize {
                Some(Glyph { metrics, bits })
            } else {
                None
            }
        } else {
            None
        }
    }

    /// The glyph's metrics.
    pub fn metrics(&self) -> (metrics: Metrics)
        ensures
            metrics == self@.metrics,
            self@.wf(),
    {
        proof {
            use_type_invariant(self);
        }
        self.metrics
    }

    /// Whether the glyph covers the pixel at offset (`dx`, `dy`) from the pen.
    pub fn covers(&self, dx: i32, dy: i32) -> (covered: bool)
        ensures
            covered == self@.covers(dx as int, dy as int),
    {
        proof {
            use_type_invariant(self);
        }
        let column: i64 = dx as i64 - self.metrics.left as i64;
        let row: i64 = dy as i64 - self.metrics.top as i64;
        if 0 <= column && column < self.metrics.width as i64 && 0 <= row && row
            < self.metrics.height as i64 {
            proof {
                lemma_cell_in_range(
                    self.metrics.width as int,
                    self.metrics.height as int,
                    column as int,
                    row as int,
                );
                assert(row * self.metrics.width <= MAX_EXTENT * MAX_EXTENT) by (nonlinear_arith)
                    requires
                        0 <= row < MAX_EXTENT,
                        0 <= self.metrics.width <= MAX_EXTENT,
                ;
            }
            let index: i64 = row * self.metrics.width as i64 + column;
            self.bits[index as usize]
        } else {
            false
        }
    }
}

/// The glyphs that a vector of glyphs holds, as mathematical values.
pub open spec fn glyph_views(glyphs: Seq<Glyph>) -> Seq<GlyphView> {
    Seq::new(glyphs.len(), |i: int| glyphs[i]@)
}

/// The glyph that the last definition of `code` in `glyphs` gives, if any:
/// a later definition of a character replaces an earlier one.
pub open spec fn last_defined(glyphs: Seq<GlyphView>, code: u32) -> Option<GlyphView>
    decreases glyphs.len(),
{
    if glyphs.len() == 0 {
        None
    } else if glyphs.last().metrics.code == code {
        Some(glyphs.last())
    } else {
        last_defined(glyphs.drop_last(), code)
    }
}

/// A font as a mathematical value: the definitions in the order in which the
/// resource gave them, and the advance of a character that has none.
pub struct FontView {
    pub fallback: i32,
    pub glyphs: Seq<GlyphView>,
}

impl FontView {
    /// Whether the font holds a glyph, and only well-formed ones.
    pub open spec fn wf(self) -> bool {
        &&& self.usable()
        &&& forall|i: int| 0 <= i < self.glyphs.len() ==> (#[trigger] self.glyphs[i]).wf()
    }

    /// Whether the font holds a glyph and its fallback advance lies within the
    /// limits.
    pub open spec fn usable(self) -> bool {
        &&& 0 <= self.fallback <= MAX_EXTENT
        &&& self.glyphs.len() > 0
    }

    /// The glyph of a character, if the font maps it.
    pub open spec fn glyph(self, c: char) -> Option<GlyphView> {
        last_defined(self.glyphs, c as u32)
    }

    /// How far a character moves the pen: its glyph's advance, or the
    /// fallback advance where the font does not map it.
    pub open spec fn advance(self, c: char) -> int {
        match self.glyph(c) {
            Some(glyph) => glyph.metrics.advance as int,
            None => self.fallback as int,
        }
    }
}

/// What `last_defined` finds is one of the definitions, and carries the code
/// that was asked for.
pub proof fn lemma_last_defined_member(glyphs: Seq<GlyphView>, code: u32)
    ensures
        match last_defined(glyphs, code) {
            Some(glyph) => glyph.metrics.code == code && exists|i: int|
                0 <= i < glyphs.len() && glyphs[i] == glyph,
            None => forall|i: int| 0 <= i < glyphs.len() ==> (#[trigger] glyphs[i]).metrics.code
                != code,
        },
    decreases glyphs.len(),
{
    if glyphs.len() == 0 {
    } else if glyphs.last().metrics.code == code {
        assert(glyphs[glyphs.len() - 1] == glyphs.last());
    } else {
        lemma_last_defined_member(glyphs.drop_last(), code);
        match last_defined(glyphs.drop_last(), code) {
            Some(glyph) => {
                let i = choose|i: int|
                    0 <= i < glyphs.drop_last().len() && glyphs.drop_last()[i] == glyph;
                assert(glyphs[i] == glyph);
            },
            None => {
                assert forall|i: int| 0 <= i < glyphs.len() implies (#[trigger] glyphs[i]).metrics.code
                    != code by {
                    if i < glyphs.len() - 1 {
                        assert(glyphs.drop_last()[i] == glyphs[i]);
                    }
                }
            },
        }
    }
}

/// An immutable table from characters to glyphs.
#[derive(Debug)]
pub struct Font {
    fallback: i32,
    glyphs: Vec<Glyph>,
}

impl View for Font {
    type V = FontView;

    closed spec fn view(&self) -> FontView {
        FontView { fallback: self.fallback, glyphs: glyph_views(self.glyphs@) }
    }
}

impl Font {
    #[verifier::type_invariant]
    spec fn inv(self) -> bool {
        self@.usable()
    }

    /// Builds a font from its definitions, in the order in which they apply,
    /// and the advance of unmapped characters. Returns `None` where there
    /// is no definition or the advance lies outside `0..=MAX_EXTENT`.
    pub fn new(fallback: i32, glyphs: Vec<Glyph>) -> (made: Option<Font>)
        ensures
            match made {
                Some(font) => font@ == (FontView { fallback, glyphs: glyph_views(glyphs@) })
                    && font@.usable(),
                None => !(FontView { fallback, glyphs: glyph_views(glyphs@) }).usable(),
            },
    {
        if 0 <= fallback && fallback <= MAX_EXTENT && glyphs.len() > 0 {
            Some(Font { fallback, glyphs })
        } else {
            None
        }
    }

    /// The advance of a character that the font does not map.
    pub fn fallback_advance(&self) -> (advance: i32)
        ensures
            advance == self@.fallback,
            0 <= advance <= MAX_EXTENT,
    {
        proof {
            use_type_invariant(self);
        }
        self.fallback
    }

    /// The glyph of `c`, or `None` where the font does not map `c`.
    pub fn glyph_for(&self, c: char) -> (found: Option<&Glyph>)
        ensures
            match found {
                Some(glyph) => self@.glyph(c) == Some(glyph@),
                None => self@.glyph(c) is None,
            },
            found is Some ==> found->0@.wf(),
    {
        let code = c as u32;
        let ghost all = glyph_views(self.glyphs@);
        let mut at: usize = self.glyphs.len();
        assert(all.take(at as int) =~= all);
        while at > 0
            invariant
                at <= self.glyphs.len(),
                all == glyph_views(self.glyphs@),
                code == c as u32,
                last_defined(all, code) == last_defined(all.take(at as int), code),
            decreases at,
        {
            at -= 1;
            assert(all.take(at + 1).drop_last() =~= all.take(at as int));
            assert(all.take(at + 1).last() == self.glyphs@[at as int]@);
            if self.glyphs[at].metrics.code == code {
                let glyph = &self.glyphs[at];
                proof {
                    use_type_invariant(glyph);
                }
                return Some(glyph);
            }
        }
        None
    }
}

} // verus!
