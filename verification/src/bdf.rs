//! The font resource format: a line-oriented text in the BDF family. This
//! module says what a resource means and reads it.
//!
//! A resource is a sequence of lines, each a sequence of words. Outside a
//! glyph, `FONTBOUNDINGBOX w h x y` gives the cell width, which is the advance
//! of unmapped characters, and `STARTCHAR` opens a glyph. Inside a glyph,
//! `ENCODING n` gives the character code (a negative code leaves the glyph
//! out of the table), `DWIDTH dx dy` the advance, `BBX w h x y` the bounding
//! box, `BITMAP` starts the rows, each a word of hexadecimal digits, and
//! `ENDCHAR` closes the glyph. Every other line is passed over.
//!
//! A resource is malformed where a keyword's arguments are not the decimal
//! numbers it takes or lie outside the limits, where a bitmap row is missing
//! or is not a word of enough hexadecimal digits, where `BBX` or `BITMAP`
//! comes after `BITMAP`, where `ENDCHAR` comes before the advance, the
//! bounding box and the bitmap were given, where a glyph is opened inside
//! another or is never closed, and where no `FONTBOUNDINGBOX` is given.

use vstd::prelude::*;
use crate::font::{
    glyph_views, Font, FontLoadError, FontView, Frame, Glyph, GlyphView, Metrics, MAX_EXTENT,
};
use crate::scan::{
    contents, number, parse_number, parse_row, row_bits, spells, split, tokens, word_is,
    Separator,
};

verus! {

/// A glyph that the reader has opened and not yet closed.
pub struct Draft {
    pub code: Option<u32>,
    pub advance: Option<i32>,
    pub frame: Option<Frame>,
    pub bitmap: bool,
    pub rows: int,
    pub bits: Seq<bool>,
}

impl Draft {
    /// A glyph of which nothing is known yet.
    pub open spec fn blank() -> Draft {
        Draft {
            code: None,
            advance: None,
            frame: None,
            bitmap: false,
            rows: 0,
            bits: Seq::empty(),
        }
    }

    /// Whether the next line must be a bitmap row.
    pub open spec fn collecting(self) -> bool {
        self.bitmap && self.frame is Some && self.rows < self.frame->0.height
    }

    /// The glyph that the draft describes once `ENDCHAR` closes it. The
    /// draft's code is taken to be `code`.
    pub open spec fn glyph(self, code: u32) -> GlyphView {
        GlyphView {
            metrics: Metrics {
                code,
                advance: self.advance->0,
                left: self.frame->0.left,
                top: (-(self.frame->0.height + self.frame->0.lift)) as i32,
                width: self.frame->0.width,
                height: self.frame->0.height,
            },
            bits: self.bits,
        }
    }

    /// Whether `ENDCHAR` may close the draft: its advance, bounding box and
    /// bitmap were given and fit together.
    pub open spec fn complete(self) -> bool {
        &&& self.bitmap
        &&& self.advance is Some
        &&& self.frame is Some
        &&& self.frame->0.wf()
        &&& self.glyph(0).wf()
    }
}

/// What the reader knows after some lines.
pub struct Scan {
    pub fallback: Option<i32>,
    pub draft: Option<Draft>,
    pub glyphs: Seq<GlyphView>,
    pub broken: bool,
}

impl Scan {
    /// The reader's state before the first line.
    pub open spec fn start() -> Scan {
        Scan { fallback: None, draft: None, glyphs: Seq::empty(), broken: false }
    }

    /// The state after a line that breaks the format. What was read before
    /// no longer counts.
    pub open spec fn fail(self) -> Scan {
        Scan { broken: true, ..Scan::start() }
    }

    /// The state with `draft` as the open glyph.
    pub open spec fn with_draft(self, draft: Draft) -> Scan {
        Scan { draft: Some(draft), ..self }
    }
}

/// The `count` decimal arguments of a line that holds a keyword and nothing
/// but those arguments.
pub open spec fn arguments(words: Seq<Seq<u8>>, count: int) -> Option<Seq<int>> {
    if words.len() == count + 1 && (forall|i: int|
        1 <= i <= count ==> number(#[trigger] words[i]) is Some) {
        Some(Seq::new(count as nat, |i: int| number(words[i + 1])->0))
    } else {
        None
    }
}

/// Whether `value` lies in `low..=high`.
pub open spec fn within(value: int, low: int, high: int) -> bool {
    low <= value <= high
}

/// The effect of a line that stands outside any glyph.
pub open spec fn feed_outside(scan: Scan, words: Seq<Seq<u8>>) -> Scan {
    if spells(words[0], "FONTBOUNDINGBOX"@) {
        match arguments(words, 4) {
            Some(values) => if within(values[0], 0, MAX_EXTENT as int) {
                Scan { fallback: Some(values[0] as i32), ..scan }
            } else {
                scan.fail()
            },
            None => scan.fail(),
        }
    } else if spells(words[0], "STARTCHAR"@) {
        scan.with_draft(Draft::blank())
    } else {
        scan
    }
}

/// The effect of a line that must be a bitmap row of the open glyph.
pub open spec fn feed_row(scan: Scan, draft: Draft, words: Seq<Seq<u8>>) -> Scan {
    if words.len() == 1 {
        match row_bits(words[0], draft.frame->0.width as int) {
            Some(bits) => scan.with_draft(
                Draft { rows: draft.rows + 1, bits: draft.bits + bits, ..draft },
            ),
            None => scan.fail(),
        }
    } else {
        scan.fail()
    }
}

/// The bounding box that four arguments give, if each lies within the limits.
pub open spec fn frame_of(values: Seq<int>) -> Option<Frame> {
    if within(values[0], 0, MAX_EXTENT as int) && within(values[1], 0, MAX_EXTENT as int)
        && within(values[2], -MAX_EXTENT as int, MAX_EXTENT as int) && within(
        values[3],
        -MAX_EXTENT as int,
        MAX_EXTENT as int,
    ) {
        Some(
            Frame {
                width: values[0] as i32,
                height: values[1] as i32,
                left: values[2] as i32,
                lift: values[3] as i32,
            },
        )
    } else {
        None
    }
}

/// The effect of a line inside a glyph that is not a bitmap row.
pub open spec fn feed_inside(scan: Scan, draft: Draft, words: Seq<Seq<u8>>) -> Scan {
    if spells(words[0], "ENCODING"@) {
        match arguments(words, 1) {
            Some(values) => scan.with_draft(
                Draft {
                    code: if values[0] >= 0 {
                        Some(values[0] as u32)
                    } else {
                        None
                    },
                    ..draft
                },
            ),
            None => scan.fail(),
        }
    } else if spells(words[0], "DWIDTH"@) {
        match arguments(words, 2) {
            Some(values) => if within(values[0], 0, MAX_EXTENT as int) {
                scan.with_draft(Draft { advance: Some(values[0] as i32), ..draft })
            } else {
                scan.fail()
            },
            None => scan.fail(),
        }
    } else if spells(words[0], "BBX"@) {
        match arguments(words, 4) {
            Some(values) => match frame_of(values) {
                Some(frame) => if draft.bitmap {
                    scan.fail()
                } else {
                    scan.with_draft(Draft { frame: Some(frame), ..draft })
                },
                None => scan.fail(),
            },
            None => scan.fail(),
        }
    } else if spells(words[0], "BITMAP"@) {
        if draft.frame is Some && !draft.bitmap {
            scan.with_draft(Draft { bitmap: true, ..draft })
        } else {
            scan.fail()
        }
    } else if spells(words[0], "ENDCHAR"@) {
        if draft.complete() {
            Scan {
                draft: None,
                glyphs: match draft.code {
                    Some(code) => scan.glyphs.push(draft.glyph(code)),
                    None => scan.glyphs,
                },
                ..scan
            }
        } else {
            scan.fail()
        }
    } else if spells(words[0], "STARTCHAR"@) {
        scan.fail()
    } else {
        scan
    }
}

/// The reader's state after one more line, given as its words.
pub open spec fn feed(scan: Scan, words: Seq<Seq<u8>>) -> Scan {
    if scan.broken || words.len() == 0 {
        scan
    } else {
        match scan.draft {
            None => feed_outside(scan, words),
            Some(draft) => if draft.collecting() {
                feed_row(scan, draft, words)
            } else {
                feed_inside(scan, draft, words)
            },
        }
    }
}

/// The reader's state after the first `upto` of `lines`.
pub open spec fn scanned(lines: Seq<Seq<u8>>, upto: int) -> Scan
    decreases upto,
{
    if upto <= 0 {
        Scan::start()
    } else {
        feed(scanned(lines, upto - 1), tokens(lines[upto - 1], Separator::Blank))
    }
}

/// What the reader's last state amounts to: a font, or the reason why there
/// is none.
pub open spec fn concluded(scan: Scan) -> Result<FontView, FontLoadError> {
    if scan.broken || scan.draft is Some || scan.fallback is None {
        Err(FontLoadError::Malformed)
    } else if scan.glyphs.len() == 0 {
        Err(FontLoadError::NoGlyphs)
    } else {
        Ok(FontView { fallback: scan.fallback->0, glyphs: scan.glyphs })
    }
}

/// The font that the bytes of a resource describe.
pub open spec fn parsed(bytes: Seq<u8>) -> Result<FontView, FontLoadError> {
    let lines = tokens(bytes, Separator::Newline);
    concluded(scanned(lines, lines.len() as int))
}

/// The font that a resource describes, where `None` stands for a resource
/// that could not be had.
pub open spec fn loaded(resource: Option<Seq<u8>>) -> Result<FontView, FontLoadError> {
    match resource {
        Some(bytes) => parsed(bytes),
        None => Err(FontLoadError::Missing),
    }
}

impl Scan {
    /// Whether what was read so far lies within the limits of the format:
    /// the fallback advance, if it was given, and every glyph of the table.
    pub open spec fn wf(self) -> bool {
        &&& self.fallback is Some ==> within(self.fallback->0 as int, 0, MAX_EXTENT as int)
        &&& forall|i: int| 0 <= i < self.glyphs.len() ==> (#[trigger] self.glyphs[i]).wf()
    }
}

/// A line never takes the reader out of the limits of the format.
pub proof fn lemma_feed_keeps_limits(scan: Scan, words: Seq<Seq<u8>>)
    requires
        scan.wf(),
    ensures
        feed(scan, words).wf(),
{
    let next = feed(scan, words);
    assert forall|i: int| 0 <= i < next.glyphs.len() implies (#[trigger] next.glyphs[i]).wf() by {
        if i < scan.glyphs.len() && next.glyphs.len() >= scan.glyphs.len() {
            assert(next.glyphs[i] == scan.glyphs[i]);
        }
    }
}

/// The reader stays within the limits of the format, however many lines it
/// has read.
pub proof fn lemma_scanned_keeps_limits(lines: Seq<Seq<u8>>, upto: int)
    ensures
        scanned(lines, upto).wf(),
    decreases upto,
{
    if upto > 0 {
        lemma_scanned_keeps_limits(lines, upto - 1);
        lemma_feed_keeps_limits(
            scanned(lines, upto - 1),
            tokens(lines[upto - 1], Separator::Blank),
        );
    }
}

/// Every font that a resource describes is well formed: it holds a glyph,
/// each of its glyphs has a bitmap of the size of its bounding box, and all
/// its numbers lie within the limits of the format.
pub proof fn lemma_parsed_well_formed(bytes: Seq<u8>)
    ensures
        parsed(bytes) is Ok ==> parsed(bytes)->Ok_0.wf(),
{
    let lines = tokens(bytes, Separator::Newline);
    lemma_scanned_keeps_limits(lines, lines.len() as int);
}

/// A resource that could not be had gives no font, whatever else holds.
pub proof fn lemma_missing_resource()
    ensures
        loaded(None) == Err::<FontView, FontLoadError>(FontLoadError::Missing),
{
}

struct Pending {
    code: Option<u32>,
    advance: Option<i32>,
    frame: Option<Frame>,
    bitmap: bool,
    rows: i64,
    bits: Vec<bool>,
}

impl Pending {
    spec fn view(&self) -> Draft {
        Draft {
            code: self.code,
            advance: self.advance,
            frame: self.frame,
            bitmap: self.bitmap,
            rows: self.rows as int,
            bits: self.bits@,
        }
    }
}

struct Reader {
    fallback: Option<i32>,
    draft: Option<Pending>,
    glyphs: Vec<Glyph>,
    broken: bool,
}

impl Reader {
    spec fn view(&self) -> Scan {
        Scan {
            fallback: self.fallback,
            draft: match self.draft {
                Some(pending) => Some(pending@),
                None => None,
            },
            glyphs: glyph_views(self.glyphs@),
            broken: self.broken,
        }
    }

    spec fn bounded(&self) -> bool {
        &&& self.fallback is Some ==> within(self.fallback->0 as int, 0, MAX_EXTENT as int)
        &&& self.draft is Some ==> 0 <= self.draft->0.rows <= i32::MAX
    }

    fn start() -> (reader: Reader)
        ensures
            reader@ == Scan::start(),
            reader.bounded(),
    {
        let reader = Reader { fallback: None, draft: None, glyphs: Vec::new(), broken: false };
        assert(reader@.glyphs =~= Seq::<GlyphView>::empty());
        reader
    }

    fn failed() -> (reader: Reader)
        ensures
            reader@ == Scan::start().fail(),
            reader.bounded(),
    {
        let reader = Reader { fallback: None, draft: None, glyphs: Vec::new(), broken: true };
        assert(reader@.glyphs =~= Seq::<GlyphView>::empty());
        reader
    }
}

fn read_arguments(words: &Vec<Vec<u8>>, count: usize) -> (values: Option<Vec<i32>>)
    requires
        count <= 4,
    ensures
        match values {
            Some(list) => {
                &&& arguments(contents(words@), count as int) is Some
                &&& list@.len() == count
                &&& forall|i: int|
                    0 <= i < count ==> (#[trigger] list@[i]) as int == arguments(
                        contents(words@),
                        count as int,
                    )->0[i]
            },
            None => arguments(contents(words@), count as int) is None,
        },
{
    if words.len() != count + 1 {
        return None;
    }
    let mut list: Vec<i32> = Vec::new();
    let mut at: usize = 1;
    while at <= count
        invariant
            1 <= at <= count + 1,
            count <= 4,
            words.len() == count + 1,
            list@.len() == at - 1,
            forall|i: int| 1 <= i < at ==> number(#[trigger] contents(words@)[i]) is Some,
            forall|i: int|
                0 <= i < at - 1 ==> (#[trigger] list@[i]) as int == number(
                    contents(words@)[i + 1],
                )->0,
        decreases count + 1 - at,
    {
        match parse_number(words[at].as_slice()) {
            Some(value) => {
                list.push(value);
            },
            None => {
                assert(number(contents(words@)[at as int]) is None);
                return None;
            },
        }
        at += 1;
    }
    Some(list)
}

fn in_extent(value: i32, low: i32) -> (inside: bool)
    ensures
        inside == within(value as int, low as int, MAX_EXTENT as int),
{
    low <= value && value <= MAX_EXTENT
}

fn feed_outside_line(reader: Reader, words: &Vec<Vec<u8>>) -> (next: Reader)
    requires
        !reader.broken,
        reader.draft is None,
        words.len() > 0,
        reader.bounded(),
    ensures
        next@ == feed_outside(reader@, contents(words@)),
        next.bounded(),
{
    if word_is(words[0].as_slice(), "FONTBOUNDINGBOX") {
        match read_arguments(words, 4) {
            Some(values) => {
                if in_extent(values[0], 0) {
                    Reader { fallback: Some(values[0]), ..reader }
                } else {
                    Reader::failed()
                }
            },
            None => Reader::failed(),
        }
    } else if word_is(words[0].as_slice(), "STARTCHAR") {
        let pending = Pending {
            code: None,
            advance: None,
            frame: None,
            bitmap: false,
            rows: 0,
            bits: Vec::new(),
        };
        assert(pending@.bits =~= Draft::blank().bits);
        Reader { draft: Some(pending), ..reader }
    } else {
        reader
    }
}

fn feed_row_line(reader: Reader, words: &Vec<Vec<u8>>) -> (next: Reader)
    requires
        !reader.broken,
        reader.draft is Some,
        reader.draft->0@.collecting(),
        words.len() > 0,
        reader.bounded(),
    ensures
        next@ == feed_row(reader@, reader.draft->0@, contents(words@)),
        next.bounded(),
{
    let Reader { fallback, draft, glyphs, broken } = reader;
    let mut pending = draft.unwrap();
    let width = pending.frame.unwrap().width;
    if words.len() != 1 || width < 0 {
        return Reader::failed();
    }
    let mut bits = pending.bits;
    if parse_row(words[0].as_slice(), width as usize, &mut bits) {
        let pending = Pending { rows: pending.rows + 1, bits, ..pending };
        Reader { fallback, draft: Some(pending), glyphs, broken }
    } else {
        Reader::failed()
    }
}

fn frame_from(values: &Vec<i32>) -> (frame: Option<Frame>)
    requires
        values@.len() == 4,
    ensures
        frame == frame_of(Seq::new(4, |i: int| values@[i] as int)),
        frame is Some ==> frame->0.wf(),
{
    if in_extent(values[0], 0) && in_extent(values[1], 0) && in_extent(values[2], -MAX_EXTENT)
        && in_extent(values[3], -MAX_EXTENT) {
        Some(Frame { width: values[0], height: values[1], left: values[2], lift: values[3] })
    } else {
        None
    }
}

fn close_glyph(reader: Reader) -> (next: Reader)
    requires
        !reader.broken,
        reader.draft is Some,
        reader.bounded(),
    ensures
        next@ == if reader.draft->0@.complete() {
            Scan {
                draft: None,
                glyphs: match reader.draft->0@.code {
                    Some(code) => reader@.glyphs.push(reader.draft->0@.glyph(code)),
                    None => reader@.glyphs,
                },
                ..reader@
            }
        } else {
            reader@.fail()
        },
        next.bounded(),
{
    let Reader { fallback, draft, glyphs, broken } = reader;
    let ghost before = glyph_views(glyphs@);
    let pending = draft.unwrap();
    let ghost sketch = pending@;
    if !pending.bitmap || pending.advance.is_none() || pending.frame.is_none() {
        return Reader::failed();
    }
    let frame = pending.frame.unwrap();
    if !(in_extent(frame.width, 0) && in_extent(frame.height, 0) && in_extent(
        frame.left,
        -MAX_EXTENT,
    ) && in_extent(frame.lift, -MAX_EXTENT)) {
        return Reader::failed();
    }
    let code: u32 = match pending.code {
        Some(code) => code,
        None => 0,
    };
    let metrics = Metrics {
        code,
        advance: pending.advance.unwrap(),
        left: frame.left,
        top: -(frame.height + frame.lift),
        width: frame.width,
        height: frame.height,
    };
    assert(sketch.glyph(code).metrics == metrics);
    match Glyph::new(metrics, pending.bits) {
        Some(glyph) => {
            let mut glyphs = glyphs;
            if pending.code.is_some() {
                glyphs.push(glyph);
                assert(glyph_views(glyphs@) =~= before.push(sketch.glyph(code)));
            }
            Reader { fallback, draft: None, glyphs, broken }
        },
        None => Reader::failed(),
    }
}

fn feed_inside_line(reader: Reader, words: &Vec<Vec<u8>>) -> (next: Reader)
    requires
        !reader.broken,
        reader.draft is Some,
        !reader.draft->0@.collecting(),
        words.len() > 0,
        reader.bounded(),
    ensures
        next@ == feed_inside(reader@, reader.draft->0@, contents(words@)),
        next.bounded(),
{
    let word = words[0].as_slice();
    if word_is(word, "ENCODING") {
        match read_arguments(words, 1) {
            Some(values) => {
                let Reader { fallback, draft, glyphs, broken } = reader;
                let pending = draft.unwrap();
                let code: Option<u32> = if values[0] >= 0 {
                    Some(values[0] as u32)
                } else {
                    None
                };
                Reader { fallback, draft: Some(Pending { code, ..pending }), glyphs, broken }
            },
            None => Reader::failed(),
        }
    } else if word_is(word, "DWIDTH") {
        match read_arguments(words, 2) {
            Some(values) => {
                if in_extent(values[0], 0) {
                    let Reader { fallback, draft, glyphs, broken } = reader;
                    let pending = draft.unwrap();
                    Reader {
                        fallback,
                        draft: Some(Pending { advance: Some(values[0]), ..pending }),
                        glyphs,
                        broken,
                    }
                } else {
                    Reader::failed()
                }
            },
            None => Reader::failed(),
        }
    } else if word_is(word, "BBX") {
        match read_arguments(words, 4) {
            Some(values) => {
                assert(Seq::new(4, |i: int| values@[i] as int) =~= arguments(
                    contents(words@),
                    4,
                )->0);
                match frame_from(&values) {
                    Some(frame) => {
                        let Reader { fallback, draft, glyphs, broken } = reader;
                        let pending = draft.unwrap();
                        if pending.bitmap {
                            Reader::failed()
                        } else {
                            Reader {
                                fallback,
                                draft: Some(Pending { frame: Some(frame), ..pending }),
                                glyphs,
                                broken,
                            }
                        }
                    },
                    None => Reader::failed(),
                }
            },
            None => Reader::failed(),
        }
    } else if word_is(word, "BITMAP") {
        let Reader { fallback, draft, glyphs, broken } = reader;
        let pending = draft.unwrap();
        if pending.frame.is_some() && !pending.bitmap {
            Reader { fallback, draft: Some(Pending { bitmap: true, ..pending }), glyphs, broken }
        } else {
            Reader::failed()
        }
    } else if word_is(word, "ENDCHAR") {
        close_glyph(reader)
    } else if word_is(word, "STARTCHAR") {
        Reader::failed()
    } else {
        reader
    }
}

fn feed_line(reader: Reader, words: &Vec<Vec<u8>>) -> (next: Reader)
    requires
        reader.bounded(),
    ensures
        next@ == feed(reader@, contents(words@)),
        next.bounded(),
{
    if reader.broken || words.len() == 0 {
        return reader;
    }
    let collecting = match &reader.draft {
        None => None,
        Some(pending) => Some(
            pending.bitmap && match pending.frame {
                Some(frame) => pending.rows < frame.height as i64,
                None => false,
            },
        ),
    };
    match collecting {
        None => feed_outside_line(reader, words),
        Some(true) => feed_row_line(reader, words),
        Some(false) => feed_inside_line(reader, words),
    }
}

impl Font {
    /// Reads a font from the bytes of a resource.
    pub fn parse(bytes: &[u8]) -> (made: Result<Font, FontLoadError>)
        ensures
            match made {
                Ok(font) => parsed(bytes@) == Ok::<FontView, FontLoadError>(font@),
                Err(error) => parsed(bytes@) == Err::<FontView, FontLoadError>(error),
            },
    {
        let lines = split(bytes, Separator::Newline);
        let mut reader = Reader::start();
        let mut at: usize = 0;
        while at < lines.len()
            invariant
                at <= lines.len(),
                contents(lines@) == tokens(bytes@, Separator::Newline),
                reader@ == scanned(contents(lines@), at as int),
                reader.bounded(),
            decreases lines.len() - at,
        {
            let words = split(lines[at].as_slice(), Separator::Blank);
            reader = feed_line(reader, &words);
            at += 1;
        }
        if reader.broken || reader.draft.is_some() || reader.fallback.is_none() {
            return Err(FontLoadError::Malformed);
        }
        if reader.glyphs.len() == 0 {
            return Err(FontLoadError::NoGlyphs);
        }
        let Reader { fallback, draft, glyphs, broken } = reader;
        match Font::new(fallback.unwrap(), glyphs) {
            Some(font) => Ok(font),
            None => Err(FontLoadError::Malformed),
        }
    }

    /// Loads a font from a resource, where `None` stands for a resource that
    /// could not be had.
    pub fn load(resource: Option<&[u8]>) -> (made: Result<Font, FontLoadError>)
        ensures
            match made {
                Ok(font) => loaded(
                    match resource {
                        Some(bytes) => Some(bytes@),
                        None => None,
                    },
                ) == Ok::<FontView, FontLoadError>(font@),
                Err(error) => loaded(
                    match resource {
                        Some(bytes) => Some(bytes@),
                        None => None,
                    },
                ) == Err::<FontView, FontLoadError>(error),
            },
    {
        match resource {
            Some(bytes) => Font::parse(bytes),
            None => Err(FontLoadError::Missing),
        }
    }
}

} // verus!
