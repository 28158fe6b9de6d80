//! The row-pair renderer: pairs of source image rows become single terminal
//! lines, the top pixel of a cell as background color and the bottom pixel as
//! foreground color behind a lower-half-block glyph. An odd trailing row is
//! flushed with upper-half-block glyphs whose foreground carries the lone
//! top color.

use vstd::prelude::*;

verus! {

/// A 24-bit RGB color triple. Alpha, if the source had one, is ignored.
#[derive(Clone, Copy, Debug, PartialEq, Eq)]
pub struct Rgb {
    pub r: u8,
    pub g: u8,
    pub b: u8,
}

/// The pending color state of one terminal character cell: an optional
/// background and an optional foreground color. Created empty, the
/// background is set from the top pixel of a row pair and the foreground
/// from the bottom pixel.
#[derive(Clone, Copy, Debug, PartialEq, Eq)]
pub struct ColorCell {
    pub bg: Option<Rgb>,
    pub fg: Option<Rgb>,
}

impl ColorCell {
    /// An empty cell: no background, no foreground.
    pub fn new() -> (c: ColorCell)
        ensures
            c.bg is None,
            c.fg is None,
    {
        ColorCell { bg: None, fg: None }
    }

    pub fn set_bg(&mut self, color: Option<Rgb>)
        ensures
            final(self).bg == color,
            final(self).fg == old(self).fg,
    {
        self.bg = color;
    }

    pub fn set_fg(&mut self, color: Option<Rgb>)
        ensures
            final(self).fg == color,
            final(self).bg == old(self).bg,
    {
        self.fg = color;
    }
}

/// Whether the row buffer is currently collecting the top pixels of a new
/// row pair or the bottom pixels that complete it.
#[derive(Clone, Copy, Debug, PartialEq, Eq, Structural)]
pub enum Status {
    TopRow,
    BottomRow,
}

/// Which half-block glyph a rendered line uses for all of its cells.
#[derive(Clone, Copy, Debug, PartialEq, Eq, Structural)]
pub enum Glyph {
    UpperHalfBlock,
    LowerHalfBlock,
}

impl Glyph {
    /// The Unicode character this glyph stands for: U+2580 for the upper
    /// half block, U+2584 for the lower half block.
    pub fn to_char(&self) -> (c: char)
        ensures
            *self == Glyph::UpperHalfBlock ==> c == '\u{2580}',
            *self == Glyph::LowerHalfBlock ==> c == '\u{2584}',
    {
        match self {
            Glyph::UpperHalfBlock => '\u{2580}',
            Glyph::LowerHalfBlock => '\u{2584}',
        }
    }
}

/// A buffer of length `width` is full; a shorter one is not.
pub fn is_buffer_full(buffer: &[ColorCell], width: u32) -> (r: bool)
    ensures
        r == (buffer@.len() == width as int),
{
    buffer.len() == width as usize
}

/// One rendered terminal line: a run of cells that all share the same
/// half-block glyph, each cell contributing its own colors.
pub struct Line {
    pub glyph: Glyph,
    pub cells: Vec<ColorCell>,
}

fn copy_cells(buff: &Vec<ColorCell>) -> (r: Vec<ColorCell>)
    ensures
        r@ == buff@,
{
    let mut r: Vec<ColorCell> = Vec::new();
    let mut i: usize = 0;
    while i < buff.len()
        invariant
            i <= buff@.len(),
            r@ == buff@.take(i as int),
        decreases buff@.len() - i,
    {
        r.push(buff[i]);
        proof {
            assert(buff@.take(i + 1) =~= buff@.take(i as int).push(buff@[i as int]));
        }
        i = i + 1;
    }
    proof {
        assert(buff@.take(buff@.len() as int) =~= buff@);
    }
    r
}

/// A completed row pair leaves the buffer as one lower-half-block line,
/// each cell keeping its background (top pixel) and foreground (bottom
/// pixel) colors. The buffer is cleared for the next pair.
pub fn print_buffer(buff: &mut Vec<ColorCell>) -> (line: Line)
    ensures
        line.glyph == Glyph::LowerHalfBlock,
        line.cells@ == old(buff)@,
        final(buff)@.len() == 0,
{
    let cells = copy_cells(buff);
    buff.clear();
    Line { glyph: Glyph::LowerHalfBlock, cells }
}

/// A half-filled buffer (an odd image height left only top pixels) is
/// flushed as one upper-half-block line: each cell's background color is
/// reinterpreted as the foreground of the upper half block, since no bottom
/// pixel exists. The buffer is cleared.
pub fn flush_buffer(buff: &mut Vec<ColorCell>) -> (line: Line)
    requires
        forall|j: int| 0 <= j < old(buff)@.len() ==> (#[trigger] old(buff)@[j]).bg is Some,
    ensures
        line.glyph == Glyph::UpperHalfBlock,
        line.cells@.len() == old(buff)@.len(),
        forall|j: int| 0 <= j < old(buff)@.len() ==> {
            &&& (#[trigger] line.cells@[j]).bg is None
            &&& line.cells@[j].fg == old(buff)@[j].bg
        },
        final(buff)@.len() == 0,
{
    let cells = flushed_cells(buff);
    buff.clear();
    Line { glyph: Glyph::UpperHalfBlock, cells }
}

/// The pixel of a row-major stream at a given row and column.
pub open spec fn pix(pixels: Seq<Rgb>, width: int, row: int, col: int) -> Rgb {
    pixels[row * width + col]
}

/// Line `k` of the output renders source rows `2k` (as backgrounds) and
/// `2k + 1` (as foregrounds) behind lower-half-block glyphs, one cell per
/// column.
pub open spec fn full_line_ok(line: Line, pixels: Seq<Rgb>, width: int, k: int) -> bool {
    &&& line.glyph == Glyph::LowerHalfBlock
    &&& line.cells@.len() == width
    &&& forall|j: int| 0 <= j < width ==> {
        &&& (#[trigger] line.cells@[j]).bg == Some(pix(pixels, width, 2 * k, j))
        &&& line.cells@[j].fg == Some(pix(pixels, width, 2 * k + 1, j))
    }
}

/// A flushed line renders the lone source row `row` behind upper-half-block
/// glyphs: no backgrounds, and each cell's foreground is the row's pixel.
pub open spec fn flushed_line_ok(line: Line, pixels: Seq<Rgb>, width: int, row: int) -> bool {
    &&& line.glyph == Glyph::UpperHalfBlock
    &&& line.cells@.len() == width
    &&& forall|j: int| 0 <= j < width ==> {
        &&& (#[trigger] line.cells@[j]).bg is None
        &&& line.cells@[j].fg == Some(pix(pixels, width, row, j))
    }
}

/// What rendering a `width` by `height` pixel stream produces:
/// no lines at all when the width is zero; otherwise `(height + 1) / 2`
/// lines, of which the first `height / 2` are full row-pair lines, and,
/// when the height is odd, one final flushed line for source row
/// `height - 1`.
pub open spec fn render_ok(lines: Seq<Line>, pixels: Seq<Rgb>, width: int, height: int) -> bool {
    &&& width == 0 ==> lines.len() == 0
    &&& width > 0 ==> {
        &&& lines.len() == (height + 1) / 2
        &&& forall|k: int| 0 <= k < height / 2 ==> full_line_ok(#[trigger] lines[k], pixels, width, k)
        &&& height % 2 == 1 ==> flushed_line_ok(lines[height / 2], pixels, width, height - 1)
    }
}

fn flushed_cells(buff: &Vec<ColorCell>) -> (r: Vec<ColorCell>)
    requires
        forall|j: int| 0 <= j < buff@.len() ==> (#[trigger] buff@[j]).bg is Some,
    ensures
        r@.len() == buff@.len(),
        forall|j: int| 0 <= j < buff@.len() ==> {
            &&& (#[trigger] r@[j]).bg is None
            &&& r@[j].fg == buff@[j].bg
        },
{
    let mut r: Vec<ColorCell> = Vec::new();
    let mut i: usize = 0;
    while i < buff.len()
        invariant
            i <= buff@.len(),
            r@.len() == i,
            forall|j: int| 0 <= j < buff@.len() ==> (#[trigger] buff@[j]).bg is Some,
            forall|j: int| 0 <= j < i ==> {
                &&& (#[trigger] r@[j]).bg is None
                &&& r@[j].fg == buff@[j].bg
            },
        decreases buff@.len() - i,
    {
        let bg = buff[i].bg.unwrap();
        let mut c = ColorCell::new();
        c.set_fg(Some(bg));
        r.push(c);
        i = i + 1;
    }
    r
}

/// The row pair renderer. Consumes `width * height` pixels in row-major
/// order and pairs the rows: each pair becomes one lower-half-block line
/// whose cell backgrounds come from the upper row and foregrounds from the
/// lower row. An odd final row is flushed as one upper-half-block line.
/// A width of zero yields no lines regardless of the height.
pub fn render(pixels: &Vec<Rgb>, width: u32, height: u32) -> (lines: Vec<Line>)
    requires
        pixels@.len() == (width as int) * (height as int),
    ensures
        render_ok(lines@, pixels@, width as int, height as int),
{
    let mut lines: Vec<Line> = Vec::new();
    if width == 0 {
        return lines;
    }
    let w = width as usize;
    let n = pixels.len();
    let mut curr_col: usize = 0;
    let mut buffer: Vec<ColorCell> = Vec::new();
    let mut mode: Status = Status::TopRow;
    let ghost mut rows_done: int = 0;
    let mut idx: usize = 0;
    while idx < n
        invariant
            width > 0,
            w == width as int,
            n == pixels@.len(),
            pixels@.len() == (width as int) * (height as int),
            0 <= rows_done <= height as int,
            0 <= curr_col < w,
            idx == rows_done * (width as int) + curr_col,
            idx <= n,
            mode == Status::TopRow ==> {
                &&& rows_done % 2 == 0
                &&& buffer@.len() == curr_col
                &&& forall|j: int| 0 <= j < curr_col ==> {
                    &&& (#[trigger] buffer@[j]).bg == Some(pix(pixels@, width as int, rows_done, j))
                    &&& buffer@[j].fg is None
                }
            },
            mode == Status::BottomRow ==> {
                &&& rows_done % 2 == 1
                &&& buffer@.len() == width as int
                &&& forall|j: int| 0 <= j < width as int ==> (#[trigger] buffer@[j]).bg
                    == Some(pix(pixels@, width as int, rows_done - 1, j))
                &&& forall|j: int| 0 <= j < curr_col ==> (#[trigger] buffer@[j]).fg
                    == Some(pix(pixels@, width as int, rows_done, j))
                &&& forall|j: int| curr_col <= j < width as int ==> (#[trigger] buffer@[j]).fg is None
            },
            lines@.len() == rows_done / 2,
            forall|k: int| 0 <= k < rows_done / 2 ==> full_line_ok(
                #[trigger] lines@[k],
                pixels@,
                width as int,
                k,
            ),
        decreases n - idx,
    {
        proof {
            assert(rows_done < height as int) by (nonlinear_arith)
                requires
                    idx == rows_done * (width as int) + curr_col,
                    idx < (width as int) * (height as int),
                    0 <= curr_col,
                    width > 0,
                    0 <= rows_done,
            ;
            assert((rows_done + 1) * (width as int) == rows_done * (width as int) + (width as int))
                by (nonlinear_arith);
        }
        let px = pixels[idx];
        if mode == Status::TopRow {
            let mut c = ColorCell::new();
            c.set_bg(Some(px));
            buffer.push(c);
            curr_col = curr_col + 1;
        } else {
            let mut c = buffer[curr_col];
            c.set_fg(Some(px));
            buffer[curr_col] = c;
            curr_col = curr_col + 1;
        }
        // a full buffer ends the current source row
        if is_buffer_full(buffer.as_slice(), width) {
            if mode == Status::TopRow {
                // the top row of the pair is complete: start collecting
                // the bottom row into the same cells
                mode = Status::BottomRow;
                proof {
                    rows_done = rows_done + 1;
                }
                curr_col = 0;
            } else if curr_col == w {
                // the pair is complete: emit it as one line
                curr_col = 0;
                let line = print_buffer(&mut buffer);
                lines.push(line);
                proof {
                    rows_done = rows_done + 1;
                }
                mode = Status::TopRow;
            }
        }
        idx = idx + 1;
    }
    proof {
        assert(rows_done == height as int && curr_col == 0) by (nonlinear_arith)
            requires
                idx == rows_done * (width as int) + curr_col,
                idx == (width as int) * (height as int),
                0 <= curr_col < width as int,
                0 <= rows_done <= height as int,
        ;
    }
    // an odd image height leaves a half-finished pair to flush
    if buffer.len() > 0 {
        let line = flush_buffer(&mut buffer);
        lines.push(line);
    }
    lines
}

/// A rendered image with even height `height` and positive width `width`
/// has exactly `height / 2` lines, each of `width` cells, all drawn with
/// the lower half block.
pub proof fn lemma_even_height_lines(lines: Seq<Line>, pixels: Seq<Rgb>, width: int, height: int)
    requires
        width > 0,
        height >= 0,
        height % 2 == 0,
        render_ok(lines, pixels, width, height),
    ensures
        lines.len() == height / 2,
        forall|k: int| 0 <= k < lines.len() ==> {
            &&& (#[trigger] lines[k]).glyph == Glyph::LowerHalfBlock
            &&& lines[k].cells@.len() == width
        },
{
}

/// A rendered image with odd height `height` and positive width `width`
/// has `(height - 1) / 2` lower-half-block lines followed by exactly one
/// upper-half-block line of `width` cells.
pub proof fn lemma_odd_height_lines(lines: Seq<Line>, pixels: Seq<Rgb>, width: int, height: int)
    requires
        width > 0,
        height >= 0,
        height % 2 == 1,
        render_ok(lines, pixels, width, height),
    ensures
        lines.len() == (height - 1) / 2 + 1,
        forall|k: int| 0 <= k < lines.len() - 1 ==> {
            &&& (#[trigger] lines[k]).glyph == Glyph::LowerHalfBlock
            &&& lines[k].cells@.len() == width
        },
        lines.last().glyph == Glyph::UpperHalfBlock,
        lines.last().cells@.len() == width,
{
}

/// A rendered image with zero width or zero height has no lines at all.
pub proof fn lemma_empty_render(lines: Seq<Line>, pixels: Seq<Rgb>, width: int, height: int)
    requires
        width >= 0,
        height >= 0,
        width == 0 || height == 0,
        render_ok(lines, pixels, width, height),
    ensures
        lines.len() == 0,
{
}

/// One operation of the terminal output stream: set the colors for the
/// next glyph, put a half-block glyph, or end the line.
#[derive(Clone, Copy, Debug, PartialEq, Eq)]
pub enum TermOp {
    SetColor(ColorCell),
    PutGlyph(Glyph),
    Newline,
}

/// The color-reset operation: both the background and the foreground are
/// cleared, so later terminal output is unaffected.
pub open spec fn reset_op() -> TermOp {
    TermOp::SetColor(ColorCell { bg: None, fg: None })
}

/// The operations that paint a run of cells with one glyph: for each cell
/// in order, set its colors, then put the glyph.
pub open spec fn cell_ops(glyph: Glyph, cells: Seq<ColorCell>) -> Seq<TermOp>
    decreases cells.len(),
{
    if cells.len() == 0 {
        Seq::empty()
    } else {
        cell_ops(glyph, cells.drop_last())
            + seq![TermOp::SetColor(cells.last()), TermOp::PutGlyph(glyph)]
    }
}

/// The operations for one whole line: its cells, then a color reset and a
/// line feed.
pub open spec fn line_ops(line: Line) -> Seq<TermOp> {
    cell_ops(line.glyph, line.cells@) + seq![reset_op(), TermOp::Newline]
}

/// The operations for a sequence of lines, in order.
pub open spec fn lines_ops(lines: Seq<Line>) -> Seq<TermOp>
    decreases lines.len(),
{
    if lines.len() == 0 {
        Seq::empty()
    } else {
        lines_ops(lines.drop_last()) + line_ops(lines.last())
    }
}

/// Encode rendered lines as the terminal operation stream: every line's
/// cells with their glyphs, a reset and a newline after each line, and one
/// final color reset after everything, so the terminal is left with no
/// background and no foreground color set.
#[verifier::loop_isolation(false)]
pub fn to_ops(lines: &Vec<Line>) -> (ops: Vec<TermOp>)
    ensures
        ops@ == lines_ops(lines@) + seq![reset_op()],
        ops@.len() > 0,
        ops@.last() == reset_op(),
{
    let mut ops: Vec<TermOp> = Vec::new();
    let mut i: usize = 0;
    while i < lines.len()
        invariant
            i <= lines@.len(),
            ops@ == lines_ops(lines@.take(i as int)),
        decreases lines@.len() - i,
    {
        let line = &lines[i];
        let mut j: usize = 0;
        while j < line.cells.len()
            invariant
                j <= line.cells@.len(),
                ops@ == lines_ops(lines@.take(i as int))
                    + cell_ops(line.glyph, line.cells@.take(j as int)),
            decreases line.cells@.len() - j,
        {
            ops.push(TermOp::SetColor(line.cells[j]));
            ops.push(TermOp::PutGlyph(line.glyph));
            proof {
                let cs = line.cells@;
                assert(cs.take(j + 1).drop_last() =~= cs.take(j as int));
                assert(cs.take(j + 1).last() == cs[j as int]);
            }
            j = j + 1;
        }
        let reset = ColorCell::new();
        ops.push(TermOp::SetColor(reset));
        ops.push(TermOp::Newline);
        proof {
            assert(line.cells@.take(line.cells@.len() as int) =~= line.cells@);
            assert(lines@.take(i + 1).drop_last() =~= lines@.take(i as int));
            assert(lines@.take(i + 1).last() == lines@[i as int]);
            assert(ops@ =~= lines_ops(lines@.take(i + 1)));
        }
        i = i + 1;
    }
    proof {
        assert(lines@.take(lines@.len() as int) =~= lines@);
    }
    let reset = ColorCell::new();
    ops.push(TermOp::SetColor(reset));
    ops
}

} // verus!
