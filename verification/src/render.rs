//! Rendering a pixel buffer as a frame of colored character cells.
//!
//! The image is divided into `cols` by `rows` blocks of pixels, one per cell.
//! Neighbouring blocks share their boundary row and column. Each cell takes
//! the mean color of its block. The last row of cells is left out of the
//! frame, so that a frame as tall as the terminal does not make it scroll.

use crate::color::palette_index;
use crate::color::rgb_to_256;
use crate::pixels::Pixel;
use crate::pixels::PixelBuffer;
use crate::pixels::PixelGrid;
use crate::viewport::fit;
use crate::viewport::viewport;
use vstd::prelude::*;

verus! {

/// One character cell of a frame: the mean color of its block of pixels and
/// the palette index that approximates it.
#[derive(Clone, Copy, Debug, PartialEq, Eq, Structural)]
pub struct Cell {
    pub index: u8,
    pub red: u8,
    pub green: u8,
    pub blue: u8,
}

/// First pixel row (or column) of block `i`, when `extent` pixels are
/// divided among `cells` cells.
pub open spec fn block_first(i: int, extent: int, cells: int) -> int {
    i * extent / cells
}

/// Last pixel row (or column) of block `i`: where the next block starts, or
/// the last one there is.
pub open spec fn block_last(i: int, extent: int, cells: int) -> int {
    let next = (i + 1) * extent / cells;
    if next < extent - 1 {
        next
    } else {
        extent - 1
    }
}

/// One channel of a pixel: 0 is red, 1 is green, anything else is blue.
pub open spec fn channel(p: Pixel, c: int) -> int {
    if c == 0 {
        p.0 as int
    } else if c == 1 {
        p.1 as int
    } else {
        p.2 as int
    }
}

/// Sum of channel `c` over the pixels of row `y` in columns `x0` up to, not
/// including, `x1`.
pub open spec fn span_sum(g: PixelGrid, y: int, x0: int, x1: int, c: int) -> int
    decreases x1 - x0,
{
    if x1 <= x0 {
        0
    } else {
        span_sum(g, y, x0, x1 - 1, c) + channel(g.pixel(x1 - 1, y), c)
    }
}

/// Sum of channel `c` over the pixels in columns `x0` up to `x1` of rows `y0`
/// up to `y1`, both upper ends not included.
pub open spec fn block_sum(g: PixelGrid, x0: int, x1: int, y0: int, y1: int, c: int) -> int
    decreases y1 - y0,
{
    if y1 <= y0 {
        0
    } else {
        block_sum(g, x0, x1, y0, y1 - 1, c) + span_sum(g, y1 - 1, x0, x1, c)
    }
}

/// Mean of channel `c` over the same pixels, rounded down. An empty block
/// has the mean 0.
pub open spec fn block_mean(g: PixelGrid, x0: int, x1: int, y0: int, y1: int, c: int) -> int {
    let count = (x1 - x0) * (y1 - y0);
    block_sum(g, x0, x1, y0, y1, c) / (if count > 0 {
        count
    } else {
        1
    })
}

/// The cell at column `col` of row `row` when `g` is drawn as `cols` by
/// `rows` cells.
pub open spec fn cell_at(g: PixelGrid, cols: int, rows: int, col: int, row: int) -> Cell {
    let x0 = block_first(col, g.width as int, cols);
    let x1 = block_last(col, g.width as int, cols) + 1;
    let y0 = block_first(row, g.height as int, rows);
    let y1 = block_last(row, g.height as int, rows) + 1;
    let red = block_mean(g, x0, x1, y0, y1, 0);
    let green = block_mean(g, x0, x1, y0, y1, 1);
    let blue = block_mean(g, x0, x1, y0, y1, 2);
    Cell {
        index: palette_index(red, green, blue) as u8,
        red: red as u8,
        green: green as u8,
        blue: blue as u8,
    }
}

/// The cells of row `row`, left to right.
pub open spec fn row_cells(g: PixelGrid, cols: int, rows: int, row: int) -> Seq<Cell> {
    Seq::new(cols as nat, |col: int| cell_at(g, cols, rows, col, row))
}

/// Number of lines in a frame of `rows` rows of cells: the last row is left
/// out.
pub open spec fn frame_lines(rows: int) -> int {
    if rows >= 1 {
        rows - 1
    } else {
        0
    }
}

/// Block `i` lies inside the extent and is not empty.
pub proof fn lemma_block_inside(i: int, extent: int, cells: int)
    requires
        0 <= i < cells,
        1 <= extent,
    ensures
        0 <= block_first(i, extent, cells) <= block_last(i, extent, cells) < extent,
{
    let lo = i * extent;
    let hi = (i + 1) * extent;
    assert(0 <= lo <= hi && lo < cells * extent) by (nonlinear_arith)
        requires
            0 <= i < cells,
            1 <= extent,
            lo == i * extent,
            hi == (i + 1) * extent,
    ;
    let top = cells * extent;
    assert(0 <= lo / cells <= hi / cells && lo / cells < extent) by (nonlinear_arith)
        requires
            0 <= lo <= hi,
            lo < top,
            top == cells * extent,
            0 < cells,
    ;
}

/// Computes the first and the last pixel row (or column) of block `i`.
fn block_range(i: u32, extent: u32, cells: u32) -> (range: (u32, u32))
    requires
        i < cells,
        1 <= extent,
    ensures
        range.0 == block_first(i as int, extent as int, cells as int),
        range.1 == block_last(i as int, extent as int, cells as int),
        range.0 <= range.1 < extent,
{
    proof {
        lemma_block_inside(i as int, extent as int, cells as int);
        assert(i * extent <= 0xffff_ffff * 0xffff_ffff && (i + 1) * extent <= 0xffff_ffff
            * 0xffff_ffff) by (nonlinear_arith)
            requires
                0 <= i < 0xffff_ffff,
                0 <= extent <= 0xffff_ffff,
        ;
    }
    let first: u64 = (i as u64) * (extent as u64) / (cells as u64);
    let next: u64 = (i as u64 + 1) * (extent as u64) / (cells as u64);
    let last: u64 = if next < extent as u64 - 1 {
        next
    } else {
        extent as u64 - 1
    };
    (first as u32, last as u32)
}

/// Each channel sum over a span is at most 255 per pixel.
proof fn lemma_span_sum_bounds(g: PixelGrid, y: int, x0: int, x1: int, c: int)
    requires
        x0 <= x1,
    ensures
        0 <= span_sum(g, y, x0, x1, c) <= 255 * (x1 - x0),
    decreases x1 - x0,
{
    if x1 > x0 {
        lemma_span_sum_bounds(g, y, x0, x1 - 1, c);
    }
}

/// Each channel sum over a block is at most 255 per pixel.
proof fn lemma_block_sum_bounds(g: PixelGrid, x0: int, x1: int, y0: int, y1: int, c: int)
    requires
        x0 <= x1,
        y0 <= y1,
    ensures
        0 <= block_sum(g, x0, x1, y0, y1, c) <= 255 * ((x1 - x0) * (y1 - y0)),
    decreases y1 - y0,
{
    if y1 > y0 {
        lemma_block_sum_bounds(g, x0, x1, y0, y1 - 1, c);
        lemma_span_sum_bounds(g, y1 - 1, x0, x1, c);
        assert((x1 - x0) * (y1 - y0) == (x1 - x0) * (y1 - 1 - y0) + (x1 - x0))
            by (nonlinear_arith);
    } else {
        assert((x1 - x0) * (y1 - y0) == 0) by (nonlinear_arith)
            requires
                y1 == y0,
        ;
    }
}

/// The mean of a channel over a block that is not empty is a channel value.
pub proof fn lemma_block_mean_is_channel_value(
    g: PixelGrid,
    x0: int,
    x1: int,
    y0: int,
    y1: int,
    c: int,
)
    requires
        x0 < x1,
        y0 < y1,
    ensures
        0 <= block_mean(g, x0, x1, y0, y1, c) <= 255,
{
    lemma_block_sum_bounds(g, x0, x1, y0, y1, c);
    let count = (x1 - x0) * (y1 - y0);
    let sum = block_sum(g, x0, x1, y0, y1, c);
    assert(count > 0) by (nonlinear_arith)
        requires
            count == (x1 - x0) * (y1 - y0),
            x0 < x1,
            y0 < y1,
    ;
    assert(0 <= sum / count <= 255) by (nonlinear_arith)
        requires
            0 <= sum <= 255 * count,
            count > 0,
    ;
}

/// Averages each channel over the pixels in columns `x0` to `x1` of rows
/// `y0` to `y1`, all four included.
fn average_block(img: &PixelBuffer, x0: u32, x1: u32, y0: u32, y1: u32) -> (mean: Pixel)
    requires
        x0 <= x1 < img@.width <= u32::MAX,
        y0 <= y1 < img@.height <= u32::MAX,
    ensures
        mean.0 == block_mean(img@, x0 as int, x1 + 1, y0 as int, y1 + 1, 0),
        mean.1 == block_mean(img@, x0 as int, x1 + 1, y0 as int, y1 + 1, 1),
        mean.2 == block_mean(img@, x0 as int, x1 + 1, y0 as int, y1 + 1, 2),
{
    let ghost g = img@;
    let ghost span = x1 + 1 - x0;
    let mut red: u128 = 0;
    let mut green: u128 = 0;
    let mut blue: u128 = 0;
    let mut count: u64 = 0;
    let mut y: u32 = y0;
    while y <= y1
        invariant
            g == img@,
            x0 <= x1 < g.width,
            y0 <= y1 < g.height,
            g.height <= u32::MAX,
            g.width <= u32::MAX,
            span == x1 + 1 - x0,
            y0 <= y <= y1 + 1,
            count == span * (y - y0),
            red == block_sum(g, x0 as int, x1 + 1, y0 as int, y as int, 0),
            green == block_sum(g, x0 as int, x1 + 1, y0 as int, y as int, 1),
            blue == block_sum(g, x0 as int, x1 + 1, y0 as int, y as int, 2),
        decreases y1 + 1 - y,
    {
        let ghost row_red = red;
        let ghost row_green = green;
        let ghost row_blue = blue;
        let ghost row_count = count;
        let mut x: u32 = x0;
        while x <= x1
            invariant
                g == img@,
                x0 <= x1 < g.width,
                y0 <= y <= y1 < g.height,
                g.height <= u32::MAX,
                g.width <= u32::MAX,
                span == x1 + 1 - x0,
                x0 <= x <= x1 + 1,
                row_count == span * (y - y0),
                count == row_count + (x - x0),
                row_red == block_sum(g, x0 as int, x1 + 1, y0 as int, y as int, 0),
                row_green == block_sum(g, x0 as int, x1 + 1, y0 as int, y as int, 1),
                row_blue == block_sum(g, x0 as int, x1 + 1, y0 as int, y as int, 2),
                red == row_red + span_sum(g, y as int, x0 as int, x as int, 0),
                green == row_green + span_sum(g, y as int, x0 as int, x as int, 1),
                blue == row_blue + span_sum(g, y as int, x0 as int, x as int, 2),
            decreases x1 + 1 - x,
        {
            proof {
                lemma_block_sum_bounds(g, x0 as int, x1 + 1, y0 as int, y as int, 0);
                lemma_block_sum_bounds(g, x0 as int, x1 + 1, y0 as int, y as int, 1);
                lemma_block_sum_bounds(g, x0 as int, x1 + 1, y0 as int, y as int, 2);
                lemma_span_sum_bounds(g, y as int, x0 as int, x as int, 0);
                lemma_span_sum_bounds(g, y as int, x0 as int, x as int, 1);
                lemma_span_sum_bounds(g, y as int, x0 as int, x as int, 2);
                assert(span * (y - y0) <= 0xffff_ffff * 0xffff_ffff) by (nonlinear_arith)
                    requires
                        0 <= span <= 0xffff_ffff,
                        0 <= y - y0 < 0xffff_ffff,
                ;
            }
            let p = img.get_pixel(x, y);
            red = red + p.0 as u128;
            green = green + p.1 as u128;
            blue = blue + p.2 as u128;
            count = count + 1;
            x = x + 1;
        }
        proof {
            assert(span * (y + 1 - y0) == span * (y - y0) + span) by (nonlinear_arith);
        }
        y = y + 1;
    }
    proof {
        lemma_block_mean_is_channel_value(g, x0 as int, x1 + 1, y0 as int, y1 + 1, 0);
        lemma_block_mean_is_channel_value(g, x0 as int, x1 + 1, y0 as int, y1 + 1, 1);
        lemma_block_mean_is_channel_value(g, x0 as int, x1 + 1, y0 as int, y1 + 1, 2);
        assert(count > 0) by (nonlinear_arith)
            requires
                count == span * (y1 + 1 - y0),
                span > 0,
                y1 + 1 - y0 > 0,
        ;
    }
    let divisor: u128 = count as u128;
    ((red / divisor) as u8, (green / divisor) as u8, (blue / divisor) as u8)
}

/// Draws the image as `cols` by `rows` cells and returns all rows of cells
/// but the last, top to bottom.
pub fn render(img: &PixelBuffer, cols: u32, rows: u32) -> (frame: Vec<Vec<Cell>>)
    ensures
        frame@.len() == frame_lines(rows as int),
        forall|row: int|
            0 <= row < frame@.len() ==> (#[trigger] frame@[row])@ == row_cells(
                img@,
                cols as int,
                rows as int,
                row,
            ),
        forall|row: int| 0 <= row < frame@.len() ==> (#[trigger] frame@[row])@.len() == cols,
{
    let (width, height) = img.dimensions();
    let mut frame: Vec<Vec<Cell>> = Vec::new();
    if rows == 0 {
        return frame;
    }
    let mut row: u32 = 0;
    while row < rows - 1
        invariant
            img@.wf(),
            width == img@.width,
            height == img@.height,
            1 <= rows,
            row <= rows - 1,
            frame@.len() == row,
            forall|r: int|
                0 <= r < row ==> (#[trigger] frame@[r])@ == row_cells(
                    img@,
                    cols as int,
                    rows as int,
                    r,
                ),
        decreases rows - 1 - row,
    {
        let (y0, y1) = block_range(row, height, rows);
        let mut line: Vec<Cell> = Vec::new();
        let mut col: u32 = 0;
        while col < cols
            invariant
                img@.wf(),
                width == img@.width,
                height == img@.height,
                row < rows,
                y0 == block_first(row as int, height as int, rows as int),
                y1 == block_last(row as int, height as int, rows as int),
                y0 <= y1 < height,
                col <= cols,
                line@.len() == col,
                forall|c: int|
                    0 <= c < col ==> #[trigger] line@[c] == cell_at(
                        img@,
                        cols as int,
                        rows as int,
                        c,
                        row as int,
                    ),
            decreases cols - col,
        {
            let (x0, x1) = block_range(col, width, cols);
            let mean = average_block(img, x0, x1, y0, y1);
            let index = rgb_to_256((mean.0 as usize, mean.1 as usize, mean.2 as usize));
            line.push(Cell { index, red: mean.0, green: mean.1, blue: mean.2 });
            col = col + 1;
        }
        frame.push(line);
        row = row + 1;
    }
    frame
}

/// The character of a decimal digit.
pub open spec fn digit(d: int) -> char {
    if d == 0 {
        '0'
    } else if d == 1 {
        '1'
    } else if d == 2 {
        '2'
    } else if d == 3 {
        '3'
    } else if d == 4 {
        '4'
    } else if d == 5 {
        '5'
    } else if d == 6 {
        '6'
    } else if d == 7 {
        '7'
    } else if d == 8 {
        '8'
    } else {
        '9'
    }
}

/// A number written in decimal, without leading zeros.
pub open spec fn decimal(n: nat) -> Seq<char>
    decreases n,
{
    if n < 10 {
        seq![digit(n as int)]
    } else {
        decimal(n / 10).push(digit((n % 10) as int))
    }
}

/// What is written for one cell: the escape sequence that selects the
/// palette index as foreground color, then the exact color for terminals
/// that take it, and a full block in that color.
pub open spec fn cell_text(cell: Cell) -> Seq<char> {
    "\x1b[38;5;"@ + decimal(cell.index as nat) + ";38;2;"@ + decimal(cell.red as nat) + ";"@
        + decimal(cell.green as nat) + ";"@ + decimal(cell.blue as nat) + "m\u{2588}"@
}

/// What is written for a line of cells: the text of each cell, left to
/// right.
pub open spec fn line_text(cells: Seq<Cell>) -> Seq<char>
    decreases cells.len(),
{
    if cells.len() == 0 {
        Seq::empty()
    } else {
        line_text(cells.drop_last()) + cell_text(cells.last())
    }
}

/// The digit `d` as a string.
fn digit_str(d: u8) -> (s: &'static str)
    requires
        d < 10,
    ensures
        s@ == seq![digit(d as int)],
{
    proof {
        reveal_strlit("0");
        reveal_strlit("1");
        reveal_strlit("2");
        reveal_strlit("3");
        reveal_strlit("4");
        reveal_strlit("5");
        reveal_strlit("6");
        reveal_strlit("7");
        reveal_strlit("8");
        reveal_strlit("9");
    }
    if d == 0 {
        "0"
    } else if d == 1 {
        "1"
    } else if d == 2 {
        "2"
    } else if d == 3 {
        "3"
    } else if d == 4 {
        "4"
    } else if d == 5 {
        "5"
    } else if d == 6 {
        "6"
    } else if d == 7 {
        "7"
    } else if d == 8 {
        "8"
    } else {
        "9"
    }
}

/// Appends `n` in decimal to `out`.
fn push_decimal(out: &mut String, n: u8)
    ensures
        final(out)@ == old(out)@ + decimal(n as nat),
{
    proof {
        reveal_with_fuel(decimal, 3);
    }
    if n >= 100 {
        out.append(digit_str(n / 100));
    }
    if n >= 10 {
        out.append(digit_str((n / 10) % 10));
    }
    out.append(digit_str(n % 10));
}

/// Appends the text of one cell to `out`.
fn push_cell(out: &mut String, cell: &Cell)
    ensures
        final(out)@ == old(out)@ + cell_text(*cell),
{
    out.append("\x1b[38;5;");
    push_decimal(out, cell.index);
    out.append(";38;2;");
    push_decimal(out, cell.red);
    out.append(";");
    push_decimal(out, cell.green);
    out.append(";");
    push_decimal(out, cell.blue);
    out.append("m\u{2588}");
}

/// Writes a line of cells as text.
pub fn encode_line(cells: &Vec<Cell>) -> (line: String)
    ensures
        line@ == line_text(cells@),
{
    let mut line = String::new();
    let mut i: usize = 0;
    while i < cells.len()
        invariant
            i <= cells@.len(),
            line@ == line_text(cells@.take(i as int)),
        decreases cells@.len() - i,
    {
        push_cell(&mut line, &cells[i]);
        proof {
            let next = cells@.take(i + 1);
            assert(next.drop_last() =~= cells@.take(i as int));
        }
        i = i + 1;
    }
    assert(cells@.take(cells@.len() as int) =~= cells@);
    line
}

/// The size in cells at which an image is drawn on a terminal of `cols` by
/// `rows` cells. A cell is about twice as tall as it is wide, so the image
/// counts as twice as wide. The last column of the terminal stays free.
pub open spec fn image_viewport(g: PixelGrid, cols: int, rows: int) -> (int, int) {
    viewport(2 * (g.width as int), g.height as int, cols - 1, rows)
}

/// Approximates the image as a list of terminal lines, given the size of the
/// terminal as `(columns, rows)`. The image is fitted into the terminal and
/// drawn at that size; each line is the text of one row of cells.
pub fn approximate_image(img: &PixelBuffer, term_size: (u16, u16)) -> (lines: Vec<String>)
    requires
        term_size.0 >= 1,
        term_size.1 >= 1,
    ensures
        lines@.len() == frame_lines(image_viewport(img@, term_size.0 as int, term_size.1 as int).1),
        lines@.len() < term_size.1,
        forall|row: int|
            0 <= row < lines@.len() ==> (#[trigger] lines@[row])@ == line_text(
                row_cells(
                    img@,
                    image_viewport(img@, term_size.0 as int, term_size.1 as int).0,
                    image_viewport(img@, term_size.0 as int, term_size.1 as int).1,
                    row,
                ),
            ),
{
    let (width, height) = img.dimensions();
    let (cols, rows) = fit(
        2 * (width as u64),
        height as u64,
        (term_size.0 - 1) as u64,
        term_size.1 as u64,
    );
    let frame = render(img, cols as u32, rows as u32);
    let mut lines: Vec<String> = Vec::new();
    let mut i: usize = 0;
    while i < frame.len()
        invariant
            i <= frame@.len(),
            lines@.len() == i,
            forall|row: int|
                0 <= row < i ==> (#[trigger] lines@[row])@ == line_text(frame@[row]@),
        decreases frame@.len() - i,
    {
        let line = encode_line(&frame[i]);
        lines.push(line);
        i = i + 1;
    }
    lines
}

/// What is written to the terminal for one frame: the sequences that clear
/// the screen and put the cursor in its top left corner, then the lines,
/// each followed by a carriage return and a line feed. In raw mode the
/// terminal does not return the carriage by itself.
pub open spec fn screen_text(lines: Seq<Seq<char>>) -> Seq<char>
    decreases lines.len(),
{
    if lines.len() == 0 {
        "\x1b[2J\x1b[1;1H"@
    } else {
        screen_text(lines.drop_last()) + lines.last() + "\r\n"@
    }
}

/// Puts together the text that draws the lines of a frame on a cleared
/// screen.
pub fn encode_screen(lines: &Vec<String>) -> (text: String)
    ensures
        text@ == screen_text(lines@.map_values(|line: String| line@)),
{
    let ghost views = lines@.map_values(|line: String| line@);
    let mut text = String::new();
    text.append("\x1b[2J\x1b[1;1H");
    let mut i: usize = 0;
    while i < lines.len()
        invariant
            i <= lines@.len(),
            views == lines@.map_values(|line: String| line@),
            text@ == screen_text(views.take(i as int)),
        decreases lines@.len() - i,
    {
        text.append(lines[i].as_str());
        text.append("\r\n");
        proof {
            let next = views.take(i + 1);
            assert(next.drop_last() =~= views.take(i as int));
        }
        i = i + 1;
    }
    assert(views.take(lines@.len() as int) =~= views);
    text
}

} // verus!
