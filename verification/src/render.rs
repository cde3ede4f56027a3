//! From a pixel buffer to terminal cells.
//!
//! In full mode every pixel becomes one cell. In half-pixel mode two pixels,
//! one above the other, share a cell: a half block drawn in the upper
//! pixel's colour over a background in the lower pixel's colour.

use vstd::prelude::*;
use crate::ansi::{
    cell_bytes, count_byte, count_kind, encode, encode_cells, lemma_breaks_and_blanks,
    lemma_count_concat, lemma_count_none, lemma_count_uniform, Cell, CellKind, Rgb, ESC,
};
use crate::pixel::{lemma_pixel_in_bounds, Grid, PixelBuffer, Rgba};

verus! {

/// How pixels are mapped to cells.
#[derive(Clone, Copy, Debug, PartialEq, Eq, Structural)]
pub enum RenderMode {
    /// One cell for each pixel.
    Full,
    /// One cell for each pair of pixels in a column; the last row of a
    /// buffer of odd height has no partner and is left out.
    HalfPixel,
}

impl Rgba {
    /// The colour of the pixel, without its alpha.
    pub open spec fn rgb(self) -> Rgb {
        Rgb { r: self.r, g: self.g, b: self.b }
    }
}

/// The cell for one pixel in full mode: blank where the pixel is
/// transparent, filled with its colour otherwise.
pub open spec fn full_cell(p: Rgba) -> Cell {
    if p.a == 0 {
        Cell::Blank
    } else {
        Cell::Solid(p.rgb())
    }
}

/// The cell for two pixels in half-pixel mode, `upper` above `lower`: blank
/// where both are transparent, a half block where one of them is, and both
/// colours otherwise.
pub open spec fn half_cell(upper: Rgba, lower: Rgba) -> Cell {
    if upper.a == 0 && lower.a == 0 {
        Cell::Blank
    } else if upper.a == 0 {
        Cell::LowerHalf(lower.rgb())
    } else if lower.a == 0 {
        Cell::UpperHalf(upper.rgb())
    } else {
        Cell::Halves { upper: upper.rgb(), lower: lower.rgb() }
    }
}

/// The number of rows of cells that a grid gives: one for each row of
/// pixels in full mode, one for each pair of rows in half-pixel mode, and
/// none at all for a grid without columns, which has nothing to show.
pub open spec fn cell_rows(g: Grid, mode: RenderMode) -> nat {
    if g.width == 0 {
        0
    } else {
        match mode {
            RenderMode::Full => g.height,
            RenderMode::HalfPixel => g.height / 2,
        }
    }
}

/// The cell in column `x` of cell row `row`.
pub open spec fn cell_at(g: Grid, mode: RenderMode, x: int, row: int) -> Cell {
    match mode {
        RenderMode::Full => full_cell(g.pixel(x, row)),
        RenderMode::HalfPixel => half_cell(g.pixel(x, 2 * row), g.pixel(x, 2 * row + 1)),
    }
}

/// The first `n` cells of cell row `row`.
pub open spec fn row_cells(g: Grid, mode: RenderMode, row: int, n: nat) -> Seq<Cell> {
    Seq::new(n, |x: int| cell_at(g, mode, x, row))
}

/// Cell row `row` as it is written: one cell for each column, then the end
/// of the row.
pub open spec fn row_ops(g: Grid, mode: RenderMode, row: int) -> Seq<Cell> {
    row_cells(g, mode, row, g.width).push(Cell::RowEnd)
}

/// The first `n` cell rows, from the top.
pub open spec fn rows_ops(g: Grid, mode: RenderMode, n: nat) -> Seq<Cell>
    decreases n,
{
    if n == 0 {
        Seq::empty()
    } else {
        rows_ops(g, mode, (n - 1) as nat) + row_ops(g, mode, n - 1)
    }
}

/// Everything that rendering a grid writes, in order. A grid with a side of
/// zero gives nothing: no cell and no row end.
pub open spec fn rendered(g: Grid, mode: RenderMode) -> Seq<Cell> {
    rows_ops(g, mode, cell_rows(g, mode))
}

/// The bytes that rendering a grid sends to the terminal.
pub open spec fn rendered_bytes(g: Grid, mode: RenderMode) -> Seq<u8> {
    encode_cells(rendered(g, mode))
}

/// The cells counted over the first `n` cell rows of a grid in which every
/// cell of those rows is of the kind `all`: that kind counts every cell, and
/// no other kind but the row end counts any.
proof fn lemma_count_rows(g: Grid, mode: RenderMode, n: nat, all: CellKind)
    requires
        all != CellKind::RowEnd,
        forall|x: int, row: int|
            0 <= x < g.width && 0 <= row < n ==> (#[trigger] cell_at(g, mode, x, row)).kind()
                == all,
    ensures
        count_kind(rows_ops(g, mode, n), all) == g.width * n,
        forall|other: CellKind|
            other != all && other != CellKind::RowEnd ==> count_kind(rows_ops(g, mode, n), other)
                == 0,
    decreases n,
{
    if n > 0 {
        let before = rows_ops(g, mode, (n - 1) as nat);
        let cells = row_cells(g, mode, n - 1, g.width);
        let row = row_ops(g, mode, n - 1);
        lemma_count_rows(g, mode, (n - 1) as nat, all);
        assert(row =~= cells + seq![Cell::RowEnd]);
        assert forall|i: int| 0 <= i < cells.len() implies (#[trigger] cells[i]).kind() == all by {
            assert(cells[i] == cell_at(g, mode, i, n - 1));
        }
        assert forall|kind: CellKind| kind != CellKind::RowEnd implies count_kind(
            rows_ops(g, mode, n),
            kind,
        ) == count_kind(before, kind) + (if kind == all {
            g.width
        } else {
            0
        }) by {
            lemma_count_concat(before, row, kind);
            lemma_count_concat(cells, seq![Cell::RowEnd], kind);
            lemma_count_uniform(cells, all, kind);
            lemma_count_uniform(seq![Cell::RowEnd], CellKind::RowEnd, kind);
        }
        assert(g.width * n == g.width * (n - 1) + g.width) by (nonlinear_arith);
    } else {
        assert(g.width * n == 0) by (nonlinear_arith)
            requires
                n == 0,
        ;
    }
}

/// The first `n` cell rows hold `n` row ends: one at the end of each row and
/// none inside.
proof fn lemma_row_ends(g: Grid, mode: RenderMode, n: nat)
    ensures
        count_kind(rows_ops(g, mode, n), CellKind::RowEnd) == n,
    decreases n,
{
    if n > 0 {
        let before = rows_ops(g, mode, (n - 1) as nat);
        let cells = row_cells(g, mode, n - 1, g.width);
        lemma_row_ends(g, mode, (n - 1) as nat);
        assert(row_ops(g, mode, n - 1) =~= cells + seq![Cell::RowEnd]);
        assert forall|i: int| 0 <= i < cells.len() implies (#[trigger] cells[i]).kind()
            != CellKind::RowEnd by {
            assert(cells[i] == cell_at(g, mode, i, n - 1));
        }
        lemma_count_none(cells, CellKind::RowEnd);
        lemma_count_uniform(seq![Cell::RowEnd], CellKind::RowEnd, CellKind::RowEnd);
        lemma_count_concat(cells, seq![Cell::RowEnd], CellKind::RowEnd);
        lemma_count_concat(before, row_ops(g, mode, n - 1), CellKind::RowEnd);
    }
}

/// Whatever the pixels, rendering writes one row end, and so one line break,
/// for each row of cells: `height` of them in full mode and `height / 2` in
/// half-pixel mode where the grid has columns, none where it has not.
pub proof fn lemma_one_line_break_per_row(g: Grid, mode: RenderMode)
    ensures
        count_kind(rendered(g, mode), CellKind::RowEnd) == cell_rows(g, mode),
        count_byte(rendered_bytes(g, mode), '\n' as u8) == cell_rows(g, mode),
        count_byte(rendered_bytes(g, mode), ' ' as u8) == count_kind(
            rendered(g, mode),
            CellKind::Blank,
        ),
{
    lemma_row_ends(g, mode, cell_rows(g, mode));
    lemma_breaks_and_blanks(rendered(g, mode));
}

/// A grid with a side of zero renders as nothing, in either mode: no cell,
/// no row end and no byte.
pub proof fn lemma_empty_renders_nothing(g: Grid, mode: RenderMode)
    requires
        g.width == 0 || g.height == 0,
    ensures
        rendered(g, mode) == Seq::<Cell>::empty(),
        rendered_bytes(g, mode) == Seq::<u8>::empty(),
{
    assert(cell_rows(g, mode) == 0);
}

/// A buffer without a transparent pixel, rendered in full mode, gives one
/// coloured cell for each pixel and no blank cell, and one row end for each
/// row of cells: for each row of pixels, that is, where the buffer has
/// columns.
pub proof fn lemma_opaque_full_counts(g: Grid)
    requires
        g.wf(),
        g.opaque(),
    ensures
        count_kind(rendered(g, RenderMode::Full), CellKind::Colored) == g.width * g.height,
        count_kind(rendered(g, RenderMode::Full), CellKind::Blank) == 0,
        count_kind(rendered(g, RenderMode::Full), CellKind::RowEnd) == cell_rows(
            g,
            RenderMode::Full,
        ),
        g.width > 0 ==> count_kind(rendered(g, RenderMode::Full), CellKind::RowEnd) == g.height,
        rendered(g, RenderMode::Full).len() == (g.width + 1) * cell_rows(g, RenderMode::Full),
        count_byte(rendered_bytes(g, RenderMode::Full), '\n' as u8) == cell_rows(
            g,
            RenderMode::Full,
        ),
        count_byte(rendered_bytes(g, RenderMode::Full), ' ' as u8) == 0,
{
    lemma_breaks_and_blanks(rendered(g, RenderMode::Full));
    let n: nat = cell_rows(g, RenderMode::Full);
    assert forall|x: int, row: int| 0 <= x < g.width && 0 <= row < n implies (#[trigger] cell_at(
        g,
        RenderMode::Full,
        x,
        row,
    )).kind() == CellKind::Colored by {
        assert(g.holds(x, row));
        assert(g.pixel(x, row).a != 0);
    }
    lemma_count_rows(g, RenderMode::Full, n, CellKind::Colored);
    lemma_row_ends(g, RenderMode::Full, n);
    lemma_rows_len(g, RenderMode::Full, n);
    assert(g.width * n == g.width * g.height) by (nonlinear_arith)
        requires
            g.width == 0 || n == g.height,
    ;
}

/// In a grid whose pixels are all transparent every cell is blank, in either
/// mode.
proof fn lemma_transparent_cells(g: Grid, mode: RenderMode)
    requires
        g.wf(),
        g.transparent(),
    ensures
        forall|x: int, row: int|
            0 <= x < g.width && 0 <= row < cell_rows(g, mode) ==> #[trigger] cell_at(
                g,
                mode,
                x,
                row,
            ) == Cell::Blank,
{
    assert forall|x: int, row: int|
        0 <= x < g.width && 0 <= row < cell_rows(g, mode) implies #[trigger] cell_at(
        g,
        mode,
        x,
        row,
    ) == Cell::Blank by {
        match mode {
            RenderMode::Full => {
                assert(g.holds(x, row));
                assert(g.pixel(x, row).a == 0);
            },
            RenderMode::HalfPixel => {
                assert(g.holds(x, 2 * row));
                assert(g.holds(x, 2 * row + 1));
                assert(g.pixel(x, 2 * row).a == 0);
                assert(g.pixel(x, 2 * row + 1).a == 0);
            },
        }
    }
}

/// A buffer whose pixels are all transparent gives only blank cells and row
/// ends, in either mode: no cell that sets a colour.
pub proof fn lemma_transparent_is_blank(g: Grid, mode: RenderMode)
    requires
        g.wf(),
        g.transparent(),
    ensures
        count_kind(rendered(g, mode), CellKind::Colored) == 0,
        count_kind(rendered(g, mode), CellKind::Blank) == g.width * cell_rows(g, mode),
        count_kind(rendered(g, mode), CellKind::RowEnd) == cell_rows(g, mode),
        forall|row: int| 0 <= row < cell_rows(g, mode) ==> #[trigger] row_ops(g, mode, row) == Seq::new(
            g.width,
            |x: int| Cell::Blank,
        ).push(Cell::RowEnd),
{
    let n: nat = cell_rows(g, mode);
    lemma_transparent_cells(g, mode);
    lemma_count_rows(g, mode, n, CellKind::Blank);
    lemma_row_ends(g, mode, n);
    assert forall|row: int| 0 <= row < n implies #[trigger] row_ops(g, mode, row) == Seq::new(
        g.width,
        |x: int| Cell::Blank,
    ).push(Cell::RowEnd) by {
        assert(row_cells(g, mode, row, g.width) =~= Seq::new(g.width, |x: int| Cell::Blank));
    }
}

/// A byte of the sequences that write blank cells and row ends: none of them
/// is the semicolon that every colour-setting sequence holds.
pub open spec fn colorless_byte(b: u8) -> bool {
    b == ESC || b == '[' as u8 || b == '0' as u8 || b == 'm' as u8 || b == ' ' as u8 || b
        == '\n' as u8
}

/// Cells that set no colour are written with colourless bytes alone.
proof fn lemma_colorless_cells(cells: Seq<Cell>)
    requires
        forall|i: int| 0 <= i < cells.len() ==> (#[trigger] cells[i]).kind() != CellKind::Colored,
    ensures
        forall|j: int|
            0 <= j < encode_cells(cells).len() ==> colorless_byte(#[trigger] encode_cells(cells)[j]),
    decreases cells.len(),
{
    if cells.len() > 0 {
        lemma_colorless_cells(cells.drop_last());
        let last = cells.last();
        assert(last.kind() != CellKind::Colored);
        assert forall|k: int| 0 <= k < cell_bytes(last).len() implies colorless_byte(
            #[trigger] cell_bytes(last)[k],
        ) by {}
        let head = encode_cells(cells.drop_last());
        assert forall|j: int| 0 <= j < encode_cells(cells).len() implies colorless_byte(
            #[trigger] encode_cells(cells)[j],
        ) by {
            if j < head.len() {
                assert(encode_cells(cells)[j] == head[j]);
            } else {
                assert(encode_cells(cells)[j] == cell_bytes(last)[j - head.len()]);
            }
        }
    }
}

/// The first `n` cell rows of a grid hold no coloured cell where no cell of
/// those rows is one.
proof fn lemma_rows_colorless(g: Grid, mode: RenderMode, n: nat)
    requires
        forall|x: int, row: int|
            0 <= x < g.width && 0 <= row < n ==> (#[trigger] cell_at(g, mode, x, row)).kind()
                != CellKind::Colored,
    ensures
        forall|i: int|
            0 <= i < rows_ops(g, mode, n).len() ==> (#[trigger] rows_ops(g, mode, n)[i]).kind()
                != CellKind::Colored,
    decreases n,
{
    if n > 0 {
        lemma_rows_colorless(g, mode, (n - 1) as nat);
        let before = rows_ops(g, mode, (n - 1) as nat);
        let row = row_ops(g, mode, n - 1);
        assert forall|i: int| 0 <= i < row.len() implies (#[trigger] row[i]).kind()
            != CellKind::Colored by {
            if i < g.width {
                assert(row[i] == cell_at(g, mode, i, n - 1));
            }
        }
        assert forall|i: int| 0 <= i < rows_ops(g, mode, n).len() implies (#[trigger] rows_ops(
            g,
            mode,
            n,
        )[i]).kind() != CellKind::Colored by {
            if i < before.len() {
                assert(rows_ops(g, mode, n)[i] == before[i]);
            } else {
                assert(rows_ops(g, mode, n)[i] == row[i - before.len()]);
            }
        }
    }
}

/// A buffer whose pixels are all transparent is written without any
/// colour-setting sequence: every byte sent belongs to a colour reset, a
/// space or a line break.
pub proof fn lemma_transparent_bytes(g: Grid, mode: RenderMode)
    requires
        g.wf(),
        g.transparent(),
    ensures
        forall|j: int|
            0 <= j < rendered_bytes(g, mode).len() ==> colorless_byte(
                #[trigger] rendered_bytes(g, mode)[j],
            ),
{
    lemma_transparent_cells(g, mode);
    lemma_rows_colorless(g, mode, cell_rows(g, mode));
    lemma_colorless_cells(rendered(g, mode));
}

/// The first `n` cell rows depend on the pixels of those rows alone: two
/// grids of one width that agree there give the same cells.
proof fn lemma_rows_agree(a: Grid, b: Grid, mode: RenderMode, n: nat)
    requires
        a.width == b.width,
        forall|x: int, row: int|
            0 <= x < a.width && 0 <= row < n ==> #[trigger] cell_at(a, mode, x, row) == cell_at(
                b,
                mode,
                x,
                row,
            ),
    ensures
        rows_ops(a, mode, n) == rows_ops(b, mode, n),
    decreases n,
{
    if n > 0 {
        lemma_rows_agree(a, b, mode, (n - 1) as nat);
        assert(row_cells(a, mode, n - 1, a.width) =~= row_cells(b, mode, n - 1, b.width));
    }
}

/// In half-pixel mode a buffer of odd height is rendered as if its last row
/// were not there: the rows are taken in pairs, and the row that is left
/// over is dropped. Where the buffer has columns that makes `height / 2` rows
/// of cells.
pub proof fn lemma_half_drops_odd_row(g: Grid)
    requires
        g.wf(),
        g.height % 2 == 1,
    ensures
        g.without_last_row().wf(),
        rendered(g, RenderMode::HalfPixel) == rendered(g.without_last_row(), RenderMode::HalfPixel),
        cell_rows(g, RenderMode::HalfPixel) == cell_rows(
            g.without_last_row(),
            RenderMode::HalfPixel,
        ),
        g.width > 0 ==> cell_rows(g, RenderMode::HalfPixel) == g.height / 2,
        rendered(g, RenderMode::HalfPixel).len() == (g.width + 1) * cell_rows(
            g,
            RenderMode::HalfPixel,
        ),
{
    let mode = RenderMode::HalfPixel;
    let short = g.without_last_row();
    let n: nat = cell_rows(g, mode);
    let w: int = g.width as int;
    let h: int = g.height as int;
    assert(4 * (w * (h - 1)) <= 4 * (w * h) && 0 <= w * (h - 1)) by (nonlinear_arith)
        requires
            0 <= w,
            1 <= h,
    ;
    assert(short.wf());
    assert forall|x: int, row: int| 0 <= x < w && 0 <= row < n implies #[trigger] cell_at(
        g,
        mode,
        x,
        row,
    ) == cell_at(short, mode, x, row) by {
        assert(short.holds(x, 2 * row));
        assert(short.holds(x, 2 * row + 1));
        lemma_pixel_in_bounds(short, x, 2 * row);
        lemma_pixel_in_bounds(short, x, 2 * row + 1);
        assert(short.offset(x, 2 * row) == g.offset(x, 2 * row));
        assert(short.offset(x, 2 * row + 1) == g.offset(x, 2 * row + 1));
    }
    lemma_rows_agree(g, short, mode, n);
    lemma_rows_len(g, mode, n);
}

/// Each cell row is one cell for each column and a row end.
pub proof fn lemma_rows_len(g: Grid, mode: RenderMode, n: nat)
    ensures
        rows_ops(g, mode, n).len() == (g.width + 1) * n,
    decreases n,
{
    if n > 0 {
        lemma_rows_len(g, mode, (n - 1) as nat);
        assert((g.width + 1) * n == (g.width + 1) * (n - 1) + g.width + 1) by (nonlinear_arith);
    } else {
        assert((g.width + 1) * n == 0) by (nonlinear_arith)
            requires
                n == 0,
        ;
    }
}

/// Rendering depends on nothing but the pixels: two buffers with the same
/// size and bytes give the same cells and the same bytes, so rendering one
/// buffer twice gives the same output twice.
pub proof fn lemma_render_repeats(a: PixelBuffer, b: PixelBuffer, mode: RenderMode)
    requires
        a@ == b@,
    ensures
        rendered(a@, mode) == rendered(b@, mode),
        rendered_bytes(a@, mode) == rendered_bytes(b@, mode),
{
}

/// The cell for one pixel in full mode.
fn full_cell_of(p: Rgba) -> (cell: Cell)
    ensures
        cell == full_cell(p),
{
    if p.a == 0 {
        Cell::Blank
    } else {
        Cell::Solid(Rgb { r: p.r, g: p.g, b: p.b })
    }
}

/// The cell for two pixels in half-pixel mode, `upper` above `lower`.
fn half_cell_of(upper: Rgba, lower: Rgba) -> (cell: Cell)
    ensures
        cell == half_cell(upper, lower),
{
    if upper.a == 0 && lower.a == 0 {
        Cell::Blank
    } else if upper.a == 0 {
        Cell::LowerHalf(Rgb { r: lower.r, g: lower.g, b: lower.b })
    } else if lower.a == 0 {
        Cell::UpperHalf(Rgb { r: upper.r, g: upper.g, b: upper.b })
    } else {
        Cell::Halves {
            upper: Rgb { r: upper.r, g: upper.g, b: upper.b },
            lower: Rgb { r: lower.r, g: lower.g, b: lower.b },
        }
    }
}

/// Renders a buffer: the cells to write, in order, each row closed by a row
/// end. A buffer without rows or without columns gives nothing.
pub fn render(buffer: &PixelBuffer, mode: RenderMode) -> (cells: Vec<Cell>)
    ensures
        cells@ == rendered(buffer@, mode),
        buffer@.width == 0 || buffer@.height == 0 ==> cells@.len() == 0,
{
    proof {
        use_type_invariant(buffer);
        if buffer@.width == 0 || buffer@.height == 0 {
            lemma_empty_renders_nothing(buffer@, mode);
        }
    }
    let width: u32 = buffer.width();
    let rows: u32 = if width == 0 {
        0
    } else {
        match mode {
            RenderMode::Full => buffer.height(),
            RenderMode::HalfPixel => buffer.height() / 2,
        }
    };
    let mut cells: Vec<Cell> = Vec::new();
    let mut row: u32 = 0;
    while row < rows
        invariant
            row <= rows,
            buffer@.wf(),
            rows == cell_rows(buffer@, mode),
            width == buffer@.width,
            cells@ == rows_ops(buffer@, mode, row as nat),
        decreases rows - row,
    {
        let ghost done = cells@;
        let mut x: u32 = 0;
        assert(cells@ =~= done + row_cells(buffer@, mode, row as int, 0));
        while x < width
            invariant
                x <= width,
                row < rows,
                buffer@.wf(),
                rows == cell_rows(buffer@, mode),
                width == buffer@.width,
                cells@ == done + row_cells(buffer@, mode, row as int, x as nat),
            decreases width - x,
        {
            let cell = match mode {
                RenderMode::Full => full_cell_of(buffer.get_pixel(x, row)),
                RenderMode::HalfPixel => half_cell_of(
                    buffer.get_pixel(x, 2 * row),
                    buffer.get_pixel(x, 2 * row + 1),
                ),
            };
            cells.push(cell);
            x += 1;
            assert(cells@ =~= done + row_cells(buffer@, mode, row as int, x as nat));
        }
        cells.push(Cell::RowEnd);
        row += 1;
        assert(cells@ =~= done + row_ops(buffer@, mode, row - 1));
    }
    cells
}

/// Renders a buffer straight to the bytes that draw it. A buffer without
/// rows or without columns gives no byte.
pub fn render_bytes(buffer: &PixelBuffer, mode: RenderMode) -> (out: Vec<u8>)
    ensures
        out@ == rendered_bytes(buffer@, mode),
        buffer@.width == 0 || buffer@.height == 0 ==> out@.len() == 0,
{
    proof {
        if buffer@.width == 0 || buffer@.height == 0 {
            lemma_empty_renders_nothing(buffer@, mode);
        }
    }
    let cells = render(buffer, mode);
    encode(cells.as_slice())
}

} // verus!
