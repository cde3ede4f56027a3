//! Terminal cells and the escape sequences that draw them.
//!
//! Colours are set with the 24-bit forms `ESC [ 38 ; 2 ; r ; g ; b m`
//! (foreground) and `ESC [ 48 ; 2 ; r ; g ; b m` (background), and taken back
//! with `ESC [ 0 m`.

use vstd::prelude::*;
use crate::text::{decimal, is_digit, lemma_decimal_is_digits, push_decimal};

verus! {

/// The escape character that begins every control sequence.
pub const ESC: u8 = 0x1b;

/// A colour without transparency.
#[derive(Clone, Copy, Debug, PartialEq, Eq, Structural)]
pub struct Rgb {
    pub r: u8,
    pub g: u8,
    pub b: u8,
}

/// One write to the terminal: a character cell, or the end of a row.
#[derive(Clone, Copy, Debug, PartialEq, Eq, Structural)]
pub enum Cell {
    /// An empty cell, written after a colour reset.
    Blank,
    /// A cell filled with one colour: a glyph whose foreground and
    /// background are both that colour.
    Solid(Rgb),
    /// A glyph that fills the lower half of the cell, in the given colour.
    LowerHalf(Rgb),
    /// A glyph that fills the upper half of the cell, in the given colour.
    UpperHalf(Rgb),
    /// A glyph that fills the upper half of the cell in the colour `upper`
    /// over a background in the colour `lower`.
    Halves { upper: Rgb, lower: Rgb },
    /// The end of a row: a colour reset and a line break.
    RowEnd,
}

/// What a cell is, leaving its colours aside.
#[derive(Clone, Copy, Debug, PartialEq, Eq, Structural)]
pub enum CellKind {
    Blank,
    Colored,
    RowEnd,
}

impl Cell {
    /// The kind of the cell: every cell that sets a colour is `Colored`.
    pub open spec fn kind(self) -> CellKind {
        match self {
            Cell::Blank => CellKind::Blank,
            Cell::RowEnd => CellKind::RowEnd,
            _ => CellKind::Colored,
        }
    }
}

/// `ESC [ 0 m`: all colours back to the terminal's own.
pub open spec fn reset() -> Seq<u8> {
    seq![ESC, '[' as u8, '0' as u8, 'm' as u8]
}

/// The sequence that sets a colour: `layer` is `3` for the foreground and `4`
/// for the background.
pub open spec fn set_color(layer: u8, c: Rgb) -> Seq<u8> {
    seq![ESC, '[' as u8, layer, '8' as u8, ';' as u8, '2' as u8, ';' as u8] + decimal(
        c.r as nat,
    ) + seq![';' as u8] + decimal(c.g as nat) + seq![';' as u8] + decimal(c.b as nat)
        + seq!['m' as u8]
}

/// The sequence that sets the foreground colour.
pub open spec fn foreground(c: Rgb) -> Seq<u8> {
    set_color('3' as u8, c)
}

/// The sequence that sets the background colour.
pub open spec fn background(c: Rgb) -> Seq<u8> {
    set_color('4' as u8, c)
}

/// The upper half block, U+2580, in UTF-8.
pub open spec fn upper_block() -> Seq<u8> {
    seq![0xe2u8, 0x96, 0x80]
}

/// The lower half block, U+2584, in UTF-8.
pub open spec fn lower_block() -> Seq<u8> {
    seq![0xe2u8, 0x96, 0x84]
}

/// The bytes that draw one cell.
pub open spec fn cell_bytes(cell: Cell) -> Seq<u8> {
    match cell {
        Cell::Blank => reset().push(' ' as u8),
        Cell::Solid(c) => (background(c) + foreground(c)).push('X' as u8),
        Cell::LowerHalf(c) => foreground(c) + lower_block(),
        Cell::UpperHalf(c) => foreground(c) + upper_block(),
        Cell::Halves { upper, lower } => foreground(upper) + background(lower) + upper_block(),
        Cell::RowEnd => reset().push('\n' as u8),
    }
}

/// The bytes that draw a run of cells, one after the other.
pub open spec fn encode_cells(cells: Seq<Cell>) -> Seq<u8>
    decreases cells.len(),
{
    if cells.len() == 0 {
        Seq::empty()
    } else {
        encode_cells(cells.drop_last()) + cell_bytes(cells.last())
    }
}

/// `ESC [ ? 25 l`: hides the cursor.
pub open spec fn hide_cursor() -> Seq<u8> {
    seq![ESC, '[' as u8, '?' as u8, '2' as u8, '5' as u8, 'l' as u8]
}

/// `ESC [ ? 25 h`: shows the cursor.
pub open spec fn show_cursor() -> Seq<u8> {
    seq![ESC, '[' as u8, '?' as u8, '2' as u8, '5' as u8, 'h' as u8]
}

/// `ESC [ 2 H`: moves the cursor to where each frame begins.
pub open spec fn frame_origin() -> Seq<u8> {
    seq![ESC, '[' as u8, '2' as u8, 'H' as u8]
}

/// The number of cells of the given kind in `cells`.
pub open spec fn count_kind(cells: Seq<Cell>, kind: CellKind) -> nat
    decreases cells.len(),
{
    if cells.len() == 0 {
        0
    } else {
        count_kind(cells.drop_last(), kind) + if cells.last().kind() == kind {
            1nat
        } else {
            0nat
        }
    }
}

/// Counting over two runs of cells, one after the other, adds up.
pub proof fn lemma_count_concat(a: Seq<Cell>, b: Seq<Cell>, kind: CellKind)
    ensures
        count_kind(a + b, kind) == count_kind(a, kind) + count_kind(b, kind),
    decreases b.len(),
{
    if b.len() == 0 {
        assert(a + b =~= a);
    } else {
        assert((a + b).drop_last() =~= a + b.drop_last());
        lemma_count_concat(a, b.drop_last(), kind);
    }
}

/// In a run of cells that are all of one kind, that kind counts every cell
/// and every other kind counts none.
pub proof fn lemma_count_uniform(cells: Seq<Cell>, all: CellKind, kind: CellKind)
    requires
        forall|i: int| 0 <= i < cells.len() ==> (#[trigger] cells[i]).kind() == all,
    ensures
        count_kind(cells, kind) == if kind == all {
            cells.len()
        } else {
            0
        },
    decreases cells.len(),
{
    if cells.len() > 0 {
        lemma_count_uniform(cells.drop_last(), all, kind);
    }
}

/// A kind that no cell of a run is of counts zero.
pub proof fn lemma_count_none(cells: Seq<Cell>, kind: CellKind)
    requires
        forall|i: int| 0 <= i < cells.len() ==> (#[trigger] cells[i]).kind() != kind,
    ensures
        count_kind(cells, kind) == 0,
    decreases cells.len(),
{
    if cells.len() > 0 {
        lemma_count_none(cells.drop_last(), kind);
    }
}

/// The number of bytes equal to `b` in `s`.
pub open spec fn count_byte(s: Seq<u8>, b: u8) -> nat
    decreases s.len(),
{
    if s.len() == 0 {
        0
    } else {
        count_byte(s.drop_last(), b) + if s.last() == b {
            1nat
        } else {
            0nat
        }
    }
}

/// Counting a byte over two runs of bytes, one after the other, adds up.
pub proof fn lemma_count_byte_concat(a: Seq<u8>, b: Seq<u8>, x: u8)
    ensures
        count_byte(a + b, x) == count_byte(a, x) + count_byte(b, x),
    decreases b.len(),
{
    if b.len() == 0 {
        assert(a + b =~= a);
    } else {
        assert((a + b).drop_last() =~= a + b.drop_last());
        lemma_count_byte_concat(a, b.drop_last(), x);
    }
}

/// A byte that does not occur counts zero.
proof fn lemma_count_byte_absent(s: Seq<u8>, x: u8)
    requires
        forall|i: int| 0 <= i < s.len() ==> s[i] != x,
    ensures
        count_byte(s, x) == 0,
    decreases s.len(),
{
    if s.len() > 0 {
        lemma_count_byte_absent(s.drop_last(), x);
    }
}

/// A colour-setting sequence holds neither a space nor a line break.
proof fn lemma_set_color_is_one_word(layer: u8, c: Rgb, x: u8)
    requires
        x == ' ' as u8 || x == '\n' as u8,
        layer != x,
    ensures
        count_byte(set_color(layer, c), x) == 0,
{
    let head = seq![ESC, '[' as u8, layer, '8' as u8, ';' as u8, '2' as u8, ';' as u8];
    let sep = seq![';' as u8];
    let tail = seq!['m' as u8];
    let r = decimal(c.r as nat);
    let g = decimal(c.g as nat);
    let b = decimal(c.b as nat);
    lemma_decimal_is_digits(c.r as nat);
    lemma_decimal_is_digits(c.g as nat);
    lemma_decimal_is_digits(c.b as nat);
    assert forall|i: int| 0 <= i < r.len() implies r[i] != x by {
        assert(is_digit(r[i]));
    }
    assert forall|i: int| 0 <= i < g.len() implies g[i] != x by {
        assert(is_digit(g[i]));
    }
    assert forall|i: int| 0 <= i < b.len() implies b[i] != x by {
        assert(is_digit(b[i]));
    }
    lemma_count_byte_absent(head, x);
    lemma_count_byte_absent(sep, x);
    lemma_count_byte_absent(tail, x);
    lemma_count_byte_absent(r, x);
    lemma_count_byte_absent(g, x);
    lemma_count_byte_absent(b, x);
    lemma_count_byte_concat(head, r, x);
    lemma_count_byte_concat(head + r, sep, x);
    lemma_count_byte_concat(head + r + sep, g, x);
    lemma_count_byte_concat(head + r + sep + g, sep, x);
    lemma_count_byte_concat(head + r + sep + g + sep, b, x);
    lemma_count_byte_concat(head + r + sep + g + sep + b, tail, x);
}

/// One cell is written with one space if it is blank and none otherwise,
/// and with one line break if it is a row end and none otherwise.
proof fn lemma_cell_bytes_counts(cell: Cell)
    ensures
        count_byte(cell_bytes(cell), ' ' as u8) == if cell is Blank {
            1nat
        } else {
            0nat
        },
        count_byte(cell_bytes(cell), '\n' as u8) == if cell is RowEnd {
            1nat
        } else {
            0nat
        },
{
    let space = ' ' as u8;
    let line_break = '\n' as u8;
    lemma_count_byte_absent(reset(), space);
    lemma_count_byte_absent(reset(), line_break);
    lemma_count_byte_absent(upper_block(), space);
    lemma_count_byte_absent(upper_block(), line_break);
    lemma_count_byte_absent(lower_block(), space);
    lemma_count_byte_absent(lower_block(), line_break);
    match cell {
        Cell::Blank => {
            assert(cell_bytes(cell).drop_last() =~= reset());
        },
        Cell::RowEnd => {
            assert(cell_bytes(cell).drop_last() =~= reset());
        },
        Cell::Solid(c) => {
            lemma_set_color_is_one_word('4' as u8, c, space);
            lemma_set_color_is_one_word('4' as u8, c, line_break);
            lemma_set_color_is_one_word('3' as u8, c, space);
            lemma_set_color_is_one_word('3' as u8, c, line_break);
            lemma_count_byte_concat(background(c), foreground(c), space);
            lemma_count_byte_concat(background(c), foreground(c), line_break);
            assert(cell_bytes(cell).drop_last() =~= background(c) + foreground(c));
        },
        Cell::LowerHalf(c) => {
            lemma_set_color_is_one_word('3' as u8, c, space);
            lemma_set_color_is_one_word('3' as u8, c, line_break);
            lemma_count_byte_concat(foreground(c), lower_block(), space);
            lemma_count_byte_concat(foreground(c), lower_block(), line_break);
        },
        Cell::UpperHalf(c) => {
            lemma_set_color_is_one_word('3' as u8, c, space);
            lemma_set_color_is_one_word('3' as u8, c, line_break);
            lemma_count_byte_concat(foreground(c), upper_block(), space);
            lemma_count_byte_concat(foreground(c), upper_block(), line_break);
        },
        Cell::Halves { upper, lower } => {
            lemma_set_color_is_one_word('3' as u8, upper, space);
            lemma_set_color_is_one_word('3' as u8, upper, line_break);
            lemma_set_color_is_one_word('4' as u8, lower, space);
            lemma_set_color_is_one_word('4' as u8, lower, line_break);
            lemma_count_byte_concat(foreground(upper), background(lower), space);
            lemma_count_byte_concat(foreground(upper), background(lower), line_break);
            lemma_count_byte_concat(foreground(upper) + background(lower), upper_block(), space);
            lemma_count_byte_concat(
                foreground(upper) + background(lower),
                upper_block(),
                line_break,
            );
        },
    }
}

/// The bytes that draw a run of cells hold one line break for each row end
/// and one space for each blank cell, and no other: a coloured cell is
/// written without either.
pub proof fn lemma_breaks_and_blanks(cells: Seq<Cell>)
    ensures
        count_byte(encode_cells(cells), '\n' as u8) == count_kind(cells, CellKind::RowEnd),
        count_byte(encode_cells(cells), ' ' as u8) == count_kind(cells, CellKind::Blank),
    decreases cells.len(),
{
    if cells.len() > 0 {
        lemma_breaks_and_blanks(cells.drop_last());
        lemma_cell_bytes_counts(cells.last());
        lemma_count_byte_concat(
            encode_cells(cells.drop_last()),
            cell_bytes(cells.last()),
            '\n' as u8,
        );
        lemma_count_byte_concat(encode_cells(cells.drop_last()), cell_bytes(cells.last()), ' ' as u8);
    }
}

/// Appends `ESC [ 0 m` to `out`.
fn push_reset(out: &mut Vec<u8>)
    ensures
        final(out)@ == old(out)@ + reset(),
{
    out.push(ESC);
    out.push('[' as u8);
    out.push('0' as u8);
    out.push('m' as u8);
    assert(out@ =~= old(out)@ + reset());
}

/// Appends the sequence that sets the colour `c` on `layer` to `out`.
fn push_color(out: &mut Vec<u8>, layer: u8, c: Rgb)
    ensures
        final(out)@ == old(out)@ + set_color(layer, c),
{
    out.push(ESC);
    out.push('[' as u8);
    out.push(layer);
    out.push('8' as u8);
    out.push(';' as u8);
    out.push('2' as u8);
    out.push(';' as u8);
    push_decimal(out, c.r as u64);
    out.push(';' as u8);
    push_decimal(out, c.g as u64);
    out.push(';' as u8);
    push_decimal(out, c.b as u64);
    out.push('m' as u8);
    assert(out@ =~= old(out)@ + set_color(layer, c));
}

/// Appends a half block to `out`: the upper one, or the lower one.
fn push_block(out: &mut Vec<u8>, upper: bool)
    ensures
        final(out)@ == old(out)@ + if upper {
            upper_block()
        } else {
            lower_block()
        },
{
    out.push(0xe2);
    out.push(0x96);
    if upper {
        out.push(0x80);
        assert(out@ =~= old(out)@ + upper_block());
    } else {
        out.push(0x84);
        assert(out@ =~= old(out)@ + lower_block());
    }
}

/// Appends the bytes that draw `cell` to `out`.
pub fn push_cell(out: &mut Vec<u8>, cell: Cell)
    ensures
        final(out)@ == old(out)@ + cell_bytes(cell),
{
    match cell {
        Cell::Blank => {
            push_reset(out);
            out.push(' ' as u8);
        },
        Cell::Solid(c) => {
            push_color(out, '4' as u8, c);
            push_color(out, '3' as u8, c);
            out.push('X' as u8);
        },
        Cell::LowerHalf(c) => {
            push_color(out, '3' as u8, c);
            push_block(out, false);
        },
        Cell::UpperHalf(c) => {
            push_color(out, '3' as u8, c);
            push_block(out, true);
        },
        Cell::Halves { upper, lower } => {
            push_color(out, '3' as u8, upper);
            push_color(out, '4' as u8, lower);
            push_block(out, true);
        },
        Cell::RowEnd => {
            push_reset(out);
            out.push('\n' as u8);
        },
    }
    assert(out@ =~= old(out)@ + cell_bytes(cell));
}

/// The bytes that draw `cells`, one after the other.
pub fn encode(cells: &[Cell]) -> (out: Vec<u8>)
    ensures
        out@ == encode_cells(cells@),
{
    let mut out: Vec<u8> = Vec::new();
    let mut i: usize = 0;
    assert(cells@.take(0) =~= Seq::<Cell>::empty());
    while i < cells.len()
        invariant
            i <= cells@.len(),
            out@ == encode_cells(cells@.take(i as int)),
        decreases cells@.len() - i,
    {
        proof {
            assert(cells@.take(i + 1).drop_last() =~= cells@.take(i as int));
            assert(cells@.take(i + 1).last() == cells@[i as int]);
        }
        push_cell(&mut out, cells[i]);
        i += 1;
    }
    assert(cells@.take(cells@.len() as int) =~= cells@);
    out
}

/// The bytes that hide the cursor.
pub fn hide_cursor_bytes() -> (out: Vec<u8>)
    ensures
        out@ == hide_cursor(),
{
    let mut out: Vec<u8> = Vec::new();
    out.push(ESC);
    out.push('[' as u8);
    out.push('?' as u8);
    out.push('2' as u8);
    out.push('5' as u8);
    out.push('l' as u8);
    assert(out@ =~= hide_cursor());
    out
}

/// The bytes that show the cursor.
pub fn show_cursor_bytes() -> (out: Vec<u8>)
    ensures
        out@ == show_cursor(),
{
    let mut out: Vec<u8> = Vec::new();
    out.push(ESC);
    out.push('[' as u8);
    out.push('?' as u8);
    out.push('2' as u8);
    out.push('5' as u8);
    out.push('h' as u8);
    assert(out@ =~= show_cursor());
    out
}

/// The bytes that move the cursor to where each frame begins.
pub fn frame_origin_bytes() -> (out: Vec<u8>)
    ensures
        out@ == frame_origin(),
{
    let mut out: Vec<u8> = Vec::new();
    out.push(ESC);
    out.push('[' as u8);
    out.push('2' as u8);
    out.push('H' as u8);
    assert(out@ =~= frame_origin());
    out
}

} // verus!
