use adplay::ansi::{encode, Cell, Rgb};
use adplay::graphics::{print_image, print_image_hpm};
use adplay::pixel::{PixelBuffer, Rgba};
use adplay::render::{render, render_bytes, RenderMode};

fn buffer(width: u32, height: u32, pixels: &[[u8; 4]]) -> PixelBuffer {
    let mut data = Vec::new();
    for p in pixels {
        data.extend_from_slice(p);
    }
    PixelBuffer::from_raw(width, height, data).expect("four bytes for each pixel")
}

fn solid(r: u8, g: u8, b: u8) -> String {
    format!("\x1b[48;2;{r};{g};{b}m\x1b[38;2;{r};{g};{b}mX")
}

fn count(cells: &[Cell], wanted: fn(&Cell) -> bool) -> usize {
    cells.iter().filter(|c| wanted(c)).count()
}

fn is_colored(cell: &Cell) -> bool {
    !matches!(cell, Cell::Blank | Cell::RowEnd)
}

fn is_blank(cell: &Cell) -> bool {
    matches!(cell, Cell::Blank)
}

fn is_row_end(cell: &Cell) -> bool {
    matches!(cell, Cell::RowEnd)
}

#[test]
fn full_mode_two_by_two_opaque() {
    let image = buffer(
        2,
        2,
        &[[255, 0, 0, 255], [0, 255, 0, 255], [0, 0, 255, 255], [255, 255, 0, 255]],
    );
    let cells = render(&image, RenderMode::Full);
    assert_eq!(
        cells,
        vec![
            Cell::Solid(Rgb { r: 255, g: 0, b: 0 }),
            Cell::Solid(Rgb { r: 0, g: 255, b: 0 }),
            Cell::RowEnd,
            Cell::Solid(Rgb { r: 0, g: 0, b: 255 }),
            Cell::Solid(Rgb { r: 255, g: 255, b: 0 }),
            Cell::RowEnd,
        ]
    );
    let expected = format!(
        "{}{}\x1b[0m\n{}{}\x1b[0m\n",
        solid(255, 0, 0),
        solid(0, 255, 0),
        solid(0, 0, 255),
        solid(255, 255, 0)
    );
    assert_eq!(print_image(image), expected.into_bytes());
}

#[test]
fn half_pixel_top_row_transparent() {
    let image = buffer(
        2,
        2,
        &[[9, 9, 9, 0], [8, 8, 8, 0], [10, 20, 30, 255], [40, 50, 60, 1]],
    );
    let cells = render(&image, RenderMode::HalfPixel);
    assert_eq!(
        cells,
        vec![
            Cell::LowerHalf(Rgb { r: 10, g: 20, b: 30 }),
            Cell::LowerHalf(Rgb { r: 40, g: 50, b: 60 }),
            Cell::RowEnd,
        ]
    );
    let expected = "\x1b[38;2;10;20;30m\u{2584}\x1b[38;2;40;50;60m\u{2584}\x1b[0m\n";
    assert_eq!(print_image_hpm(image), expected.as_bytes().to_vec());
}

#[test]
fn half_pixel_every_case_of_a_pair() {
    // Columns: both transparent, upper transparent, lower transparent, both opaque.
    let image = buffer(
        4,
        2,
        &[
            [1, 2, 3, 0],
            [4, 5, 6, 0],
            [7, 8, 9, 255],
            [10, 11, 12, 255],
            [13, 14, 15, 0],
            [16, 17, 18, 255],
            [19, 20, 21, 0],
            [22, 23, 24, 255],
        ],
    );
    let cells = render(&image, RenderMode::HalfPixel);
    assert_eq!(
        cells,
        vec![
            Cell::Blank,
            Cell::LowerHalf(Rgb { r: 16, g: 17, b: 18 }),
            Cell::UpperHalf(Rgb { r: 7, g: 8, b: 9 }),
            Cell::Halves {
                upper: Rgb { r: 10, g: 11, b: 12 },
                lower: Rgb { r: 22, g: 23, b: 24 },
            },
            Cell::RowEnd,
        ]
    );
    let expected = "\x1b[0m \
                    \x1b[38;2;16;17;18m\u{2584}\
                    \x1b[38;2;7;8;9m\u{2580}\
                    \x1b[38;2;10;11;12m\x1b[48;2;22;23;24m\u{2580}\
                    \x1b[0m\n";
    assert_eq!(print_image_hpm(image), expected.as_bytes().to_vec());
}

#[test]
fn full_mode_transparent_pixel_is_blank() {
    let image = buffer(2, 1, &[[200, 100, 0, 0], [0, 100, 200, 7]]);
    let expected = format!("\x1b[0m {}\x1b[0m\n", solid(0, 100, 200));
    assert_eq!(print_image(image), expected.into_bytes());
}

#[test]
fn opaque_buffer_in_full_mode_counts() {
    let pixels: Vec<[u8; 4]> = (0..15u8).map(|i| [i, 2 * i, 3 * i, 255 - i]).collect();
    let image = buffer(5, 3, &pixels);
    let cells = render(&image, RenderMode::Full);
    assert_eq!(count(&cells, is_colored), 15);
    assert_eq!(count(&cells, is_row_end), 3);
    assert_eq!(count(&cells, is_blank), 0);
    assert_eq!(cells.len(), 18);
}

#[test]
fn transparent_buffer_gives_blanks_and_row_ends_only() {
    let pixels: Vec<[u8; 4]> = (0..12u8).map(|i| [i, 255 - i, 7, 0]).collect();
    for mode in [RenderMode::Full, RenderMode::HalfPixel] {
        let image = buffer(3, 4, &pixels);
        let cells = render(&image, mode);
        let rows = if mode == RenderMode::Full { 4 } else { 2 };
        assert_eq!(count(&cells, is_colored), 0);
        assert_eq!(count(&cells, is_blank), 3 * rows);
        assert_eq!(count(&cells, is_row_end), rows);
        let bytes = encode(&cells);
        let expected = "\x1b[0m \x1b[0m \x1b[0m \x1b[0m\n".repeat(rows);
        assert_eq!(bytes, expected.into_bytes());
        assert!(!bytes.contains(&b';'));
    }
}

#[test]
fn half_pixel_drops_the_last_row_of_an_odd_height() {
    let pixels: Vec<[u8; 4]> = (0..10u8).map(|i| [i, i + 50, i + 100, 255]).collect();
    let odd = buffer(2, 5, &pixels);
    let even = buffer(2, 4, &pixels[..8]);
    let cells = render(&odd, RenderMode::HalfPixel);
    assert_eq!(cells, render(&even, RenderMode::HalfPixel));
    assert_eq!(count(&cells, is_row_end), 2);
    assert_eq!(cells.len(), 6);
}

#[test]
fn half_pixel_single_row_gives_nothing() {
    let image = buffer(3, 1, &[[1, 1, 1, 255], [2, 2, 2, 255], [3, 3, 3, 255]]);
    assert_eq!(print_image_hpm(image), Vec::<u8>::new());
}

#[test]
fn rendering_twice_gives_the_same_bytes() {
    let pixels: Vec<[u8; 4]> = (0..6u8).map(|i| [i * 40, 255 - i * 40, i, i % 2]).collect();
    let image = buffer(3, 2, &pixels);
    for mode in [RenderMode::Full, RenderMode::HalfPixel] {
        let first = render_bytes(&image, mode);
        let second = render_bytes(&image, mode);
        assert_eq!(first, second);
    }
}

#[test]
fn buffer_without_rows_renders_as_nothing() {
    for width in [0u32, 3] {
        for mode in [RenderMode::Full, RenderMode::HalfPixel] {
            let image = buffer(width, 0, &[]);
            assert_eq!(render(&image, mode), Vec::<Cell>::new());
            assert_eq!(render_bytes(&image, mode), Vec::<u8>::new());
        }
        assert_eq!(print_image(buffer(width, 0, &[])), Vec::<u8>::new());
        assert_eq!(print_image_hpm(buffer(width, 0, &[])), Vec::<u8>::new());
    }
}

#[test]
fn buffer_without_columns_renders_as_nothing() {
    for height in [1u32, 2, 3, 8] {
        for mode in [RenderMode::Full, RenderMode::HalfPixel] {
            let image = buffer(0, height, &[]);
            assert_eq!(render(&image, mode), Vec::<Cell>::new());
            assert_eq!(render_bytes(&image, mode), Vec::<u8>::new());
        }
        assert_eq!(print_image(buffer(0, height, &[])), Vec::<u8>::new());
        assert_eq!(print_image_hpm(buffer(0, height, &[])), Vec::<u8>::new());
    }
}

#[test]
fn one_column_still_gives_a_row_end_for_each_row() {
    let image = buffer(1, 2, &[[1, 2, 3, 0], [4, 5, 6, 0]]);
    assert_eq!(
        render(&image, RenderMode::Full),
        vec![Cell::Blank, Cell::RowEnd, Cell::Blank, Cell::RowEnd]
    );
    assert_eq!(render(&image, RenderMode::HalfPixel), vec![Cell::Blank, Cell::RowEnd]);
}

#[test]
fn colour_numbers_are_written_in_decimal() {
    let image = buffer(1, 1, &[[0, 9, 100, 255]]);
    assert_eq!(
        print_image(image),
        b"\x1b[48;2;0;9;100m\x1b[38;2;0;9;100mX\x1b[0m\n".to_vec()
    );
}

#[test]
fn from_raw_wants_four_bytes_for_each_pixel() {
    assert!(PixelBuffer::from_raw(2, 2, vec![0; 16]).is_some());
    assert!(PixelBuffer::from_raw(2, 2, vec![0; 15]).is_none());
    assert!(PixelBuffer::from_raw(2, 2, vec![0; 17]).is_none());
    assert!(PixelBuffer::from_raw(0, 5, vec![]).is_some());
    assert!(PixelBuffer::from_raw(u32::MAX, u32::MAX, vec![0; 4]).is_none());
}

#[test]
fn get_pixel_reads_row_by_row() {
    let pixels: Vec<[u8; 4]> = (0..6u8).map(|i| [i, i + 10, i + 20, i + 30]).collect();
    let image = buffer(3, 2, &pixels);
    assert_eq!(image.width(), 3);
    assert_eq!(image.height(), 2);
    assert_eq!(image.get_pixel(0, 0), Rgba { r: 0, g: 10, b: 20, a: 30 });
    assert_eq!(image.get_pixel(2, 0), Rgba { r: 2, g: 12, b: 22, a: 32 });
    assert_eq!(image.get_pixel(1, 1), Rgba { r: 4, g: 14, b: 24, a: 34 });
    assert_eq!(image.as_raw().len(), 24);
}
