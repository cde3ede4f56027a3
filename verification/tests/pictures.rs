use adplay::graphics::{
    buffer_from_decoded, draw_decoded, draw_scaled, load_image, print_image, print_image_hpm,
    process_image, resize_image, FrameError,
};
use adplay::pixel::{PixelBuffer, Rgba};

fn pattern(width: u32, height: u32) -> image::RgbaImage {
    image::RgbaImage::from_fn(width, height, |x, y| {
        image::Rgba([(40 * x) as u8, (50 * y) as u8, ((x + y) % 2 * 255) as u8, (x * y % 3) as u8])
    })
}

fn encoded(picture: &image::RgbaImage, format: image::ImageOutputFormat) -> Vec<u8> {
    let mut bytes = std::io::Cursor::new(Vec::new());
    picture.write_to(&mut bytes, format).expect("writing to memory");
    bytes.into_inner()
}

fn buffer_of(picture: &image::RgbaImage) -> PixelBuffer {
    PixelBuffer::from_raw(picture.width(), picture.height(), picture.as_raw().clone()).unwrap()
}

#[test]
fn load_image_decodes_a_png() {
    let picture = pattern(3, 2);
    let bytes = encoded(&picture, image::ImageOutputFormat::Png);
    assert_ne!(bytes, picture.as_raw().clone());
    let loaded = load_image("dir/picture.png", &bytes).expect("a well-formed png");
    assert_eq!(loaded.width(), 3);
    assert_eq!(loaded.height(), 2);
    assert_eq!(loaded.as_raw(), &picture.as_raw()[..]);
    assert_eq!(loaded.get_pixel(2, 1), Rgba { r: 80, g: 50, b: 255, a: 2 });
}

#[test]
fn load_image_decodes_a_bmp_as_opaque() {
    let picture = image::RgbImage::from_fn(2, 2, |x, y| image::Rgb([x as u8, y as u8, 9]));
    let mut bytes = std::io::Cursor::new(Vec::new());
    picture.write_to(&mut bytes, image::ImageOutputFormat::Bmp).unwrap();
    let loaded = load_image(".adplaytmp/tmp.bmp", bytes.get_ref()).unwrap();
    assert_eq!(loaded.width(), 2);
    assert_eq!(loaded.height(), 2);
    assert_eq!(loaded.get_pixel(1, 0), Rgba { r: 1, g: 0, b: 9, a: 255 });
    assert_eq!(loaded.get_pixel(0, 1), Rgba { r: 0, g: 1, b: 9, a: 255 });
}

#[test]
fn load_image_goes_by_the_extension() {
    let bytes = encoded(&pattern(2, 2), image::ImageOutputFormat::Png);
    assert!(load_image("picture.PNG", &bytes).is_ok());
    assert_eq!(load_image("picture.bmp", &bytes).err(), Some(FrameError::Undecodable));
    assert_eq!(load_image("picture.unknown", &bytes).err(), Some(FrameError::Undecodable));
    assert_eq!(load_image("picture", &bytes).err(), Some(FrameError::Undecodable));
}

#[test]
fn load_image_rejects_broken_contents() {
    assert_eq!(load_image("picture.png", b"").err(), Some(FrameError::Undecodable));
    assert_eq!(load_image("picture.png", b"not a png").err(), Some(FrameError::Undecodable));
    let mut bytes = encoded(&pattern(4, 4), image::ImageOutputFormat::Png);
    bytes.truncate(bytes.len() / 2);
    assert_eq!(load_image("picture.png", &bytes).err(), Some(FrameError::Undecodable));
}

#[test]
fn buffer_from_decoded_checks_the_parts() {
    let ok = buffer_from_decoded(Ok((1, 2, vec![1, 2, 3, 4, 5, 6, 7, 8]))).unwrap();
    assert_eq!(ok.width(), 1);
    assert_eq!(ok.height(), 2);
    assert_eq!(ok.get_pixel(0, 1), Rgba { r: 5, g: 6, b: 7, a: 8 });
    assert_eq!(
        buffer_from_decoded(Ok((2, 2, vec![0; 8]))).err(),
        Some(FrameError::Undecodable)
    );
    let failed = image::ImageError::IoError(std::io::Error::new(
        std::io::ErrorKind::UnexpectedEof,
        "cut short",
    ));
    assert_eq!(buffer_from_decoded(Err(failed)).err(), Some(FrameError::Undecodable));
}

#[test]
fn resize_image_agrees_with_the_image_crate() {
    let picture = pattern(5, 4);
    let source = buffer_of(&picture);
    for (w, h) in [(2u32, 2u32), (10, 8), (5, 4), (1, 7), (3, 0), (0, 3), (7, 3)] {
        let expected =
            image::imageops::resize(&picture, w, h, image::imageops::FilterType::Nearest);
        let scaled = resize_image(&source, w, h);
        assert_eq!(scaled.width(), w);
        assert_eq!(scaled.height(), h);
        assert_eq!(scaled.as_raw(), &expected.as_raw()[..], "{}x{}", w, h);
    }
}

#[test]
fn resize_image_repeats_the_nearest_pixel() {
    let source = PixelBuffer::from_raw(1, 1, vec![10, 20, 30, 40]).unwrap();
    let scaled = resize_image(&source, 3, 2);
    assert_eq!(scaled.as_raw().len(), 24);
    for y in 0..2 {
        for x in 0..3 {
            assert_eq!(scaled.get_pixel(x, y), Rgba { r: 10, g: 20, b: 30, a: 40 });
        }
    }
}

#[test]
fn resize_image_to_the_same_size_is_a_copy() {
    let picture = pattern(4, 3);
    let source = buffer_of(&picture);
    let scaled = resize_image(&source, 4, 3);
    assert_eq!(scaled.as_raw(), source.as_raw());
}

#[test]
fn resize_image_of_an_empty_picture() {
    let source = PixelBuffer::from_raw(0, 0, vec![]).unwrap();
    let scaled = resize_image(&source, 2, 1);
    assert_eq!(scaled.as_raw(), &[0u8; 8][..]);
}

#[test]
fn draw_scaled_resizes_and_renders() {
    let picture = pattern(8, 4);
    let source = buffer_of(&picture);
    let half = draw_scaled(&source, 2, true).unwrap();
    assert_eq!(half, print_image_hpm(resize_image(&source, 4, 2)));
    let full = draw_scaled(&source, 4, false).unwrap();
    assert_eq!(full, print_image(resize_image(&source, 8, 2)));
    assert_ne!(half, full);
}

#[test]
fn draw_scaled_to_no_columns_draws_nothing() {
    // One column and a hundred rows on a canvas of fifty: no column is left.
    let narrow = PixelBuffer::from_raw(1, 100, vec![255; 400]).unwrap();
    assert_eq!(draw_scaled(&narrow, 50, true), Ok(Vec::new()));
    assert_eq!(draw_scaled(&narrow, 50, false), Ok(Vec::new()));
    let empty = PixelBuffer::from_raw(0, 4, vec![]).unwrap();
    assert_eq!(draw_scaled(&empty, 10, true), Ok(Vec::new()));
}

#[test]
fn draw_scaled_rejects_what_cannot_be_scaled() {
    let flat = PixelBuffer::from_raw(3, 0, vec![]).unwrap();
    assert_eq!(draw_scaled(&flat, 10, true).err(), Some(FrameError::Unscalable));
    let wide = PixelBuffer::from_raw(2, 1, vec![0; 8]).unwrap();
    assert_eq!(draw_scaled(&wide, u32::MAX, true).err(), Some(FrameError::Unscalable));
    let dot = PixelBuffer::from_raw(1, 1, vec![0; 4]).unwrap();
    assert_eq!(draw_scaled(&dot, u32::MAX, true).err(), Some(FrameError::Unscalable));
    assert_eq!(draw_scaled(&dot, u32::MAX, false).err(), Some(FrameError::Unscalable));
    assert!(draw_scaled(&dot, 3, false).is_ok());
}

#[test]
fn draw_decoded_draws_what_the_decoder_gave() {
    let raw = vec![1, 2, 3, 255, 4, 5, 6, 0, 7, 8, 9, 255, 10, 11, 12, 255];
    let out = draw_decoded(Ok((2, 2, raw.clone())), 2, true).unwrap();
    let expected = "\x1b[38;2;1;2;3m\x1b[48;2;7;8;9m\u{2580}\x1b[38;2;10;11;12m\u{2584}\x1b[0m\n";
    assert_eq!(out, expected.as_bytes().to_vec());
    assert_eq!(draw_decoded(Ok((2, 3, raw)), 2, true).err(), Some(FrameError::Undecodable));
    assert_eq!(draw_decoded(Ok((2, 0, vec![])), 2, true).err(), Some(FrameError::Unscalable));
    let failed = image::ImageError::IoError(std::io::Error::new(
        std::io::ErrorKind::UnexpectedEof,
        "cut short",
    ));
    assert_eq!(draw_decoded(Err(failed), 2, true).err(), Some(FrameError::Undecodable));
}

#[test]
fn process_image_from_file_contents_to_terminal_bytes() {
    let picture = image::RgbaImage::from_pixel(4, 4, image::Rgba([1, 2, 3, 255]));
    let bytes = encoded(&picture, image::ImageOutputFormat::Png);
    let out = process_image("p.png", &bytes, 2, true).unwrap();
    let cell = "\x1b[38;2;1;2;3m\x1b[48;2;1;2;3m\u{2580}";
    assert_eq!(out, format!("{cell}{cell}\x1b[0m\n").into_bytes());
    let out = process_image("p.png", &bytes, 4, false).unwrap();
    let cell = "\x1b[48;2;1;2;3m\x1b[38;2;1;2;3mX";
    let row = format!("{}\x1b[0m\n", cell.repeat(4));
    assert_eq!(out, row.repeat(2).into_bytes());
}

#[test]
fn process_image_errors() {
    assert_eq!(process_image("p.png", b"junk", 10, true).err(), Some(FrameError::Undecodable));
    let bytes = encoded(&pattern(2, 1), image::ImageOutputFormat::Png);
    assert_eq!(process_image("p.txt", &bytes, 10, true).err(), Some(FrameError::Undecodable));
    assert_eq!(
        process_image("p.png", &bytes, u32::MAX, true).err(),
        Some(FrameError::Unscalable)
    );
}
