use paxcii::grid::PixelGrid;
use paxcii::img::{char_set_index, encode, render, truecolor, AsciiImage};
use paxcii::settings::PaxciiSettings;
use paxcii::PaxciiError;

fn plain(ramp: Vec<char>) -> PaxciiSettings {
    PaxciiSettings { color: false, char_set: ramp, width: 2, height: 1, keep_aspect_ratio: true }
}

fn colored(ramp: Vec<char>) -> PaxciiSettings {
    PaxciiSettings { color: true, char_set: ramp, width: 2, height: 1, keep_aspect_ratio: true }
}

fn solid_grid(width: u32, height: u32, rgb: [u8; 3]) -> PixelGrid {
    let mut bytes = Vec::new();
    for _ in 0..(width * height) {
        bytes.extend_from_slice(&rgb);
    }
    PixelGrid::from_raw(width, height, bytes).unwrap()
}

fn occurrences(text: &str, part: &str) -> usize {
    let mut n = 0;
    let mut at = 0;
    while let Some(found) = text[at..].find(part) {
        n += 1;
        at += found + 1;
    }
    n
}

#[test]
fn black_pixel_renders_as_space_pair_and_last_column_is_dropped() {
    let settings = plain(vec![' ', '#']);
    let grid = PixelGrid::from_raw(2, 1, vec![0, 0, 0, 255, 255, 255]).unwrap();
    assert_eq!(render(&grid, &settings), "  \n\x1b[0m");
}

#[test]
fn white_pixel_renders_as_the_last_glyph() {
    let settings = plain(vec![' ', '#']);
    let grid = PixelGrid::from_raw(2, 1, vec![255, 255, 255, 0, 0, 0]).unwrap();
    assert_eq!(render(&grid, &settings), "##\n\x1b[0m");
}

#[test]
fn colored_cell_carries_the_pixels_own_channels() {
    let settings = colored(vec![' ', '#']);
    let grid = PixelGrid::from_raw(2, 1, vec![255, 0, 7, 1, 2, 3]).unwrap();
    // 0.267 * 255 + 0.091 * 7 = 68.722 of 255: nearer to the dark end.
    assert_eq!(render(&grid, &settings), "\x1b[38;2;255;0;7m  \n\x1b[0m");
}

#[test]
fn truecolor_writes_escape_and_glyph_pair() {
    assert_eq!(truecolor([255, 0, 7], '#'), "\x1b[38;2;255;0;7m##");
    assert_eq!(truecolor([0, 10, 100], '\u{25cd}'), "\x1b[38;2;0;10;100m\u{25cd}\u{25cd}");
}

#[test]
fn encode_is_the_same_for_the_same_pixel_and_settings() {
    let settings = colored(vec!['.', '*', 'e', 's', '\u{25cd}']);
    let first = encode([12, 200, 99], &settings);
    let second = encode([12, 200, 99], &settings);
    assert_eq!(first, second);
    assert_eq!(first, "\x1b[38;2;12;200;99mee");
    let mono = plain(vec!['.', '*', 'e', 's', '\u{25cd}']);
    assert_eq!(encode([12, 200, 99], &mono), "ee");
    assert_eq!(encode([12, 200, 99], &mono), encode([12, 200, 99], &mono));
}

#[test]
fn color_weights_pick_the_glyph() {
    // 0.267, 0.642 and 0.091 of a ramp with five glyphs.
    assert_eq!(char_set_index(true, [255, 0, 0], 5), 1);
    assert_eq!(char_set_index(true, [0, 255, 0], 5), 3);
    assert_eq!(char_set_index(true, [0, 0, 255], 5), 0);
    assert_eq!(char_set_index(true, [255, 255, 255], 5), 4);
    assert_eq!(char_set_index(true, [0, 0, 0], 5), 0);
}

#[test]
fn luma_weights_pick_the_glyph() {
    // 0.2126, 0.7152 and 0.0722 of a ramp with five glyphs.
    assert_eq!(char_set_index(false, [255, 0, 0], 5), 1);
    assert_eq!(char_set_index(false, [0, 255, 0], 5), 3);
    assert_eq!(char_set_index(false, [0, 0, 255], 5), 0);
    assert_eq!(char_set_index(false, [255, 255, 255], 5), 4);
    assert_eq!(char_set_index(false, [127, 127, 127], 2), 0);
    assert_eq!(char_set_index(false, [128, 128, 128], 2), 1);
}

#[test]
fn the_two_weightings_differ() {
    // Blue weighs 0.091 with color and 0.0722 without: of eleven glyphs,
    // 0.91 rounds to the second and 0.722 to the second as well, but of
    // forty, 3.549 and 2.8158 part.
    assert_eq!(char_set_index(true, [0, 0, 255], 40), 4);
    assert_eq!(char_set_index(false, [0, 0, 255], 40), 3);
}

#[test]
fn brightness_exactly_between_two_glyphs_takes_the_lighter() {
    // 0.267 * 88 + 0.642 * 162 = 127.5, half of 255.
    assert_eq!(char_set_index(true, [88, 162, 0], 2), 1);
    assert_eq!(char_set_index(true, [106, 129, 180], 2), 1);
    // One step darker falls to the dark glyph.
    assert_eq!(char_set_index(true, [87, 162, 0], 2), 0);
}

#[test]
fn a_ramp_of_one_glyph_draws_everything_with_it() {
    assert_eq!(char_set_index(true, [255, 255, 255], 1), 0);
    assert_eq!(char_set_index(false, [0, 0, 0], 1), 0);
    let settings = plain(vec!['x']);
    let grid = solid_grid(3, 1, [200, 200, 200]);
    assert_eq!(render(&grid, &settings), "xxxx\n\x1b[0m");
}

#[test]
fn frame_has_one_row_for_each_row_of_the_grid() {
    let settings = plain(vec![' ', '.', '#']);
    let grid = solid_grid(4, 3, [255, 255, 255]);
    let frame = render(&grid, &settings);
    assert_eq!(frame, "######\n######\n######\n\x1b[0m");
    assert_eq!(frame.matches('\n').count(), 3);
    let colored_frame = render(&grid, &colored(vec![' ', '.', '#']));
    assert_eq!(colored_frame.matches('\n').count(), 3);
}

#[test]
fn reset_appears_once_and_at_the_end() {
    let grid = PixelGrid::from_raw(3, 2, vec![
        0, 0, 0, 255, 255, 255, 9, 9, 9,
        255, 255, 255, 0, 0, 0, 9, 9, 9,
    ]).unwrap();
    for settings in [plain(vec![' ', '#']), colored(vec![' ', '#'])] {
        let frame = render(&grid, &settings);
        assert!(frame.ends_with("\x1b[0m"));
        assert!(!frame.ends_with("\n"));
        assert_eq!(occurrences(&frame, "\x1b[0m"), 1);
    }
}

#[test]
fn reset_appears_once_even_with_a_ramp_made_of_its_characters() {
    let grid = PixelGrid::from_raw(5, 1, vec![
        0, 0, 0, 80, 80, 80, 170, 170, 170, 255, 255, 255, 0, 0, 0,
    ]).unwrap();
    let settings = plain(vec!['\x1b', '[', '0', 'm']);
    let frame = render(&grid, &settings);
    assert_eq!(frame, "\x1b\x1b[[00mm\n\x1b[0m");
    assert_eq!(occurrences(&frame, "\x1b[0m"), 1);
}

#[test]
fn last_column_does_not_change_the_frame() {
    let settings = colored(vec![' ', '.', '#']);
    let a = PixelGrid::from_raw(3, 2, vec![
        1, 2, 3, 4, 5, 6, 0, 0, 0,
        7, 8, 9, 10, 11, 12, 0, 0, 0,
    ]).unwrap();
    let b = PixelGrid::from_raw(3, 2, vec![
        1, 2, 3, 4, 5, 6, 255, 255, 255,
        7, 8, 9, 10, 11, 12, 100, 50, 25,
    ]).unwrap();
    assert_eq!(render(&a, &settings), render(&b, &settings));
}

#[test]
fn each_row_draws_all_pixels_but_the_last() {
    let settings = plain(vec!['a', 'b']);
    let grid = PixelGrid::from_raw(3, 2, vec![
        0, 0, 0, 255, 255, 255, 255, 255, 255,
        255, 255, 255, 0, 0, 0, 0, 0, 0,
    ]).unwrap();
    assert_eq!(render(&grid, &settings), "aabb\nbbaa\n\x1b[0m");
}

#[test]
fn grid_of_one_column_renders_as_line_breaks() {
    let settings = plain(vec![' ', '#']);
    let grid = solid_grid(1, 3, [255, 255, 255]);
    assert_eq!(render(&grid, &settings), "\n\n\n\x1b[0m");
}

#[test]
fn grid_without_pixels_renders_as_the_reset_alone() {
    let settings = plain(vec![' ', '#']);
    let no_columns = PixelGrid::from_raw(0, 5, vec![]).unwrap();
    assert_eq!(render(&no_columns, &settings), "\x1b[0m");
    let no_rows = PixelGrid::from_raw(5, 0, vec![]).unwrap();
    assert_eq!(render(&no_rows, &settings), "\x1b[0m");
}

#[test]
fn from_raw_wants_enough_bytes_and_drops_the_rest() {
    assert!(PixelGrid::from_raw(2, 2, vec![0; 11]).is_none());
    let exact = PixelGrid::from_raw(2, 2, vec![7; 12]).unwrap();
    assert_eq!(exact.width(), 2);
    assert_eq!(exact.height(), 2);
    assert_eq!(exact.as_raw().len(), 12);
    let longer = PixelGrid::from_raw(1, 1, vec![1, 2, 3, 4, 5]).unwrap();
    assert_eq!(longer.into_raw(), vec![1, 2, 3]);
    assert!(PixelGrid::from_raw(u32::MAX, u32::MAX, vec![0; 16]).is_none());
}

#[test]
fn get_pixel_reads_row_major() {
    let grid = PixelGrid::from_raw(2, 2, vec![
        1, 2, 3, 4, 5, 6,
        7, 8, 9, 10, 11, 12,
    ]).unwrap();
    assert_eq!(grid.get_pixel(0, 0), [1, 2, 3]);
    assert_eq!(grid.get_pixel(1, 0), [4, 5, 6]);
    assert_eq!(grid.get_pixel(0, 1), [7, 8, 9]);
    assert_eq!(grid.get_pixel(1, 1), [10, 11, 12]);
}

#[test]
fn image_to_ascii_without_resize_renders_the_image_as_it_is() {
    let mut image = AsciiImage::new(plain(vec![' ', '#']));
    image.image = Some(solid_grid(3, 2, [255, 255, 255]));
    image.image_to_ascii(false);
    assert_eq!(image.ascii.as_deref(), Some("####\n####\n\x1b[0m"));
    assert!(image.image.is_some());
}

#[test]
fn image_to_ascii_without_image_changes_nothing() {
    let mut image = AsciiImage::new(plain(vec![' ', '#']));
    image.image_to_ascii(true);
    assert!(image.ascii.is_none());
    assert!(image.image.is_none());
}

#[test]
fn image_to_ascii_stretches_to_the_settings_size() {
    let mut settings = plain(vec![' ', '#']);
    settings.width = 2;
    settings.height = 2;
    settings.keep_aspect_ratio = false;
    let mut image = AsciiImage::new(settings);
    image.image = Some(solid_grid(8, 4, [255, 255, 255]));
    image.image_to_ascii(true);
    assert_eq!(image.ascii.as_deref(), Some("##\n##\n\x1b[0m"));
}

#[test]
fn image_to_ascii_fits_into_the_settings_size() {
    let mut settings = plain(vec![' ', '#']);
    settings.width = 2;
    settings.height = 2;
    settings.keep_aspect_ratio = true;
    let mut image = AsciiImage::new(settings);
    image.image = Some(solid_grid(8, 4, [255, 255, 255]));
    image.image_to_ascii(true);
    assert_eq!(image.ascii.as_deref(), Some("##\n\x1b[0m"));
}

#[test]
fn image_of_the_settings_size_is_rendered_unchanged() {
    let bytes = vec![0, 0, 0, 255, 255, 255, 0, 0, 0, 255, 255, 255, 0, 0, 0, 255, 255, 255];
    for keep in [true, false] {
        let mut settings = plain(vec![' ', '#']);
        settings.width = 3;
        settings.height = 2;
        settings.keep_aspect_ratio = keep;
        let mut image = AsciiImage::new(settings);
        image.image = Some(PixelGrid::from_raw(3, 2, bytes.clone()).unwrap());
        image.image_to_ascii(true);
        assert_eq!(image.ascii.as_deref(), Some("  ##\n##  \n\x1b[0m"));
    }
}

#[test]
fn open_resizes_and_renders() {
    let mut settings = plain(vec![' ', '#']);
    settings.width = 3;
    settings.height = 3;
    settings.keep_aspect_ratio = false;
    let image = AsciiImage::open(solid_grid(6, 2, [255, 255, 255]), settings.clone());
    assert_eq!(image.ascii.as_deref(), Some("####\n####\n####\n\x1b[0m"));
    assert_eq!(image.settings, settings);
    assert_eq!(image.image, Some(solid_grid(6, 2, [255, 255, 255])));
    settings.keep_aspect_ratio = true;
    let image = AsciiImage::open(solid_grid(6, 2, [0, 0, 0]), settings);
    assert_eq!(image.ascii.as_deref(), Some("    \n\x1b[0m"));
}

#[test]
fn fitted_image_lies_within_the_settings_size() {
    let sources = [(1u32, 1u32), (2, 9), (9, 2), (16, 9), (7, 7), (40, 3)];
    let bounds = [(1u32, 1u32), (5, 5), (3, 8), (8, 3), (20, 20)];
    for (sw, sh) in sources {
        for (bw, bh) in bounds {
            let mut settings = plain(vec!['#']);
            settings.width = bw;
            settings.height = bh;
            let image = AsciiImage::open(solid_grid(sw, sh, [9, 9, 9]), settings);
            let text = image.ascii.unwrap();
            let rows: Vec<&str> = text.strip_suffix("\x1b[0m").unwrap().split_terminator('\n').collect();
            let height = rows.len() as u32;
            let width = rows[0].len() as u32 / 2 + 1;
            assert!(rows.iter().all(|row| row.len() == rows[0].len()));
            assert!(1 <= width && width <= bw, "{sw}x{sh} in {bw}x{bh} gave {width}x{height}");
            assert!(1 <= height && height <= bh, "{sw}x{sh} in {bw}x{bh} gave {width}x{height}");
            assert_eq!((width, height), paxcii::keep_aspect_ratio((sw, sh), (bw, bh)));
        }
    }
}

#[test]
fn the_longest_axis_is_resized() {
    let source = solid_grid(2_097_152, 1, [255, 255, 255]);
    assert!(source.resizable(4_194_304, 1));
    let mut settings = plain(vec![' ', '#']);
    settings.width = 4_194_304;
    settings.height = 1;
    settings.keep_aspect_ratio = false;
    let image = AsciiImage::open(source, settings);
    let text = image.ascii.unwrap();
    assert_eq!(text.len(), 2 * 4_194_303 + 1 + 4);
    let cells = text.strip_suffix("\n\x1b[0m").unwrap();
    assert!(cells.bytes().all(|c| c == b'#'));

    let wide = solid_grid(4_194_304, 1, [255, 255, 255]);
    let mut settings = plain(vec![' ', '#']);
    settings.width = 2_097_152;
    settings.height = 1;
    settings.keep_aspect_ratio = false;
    let image = AsciiImage::open(wide, settings);
    let text = image.ascii.unwrap();
    assert_eq!(text.len(), 2 * 2_097_151 + 1 + 4);
    assert!(text.strip_suffix("\n\x1b[0m").unwrap().bytes().all(|c| c == b'#'));
}

#[test]
fn a_too_long_axis_is_not_resizable() {
    let tall = solid_grid(1, 4_194_305, [0, 0, 0]);
    assert!(!tall.resizable(1, 1));
    let wide = solid_grid(4_194_305, 1, [0, 0, 0]);
    assert!(!wide.resizable(1, 1));
}

#[test]
fn resizable_tells_what_can_be_resized() {
    let grid = solid_grid(4, 4, [1, 2, 3]);
    assert!(grid.resizable(2, 2));
    assert!(grid.resizable(100, 100));
    assert!(!grid.resizable(0, 2));
    assert!(!grid.resizable(2, 0));
    assert!(!grid.resizable(u32::MAX, u32::MAX));
    assert!(grid.resizable(4_194_304, 1));
    assert!(grid.resizable(1, 4_194_304));
    assert!(!grid.resizable(4_194_305, 1));
    assert!(!grid.resizable(1, 4_194_305));
    assert!(!grid.resizable(67_108_864, 1));
    let empty = PixelGrid::from_raw(0, 0, vec![]).unwrap();
    assert!(!empty.resizable(2, 2));
}

#[test]
fn print_and_write_hand_out_the_text() {
    let mut image = AsciiImage::new(plain(vec![' ', '#']));
    assert_eq!(image.print(), None);
    assert_eq!(
        image.write(),
        Err(PaxciiError::NotReady { missing: paxcii::error::Missing::Ascii })
    );
    image.image = Some(solid_grid(2, 1, [0, 0, 0]));
    image.image_to_ascii(false);
    assert_eq!(image.print(), Some("  \n\x1b[0m\n".to_string()));
    assert_eq!(image.write(), Ok("  \n\x1b[0m".to_string()));
}

#[test]
fn default_settings_and_presets() {
    let mut settings = PaxciiSettings::default();
    assert!(settings.color);
    assert!(settings.keep_aspect_ratio);
    assert_eq!((settings.width, settings.height), (30, 30));
    assert_eq!(settings.char_set, vec!['.', '*', 'e', 's', '◍']);
    assert!(settings.is_valid());
    settings.chars_light();
    assert_eq!(settings.char_set, vec![' ', ' ', '.', ':', '!', '+', '*', 'e', '$', '@', '8']);
    settings.chars_filled();
    assert_eq!(settings.char_set, vec!['░', '▒', '▓', '█']);
    settings.chars_medium();
    assert_eq!(settings.char_set, vec!['.', '*', 'e', 's', '◍']);
    assert_eq!(settings.char_set, paxcii::settings::CHARS_MEDIUM.to_vec());
    assert_eq!((settings.width, settings.height), (30, 30));
    settings.char_set = vec![];
    assert!(!settings.is_valid());
    settings.char_set = vec!['x'];
    settings.width = 0;
    assert!(!settings.is_valid());
}
