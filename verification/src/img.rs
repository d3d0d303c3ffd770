//! Turning pixels into glyph cells and a grid of pixels into one frame of text.

use vstd::prelude::*;
use crate::ansi::{color_prefix, push_color_prefix, push_reset, reset_text};
use crate::error::{Missing, PaxciiError};
use crate::frame_laws::{count_of, free_of, lemma_reset_once, lemma_row_count, reset_at};
use crate::grid::{can_resize, resized, resized_exact, GridView, PixelGrid};
use crate::settings::PaxciiSettings;
use crate::text::{decimal, push_decimal};

verus! {

/// The weighted sum of a pixel's channels, scaled by `weight_scale(color)`.
///
/// Colored output weighs the channels by 0.267, 0.642 and 0.091; plain output
/// by the luma weights 0.2126, 0.7152 and 0.0722.
pub open spec fn weighted_sum(color: bool, r: u8, g: u8, b: u8) -> int {
    if color {
        267 * r + 642 * g + 91 * b
    } else {
        2126 * r + 7152 * g + 722 * b
    }
}

/// The factor by which `weighted_sum` scales its weights, so that they are
/// whole numbers.
pub open spec fn weight_scale(color: bool) -> int {
    if color {
        1000
    } else {
        10000
    }
}

/// The weighted sum of a white pixel: the largest there is.
pub open spec fn full_scale(color: bool) -> int {
    255 * weight_scale(color)
}

/// The place in a ramp of `len` glyphs that stands for a pixel's brightness:
/// the brightness as a fraction of white, times `len - 1`, rounded to the
/// nearest whole number, halves upwards.
pub open spec fn ramp_index(color: bool, r: u8, g: u8, b: u8, len: nat) -> int {
    (2 * (weighted_sum(color, r, g, b) * (len - 1)) + full_scale(color)) / (2 * full_scale(
        color,
    ))
}

/// `ramp_index` is the whole number nearest to the scaled brightness, and it
/// lies inside the ramp.
pub proof fn lemma_ramp_index_nearest(color: bool, r: u8, g: u8, b: u8, len: nat)
    requires
        len >= 1,
    ensures
        0 <= ramp_index(color, r, g, b, len) <= len - 1,
        2 * (weighted_sum(color, r, g, b) * (len - 1)) - full_scale(color) < 2 * full_scale(color)
            * ramp_index(color, r, g, b, len) <= 2 * (weighted_sum(color, r, g, b) * (len - 1))
            + full_scale(color),
{
    let n = weighted_sum(color, r, g, b);
    let f = full_scale(color);
    let s = len - 1;
    let q = ramp_index(color, r, g, b, len);
    assert(0 <= n * s <= f * s) by (nonlinear_arith)
        requires
            0 <= n <= f,
            0 <= s,
    ;
    let a = 2 * (n * s) + f;
    let d = 2 * f;
    vstd::arithmetic::div_mod::lemma_fundamental_div_mod(a, d);
    vstd::arithmetic::div_mod::lemma_mod_bound(a, d);
    assert(d * q == 2 * f * q) by (nonlinear_arith)
        requires
            d == 2 * f,
    ;
    assert(q <= s) by (nonlinear_arith)
        requires
            d * q <= 2 * (f * s) + f,
            d == 2 * f,
            f > 0,
    ;
    assert(q >= 0) by (nonlinear_arith)
        requires
            d * q > -d,
            d > 0,
    ;
}

/// A brighter pixel is never drawn with a darker glyph.
pub proof fn lemma_ramp_index_monotone(
    color: bool,
    dark: (u8, u8, u8),
    light: (u8, u8, u8),
    len: nat,
)
    requires
        len >= 1,
        weighted_sum(color, dark.0, dark.1, dark.2) <= weighted_sum(
            color,
            light.0,
            light.1,
            light.2,
        ),
    ensures
        ramp_index(color, dark.0, dark.1, dark.2, len) <= ramp_index(
            color,
            light.0,
            light.1,
            light.2,
            len,
        ),
{
    let f = full_scale(color);
    let s = len - 1;
    let a = weighted_sum(color, dark.0, dark.1, dark.2);
    let b = weighted_sum(color, light.0, light.1, light.2);
    assert(a * s <= b * s) by (nonlinear_arith)
        requires
            a <= b,
            0 <= s,
    ;
    vstd::arithmetic::div_mod::lemma_div_is_ordered(2 * (a * s) + f, 2 * (b * s) + f, 2 * f);
}

/// The channel sum of `weighted_sum`, computed.
fn channel_sum(color: bool, p: [u8; 3]) -> (n: u32)
    ensures
        n == weighted_sum(color, p[0], p[1], p[2]),
        n <= full_scale(color),
{
    if color {
        267 * (p[0] as u32) + 642 * (p[1] as u32) + 91 * (p[2] as u32)
    } else {
        2126 * (p[0] as u32) + 7152 * (p[1] as u32) + 722 * (p[2] as u32)
    }
}

/// The place in a ramp of `len` glyphs of the glyph that draws pixel `p`.
pub fn char_set_index(color: bool, p: [u8; 3], len: usize) -> (index: usize)
    requires
        len >= 1,
    ensures
        index == ramp_index(color, p[0], p[1], p[2], len as nat),
        index < len,
{
    let n = channel_sum(color, p) as u128;
    let f: u128 = if color {
        255_000
    } else {
        2_550_000
    };
    let s = (len - 1) as u128;
    proof {
        lemma_ramp_index_nearest(color, p[0], p[1], p[2], len as nat);
        assert(0 <= n * s <= 2_550_000 * 0xffff_ffff_ffff_ffff) by (nonlinear_arith)
            requires
                0 <= n <= 2_550_000,
                0 <= s <= 0xffff_ffff_ffff_ffff,
        ;
    }
    let q = (2 * (n * s) + f) / (2 * f);
    q as usize
}

/// A glyph written twice behind the truecolor foreground escape for
/// `(r, g, b)`: `ESC[38;2;r;g;bm` and then the two glyphs.
pub open spec fn truecolor_text(r: u8, g: u8, b: u8, glyph: char) -> Seq<char> {
    color_prefix() + decimal(r as nat) + seq![';'] + decimal(g as nat) + seq![';'] + decimal(
        b as nat,
    ) + seq!['m', glyph, glyph]
}

/// The text that stands for one pixel: the glyph for its brightness, twice,
/// colored with the pixel's own channels when `color` is set.
pub open spec fn glyph_cell(color: bool, ramp: Seq<char>, r: u8, g: u8, b: u8) -> Seq<char> {
    let glyph = ramp[ramp_index(color, r, g, b, ramp.len())];
    if color {
        truecolor_text(r, g, b, glyph)
    } else {
        seq![glyph, glyph]
    }
}

/// Appends `truecolor_text` to `out`.
fn push_truecolor(out: &mut String, rgb: [u8; 3], ascii_char: char)
    ensures
        final(out)@ == old(out)@ + truecolor_text(rgb[0], rgb[1], rgb[2], ascii_char),
{
    push_color_prefix(out);
    push_decimal(out, rgb[0] as u64);
    out.push(';');
    push_decimal(out, rgb[1] as u64);
    out.push(';');
    push_decimal(out, rgb[2] as u64);
    out.push('m');
    out.push(ascii_char);
    out.push(ascii_char);
}

/// A string made of the escape sequence for the foreground color `rgb` and a
/// glyph written twice, which together draw one pixel.
pub fn truecolor(rgb: [u8; 3], ascii_char: char) -> (cell: String)
    ensures
        cell@ == truecolor_text(rgb[0], rgb[1], rgb[2], ascii_char),
{
    let mut cell = String::new();
    push_truecolor(&mut cell, rgb, ascii_char);
    cell
}

/// Appends the glyph cell of pixel `p` to `out`.
fn push_cell(out: &mut String, p: [u8; 3], settings: &PaxciiSettings)
    requires
        settings.char_set@.len() >= 1,
    ensures
        final(out)@ == old(out)@ + glyph_cell(settings.color, settings.char_set@, p[0], p[1], p[2]),
{
    let index = char_set_index(settings.color, p, settings.char_set.len());
    let glyph = settings.char_set[index];
    if settings.color {
        push_truecolor(out, p, glyph);
    } else {
        out.push(glyph);
        out.push(glyph);
    }
}

/// The glyph cell of one pixel: its text depends on the pixel and the
/// settings alone.
pub fn encode(p: [u8; 3], settings: &PaxciiSettings) -> (cell: String)
    requires
        settings.char_set@.len() >= 1,
    ensures
        cell@ == glyph_cell(settings.color, settings.char_set@, p[0], p[1], p[2]),
{
    let mut cell = String::new();
    push_cell(&mut cell, p, settings);
    cell
}

/// The glyph cells of the first `n` pixels of row `y`, left to right.
pub open spec fn row_cells(grid: GridView, color: bool, ramp: Seq<char>, y: int, n: nat) -> Seq<
    char,
>
    decreases n,
{
    if n == 0 {
        Seq::empty()
    } else {
        row_cells(grid, color, ramp, y, (n - 1) as nat) + glyph_cell(
            color,
            ramp,
            grid.channel(n - 1, y, 0),
            grid.channel(n - 1, y, 1),
            grid.channel(n - 1, y, 2),
        )
    }
}

/// One row of a frame: the glyph cells of all its pixels but the last, whose
/// place the line break takes.
pub open spec fn row_text(grid: GridView, color: bool, ramp: Seq<char>, y: int) -> Seq<char> {
    row_cells(grid, color, ramp, y, (grid.width - 1) as nat) + seq!['\n']
}

/// The first `n` rows of a frame, top to bottom.
pub open spec fn rows_text(grid: GridView, color: bool, ramp: Seq<char>, n: nat) -> Seq<char>
    decreases n,
{
    if n == 0 {
        Seq::empty()
    } else {
        rows_text(grid, color, ramp, (n - 1) as nat) + row_text(grid, color, ramp, n - 1)
    }
}

/// A whole frame: every row of the grid and then, once, the reset escape. A
/// grid without columns has no pixels and so no rows.
pub open spec fn rendered(grid: GridView, color: bool, ramp: Seq<char>) -> Seq<char> {
    if grid.width == 0 {
        reset_text()
    } else {
        rows_text(grid, color, ramp, grid.height) + reset_text()
    }
}

/// Renders a grid of pixels as one frame of text.
///
/// The frame ends with the reset escape and holds it nowhere else. With a
/// ramp that holds no line break, the frame of a grid with columns has one
/// line break for each row of the grid.
pub fn render(grid: &PixelGrid, settings: &PaxciiSettings) -> (frame: String)
    requires
        settings.char_set@.len() >= 1,
    ensures
        frame@ == rendered(grid@, settings.color, settings.char_set@),
        forall|i: int| #[trigger] reset_at(frame@, i) <==> i == frame@.len() - 4,
        grid@.width >= 1 && free_of(settings.char_set@, '\n') ==> count_of(frame@, '\n')
            == grid@.height,
{
    proof {
        lemma_reset_once(grid@, settings.color, settings.char_set@);
        if grid@.width >= 1 && free_of(settings.char_set@, '\n') {
            lemma_row_count(grid@, settings.color, settings.char_set@);
        }
    }
    let width = grid.width();
    let height = grid.height();
    let mut frame = String::new();
    if width > 0 {
        let mut y: u32 = 0;
        while y < height
            invariant
                y <= height,
                width == grid@.width,
                height == grid@.height,
                width > 0,
                settings.char_set@.len() >= 1,
                frame@ == rows_text(grid@, settings.color, settings.char_set@, y as nat),
            decreases height - y,
        {
            let ghost before = frame@;
            let mut x: u32 = 0;
            while x < width - 1
                invariant
                    x <= width - 1,
                    y < height,
                    width == grid@.width,
                    height == grid@.height,
                    width > 0,
                    settings.char_set@.len() >= 1,
                    frame@ == before + row_cells(
                        grid@,
                        settings.color,
                        settings.char_set@,
                        y as int,
                        x as nat,
                    ),
                decreases width - 1 - x,
            {
                let p = grid.get_pixel(x, y);
                push_cell(&mut frame, p, settings);
                x += 1;
            }
            frame.push('\n');
            y += 1;
        }
    }
    push_reset(&mut frame);
    frame
}

/// An image on its way to text: the settings, the pixels once they are
/// there, and the text once it is rendered.
#[derive(Debug)]
pub struct AsciiImage {
    pub settings: PaxciiSettings,
    pub image: Option<PixelGrid>,
    pub ascii: Option<String>,
}

/// The grid that `image_to_ascii` renders: the image itself, or the image
/// resampled to the settings' size, inside it with the aspect ratio kept or
/// stretched to it exactly.
pub open spec fn target_grid(image: GridView, settings: PaxciiSettings, resize: bool) -> GridView {
    if !resize {
        image
    } else if settings.keep_aspect_ratio {
        resized(image, settings.width, settings.height)
    } else {
        resized_exact(image, settings.width, settings.height)
    }
}

impl AsciiImage {
    /// The simplest way to turn an image into text: the image is resized to
    /// the settings and rendered, and the text is kept in `ascii`.
    pub fn open(image: PixelGrid, settings: PaxciiSettings) -> (ascii_image: AsciiImage)
        requires
            settings.char_set@.len() >= 1,
            can_resize(image@, settings.width, settings.height),
        ensures
            ascii_image.settings == settings,
            ascii_image.image == Some(image),
            ascii_image.ascii matches Some(text) && text@ == rendered(
                target_grid(image@, settings, true),
                settings.color,
                settings.char_set@,
            ),
            image@.width == settings.width && image@.height == settings.height ==> (
            ascii_image.ascii matches Some(text) && text@ == rendered(
                image@,
                settings.color,
                settings.char_set@,
            )),
    {
        let mut ascii_image = AsciiImage::new(settings);
        ascii_image.image = Some(image);
        ascii_image.image_to_ascii(true);
        ascii_image
    }

    /// An image with settings and nothing else yet.
    pub fn new(settings: PaxciiSettings) -> (ascii_image: AsciiImage)
        ensures
            ascii_image.settings == settings,
            ascii_image.image is None,
            ascii_image.ascii is None,
    {
        AsciiImage { settings, image: None, ascii: None }
    }

    /// Transforms the image into text and keeps the text in `ascii`,
    /// resizing the image first if `resize` is set. Without an image nothing
    /// changes.
    pub fn image_to_ascii(&mut self, resize: bool)
        requires
            old(self).settings.char_set@.len() >= 1,
            resize ==> (old(self).image matches Some(image) ==> can_resize(
                image@,
                old(self).settings.width,
                old(self).settings.height,
            )),
        ensures
            final(self).settings == old(self).settings,
            final(self).image == old(self).image,
            old(self).image is None ==> final(self).ascii == old(self).ascii,
            old(self).image matches Some(image) ==> (final(self).ascii matches Some(text) && text@
                == rendered(
                target_grid(image@, old(self).settings, resize),
                old(self).settings.color,
                old(self).settings.char_set@,
            )),
            old(self).image matches Some(image) ==> (image@.width == old(self).settings.width
                && image@.height == old(self).settings.height ==> (
            final(self).ascii matches Some(text) && text@ == rendered(
                image@,
                old(self).settings.color,
                old(self).settings.char_set@,
            ))),
    {
        match &self.image {
            None => {},
            Some(image) => {
                let text = if resize {
                    let scaled = if self.settings.keep_aspect_ratio {
                        image.resize(self.settings.width, self.settings.height)
                    } else {
                        image.resize_exact(self.settings.width, self.settings.height)
                    };
                    render(&scaled, &self.settings)
                } else {
                    render(image, &self.settings)
                };
                self.ascii = Some(text);
            },
        }
    }

    /// The line that prints the image on the terminal: the text and a line
    /// break. There is nothing to print before the image is rendered.
    pub fn print(&self) -> (line: Option<String>)
        ensures
            self.ascii is None ==> line is None,
            self.ascii matches Some(text) ==> (line matches Some(l) && l@ == text@.push('\n')),
    {
        match &self.ascii {
            None => None,
            Some(text) => {
                let mut line = text.clone();
                line.push('\n');
                Some(line)
            },
        }
    }

    /// The contents of the file that holds the image: the text as it is.
    /// Before the image is rendered there is nothing to write, which is an
    /// error.
    pub fn write(&self) -> (contents: Result<String, PaxciiError>)
        ensures
            self.ascii is None ==> contents == Err::<String, PaxciiError>(
                PaxciiError::NotReady { missing: Missing::Ascii },
            ),
            self.ascii matches Some(text) ==> (contents matches Ok(c) && c@ == text@),
    {
        match &self.ascii {
            None => Err(PaxciiError::NotReady { missing: Missing::Ascii }),
            Some(text) => Ok(text.clone()),
        }
    }
}

} // verus!
