//! A grid of RGB pixels, eight bits per channel, stored row by row from the
//! top left corner.

use vstd::prelude::*;

verus! {

/// What a [`PixelGrid`] holds: its size in pixels and the channel bytes,
/// three for each pixel, row-major.
pub struct GridView {
    pub width: nat,
    pub height: nat,
    pub pixels: Seq<u8>,
}

impl GridView {
    /// The channel bytes are exactly those of `width * height` pixels.
    pub open spec fn wf(self) -> bool {
        self.pixels.len() == 3 * self.width * self.height
    }

    /// Channel `c` (0 red, 1 green, 2 blue) of the pixel in column `x` of row `y`.
    pub open spec fn channel(self, x: int, y: int, c: int) -> u8 {
        self.pixels[3 * (y * self.width + x) + c]
    }

    /// The pixel in column `x` of row `y`.
    pub open spec fn pixel(self, x: int, y: int) -> Seq<u8> {
        seq![self.channel(x, y, 0), self.channel(x, y, 1), self.channel(x, y, 2)]
    }
}

/// The number of channel bytes in a grid of `width` by `height` pixels.
pub open spec fn frame_len(width: u32, height: u32) -> nat {
    (3 * width * height) as nat
}

/// In a grid of `width` by `height` pixels, the three channels of the pixel
/// at `(x, y)` lie inside the grid's bytes.
proof fn lemma_pixel_in_range(width: int, height: int, x: int, y: int)
    requires
        0 <= x < width,
        0 <= y < height,
    ensures
        0 <= y * width <= y * width + x < width * height,
        3 * (y * width + x) + 2 < 3 * width * height,
{
    assert(0 <= y * width && y * width + x < width * height) by (nonlinear_arith)
        requires
            0 <= x < width,
            0 <= y < height,
    ;
    assert(3 * width * height == 3 * (width * height)) by (nonlinear_arith);
}

/// The grid that `image::DynamicImage::resize` makes of an RGB image with the
/// triangle filter, for the bounds `nwidth` and `nheight`.
pub uninterp spec fn resized(grid: GridView, nwidth: u32, nheight: u32) -> GridView;

/// The grid that `image::DynamicImage::resize_exact` makes of an RGB image
/// with the triangle filter, for the new size `nwidth` by `nheight`.
pub uninterp spec fn resized_exact(grid: GridView, nwidth: u32, nheight: u32) -> GridView;

/// The longest axis that the resampler handles.
///
/// The resampler places the centre of every target pixel on the source axis
/// in 32-bit floats and weighs the source pixels within one pixel of it, or
/// within one target pixel where the image shrinks. Up to this length the
/// centre is off by less than half a pixel (a quarter from the rounded
/// ratio, an eighth from the rounded product), so that the pixel that holds
/// it keeps a weight above zero and the weights have a sum to divide by.
pub const MAX_RESIZE_LENGTH: u32 = 0x40_0000;

/// A grid with pixels can be resampled to `nwidth` by `nheight` or less when
/// the target has cells, no axis of the grid or of the target is longer than
/// `MAX_RESIZE_LENGTH`, and neither the result nor the intermediate buffer of
/// four floats a pixel outgrows what a vector can hold.
pub open spec fn can_resize(grid: GridView, nwidth: u32, nheight: u32) -> bool {
    &&& 1 <= grid.width <= MAX_RESIZE_LENGTH
    &&& 1 <= grid.height <= MAX_RESIZE_LENGTH
    &&& 1 <= nwidth <= MAX_RESIZE_LENGTH
    &&& 1 <= nheight <= MAX_RESIZE_LENGTH
    &&& 16 * grid.width * nheight <= isize::MAX
    &&& 3 * nwidth * nheight <= isize::MAX
}

/// An owned grid of RGB pixels.
#[derive(Debug, PartialEq, Eq)]
pub struct PixelGrid {
    width: u32,
    height: u32,
    data: Vec<u8>,
}

impl View for PixelGrid {
    type V = GridView;

    closed spec fn view(&self) -> GridView {
        GridView { width: self.width as nat, height: self.height as nat, pixels: self.data@ }
    }
}

/// `3 * width * height`, which always fits in 128 bits.
pub fn byte_count(width: u32, height: u32) -> (n: u128)
    ensures
        n == frame_len(width, height),
{
    assert(width * height <= 0xffff_ffff * 0xffff_ffff) by (nonlinear_arith)
        requires
            width <= 0xffff_ffff,
            height <= 0xffff_ffff,
    ;
    assert(3 * width * height == 3 * (width * height)) by (nonlinear_arith);
    3 * ((width as u128) * (height as u128))
}

impl PixelGrid {
    #[verifier::type_invariant]
    spec fn inv(self) -> bool {
        self.data@.len() == 3 * self.width * self.height
    }

    /// Makes a grid from channel bytes. There is none when `buf` holds fewer
    /// bytes than `width * height` pixels need; bytes beyond those are dropped.
    pub fn from_raw(width: u32, height: u32, buf: Vec<u8>) -> (grid: Option<PixelGrid>)
        ensures
            grid is Some <==> frame_len(width, height) <= buf@.len(),
            grid matches Some(g) ==> {
                &&& g@.width == width
                &&& g@.height == height
                &&& g@.pixels == buf@.subrange(0, frame_len(width, height) as int)
                &&& g@.wf()
            },
    {
        let need = byte_count(width, height);
        if need <= buf.len() as u128 {
            let mut data = buf;
            data.truncate(need as usize);
            Some(PixelGrid { width, height, data })
        } else {
            None
        }
    }

    /// The number of pixels in a row.
    pub fn width(&self) -> (w: u32)
        ensures
            w == self@.width,
            self@.wf(),
    {
        proof {
            use_type_invariant(self);
        }
        self.width
    }

    /// The number of rows.
    pub fn height(&self) -> (h: u32)
        ensures
            h == self@.height,
            self@.wf(),
    {
        proof {
            use_type_invariant(self);
        }
        self.height
    }

    /// The channel bytes, row by row.
    pub fn as_raw(&self) -> (raw: &Vec<u8>)
        ensures
            raw@ == self@.pixels,
            self@.wf(),
    {
        proof {
            use_type_invariant(self);
        }
        &self.data
    }

    /// Gives the channel bytes back.
    pub fn into_raw(self) -> (raw: Vec<u8>)
        ensures
            raw@ == self@.pixels,
            self@.wf(),
    {
        proof {
            use_type_invariant(&self);
        }
        self.data
    }

    /// Whether `can_resize` holds of this grid and the target size.
    pub fn resizable(&self, nwidth: u32, nheight: u32) -> (ok: bool)
        ensures
            ok == can_resize(self@, nwidth, nheight),
    {
        if self.width == 0 || self.height == 0 || nwidth == 0 || nheight == 0 {
            return false;
        }
        if self.width > MAX_RESIZE_LENGTH || self.height > MAX_RESIZE_LENGTH || nwidth
            > MAX_RESIZE_LENGTH || nheight > MAX_RESIZE_LENGTH {
            return false;
        }
        assert(self.width * nheight <= 0xffff_ffff * 0xffff_ffff) by (nonlinear_arith)
            requires
                self.width <= 0xffff_ffff,
                nheight <= 0xffff_ffff,
        ;
        assert(nwidth * nheight <= 0xffff_ffff * 0xffff_ffff) by (nonlinear_arith)
            requires
                nwidth <= 0xffff_ffff,
                nheight <= 0xffff_ffff,
        ;
        assert(16 * self.width * nheight == 16 * (self.width * nheight)) by (nonlinear_arith);
        assert(3 * nwidth * nheight == 3 * (nwidth * nheight)) by (nonlinear_arith);
        let limit = isize::MAX as u128;
        16 * ((self.width as u128) * (nheight as u128)) <= limit && 3 * ((nwidth as u128) * (
        nheight as u128)) <= limit
    }

    /// `image::DynamicImage::resize` with `FilterType::Triangle`, on this grid
    /// as an RGB image.
    ///
    /// Believed of it, for what `can_resize` admits: it returns; the result
    /// is a whole grid that depends on the pixels and the four sizes alone;
    /// it has at least one pixel on each axis and fits within the bounds; and
    /// a grid that already has the size asked for comes back unchanged.
    #[verifier::external_body]
    pub(crate) fn resize(&self, nwidth: u32, nheight: u32) -> (out: PixelGrid)
        requires
            can_resize(self@, nwidth, nheight),
        ensures
            out@ == resized(self@, nwidth, nheight),
            out@.wf(),
            1 <= out@.width <= nwidth,
            1 <= out@.height <= nheight,
            nwidth == self@.width && nheight == self@.height ==> out@ == self@,
    {
        let source = image::RgbImage::from_raw(self.width, self.height, self.data.clone()).unwrap();
        let scaled = image::DynamicImage::ImageRgb8(source)
            .resize(nwidth, nheight, image::imageops::FilterType::Triangle)
            .to_rgb8();
        PixelGrid { width: scaled.width(), height: scaled.height(), data: scaled.into_raw() }
    }

    /// `image::DynamicImage::resize_exact` with `FilterType::Triangle`, on this
    /// grid as an RGB image.
    ///
    /// Believed of it, for what `can_resize` admits: it returns; the result
    /// is a whole grid of exactly the size asked for; it depends on the
    /// pixels and the four sizes alone; and a grid that already has that size
    /// comes back unchanged.
    #[verifier::external_body]
    pub(crate) fn resize_exact(&self, nwidth: u32, nheight: u32) -> (out: PixelGrid)
        requires
            can_resize(self@, nwidth, nheight),
        ensures
            out@ == resized_exact(self@, nwidth, nheight),
            out@.width == nwidth,
            out@.height == nheight,
            out@.wf(),
            nwidth == self@.width && nheight == self@.height ==> out@ == self@,
    {
        let source = image::RgbImage::from_raw(self.width, self.height, self.data.clone()).unwrap();
        let scaled = image::DynamicImage::ImageRgb8(source)
            .resize_exact(nwidth, nheight, image::imageops::FilterType::Triangle)
            .to_rgb8();
        PixelGrid { width: scaled.width(), height: scaled.height(), data: scaled.into_raw() }
    }

    /// The pixel in column `x` of row `y`.
    pub fn get_pixel(&self, x: u32, y: u32) -> (p: [u8; 3])
        requires
            x < self@.width,
            y < self@.height,
        ensures
            p@ == self@.pixel(x as int, y as int),
            self@.wf(),
    {
        proof {
            use_type_invariant(self);
            vstd::std_specs::vec::axiom_spec_len(&self.data);
            lemma_pixel_in_range(self.width as int, self.height as int, x as int, y as int);
        }
        let at: usize = 3 * (y as usize * self.width as usize + x as usize);
        [self.data[at], self.data[at + 1], self.data[at + 2]]
    }
}

} // verus!
