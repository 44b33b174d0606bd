//! Raster images of 8-bit RGBA pixels.

use vstd::prelude::*;

verus! {

/// One pixel, or a tint: four channels of eight bits.
#[derive(Debug, Clone, Copy, PartialEq, Eq, Structural)]
pub struct Rgba {
    /// Red.
    pub r: u8,
    /// Green.
    pub g: u8,
    /// Blue.
    pub b: u8,
    /// Opacity: 0 is fully transparent.
    pub a: u8,
}

/// The pixel that shows nothing: every channel zero.
pub open spec fn clear() -> Rgba {
    Rgba { r: 0, g: 0, b: 0, a: 0 }
}

/// Opaque white, the tint that changes nothing.
pub open spec fn white() -> Rgba {
    Rgba { r: 255, g: 255, b: 255, a: 255 }
}

/// A channel under a tint: their product with 255 as one, cut off towards
/// zero.
pub open spec fn tint_channel(tint: u8, value: u8) -> u8 {
    ((tint as int * value as int) / 255) as u8
}

/// A pixel under a tint, channel by channel.
pub open spec fn tint_pixel(tint: Rgba, pixel: Rgba) -> Rgba {
    Rgba {
        r: tint_channel(tint.r, pixel.r),
        g: tint_channel(tint.g, pixel.g),
        b: tint_channel(tint.b, pixel.b),
        a: tint_channel(tint.a, pixel.a),
    }
}

/// The product of two channels is at most 255 times 255.
pub proof fn lemma_tint_channel_bounds(tint: u8, value: u8)
    ensures
        0 <= tint as int * value as int <= 255 * 255,
        0 <= (tint as int * value as int) / 255 <= 255,
        (tint as int * value as int) / 255 <= value,
{
    assert(0 <= tint as int * value as int <= 255 * value as int) by (nonlinear_arith)
        requires
            0 <= tint <= 255,
            0 <= value <= 255,
    ;
}

impl Rgba {
    /// A pixel from its four channels.
    pub fn new(r: u8, g: u8, b: u8, a: u8) -> (p: Rgba)
        ensures
            p == (Rgba { r, g, b, a }),
    {
        Rgba { r, g, b, a }
    }

    /// The pixel that shows nothing.
    pub fn clear() -> (p: Rgba)
        ensures
            p == clear(),
    {
        Rgba { r: 0, g: 0, b: 0, a: 0 }
    }

    /// Opaque white.
    pub fn white() -> (p: Rgba)
        ensures
            p == white(),
    {
        Rgba { r: 255, g: 255, b: 255, a: 255 }
    }

    /// This pixel under a tint.
    pub fn tinted(self, tint: Rgba) -> (p: Rgba)
        ensures
            p == tint_pixel(tint, self),
    {
        Rgba {
            r: scale(tint.r, self.r),
            g: scale(tint.g, self.g),
            b: scale(tint.b, self.b),
            a: scale(tint.a, self.a),
        }
    }
}

/// One channel under a tint.
fn scale(tint: u8, value: u8) -> (r: u8)
    ensures
        r == tint_channel(tint, value),
{
    proof {
        lemma_tint_channel_bounds(tint, value);
    }
    ((tint as u32 * value as u32) / 255) as u8
}

/// The pixels of `bytes`, four bytes each, as rows `w` wide.
pub open spec fn rows_of_bytes(w: int, h: int, bytes: Seq<u8>) -> Seq<Seq<Rgba>> {
    Seq::new(
        h as nat,
        |y: int|
            Seq::new(
                w as nat,
                |x: int|
                    Rgba {
                        r: bytes[4 * (y * w + x)],
                        g: bytes[4 * (y * w + x) + 1],
                        b: bytes[4 * (y * w + x) + 2],
                        a: bytes[4 * (y * w + x) + 3],
                    },
            ),
    )
}

/// Rows of pixels that are all `w` wide.
pub open spec fn is_grid(rows: Seq<Seq<Rgba>>, w: int, h: int) -> bool {
    &&& rows.len() == h
    &&& forall|y: int| 0 <= y < h ==> (#[trigger] rows[y]).len() == w
}

/// The pixel in column `x` of row `y`, and the clear pixel outside the rows.
pub open spec fn pixel_at(rows: Seq<Seq<Rgba>>, x: int, y: int) -> Rgba {
    if 0 <= y < rows.len() && 0 <= x < rows[y].len() {
        rows[y][x]
    } else {
        clear()
    }
}

/// Channel `c` of a pixel, counted red, green, blue, opacity.
pub open spec fn channel(p: Rgba, c: int) -> u8 {
    if c == 0 {
        p.r
    } else if c == 1 {
        p.g
    } else if c == 2 {
        p.b
    } else {
        p.a
    }
}

/// The formats in which an atlas image may come.
#[derive(Debug, Clone, Copy, PartialEq, Eq, Structural)]
pub enum ImageKind {
    /// Portable Network Graphics.
    Png,
    /// JPEG.
    Jpeg,
    /// Graphics Interchange Format.
    Gif,
    /// Tagged Image File Format.
    Tiff,
}

/// Why an image could not be decoded.
#[verifier::external_type_specification]
#[verifier::external_body]
pub struct ExImageError(image::ImageError);

/// What decoding `bytes` as an image of the given format yields: the width,
/// the height and the RGBA bytes of the pixels row by row, or `None` where
/// the bytes are no such image.
pub uninterp spec fn decoded_rgba8(bytes: Seq<u8>, format: ImageKind) -> Option<
    (u32, u32, Seq<u8>),
>;

/// A raster image: rows of pixels, held in the RGBA buffer of the `image`
/// crate.
#[verifier::external_body]
#[derive(Debug)]
pub struct Bitmap {
    image: image::RgbaImage,
}

/// The rows of pixels that an image holds, top row first, each from left to
/// right.
pub uninterp spec fn pixel_rows(image: Bitmap) -> Seq<Seq<Rgba>>;

/// The width and the height of an image.
pub uninterp spec fn image_size(image: Bitmap) -> (u32, u32);

/// The RGBA bytes of `h` rows of `w` pixels, row by row from the top, four
/// for each pixel.
pub open spec fn bytes_of_rows(rows: Seq<Seq<Rgba>>, w: int, h: int) -> Seq<u8> {
    Seq::new((4 * w * h) as nat, |k: int| channel(rows[(k / 4) / w][(k / 4) % w], k % 4))
}

/// The canvas of `h` rows of `w` clear pixels.
pub open spec fn clear_rows(w: int, h: int) -> Seq<Seq<Rgba>> {
    Seq::new(h as nat, |y: int| Seq::new(w as nat, |x: int| clear()))
}

impl View for Bitmap {
    type V = Seq<Seq<Rgba>>;

    /// The rows of the image.
    open spec fn view(&self) -> Seq<Seq<Rgba>> {
        pixel_rows(*self)
    }
}

/// `ImageBuffer::new` makes an image of the given size whose pixels are all
/// zero. It is not called for a size whose bytes are more than a vector can
/// hold, where it does not return.
#[verifier::external_body]
fn image_blank(width: u32, height: u32) -> (image: Bitmap)
    requires
        4 * width * height <= isize::MAX,
    ensures
        image_size(image) == (width, height),
        pixel_rows(image) == clear_rows(width as int, height as int),
        is_grid(pixel_rows(image), width as int, height as int),
{
    Bitmap { image: image::RgbaImage::new(width, height) }
}

/// `ImageBuffer::from_raw` makes an image of the given size over the bytes,
/// row by row, and `None` where the bytes are too few for it.
#[verifier::external_body]
fn image_of_raw(width: u32, height: u32, data: Vec<u8>) -> (r: Option<Bitmap>)
    ensures
        r is Some <==> 4 * width * height <= data@.len(),
        r matches Some(image) ==> image_size(image) == (width, height) && pixel_rows(image)
            == rows_of_bytes(width as int, height as int, data@),
        r matches Some(image) ==> is_grid(pixel_rows(image), width as int, height as int),
{
    image::RgbaImage::from_raw(width, height, data).map(|image| Bitmap { image })
}

/// `ImageBuffer::as_raw` gives the bytes that the image lies over: four or
/// more for each pixel, with the pixels in them row by row.
#[verifier::external_body]
fn image_raw(image: &Bitmap) -> (data: Vec<u8>)
    ensures
        4 * image_size(*image).0 * image_size(*image).1 <= data@.len(),
        pixel_rows(*image) == rows_of_bytes(
            image_size(*image).0 as int,
            image_size(*image).1 as int,
            data@,
        ),
{
    image.image.as_raw().clone()
}

/// `ImageBuffer::width` gives the width. Every image holds as many rows as
/// it is high, each as long as it is wide.
#[verifier::external_body]
fn image_width(image: &Bitmap) -> (w: u32)
    ensures
        w == image_size(*image).0,
        is_grid(pixel_rows(*image), w as int, image_size(*image).1 as int),
{
    image.image.width()
}

/// `ImageBuffer::height` gives the height.
#[verifier::external_body]
fn image_height(image: &Bitmap) -> (h: u32)
    ensures
        h == image_size(*image).1,
        is_grid(pixel_rows(*image), image_size(*image).0 as int, h as int),
{
    image.image.height()
}

/// `ImageBuffer::get_pixel` gives the pixel at a place inside the image.
#[verifier::external_body]
fn image_get(image: &Bitmap, x: u32, y: u32) -> (p: Rgba)
    requires
        x < image_size(*image).0,
        y < image_size(*image).1,
    ensures
        p == pixel_rows(*image)[y as int][x as int],
{
    let p = image.image.get_pixel(x, y);
    Rgba { r: p[0], g: p[1], b: p[2], a: p[3] }
}

/// `ImageBuffer::put_pixel` sets the pixel at a place inside the image and
/// leaves the others.
#[verifier::external_body]
fn image_put(image: &mut Bitmap, x: u32, y: u32, p: Rgba)
    requires
        x < image_size(*old(image)).0,
        y < image_size(*old(image)).1,
    ensures
        image_size(*final(image)) == image_size(*old(image)),
        pixel_rows(*final(image)) == pixel_rows(*old(image)).update(
            y as int,
            pixel_rows(*old(image))[y as int].update(x as int, p),
        ),
{
    image.image.put_pixel(x, y, image::Rgba([p.r, p.g, p.b, p.a]));
}

/// Decodes with `image::load_from_memory_with_format` and turns the result
/// into 8-bit RGBA with `DynamicImage::into_rgba8`. The result is what
/// `decoded_rgba8` names.
#[verifier::external_body]
fn decode_rgba8(bytes: &[u8], format: ImageKind) -> (r: Result<Bitmap, image::ImageError>)
    ensures
        r is Ok <==> decoded_rgba8(bytes@, format) is Some,
        r matches Ok(image) ==> {
            let (w, h, data) = decoded_rgba8(bytes@, format)->0;
            image_size(image) == (w, h) && pixel_rows(image) == rows_of_bytes(
                w as int,
                h as int,
                data,
            ) && is_grid(pixel_rows(image), w as int, h as int)
        },
{
    let kind = match format {
        ImageKind::Png => image::ImageFormat::Png,
        ImageKind::Jpeg => image::ImageFormat::Jpeg,
        ImageKind::Gif => image::ImageFormat::Gif,
        ImageKind::Tiff => image::ImageFormat::Tiff,
    };
    Ok(Bitmap { image: image::load_from_memory_with_format(bytes, kind)?.into_rgba8() })
}

impl Bitmap {
    /// The number of pixel columns.
    pub open spec fn spec_width(&self) -> u32 {
        image_size(*self).0
    }

    /// The number of pixel rows.
    pub open spec fn spec_height(&self) -> u32 {
        image_size(*self).1
    }

    /// The image holds as many rows as it is high, each as long as it is
    /// wide. This holds of every image, and reading an image's width or
    /// height tells so.
    pub open spec fn wf(&self) -> bool {
        is_grid(self@, self.spec_width() as int, self.spec_height() as int)
    }

    /// The image's RGBA bytes, row by row from the top, four for each pixel.
    pub open spec fn bytes(&self) -> Seq<u8> {
        bytes_of_rows(self@, self.spec_width() as int, self.spec_height() as int)
    }

    /// The number of pixel columns.
    #[verifier::when_used_as_spec(spec_width)]
    pub fn width(&self) -> (w: u32)
        ensures
            w == self.spec_width(),
            self.wf(),
    {
        image_width(self)
    }

    /// The number of pixel rows.
    #[verifier::when_used_as_spec(spec_height)]
    pub fn height(&self) -> (h: u32)
        ensures
            h == self.spec_height(),
            self.wf(),
    {
        image_height(self)
    }

    /// An image of clear pixels, or `None` where its bytes are more than a
    /// buffer can hold.
    pub fn new(width: u32, height: u32) -> (r: Option<Bitmap>)
        ensures
            r is Some <==> 4 * width * height <= isize::MAX,
            r matches Some(b) ==> {
                &&& b.wf()
                &&& b.width() == width
                &&& b.height() == height
                &&& b@ == clear_rows(width as int, height as int)
            },
    {
        assert(4 * width * height <= 4 * 0x1_0000_0000 * 0x1_0000_0000) by (nonlinear_arith)
            requires
                0 <= width <= u32::MAX,
                0 <= height <= u32::MAX,
        ;
        let bytes: u128 = 4 * width as u128 * height as u128;
        if bytes > isize::MAX as u128 {
            None
        } else {
            Some(image_blank(width, height))
        }
    }

    /// An image from its size and its RGBA bytes, row by row. `None` where
    /// the bytes are too few.
    pub fn from_raw(width: u32, height: u32, data: Vec<u8>) -> (r: Option<Bitmap>)
        ensures
            r is Some <==> 4 * width * height <= data@.len(),
            r matches Some(b) ==> {
                &&& b.wf()
                &&& b.width() == width
                &&& b.height() == height
                &&& b@ == rows_of_bytes(width as int, height as int, data@)
            },
    {
        image_of_raw(width, height, data)
    }

    /// The image's RGBA bytes, row by row from the top.
    pub fn into_raw(&self) -> (data: Vec<u8>)
        ensures
            data@ == self.bytes(),
            data@.len() == 4 * self.width() * self.height(),
    {
        let width: u32 = self.width();
        let height: u32 = self.height();
        let mut data: Vec<u8> = image_raw(self);
        let ghost held = data@;
        let ghost w = width as int;
        let ghost h = height as int;
        assert(4 * w * h == 4 * (w * h)) by (nonlinear_arith);
        let len: usize = data.len();
        assert(w * h <= len) by (nonlinear_arith)
            requires
                4 * (w * h) <= len,
                0 <= w * h,
        {
        }
        let count: usize = 4 * (width as usize * height as usize);
        data.truncate(count);
        proof {
            assert forall|k: int| 0 <= k < 4 * w * h implies #[trigger] data@[k] == channel(
                self@[(k / 4) / w][(k / 4) % w],
                k % 4,
            ) by {
                let q = k / 4;
                let y = q / w;
                let x = q % w;
                assert(0 <= q < w * h);
                assert(w > 0) by (nonlinear_arith)
                    requires
                        0 <= q < w * h,
                        0 <= w,
                        0 <= h,
                ;
                vstd::arithmetic::div_mod::lemma_fundamental_div_mod(q, w);
                vstd::arithmetic::div_mod::lemma_mod_pos_bound(q, w);
                assert(0 <= y < h) by (nonlinear_arith)
                    requires
                        0 <= q < w * h,
                        q == w * y + x,
                        0 <= x < w,
                ;
                assert(y * w + x == q) by (nonlinear_arith)
                    requires
                        q == w * y + x,
                ;
                assert(self@[y][x] == rows_of_bytes(w, h, held)[y][x]);
                assert(k == 4 * q + k % 4);
            }
            assert(data@ =~= self.bytes());
        }
        data
    }

    /// Decodes an image of the given format. The error is the decoder's.
    pub fn decode(bytes: &[u8], format: ImageKind) -> (r: Result<Bitmap, image::ImageError>)
        ensures
            r is Ok <==> decoded_rgba8(bytes@, format) is Some,
            r matches Ok(b) ==> {
                let (w, h, data) = decoded_rgba8(bytes@, format)->0;
                &&& b.wf()
                &&& b.width() == w
                &&& b.height() == h
                &&& b@ == rows_of_bytes(w as int, h as int, data)
            },
    {
        decode_rgba8(bytes, format)
    }

    /// Two images of one size that show the same rows hold the same bytes.
    pub proof fn lemma_view_fixes_bytes(a: &Bitmap, b: &Bitmap)
        requires
            a@ == b@,
            a.spec_width() == b.spec_width(),
            a.spec_height() == b.spec_height(),
        ensures
            a.bytes() == b.bytes(),
    {
    }

    /// The pixel in column `x` of row `y`.
    pub fn get_pixel(&self, x: u32, y: u32) -> (p: Rgba)
        requires
            x < self.width(),
            y < self.height(),
        ensures
            p == self@[y as int][x as int],
    {
        image_get(self, x, y)
    }

    /// The pixel in column `x` of row `y`, and the clear pixel for a place
    /// outside the image.
    pub fn pixel_or_clear(&self, x: u32, y: u32) -> (p: Rgba)
        ensures
            p == pixel_at(self@, x as int, y as int),
    {
        if x < self.width() && y < self.height() {
            self.get_pixel(x, y)
        } else {
            Rgba::clear()
        }
    }

    /// Sets the pixel in column `x` of row `y`.
    pub fn put_pixel(&mut self, x: u32, y: u32, p: Rgba)
        requires
            x < old(self).width(),
            y < old(self).height(),
        ensures
            final(self).width() == old(self).width(),
            final(self).height() == old(self).height(),
            final(self)@ == old(self)@.update(y as int, old(self)@[y as int].update(x as int, p)),
    {
        image_put(self, x, y, p);
    }
}

} // verus!
