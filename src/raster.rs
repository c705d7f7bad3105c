use vstd::prelude::*;
use crate::selection::CropRect;

verus! {

/// One pixel, 8 bits per channel.
#[derive(Clone, Copy, Debug, PartialEq, Eq, Structural)]
pub struct Rgba {
    pub r: u8,
    pub g: u8,
    pub b: u8,
    pub a: u8,
}

/// Channel `c` of the pixel at column `x`, row `y` of a row-major RGBA buffer
/// that is `stride` pixels wide.
pub open spec fn byte_at(bytes: Seq<u8>, stride: int, x: int, y: int, c: int) -> u8 {
    bytes[4 * (y * stride + x) + c]
}

/// What a raster holds: its size and its pixels, row by row, four bytes each.
pub struct RasterView {
    pub width: nat,
    pub height: nat,
    pub bytes: Seq<u8>,
}

impl RasterView {
    pub open spec fn pixel(self, x: int, y: int) -> Rgba {
        Rgba {
            r: byte_at(self.bytes, self.width as int, x, y, 0),
            g: byte_at(self.bytes, self.width as int, x, y, 1),
            b: byte_at(self.bytes, self.width as int, x, y, 2),
            a: byte_at(self.bytes, self.width as int, x, y, 3),
        }
    }

    /// `self` is the `w` by `h` block of `src` whose top-left pixel is `(x, y)`.
    pub open spec fn is_block_of(self, src: RasterView, x: int, y: int, w: int, h: int) -> bool {
        &&& self.width == w
        &&& self.height == h
        &&& forall|i: int, j: int|
            0 <= i < w && 0 <= j < h ==> #[trigger] self.pixel(i, j) == src.pixel(x + i, y + j)
    }
}

/// An RGBA image in physical pixels, origin top-left.
pub struct Raster {
    width: u32,
    height: u32,
    bytes: Vec<u8>,
}

impl View for Raster {
    type V = RasterView;

    closed spec fn view(&self) -> RasterView {
        RasterView { width: self.width as nat, height: self.height as nat, bytes: self.bytes@ }
    }
}

/// Relies on image's `ImageBuffer::from_raw`, `imageops::crop_imm` and
/// `SubImage::to_image`: with the block inside the image, the result is that
/// block, row-major, four bytes per pixel.
#[verifier::external_body]
fn crop_rgba(bytes: &Vec<u8>, width: u32, height: u32, x: u32, y: u32, w: u32, h: u32) -> (r: Vec<u8>)
    requires
        bytes@.len() == 4 * width * height,
        x + w <= width,
        y + h <= height,
    ensures
        r@.len() == 4 * w * h,
        forall|i: int, j: int, c: int|
            0 <= i < w && 0 <= j < h && 0 <= c < 4 ==> #[trigger] byte_at(r@, w as int, i, j, c)
                == byte_at(bytes@, width as int, x + i, y + j, c),
{
    let img = image::RgbaImage::from_raw(width, height, bytes.clone()).unwrap_or_default();
    image::imageops::crop_imm(&img, x, y, w, h).to_image().into_raw()
}

proof fn lemma_index_in_bounds(x: int, y: int, w: int, h: int)
    requires
        0 <= x < w,
        0 <= y < h,
    ensures
        0 <= y * w,
        y * w + x < w * h,
        4 * (y * w + x) + 3 < 4 * w * h,
{
    assert(0 <= y * w && y * w + x < w * h && 4 * (y * w + x) + 3 < 4 * w * h) by (nonlinear_arith)
        requires
            0 <= x < w,
            0 <= y < h,
    ;
}

impl Raster {
    #[verifier::type_invariant]
    spec fn inv(&self) -> bool {
        self.bytes@.len() == 4 * self.width * self.height
    }

    /// A raster of `width` by `height` pixels from row-major RGBA bytes, or
    /// `None` when the byte count is not four per pixel.
    pub fn from_rgba(width: u32, height: u32, bytes: Vec<u8>) -> (r: Option<Raster>)
        ensures
            r is Some <==> bytes@.len() == 4 * width * height,
            r matches Some(img) ==> img@ == (RasterView {
                width: width as nat,
                height: height as nat,
                bytes: bytes@,
            }),
    {
        proof {
            assert(4 * (width as int) * (height as int) <= 4 * 0xffff_ffff * 0xffff_ffff)
                by (nonlinear_arith)
                requires
                    width <= 0xffff_ffff,
                    height <= 0xffff_ffff,
            ;
        }
        let n: u128 = 4u128 * width as u128 * height as u128;
        if bytes.len() as u128 == n {
            Some(Raster { width, height, bytes })
        } else {
            None
        }
    }

    pub fn width(&self) -> (r: u32)
        ensures
            r == self@.width,
    {
        self.width
    }

    pub fn height(&self) -> (r: u32)
        ensures
            r == self@.height,
    {
        self.height
    }

    /// The pixels, row by row, four bytes each.
    pub fn as_bytes(&self) -> (r: &Vec<u8>)
        ensures
            r@ == self@.bytes,
            r@.len() == 4 * self@.width * self@.height,
    {
        proof {
            use_type_invariant(self);
        }
        &self.bytes
    }

    /// The pixel at column `x`, row `y`.
    pub fn pixel(&self, x: u32, y: u32) -> (r: Rgba)
        requires
            x < self@.width,
            y < self@.height,
        ensures
            r == self@.pixel(x as int, y as int),
    {
        proof {
            use_type_invariant(self);
            lemma_index_in_bounds(x as int, y as int, self.width as int, self.height as int);
        }
        let len = self.bytes.len();
        let base: usize = 4 * (y as usize * self.width as usize + x as usize);
        Rgba {
            r: self.bytes[base],
            g: self.bytes[base + 1],
            b: self.bytes[base + 2],
            a: self.bytes[base + 3],
        }
    }

    /// The `w` by `h` block whose top-left pixel is `(x, y)`.
    pub fn crop(&self, x: u32, y: u32, w: u32, h: u32) -> (r: Raster)
        requires
            x + w <= self@.width,
            y + h <= self@.height,
        ensures
            r@.is_block_of(self@, x as int, y as int, w as int, h as int),
    {
        proof {
            use_type_invariant(self);
        }
        let bytes = crop_rgba(&self.bytes, self.width, self.height, x, y, w, h);
        let r = Raster { width: w, height: h, bytes };
        assert forall|i: int, j: int| 0 <= i < w && 0 <= j < h implies #[trigger] r@.pixel(i, j)
            == self@.pixel(x + i, y + j) by {
            assert(byte_at(r@.bytes, w as int, i, j, 0) == byte_at(self@.bytes, self.width as int, x + i, y + j, 0));
            assert(byte_at(r@.bytes, w as int, i, j, 1) == byte_at(self@.bytes, self.width as int, x + i, y + j, 1));
            assert(byte_at(r@.bytes, w as int, i, j, 2) == byte_at(self@.bytes, self.width as int, x + i, y + j, 2));
            assert(byte_at(r@.bytes, w as int, i, j, 3) == byte_at(self@.bytes, self.width as int, x + i, y + j, 3));
        }
        r
    }
}

/// `v` held to `0..=hi`.
pub open spec fn clamp_to(v: int, hi: int) -> int {
    if v < 0 {
        0
    } else if v > hi {
        hi
    } else {
        v
    }
}

/// The part of `rect` that lies inside a `width` by `height` image.
pub open spec fn clamped_rect(rect: CropRect, width: int, height: int) -> CropRect {
    CropRect {
        x0: clamp_to(rect.x0 as int, width) as i64,
        y0: clamp_to(rect.y0 as int, height) as i64,
        x1: clamp_to(rect.x1 as int, width) as i64,
        y1: clamp_to(rect.y1 as int, height) as i64,
    }
}

fn clamp_coord(v: i64, hi: u32) -> (r: u32)
    ensures
        r == clamp_to(v as int, hi as int),
{
    if v < 0 {
        0
    } else if v > hi as i64 {
        hi
    } else {
        v as u32
    }
}

/// The outcome of extracting a selection.
pub enum Extraction {
    /// The selection, cut from the buffered frame.
    Cropped(Raster),
    /// No frame was buffered: capture this rectangle of the display directly.
    Capture(CropRect),
}

pub open spec fn nonneg(v: int) -> int {
    if v < 0 {
        0
    } else {
        v
    }
}

proof fn lemma_clamp_monotone(u: int, v: int, hi: int)
    requires
        u <= v,
        0 <= hi,
    ensures
        clamp_to(u, hi) <= clamp_to(v, hi),
{
}

/// Extract `rect` from the buffered frame, with each corner first clamped to
/// the frame's bounds; a rectangle with no area, or one given with its corners
/// out of order, yields an empty image. With no frame, ask for a capture of
/// exactly `rect`.
pub fn extract(frame: Option<&Raster>, rect: CropRect) -> (r: Extraction)
    ensures
        frame is None ==> r == Extraction::Capture(rect),
        frame matches Some(f) ==> r matches Extraction::Cropped(img) && {
            let c = clamped_rect(rect, f@.width as int, f@.height as int);
            &&& img@.is_block_of(
                f@,
                c.x0 as int,
                c.y0 as int,
                nonneg(c.width_spec()),
                nonneg(c.height_spec()),
            )
            &&& (rect.x1 <= rect.x0 || rect.y1 <= rect.y0) ==> img@.width * img@.height == 0
        },
{
    match frame {
        None => Extraction::Capture(rect),
        Some(f) => {
            let x0 = clamp_coord(rect.x0, f.width());
            let y0 = clamp_coord(rect.y0, f.height());
            let x1 = clamp_coord(rect.x1, f.width());
            let y1 = clamp_coord(rect.y1, f.height());
            proof {
                if rect.x1 <= rect.x0 {
                    lemma_clamp_monotone(rect.x1 as int, rect.x0 as int, f@.width as int);
                }
                if rect.y1 <= rect.y0 {
                    lemma_clamp_monotone(rect.y1 as int, rect.y0 as int, f@.height as int);
                }
            }
            let w = if x1 > x0 { x1 - x0 } else { 0 };
            let h = if y1 > y0 { y1 - y0 } else { 0 };
            let img = f.crop(x0, y0, w, h);
            proof {
                assert(img@.width * img@.height == 0 || (w > 0 && h > 0)) by (nonlinear_arith)
                    requires
                        img@.width == w,
                        img@.height == h,
                ;
            }
            Extraction::Cropped(img)
        },
    }
}

} // verus!
