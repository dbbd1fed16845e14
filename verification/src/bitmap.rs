//! Pixel buffers: their layout, their bytes, and how a buffer is handed to a
//! JPEG encoder one scanline at a time.

use crate::error::PDFiumError;
use image::DynamicImage;
use vstd::prelude::*;
use vstd::slice::*;

verus! {

/// One byte per pixel: a grey level.
pub const FPDFBITMAP_GRAY: u32 = 1;
/// Three bytes per pixel: blue, green, red.
pub const FPDFBITMAP_BGR: u32 = 2;
/// Four bytes per pixel: blue, green, red, and one unused.
pub const FPDFBITMAP_BGRX: u32 = 3;
/// Four bytes per pixel: blue, green, red, alpha.
pub const FPDFBITMAP_BGRA: u32 = 4;

/// A decoded image of the `image` crate.
#[verifier::external_type_specification]
#[verifier::external_body]
pub struct ExDynamicImage(DynamicImage);

/// The colour space in which a JPEG encoder reads a bitmap's pixels.
#[derive(Clone, Copy, Debug, PartialEq, Eq, Structural)]
pub enum ColorSpace {
    Grayscale,
    Bgr,
    Bgrx,
    Bgra,
}

/// What a JPEG encoder is told of its input.
#[derive(Clone, Copy, Debug, PartialEq, Eq, Structural)]
pub struct JpegInput {
    pub color_space: ColorSpace,
    pub components: i32,
}

/// The pixel format is none that a JPEG can be written from.
#[derive(Clone, Copy, Debug, PartialEq, Eq, Structural)]
pub struct UnknownFormat;

/// What a bitmap is: its layout and its bytes.
pub struct BitmapView {
    pub width: int,
    pub height: int,
    pub stride: int,
    pub format: u32,
    pub buffer: Seq<u8>,
}

/// An owned pixel buffer of `height` rows, each `stride` bytes long.
pub struct Bitmap {
    width: i32,
    height: i32,
    stride: i32,
    format: u32,
    buffer: Vec<u8>,
}

/// The encoder input for a pixel format, where it has one.
pub open spec fn jpeg_input_of(format: u32) -> Option<JpegInput> {
    if format == FPDFBITMAP_GRAY {
        Some(JpegInput { color_space: ColorSpace::Grayscale, components: 1 })
    } else if format == FPDFBITMAP_BGR {
        Some(JpegInput { color_space: ColorSpace::Bgr, components: 3 })
    } else if format == FPDFBITMAP_BGRX {
        Some(JpegInput { color_space: ColorSpace::Bgrx, components: 4 })
    } else if format == FPDFBITMAP_BGRA {
        Some(JpegInput { color_space: ColorSpace::Bgra, components: 4 })
    } else {
        None
    }
}

/// Whether a buffer can have this layout: no side is negative, and the bytes
/// of all rows can be counted.
pub open spec fn layout_fits(width: int, height: int, stride: int) -> bool {
    0 <= width && 0 <= height && 0 <= stride && stride * height <= usize::MAX
}

/// Maps a pixel format to the colour space and the number of components per
/// pixel that the JPEG encoder is given. A format other than the four known
/// ones has no mapping.
pub fn jpeg_input(format: u32) -> (res: Result<JpegInput, UnknownFormat>)
    ensures
        match res {
            Ok(input) => jpeg_input_of(format) == Some(input),
            Err(_) => jpeg_input_of(format) is None,
        },
        res is Ok <==> 1 <= format <= 4,
{
    match format {
        FPDFBITMAP_GRAY => Ok(JpegInput { color_space: ColorSpace::Grayscale, components: 1 }),
        FPDFBITMAP_BGR => Ok(JpegInput { color_space: ColorSpace::Bgr, components: 3 }),
        FPDFBITMAP_BGRX => Ok(JpegInput { color_space: ColorSpace::Bgrx, components: 4 }),
        FPDFBITMAP_BGRA => Ok(JpegInput { color_space: ColorSpace::Bgra, components: 4 }),
        _ => Err(UnknownFormat),
    }
}

/// The width in pixels of an image's BGRA form: what `ImageBuffer::width`
/// gives of the buffer that `DynamicImage::into_bgra8` returns.
pub uninterp spec fn bgra_width(img: DynamicImage) -> u32;

/// The height in pixels of an image's BGRA form: what `ImageBuffer::height`
/// gives of the buffer that `DynamicImage::into_bgra8` returns.
pub uninterp spec fn bgra_height(img: DynamicImage) -> u32;

/// The bytes of an image's BGRA form: what `ImageBuffer::as_raw` holds of
/// the buffer that `DynamicImage::into_bgra8` returns.
pub uninterp spec fn bgra_bytes(img: DynamicImage) -> Seq<u8>;

/// Calls image's `DynamicImage::into_bgra8`, then `ImageBuffer::width`,
/// `ImageBuffer::height` and `ImageBuffer::as_raw` on what it returns. The
/// result is the width, the height and a copy of the bytes, each named by
/// the image it comes from. An image buffer holds at least the bytes of its
/// pixels, four for each here; an image that was built over a larger
/// container keeps it.
#[verifier::external_body]
fn bgra_pixels(img: DynamicImage) -> (res: (u32, u32, Vec<u8>))
    ensures
        res.0 == bgra_width(img),
        res.1 == bgra_height(img),
        res.2@ == bgra_bytes(img),
        res.2@.len() >= 4 * res.0 * res.1,
{
    let buf = img.into_bgra8();
    (buf.width(), buf.height(), buf.as_raw().clone())
}

impl View for Bitmap {
    type V = BitmapView;

    closed spec fn view(&self) -> BitmapView {
        BitmapView {
            width: self.width as int,
            height: self.height as int,
            stride: self.stride as int,
            format: self.format,
            buffer: self.buffer@,
        }
    }
}

impl Bitmap {
    #[verifier::type_invariant]
    spec fn well_formed(&self) -> bool {
        &&& 0 <= self.width
        &&& 0 <= self.height
        &&& 0 <= self.stride
        &&& self.buffer@.len() == self.stride * self.height
    }

    /// A blank bitmap, every byte zero, with the layout that the engine
    /// reported. A layout that no buffer can have is refused as `Unknown`.
    pub fn new(width: i32, height: i32, stride: i32, format: u32) -> (res: Result<
        Bitmap,
        PDFiumError,
    >)
        ensures
            res is Ok <==> layout_fits(width as int, height as int, stride as int),
            match res {
                Ok(b) => b@ == (BitmapView {
                    width: width as int,
                    height: height as int,
                    stride: stride as int,
                    format,
                    buffer: Seq::new((stride * height) as nat, |i: int| 0u8),
                }),
                Err(e) => e == PDFiumError::Unknown,
            },
    {
        if width < 0 || height < 0 || stride < 0 {
            return Err(PDFiumError::Unknown);
        }
        match (stride as usize).checked_mul(height as usize) {
            None => Err(PDFiumError::Unknown),
            Some(n) => {
                let buffer: Vec<u8> = vec![0u8; n];
                assert(buffer@ =~= Seq::new((stride * height) as nat, |i: int| 0u8));
                Ok(Bitmap { width, height, stride, format, buffer })
            },
        }
    }

    /// A BGRA bitmap over the pixels of a decoded image of `width` by
    /// `height` pixels, in rows of `stride` bytes. The pixels must fill the
    /// buffer exactly: anything else is refused as `Unknown`.
    pub fn from_bgra(width: u32, height: u32, pixels: &[u8], stride: i32) -> (res: Result<
        Bitmap,
        PDFiumError,
    >)
        ensures
            res is Ok <==> width <= i32::MAX && height <= i32::MAX && 0 <= stride && pixels@.len()
                == stride * height,
            match res {
                Ok(b) => b@ == (BitmapView {
                    width: width as int,
                    height: height as int,
                    stride: stride as int,
                    format: FPDFBITMAP_BGRA,
                    buffer: pixels@,
                }),
                Err(e) => e == PDFiumError::Unknown,
            },
    {
        if width > 0x7fff_ffff || height > 0x7fff_ffff || stride < 0 {
            return Err(PDFiumError::Unknown);
        }
        let given: usize = pixels.len();
        match (stride as usize).checked_mul(height as usize) {
            None => Err(PDFiumError::Unknown),
            Some(wanted) => if given != wanted {
                Err(PDFiumError::Unknown)
            } else {
                Ok(
                    Bitmap {
                        width: width as i32,
                        height: height as i32,
                        stride,
                        format: FPDFBITMAP_BGRA,
                        buffer: slice_to_vec(pixels),
                    },
                )
            },
        }
    }

    /// A BGRA bitmap over a decoded image, whatever its own colour type, in
    /// rows of `stride` bytes. It is built where the sides of the image fit
    /// and its BGRA bytes fill the rows exactly, and only there; anything
    /// else is refused as `Unknown`. The bitmap has the sides and the bytes
    /// of the image's BGRA form, and where it has a row at all, a row has
    /// room for four bytes per pixel.
    pub fn new_with_image(img: DynamicImage, stride: i32) -> (res: Result<Bitmap, PDFiumError>)
        ensures
            res is Ok <==> bgra_width(img) <= i32::MAX && bgra_height(img) <= i32::MAX && 0
                <= stride && bgra_bytes(img).len() == stride * bgra_height(img),
            match res {
                Ok(b) => {
                    &&& b@ == (BitmapView {
                        width: bgra_width(img) as int,
                        height: bgra_height(img) as int,
                        stride: stride as int,
                        format: FPDFBITMAP_BGRA,
                        buffer: bgra_bytes(img),
                    })
                    &&& b@.buffer.len() == b@.stride * b@.height
                    &&& b@.height > 0 ==> b@.stride >= 4 * b@.width
                },
                Err(e) => e == PDFiumError::Unknown,
            },
    {
        let (width, height, pixels) = bgra_pixels(img);
        let res = Bitmap::from_bgra(width, height, pixels.as_slice(), stride);
        proof {
            if res is Ok && height > 0 {
                lemma_row_holds_pixels(
                    width as int,
                    height as int,
                    stride as int,
                    pixels@.len() as int,
                );
            }
        }
        res
    }

    /// Replaces the bytes of the buffer. The new bytes must be as many as
    /// the old: anything else is refused as `Unknown` and changes nothing.
    pub fn set_buffer(&mut self, bytes: &[u8]) -> (res: Result<(), PDFiumError>)
        ensures
            res is Ok <==> bytes@.len() == old(self)@.buffer.len(),
            match res {
                Ok(_) => final(self)@ == (BitmapView { buffer: bytes@, ..old(self)@ }),
                Err(e) => e == PDFiumError::Unknown && final(self)@ == old(self)@,
            },
    {
        proof {
            use_type_invariant(&*self);
        }
        if bytes.len() != self.buffer.len() {
            return Err(PDFiumError::Unknown);
        }
        self.buffer = slice_to_vec(bytes);
        Ok(())
    }

    /// Bytes per row.
    pub fn stride(&self) -> (res: i32)
        ensures
            res == self@.stride,
            res >= 0,
    {
        proof {
            use_type_invariant(self);
        }
        self.stride
    }

    /// Rows.
    pub fn height(&self) -> (res: i32)
        ensures
            res == self@.height,
            res >= 0,
    {
        proof {
            use_type_invariant(self);
        }
        self.height
    }

    /// Pixels per row.
    pub fn width(&self) -> (res: i32)
        ensures
            res == self@.width,
            res >= 0,
    {
        proof {
            use_type_invariant(self);
        }
        self.width
    }

    /// The pixel format.
    pub fn format(&self) -> (res: u32)
        ensures
            res == self@.format,
    {
        self.format
    }

    /// The length of the buffer in bytes: the stride times the height.
    pub fn len(&self) -> (res: usize)
        ensures
            res == self@.buffer.len(),
            res == self@.stride * self@.height,
    {
        proof {
            use_type_invariant(self);
        }
        self.buffer.len()
    }

    /// The whole buffer.
    pub fn buffer(&self) -> (res: &[u8])
        ensures
            res@ == self@.buffer,
            res@.len() == self@.stride * self@.height,
    {
        proof {
            use_type_invariant(self);
        }
        self.buffer.as_slice()
    }

    /// Where row `row` starts in the buffer.
    pub fn scanline_offset(&self, row: i32) -> (res: usize)
        requires
            0 <= row < self@.height,
        ensures
            res == row * self@.stride,
            res + self@.stride <= self@.buffer.len(),
    {
        proof {
            use_type_invariant(self);
            lemma_row_in_buffer(row as int, self.stride as int, self.height as int);
            assert(row * self.stride + self.stride <= self.buffer.len());
        }
        (row as usize) * (self.stride as usize)
    }

    /// The bytes of row `row`: the `stride` bytes from the row's offset on.
    pub fn scanline(&self, row: i32) -> (res: &[u8])
        requires
            0 <= row < self@.height,
        ensures
            res@ == self@.buffer.subrange(row * self@.stride, row * self@.stride + self@.stride),
    {
        let start = self.scanline_offset(row);
        proof {
            use_type_invariant(self);
            assert(start + self.stride <= self.buffer.len());
        }
        slice_subrange(self.buffer.as_slice(), start, start + self.stride as usize)
    }

    /// What a JPEG encoder is told of this bitmap's pixels, or the refusal of
    /// a format that it cannot read.
    pub fn jpeg_input(&self) -> (res: Result<JpegInput, UnknownFormat>)
        ensures
            match res {
                Ok(input) => jpeg_input_of(self@.format) == Some(input),
                Err(_) => jpeg_input_of(self@.format) is None,
            },
    {
        jpeg_input(self.format)
    }
}

proof fn lemma_row_in_buffer(row: int, stride: int, height: int)
    requires
        0 <= row < height,
        0 <= stride,
    ensures
        0 <= row * stride,
        row * stride + stride <= stride * height,
{
    assert(0 <= row * stride) by (nonlinear_arith)
        requires
            0 <= row,
            0 <= stride,
    ;
    assert(row * stride + stride <= stride * height) by (nonlinear_arith)
        requires
            0 <= row < height,
            0 <= stride,
    ;
}

/// Rows that hold a whole image between them are each long enough for one
/// row of pixels: where `height` rows of `stride` bytes hold exactly `len`
/// bytes, and `len` is at least four bytes for each of `width * height`
/// pixels, a row has at least `4 * width` bytes.
pub proof fn lemma_row_holds_pixels(width: int, height: int, stride: int, len: int)
    requires
        0 <= width,
        0 < height,
        len == stride * height,
        len >= 4 * width * height,
    ensures
        stride >= 4 * width,
{
    assert(stride >= 4 * width) by (nonlinear_arith)
        requires
            0 < height,
            stride * height >= 4 * width * height,
    ;
}

} // verus!
