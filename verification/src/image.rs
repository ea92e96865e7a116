//! Decoded images: RGBA pixels with their physical size (in pixels) and
//! logical size (before scaling), made from PNG data and resized on request.

use vstd::prelude::*;
use std::sync::Arc;
use tiny_skia::{IntSize, Pixmap as SkiaPixmap};
use rgb::FromSlice;

pub mod png;
pub mod svg;

verus! {

#[verifier::external_type_specification]
#[verifier::external_body]
pub struct ExPathBuf(std::path::PathBuf);

#[verifier::external_type_specification]
#[verifier::external_body]
pub struct ExIoError(std::io::Error);

/// `PathBuf::clone`: a path buffer that holds the same path. A `PathBuf` is
/// opaque here, so nothing is stated of the copy.
pub assume_specification[ <std::path::PathBuf as Clone>::clone ](p: &std::path::PathBuf) -> std::path::PathBuf;

/// Why an image could not be made.
#[derive(Debug)]
pub enum Error {
    Io(std::io::Error),
    DecodeError(String),
    InvalidSize,
}

/// An image: RGBA pixels, row by row, with the size in pixels and the size it
/// stands for on screen.
#[derive(Debug)]
pub struct Pixmap {
    pixels: Arc<Vec<u8>>,
    size: (u32, u32),
    logical_size: (u32, u32),
}

/// The size to resize an image to, and the filter to resize it with.
#[derive(Clone, Copy, Hash, PartialEq, Eq, Structural, Debug)]
pub struct Resize {
    pub width: u32,
    pub height: u32,
    pub filter: Filter,
}

/// Resizing filter to use.
#[derive(Clone, Copy, Hash, Eq, PartialEq, Structural, Debug)]
pub enum Filter {
    /// `Lanczos3` when shrinking both ways, `Mitchell` when growing both
    /// ways, `Catrom` otherwise.
    Auto,
    Point,
    Triangle,
    Catrom,
    Mitchell,
    BSpline,
    Gaussian,
    Lanczos3,
}

/// Whether `width` by `height` RGBA pixels make a `tiny_skia` pixmap held in
/// `len` bytes: both sides are positive, a row of bytes fits in an `i32`, the
/// whole fits in a `usize`, and `len` is exactly that.
pub open spec fn rgba_fits(width: u32, height: u32, len: nat) -> bool {
    &&& width > 0
    &&& height > 0
    &&& width * 4 <= i32::MAX
    &&& (height - 1) * (width * 4) + width * 4 <= usize::MAX
    &&& len == width * height * 4
}

/// What `tiny_skia::Pixmap::decode_png` makes of `bytes`: its width, height
/// and RGBA pixels, or `None` when it fails.
pub uninterp spec fn png_decoded(bytes: Seq<u8>) -> Option<(u32, u32, Seq<u8>)>;

/// `tiny_skia::Pixmap::decode_png(bytes)`, then the width, height and pixels
/// of the pixmap (`Pixmap::take`), or the message of the error.
///
/// The contract names the result (`png_decoded`) and states what the source
/// shows of every pixmap it returns: it ends in `Pixmap::from_vec`, so both
/// sides are positive and there are four bytes a pixel. The error message is
/// not stated.
#[verifier::external_body]
fn skia_decode_png(bytes: &[u8]) -> (r: Result<(u32, u32, Vec<u8>), String>)
    ensures
        r is Ok <==> png_decoded(bytes@) is Some,
        r matches Ok(p) ==> png_decoded(bytes@) == Some((p.0, p.1, p.2@)) && rgba_fits(
            p.0,
            p.1,
            p.2@.len(),
        ),
{
    match SkiaPixmap::decode_png(bytes) {
        Ok(pixmap) => Ok((pixmap.width(), pixmap.height(), pixmap.take())),
        Err(err) => Err(err.to_string()),
    }
}

/// `tiny_skia::IntSize::from_wh(width, height)` and, when it gives a size,
/// `tiny_skia::Pixmap::from_vec(pixels, size)`, then the pixels back
/// (`Pixmap::take`).
///
/// `from_wh` refuses a zero side; `from_vec` refuses a row of bytes that does
/// not fit in an `i32`, a total that does not fit in a `usize`, and pixels of
/// any other length; it keeps the pixels as they are.
#[verifier::external_body]
fn skia_pixmap_from_rgba(width: u32, height: u32, pixels: Vec<u8>) -> (r: Option<Vec<u8>>)
    ensures
        r is Some <==> rgba_fits(width, height, pixels@.len()),
        r matches Some(p) ==> p@ == pixels@,
{
    let size = IntSize::from_wh(width, height)?;
    SkiaPixmap::from_vec(pixels, size).map(|pixmap| pixmap.take())
}

impl Pixmap {
    #[verifier::type_invariant]
    spec fn inv(&self) -> bool {
        self.pixels@.len() == self.size.0 * self.size.1 * 4
    }

    /// The RGBA pixels, row by row.
    pub closed spec fn pixels_view(&self) -> Seq<u8> {
        self.pixels@
    }

    /// The size in pixels.
    pub closed spec fn size_view(&self) -> (u32, u32) {
        self.size
    }

    /// The size that the image stands for on screen.
    pub closed spec fn logical_size_view(&self) -> (u32, u32) {
        self.logical_size
    }

    /// The pixmap of `width` by `height` pixels `pixels`, whose logical size
    /// is its size.
    fn from_parts(width: u32, height: u32, pixels: Vec<u8>) -> (p: Self)
        requires
            pixels@.len() == width * height * 4,
        ensures
            p.pixels_view() == pixels@,
            p.size_view() == (width, height),
            p.logical_size_view() == (width, height),
    {
        Pixmap { pixels: Arc::new(pixels), size: (width, height), logical_size: (width, height) }
    }

    /// Decodes `data` into a pixmap whose logical size is its size. A file
    /// is read by the caller, and its content (or the read's error message)
    /// handed to `from_png_file`.
    ///
    /// Encoded bytes that do not decode give `DecodeError`; RGBA pixels whose
    /// size is zero, too large, or not four bytes a pixel give `InvalidSize`.
    pub fn from_png(data: png::Data) -> (r: core::result::Result<Self, Error>)
        requires
            !(data is Path),
        ensures
            r matches Ok(p) ==> p.logical_size_view() == p.size_view() && rgba_fits(
                p.size_view().0,
                p.size_view().1,
                p.pixels_view().len(),
            ),
            match data {
                png::Data::Path(_) => true,
                png::Data::Bytes(b) => png_decoded_result(b@, r),
                png::Data::StaticBytes(b) => png_decoded_result(b@, r),
                png::Data::Rgba { width, height, pixels } => {
                    &&& r is Ok <==> rgba_fits(width, height, pixels@.len())
                    &&& r matches Ok(p) ==> p.size_view() == (width, height) && p.pixels_view()
                        == pixels@
                    &&& r matches Err(e) ==> e is InvalidSize
                },
            },
    {
        let decoded = match data {
            png::Data::Path(_) => {
                proof {
                    assert(false);
                }
                return Err(Error::InvalidSize);
            },
            png::Data::Bytes(bytes) => skia_decode_png(bytes.as_slice()),
            png::Data::StaticBytes(bytes) => skia_decode_png(bytes),
            png::Data::Rgba { width, height, pixels } => {
                return match skia_pixmap_from_rgba(width, height, pixels) {
                    Some(p) => Ok(Pixmap::from_parts(width, height, p)),
                    None => Err(Error::InvalidSize),
                };
            },
        };
        match decoded {
            Ok((width, height, pixels)) => Ok(Pixmap::from_parts(width, height, pixels)),
            Err(message) => Err(Error::DecodeError(message)),
        }
    }

    /// Decodes the content of a PNG file, or passes on the error message of
    /// reading it: a pixmap whose logical size is its size, or `DecodeError`.
    pub fn from_png_file(read: core::result::Result<Vec<u8>, String>) -> (r: core::result::Result<Self, Error>)
        ensures
            match read {
                Ok(bytes) => png_decoded_result(bytes@, r),
                Err(message) => r matches Err(e) && e == Error::DecodeError(message),
            },
    {
        match read {
            Ok(bytes) => match skia_decode_png(bytes.as_slice()) {
                Ok((width, height, pixels)) => Ok(Pixmap::from_parts(width, height, pixels)),
                Err(message) => Err(Error::DecodeError(message)),
            },
            Err(message) => Err(Error::DecodeError(message)),
        }
    }

    /// The size in pixels.
    pub fn physical_size(&self) -> (s: (u32, u32))
        ensures
            s == self.size_view(),
    {
        self.size
    }

    /// The size that the image stands for on screen.
    pub fn logical_size(&self) -> (s: (u32, u32))
        ensures
            s == self.logical_size_view(),
    {
        self.logical_size
    }

    /// The RGBA pixels, row by row.
    pub fn pixels(&self) -> (p: &[u8])
        ensures
            p@ == self.pixels_view(),
    {
        self.pixels.as_slice()
    }
}

/// `r` is what `from_png` gives for the encoded bytes `bytes`: a pixmap with
/// the decoded size and pixels when they decode, `DecodeError` otherwise.
pub open spec fn png_decoded_result(bytes: Seq<u8>, r: core::result::Result<Pixmap, Error>) -> bool {
    match png_decoded(bytes) {
        Some(d) => r matches Ok(p) && p.size_view() == (d.0, d.1) && p.pixels_view() == d.2,
        None => r matches Err(e) && e is DecodeError,
    }
}

/// A filter that the `resize` crate resizes with.
#[derive(Clone, Copy, PartialEq, Eq, Structural, Debug)]
pub enum ResizeType {
    Point,
    Triangle,
    Catrom,
    Mitchell,
    BSpline,
    Gaussian,
    Lanczos3,
}

/// The filters whose kernels the `resize` crate builds from `abs`, `max` and
/// constants alone: `Point` and `Triangle`. The others are not among them:
/// `Catrom`, `Mitchell` and `BSpline` use `f32::powi`, `Gaussian` `f32::exp`
/// and `Lanczos3` `f32::sin`, whose precision is left to the platform, so
/// their results are not a function of the pixels alone.
pub open spec fn exact_filter(filter: ResizeType) -> bool {
    filter is Point || filter is Triangle
}

/// What the `resize` crate makes of the `src_width` by `src_height` RGBA
/// pixels `src` when it resizes them to `dst_width` by `dst_height` with
/// `filter`; stated only of the filters of `exact_filter`.
pub uninterp spec fn resized_rgba(
    src_width: u32,
    src_height: u32,
    dst_width: u32,
    dst_height: u32,
    filter: ResizeType,
    src: Seq<u8>,
) -> Seq<u8>;

/// Every pixel of the RGBA pixels `pixels` has the colour of the first: each
/// byte equals the byte of the first pixel in the same channel.
pub open spec fn single_color(pixels: Seq<u8>) -> bool {
    &&& pixels.len() >= 4
    &&& forall|i: int| 0 <= i < pixels.len() ==> #[trigger] pixels[i] == pixels[i % 4]
}

/// Neither side shrinks more than 64-fold from `src` to `dst` pixels.
pub open spec fn moderate_shrink(src_width: u32, src_height: u32, dst_width: u32, dst_height: u32) -> bool {
    &&& src_width <= 64 * dst_width
    &&& src_height <= 64 * dst_height
}

/// A resize of a single-coloured image, whatever the filter, is of that
/// single colour again, and an opaque one stays opaque: `resized` holds
/// whole pixels, each byte the byte of `src` in the same channel, as
/// `Pixmap::resize` gives it.
pub proof fn law_single_color_resize(src: Seq<u8>, resized: Seq<u8>)
    requires
        single_color(src),
        resized.len() >= 4,
        forall|i: int| 0 <= i < resized.len() ==> #[trigger] resized[i] == src[i % 4],
    ensures
        single_color(resized),
        forall|i: int| 0 <= i < 4 ==> #[trigger] resized[i] == src[i],
        src[3] == 255 ==> forall|i: int| 0 <= i < resized.len() && i % 4 == 3 ==> #[trigger] resized[i] == 255,
{
    assert forall|i: int| 0 <= i < resized.len() implies #[trigger] resized[i] == resized[i % 4] by {
        assert(resized[i % 4] == src[(i % 4) % 4]);
    }
    assert forall|i: int| 0 <= i < 4 implies #[trigger] resized[i] == src[i] by {
        assert(i % 4 == i);
    }
}

/// `resize::new(.., resize::Pixel::RGBA8, filter)` and `Resizer::resize` of
/// `src` into `dst`, both seen as RGBA pixels (`rgb::FromSlice`). Returns
/// whether both succeeded.
///
/// The contract names the resized pixels (`resized_rgba`) for the filters
/// whose kernels use no platform float function (`exact_filter`); of the
/// others, whose results rest on the platform's `powi`, `exp` or `sin`, it
/// states only what holds of every outcome. `resize::new` refuses a zero side, so success
/// means every side is positive. Failure (also when memory runs out, or `src`
/// or `dst` is not of the right length) states nothing of `dst`.
///
/// Of every filter it states that an image of a single colour resizes to
/// that colour, when no side shrinks more than 64-fold: `Scale::new` divides
/// each kernel weight by the sum of the weights of its window (all positive
/// sums: the nearest sample lies within half a pixel, where every kernel is
/// positive), so each output channel is the input channel times a sum of
/// `f32` weights within a relative `1e-4` of one at these ratios (at most a
/// few hundred weights a side), and `from_float` rounds it to the nearest
/// byte (`(f + 0.5) as u8`, saturating at 255). `RGBA8` scales the channels
/// independently, with no premultiplication.
#[verifier::external_body]
fn resize_rgba(
    src_width: u32,
    src_height: u32,
    dst_width: u32,
    dst_height: u32,
    filter: ResizeType,
    src: &[u8],
    dst: &mut [u8],
) -> (ok: bool)
    ensures
        ok ==> src_width > 0 && src_height > 0 && dst_width > 0 && dst_height > 0,
        ok && exact_filter(filter) ==> final(dst)@ == resized_rgba(
            src_width,
            src_height,
            dst_width,
            dst_height,
            filter,
            src@,
        ),
        final(dst)@.len() == old(dst)@.len(),
        ok && single_color(src@) && src@.len() == src_width * src_height * 4 && old(dst)@.len()
            == dst_width * dst_height * 4 && moderate_shrink(src_width, src_height, dst_width, dst_height)
            ==> forall|i: int| 0 <= i < final(dst)@.len() ==> #[trigger] final(dst)@[i] == src@[i % 4],
{
    let kind = match filter {
        ResizeType::Point => resize::Type::Point,
        ResizeType::Triangle => resize::Type::Triangle,
        ResizeType::Catrom => resize::Type::Catrom,
        ResizeType::Mitchell => resize::Type::Mitchell,
        ResizeType::BSpline => resize::Type::BSpline,
        ResizeType::Gaussian => resize::Type::Gaussian,
        ResizeType::Lanczos3 => resize::Type::Lanczos3,
    };
    let (w1, h1, w2, h2) = (src_width as usize, src_height as usize, dst_width as usize, dst_height as usize);
    match resize::new(w1, h1, w2, h2, resize::Pixel::RGBA8, kind) {
        Ok(mut resizer) => resizer.resize(src.as_rgba(), dst.as_rgba_mut()).is_ok(),
        Err(_) => false,
    }
}

/// `Arc::clone`: another pointer to the same pixels.
#[verifier::external_body]
fn share_pixels(pixels: &Arc<Vec<u8>>) -> (r: Arc<Vec<u8>>)
    ensures
        r == *pixels,
{
    Arc::clone(pixels)
}

/// The filter that resizing an image of `size` pixels with `resize` uses:
/// for `Auto`, `Lanczos3` when both sides shrink, `Mitchell` when both grow,
/// `Catrom` otherwise; any other filter is used as it is.
pub open spec fn filter_for(size: (u32, u32), resize: Resize) -> ResizeType {
    match resize.filter {
        Filter::Auto => if size.0 > resize.width && size.1 > resize.height {
            ResizeType::Lanczos3
        } else if size.0 < resize.width && size.1 < resize.height {
            ResizeType::Mitchell
        } else {
            ResizeType::Catrom
        },
        Filter::Point => ResizeType::Point,
        Filter::Triangle => ResizeType::Triangle,
        Filter::Catrom => ResizeType::Catrom,
        Filter::Mitchell => ResizeType::Mitchell,
        Filter::BSpline => ResizeType::BSpline,
        Filter::Gaussian => ResizeType::Gaussian,
        Filter::Lanczos3 => ResizeType::Lanczos3,
    }
}

/// The filter that resizing an image of `size` pixels with `resize` uses.
pub fn resize_filter(size: (u32, u32), resize: Resize) -> (t: ResizeType)
    ensures
        t == filter_for(size, resize),
{
    match resize.filter {
        Filter::Auto => {
            if size.0 > resize.width && size.1 > resize.height {
                ResizeType::Lanczos3
            } else if size.0 < resize.width && size.1 < resize.height {
                ResizeType::Mitchell
            } else {
                ResizeType::Catrom
            }
        },
        Filter::Point => ResizeType::Point,
        Filter::Triangle => ResizeType::Triangle,
        Filter::Catrom => ResizeType::Catrom,
        Filter::Mitchell => ResizeType::Mitchell,
        Filter::BSpline => ResizeType::BSpline,
        Filter::Gaussian => ResizeType::Gaussian,
        Filter::Lanczos3 => ResizeType::Lanczos3,
    }
}

impl Clone for Pixmap {
    /// Another pixmap that shares the pixels of this one.
    fn clone(&self) -> (p: Self)
        ensures
            p.pixels_view() == self.pixels_view(),
            p.size_view() == self.size_view(),
            p.logical_size_view() == self.logical_size_view(),
    {
        proof {
            use_type_invariant(self);
        }
        Pixmap { pixels: share_pixels(&self.pixels), size: self.size, logical_size: self.logical_size }
    }
}

impl Pixmap {
    /// The image resized to `resize.width` by `resize.height`, which then is
    /// both its size and its logical size. An image whose logical size is
    /// already that is returned as it is. `None` when the `resize` crate
    /// fails, which it does for a zero side. The resized pixels are stated
    /// for the filters of `exact_filter` (`Point` and `Triangle`); for the
    /// others, whose kernels use platform float functions, their length, and
    /// that an image of a single colour keeps its colour when no side shrinks
    /// more than 64-fold.
    pub fn resize(&self, resize: Resize) -> (r: Option<Self>)
        requires
            resize.width * resize.height * 4 <= usize::MAX,
        ensures
            self.logical_size_view() == (resize.width, resize.height) ==> (r matches Some(p)
                && p.pixels_view() == self.pixels_view() && p.size_view() == self.size_view()
                && p.logical_size_view() == self.logical_size_view()),
            self.logical_size_view() != (resize.width, resize.height) ==> {
                &&& r matches Some(p) ==> {
                    &&& p.size_view() == (resize.width, resize.height)
                    &&& p.logical_size_view() == (resize.width, resize.height)
                    &&& p.pixels_view().len() == resize.width * resize.height * 4
                    &&& exact_filter(filter_for(self.size_view(), resize)) ==> p.pixels_view() == resized_rgba(
                        self.size_view().0,
                        self.size_view().1,
                        resize.width,
                        resize.height,
                        filter_for(self.size_view(), resize),
                        self.pixels_view(),
                    )
                }
                &&& (resize.width == 0 || resize.height == 0 || self.size_view().0 == 0
                    || self.size_view().1 == 0) ==> r is None
            },
            r matches Some(p) ==> (single_color(self.pixels_view()) && moderate_shrink(
                self.size_view().0,
                self.size_view().1,
                resize.width,
                resize.height,
            ) ==> forall|i: int| 0 <= i < p.pixels_view().len() ==> #[trigger] p.pixels_view()[i]
                == self.pixels_view()[i % 4]),
    {
        proof {
            use_type_invariant(self);
        }
        if self.logical_size.0 == resize.width && self.logical_size.1 == resize.height {
            return Some(self.clone());
        }
        let width = resize.width as usize;
        let height = resize.height as usize;
        let mut buf: Vec<u8> = vec![0u8; width * height * 4];
        let filter = resize_filter(self.size, resize);
        let ok = resize_rgba(
            self.size.0,
            self.size.1,
            resize.width,
            resize.height,
            filter,
            self.pixels.as_slice(),
            buf.as_mut_slice(),
        );
        if !ok {
            return None;
        }
        Some(
            Pixmap {
                pixels: Arc::new(buf),
                size: (resize.width, resize.height),
                logical_size: (resize.width, resize.height),
            },
        )
    }
}

impl Pixmap {
    /// The pixels, shared: a cache keeps a weak pointer to them.
    pub fn shared_pixels(&self) -> (p: Arc<Vec<u8>>)
        ensures
            p@ == self.pixels_view(),
    {
        share_pixels(&self.pixels)
    }

    /// The pixmap of the shared pixels `pixels` with sizes `size` and
    /// `logical_size`; `None` when `pixels` does not hold as many bytes as
    /// `size` asks for.
    pub fn from_shared(pixels: Arc<Vec<u8>>, size: (u32, u32), logical_size: (u32, u32)) -> (r:
        Option<Self>)
        ensures
            r is Some <==> pixels@.len() == size.0 * size.1 * 4,
            r matches Some(p) ==> p.pixels_view() == pixels@ && p.size_view() == size
                && p.logical_size_view() == logical_size,
    {
        let w = size.0 as u128;
        let h = size.1 as u128;
        assert(w * h <= 0xffff_ffff * 0xffff_ffff) by (nonlinear_arith)
            requires
                w <= 0xffff_ffff,
                h <= 0xffff_ffff,
        ;
        let expected = w * h * 4;
        if pixels.len() as u128 != expected {
            return None;
        }
        Some(Pixmap { pixels, size, logical_size })
    }
}

/// `pixels` with the first and third byte of every four swapped: RGBA to
/// BGRA, or back.
pub open spec fn swapped_red_blue(pixels: Seq<u8>) -> Seq<u8> {
    Seq::new(
        pixels.len(),
        |i: int|
            if i % 4 == 0 {
                pixels[i + 2]
            } else if i % 4 == 2 {
                pixels[i - 2]
            } else {
                pixels[i]
            },
    )
}

/// Swaps the first and third byte of every pixel of `pixels`.
pub fn swap_red_blue(pixels: &mut Vec<u8>)
    requires
        old(pixels)@.len() % 4 == 0,
    ensures
        final(pixels)@ == swapped_red_blue(old(pixels)@),
{
    let n = pixels.len();
    let mut i: usize = 0;
    while i < n
        invariant
            n == pixels@.len(),
            n == old(pixels)@.len(),
            n % 4 == 0,
            i % 4 == 0,
            i <= n,
            forall|j: int| 0 <= j < i ==> #[trigger] pixels@[j] == swapped_red_blue(old(pixels)@)[j],
            forall|j: int| i <= j < n ==> #[trigger] pixels@[j] == old(pixels)@[j],
        decreases n - i,
    {
        let r = pixels[i];
        let b = pixels[i + 2];
        pixels.set(i, b);
        pixels.set(i + 2, r);
        i = i + 4;
    }
}

impl Pixmap {
    /// The pixmap of an SVG image rendered to `size` pixels (RGBA), whose
    /// size before scaling is `logical_size`: the red and blue bytes of every
    /// pixel are swapped.
    pub fn from_rendered_svg(pixels: Vec<u8>, size: (u32, u32), logical_size: (u32, u32)) -> (p: Self)
        requires
            pixels@.len() == size.0 * size.1 * 4,
        ensures
            p.pixels_view() == swapped_red_blue(pixels@),
            p.size_view() == size,
            p.logical_size_view() == logical_size,
    {
        let mut pixels = pixels;
        proof {
            assert((size.0 * size.1 * 4) % 4 == 0) by (nonlinear_arith);
        }
        swap_red_blue(&mut pixels);
        Pixmap { pixels: Arc::new(pixels), size, logical_size }
    }
}

} // verus!
