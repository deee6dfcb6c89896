//! Decoded preview images and the arithmetic of preview scaling.
//!
//! A preview is a small opaque four-channel raster whose three color
//! channels replicate one gray value, so previews visually approximate
//! the grayscale print output.

use vstd::prelude::*;
use vstd::arithmetic::div_mod::{lemma_div_is_ordered, lemma_div_multiples_vanish};
use vstd::arithmetic::mul::lemma_mul_upper_bound;
use crate::errors::DecodeError;

verus! {

/// The opaque four-channel expansion of one-byte-per-pixel gray values:
/// pixel `k` becomes the four bytes `[gray[k], gray[k], gray[k], 255]`.
pub open spec fn opaque_rgba(gray: Seq<u8>) -> Seq<u8> {
    Seq::new(
        4 * gray.len(),
        |i: int|
            if i % 4 == 3 {
                255u8
            } else {
                gray[i / 4]
            },
    )
}

/// Pixel data in which every pixel is four bytes `[g, g, g, 255]`.
pub open spec fn is_opaque_gray(pixels: Seq<u8>) -> bool {
    forall|k: int|
        0 <= k && 4 * k + 3 < pixels.len() ==> {
            &&& #[trigger] pixels[4 * k + 1] == pixels[4 * k]
            &&& pixels[4 * k + 2] == pixels[4 * k]
            &&& pixels[4 * k + 3] == 255
        }
}

/// A decoded, scaled-down preview of a photo, ready for display.
pub struct PreviewImage {
    /// Width in pixels.
    pub width: u32,
    /// Height in pixels.
    pub height: u32,
    /// Row-major RGBA bytes, four per pixel.
    pub pixels: Vec<u8>,
}

impl PreviewImage {
    /// The raster holds exactly its advertised pixels, each an opaque gray.
    pub open spec fn wf(&self) -> bool {
        &&& self.pixels@.len() == 4 * (self.width as int) * (self.height as int)
        &&& is_opaque_gray(self.pixels@)
    }
}

/// The dimensions of a preview scaled from `width` by `height` so that the
/// larger side becomes exactly `max_dim` and the aspect ratio is kept.
pub open spec fn spec_preview_dims(width: int, height: int, max_dim: int) -> (int, int) {
    if width > height {
        (max_dim, height * max_dim / width)
    } else {
        (width * max_dim / height, max_dim)
    }
}

/// Computes the preview dimensions for a photo of the given size: the
/// larger side is scaled to exactly `max_dim` and the other side is scaled
/// by the same factor, rounding down.
pub fn preview_dims(width: u32, height: u32, max_dim: u32) -> (dims: (u32, u32))
    requires
        width > 0,
        height > 0,
    ensures
        (dims.0 as int, dims.1 as int) == spec_preview_dims(
            width as int,
            height as int,
            max_dim as int,
        ),
        dims.0 <= max_dim && dims.1 <= max_dim,
{
    let w = width as u64;
    let h = height as u64;
    let m = max_dim as u64;
    if width > height {
        proof {
            lemma_mul_upper_bound(h as int, u32::MAX as int, m as int, u32::MAX as int);
            assert(h as int * m as int <= w as int * m as int) by (nonlinear_arith)
                requires h < w, 0 <= m;
            lemma_div_is_ordered(h as int * m as int, w as int * m as int, w as int);
            lemma_div_multiples_vanish(m as int, w as int);
        }
        let scaled = (h * m) / w;
        (max_dim, scaled as u32)
    } else {
        proof {
            lemma_mul_upper_bound(w as int, u32::MAX as int, m as int, u32::MAX as int);
            assert(w as int * m as int <= h as int * m as int) by (nonlinear_arith)
                requires w <= h, 0 <= m;
            lemma_div_is_ordered(w as int * m as int, h as int * m as int, h as int);
            lemma_div_multiples_vanish(m as int, h as int);
        }
        let scaled = (w * m) / h;
        (scaled as u32, max_dim)
    }
}

/// Expands one-byte-per-pixel gray values into opaque four-channel pixels:
/// every gray value is replicated into three color channels and paired
/// with full opacity.
pub fn expand_gray_to_rgba(gray: &Vec<u8>) -> (rgba: Vec<u8>)
    requires
        4 * gray@.len() <= usize::MAX,
    ensures
        rgba@.len() == 4 * gray@.len(),
        rgba@ == opaque_rgba(gray@),
        forall|k: int|
            0 <= k < gray@.len() ==> {
                &&& #[trigger] rgba@[4 * k] == gray@[k]
                &&& rgba@[4 * k + 1] == gray@[k]
                &&& rgba@[4 * k + 2] == gray@[k]
                &&& rgba@[4 * k + 3] == 255
            },
        is_opaque_gray(rgba@),
{
    let mut rgba: Vec<u8> = Vec::new();
    let mut i: usize = 0;
    while i < gray.len()
        invariant
            i <= gray@.len(),
            4 * gray@.len() <= usize::MAX,
            rgba@.len() == 4 * i,
            forall|k: int|
                0 <= k < i ==> {
                    &&& #[trigger] rgba@[4 * k] == gray@[k]
                    &&& rgba@[4 * k + 1] == gray@[k]
                    &&& rgba@[4 * k + 2] == gray@[k]
                    &&& rgba@[4 * k + 3] == 255
                },
        decreases gray@.len() - i,
    {
        let g = gray[i];
        let ghost before = rgba@;
        rgba.push(g);
        rgba.push(g);
        rgba.push(g);
        rgba.push(255);
        proof {
            assert forall|k: int| 0 <= k < i + 1 implies {
                &&& #[trigger] rgba@[4 * k] == gray@[k]
                &&& rgba@[4 * k + 1] == gray@[k]
                &&& rgba@[4 * k + 2] == gray@[k]
                &&& rgba@[4 * k + 3] == 255
            } by {
                if k < i {
                    assert(rgba@[4 * k] == before[4 * k]);
                    assert(rgba@[4 * k + 1] == before[4 * k + 1]);
                    assert(rgba@[4 * k + 2] == before[4 * k + 2]);
                    assert(rgba@[4 * k + 3] == before[4 * k + 3]);
                } else {
                    assert(rgba@[4 * k] == g);
                    assert(rgba@[4 * k + 1] == g);
                    assert(rgba@[4 * k + 2] == g);
                    assert(rgba@[4 * k + 3] == 255);
                }
            }
        }
        i = i + 1;
    }
    proof {
        assert forall|j: int| 0 <= j < rgba@.len() implies rgba@[j] == opaque_rgba(gray@)[j] by {
            let k = j / 4;
            let r = j % 4;
            assert(j == 4 * k + r);
            assert(rgba@[4 * k] == gray@[k]);
            if r == 1 {
                assert(rgba@[4 * k + 1] == gray@[k]);
            } else if r == 2 {
                assert(rgba@[4 * k + 2] == gray@[k]);
            } else if r == 3 {
                assert(rgba@[4 * k + 3] == 255);
            }
        }
        assert(rgba@ =~= opaque_rgba(gray@));
    }
    rgba
}

#[verifier::external_type_specification]
#[verifier::external_body]
pub struct ExDynamicImage(image::DynamicImage);

#[verifier::external_type_specification]
#[verifier::external_body]
pub struct ExImageError(image::ImageError);

/// The width in pixels of a decoded image.
pub uninterp spec fn image_width(img: image::DynamicImage) -> u32;

/// The height in pixels of a decoded image.
pub uninterp spec fn image_height(img: image::DynamicImage) -> u32;

/// The 8-bit grayscale rendering of a decoded image, one byte per pixel,
/// row-major.
pub uninterp spec fn image_gray(img: image::DynamicImage) -> Seq<u8>;

/// Whether the bytes decode as a raster image; decoding is a function of
/// the bytes alone.
pub uninterp spec fn decodable(bytes: Seq<u8>) -> bool;

/// The width in pixels of the image the bytes decode to.
pub uninterp spec fn decoded_width(bytes: Seq<u8>) -> u32;

/// The height in pixels of the image the bytes decode to.
pub uninterp spec fn decoded_height(bytes: Seq<u8>) -> u32;

/// The 8-bit grayscale rendering of the image the bytes decode to.
pub uninterp spec fn decoded_gray(bytes: Seq<u8>) -> Seq<u8>;

/// The 8-bit grayscale rendering of the image scaled to exactly `w` by
/// `h` pixels; a function of the image value and the dimensions alone.
pub uninterp spec fn resized_gray(img: image::DynamicImage, w: u32, h: u32) -> Seq<u8>;

/// Relies on image::load_from_memory: decodes photo bytes into a raster
/// image, guessing the format; the outcome and the decoded pixels are a
/// function of the bytes alone.
#[verifier::external_body]
fn decode_image(bytes: &[u8]) -> (decoded: Result<image::DynamicImage, image::ImageError>)
    ensures
        decoded is Ok <==> decodable(bytes@),
        decoded matches Ok(img) ==> image_width(img) == decoded_width(bytes@) && image_height(img)
            == decoded_height(bytes@) && image_gray(img) == decoded_gray(bytes@),
{
    image::load_from_memory(bytes)
}

/// Relies on image::DynamicImage::width.
#[verifier::external_body]
fn width_of(img: &image::DynamicImage) -> (w: u32)
    ensures
        w == image_width(*img),
{
    img.width()
}

/// Relies on image::DynamicImage::height.
#[verifier::external_body]
fn height_of(img: &image::DynamicImage) -> (h: u32)
    ensures
        h == image_height(*img),
{
    img.height()
}

/// Relies on image::DynamicImage::grayscale and
/// image::DynamicImage::to_luma8: the single-channel grayscale pixels of
/// the image, one byte per pixel, row-major.
#[verifier::external_body]
fn grayscale_pixels(img: &image::DynamicImage) -> (gray: Vec<u8>)
    ensures
        gray@ == image_gray(*img),
        gray@.len() == image_width(*img) * image_height(*img),
{
    img.grayscale().to_luma8().into_raw()
}

/// Relies on image::DynamicImage::resize_exact: a resized copy with
/// exactly the requested dimensions, whose pixels are a function of the
/// source image and the dimensions alone.
#[verifier::external_body]
fn resize_image(img: &image::DynamicImage, w: u32, h: u32) -> (resized: image::DynamicImage)
    requires
        w >= 1,
        h >= 1,
    ensures
        image_width(resized) == w,
        image_height(resized) == h,
        image_gray(resized) == resized_gray(*img, w, h),
{
    img.resize_exact(w, h, image::imageops::FilterType::Lanczos3)
}

/// Decodes the bytes of a photo file into a raster image. Succeeds
/// exactly when the bytes are a valid, supported raster image; anything
/// else is reported as undecodable.
pub fn decode_photo(bytes: &[u8]) -> (decoded: Result<image::DynamicImage, DecodeError>)
    ensures
        decoded is Ok <==> decodable(bytes@),
        decoded matches Err(failure) ==> failure == DecodeError::Undecodable,
        decoded matches Ok(img) ==> image_width(img) == decoded_width(bytes@) && image_height(img)
            == decoded_height(bytes@) && image_gray(img) == decoded_gray(bytes@),
{
    match decode_image(bytes) {
        Ok(img) => Ok(img),
        Err(_) => Err(DecodeError::Undecodable),
    }
}

/// The grayscale pixels of a decoded photo together with its dimensions,
/// exactly as the print overlay embeds them.
pub fn photo_to_gray(img: &image::DynamicImage) -> (gray: (u32, u32, Vec<u8>))
    ensures
        gray.0 == image_width(*img),
        gray.1 == image_height(*img),
        gray.2@ == image_gray(*img),
        gray.2@.len() == image_width(*img) * image_height(*img),
{
    (width_of(img), height_of(img), grayscale_pixels(img))
}

/// Builds the preview of a decoded photo: scales it so that its larger
/// side becomes exactly `max_dim` with the aspect ratio preserved,
/// renders it in grayscale, and expands it to opaque four-channel
/// pixels. Fails only for an image one of whose preview dimensions would
/// be zero. `max_dim` is bounded so that the four bytes per preview
/// pixel always stay addressable.
pub fn preview_from_image(img: &image::DynamicImage, max_dim: u32) -> (preview: Result<
    PreviewImage,
    DecodeError,
>)
    requires
        1 <= max_dim <= 10000,
    ensures
        match preview {
            Ok(p) => {
                &&& image_width(*img) > 0 && image_height(*img) > 0
                &&& (p.width as int, p.height as int) == spec_preview_dims(
                    image_width(*img) as int,
                    image_height(*img) as int,
                    max_dim as int,
                )
                &&& p.pixels@ == opaque_rgba(resized_gray(*img, p.width, p.height))
                &&& p.wf()
            },
            Err(failure) => failure == DecodeError::Undecodable && (image_width(*img) == 0
                || image_height(*img) == 0 || spec_preview_dims(
                image_width(*img) as int,
                image_height(*img) as int,
                max_dim as int,
            ).0 == 0 || spec_preview_dims(
                image_width(*img) as int,
                image_height(*img) as int,
                max_dim as int,
            ).1 == 0),
        },
{
    let w = width_of(img);
    let h = height_of(img);
    if w == 0 || h == 0 {
        return Err(DecodeError::Undecodable);
    }
    let dims = preview_dims(w, h, max_dim);
    let (pw, ph) = dims;
    if pw == 0 || ph == 0 {
        return Err(DecodeError::Undecodable);
    }
    let resized = resize_image(img, pw, ph);
    let gray = grayscale_pixels(&resized);
    proof {
        assert(pw as int * ph as int <= 10000 * 10000) by (nonlinear_arith)
            requires
                0 <= pw <= 10000,
                0 <= ph <= 10000,
        ;
    }
    let rgba = expand_gray_to_rgba(&gray);
    proof {
        assert(4 * (pw as int) * (ph as int) == 4 * (pw as int * ph as int)) by (nonlinear_arith);
    }
    Ok(PreviewImage { width: pw, height: ph, pixels: rgba })
}

} // verus!
