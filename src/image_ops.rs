//! The calls into the `image` crate that the compositor makes. Each one is a
//! trusted item: its contract restates what the crate's source shows.
use vstd::prelude::*;

verus! {

#[verifier::external_type_specification]
#[verifier::external_body]
pub struct ExDynamicImage(image::DynamicImage);

#[verifier::external_type_specification]
#[verifier::external_body]
pub struct ExImageError(image::ImageError);

/// The (width, height) in pixels that `GenericImageView::dimensions` reports
/// for an image.
pub uninterp spec fn image_dims(img: image::DynamicImage) -> (u32, u32);

/// Whether an image stores 32-bit float samples (`ImageRgb32F` or
/// `ImageRgba32F`).
pub uninterp spec fn has_float_samples(img: image::DynamicImage) -> bool;

/// The canvas that `DynamicImage::new_rgba8(w, h)` returns.
pub uninterp spec fn blank_of(w: u32, h: u32) -> image::DynamicImage;

/// The image that `DynamicImage::resize_exact(w, h, Lanczos3)` returns.
pub uninterp spec fn resized_of(img: image::DynamicImage, w: u32, h: u32) -> image::DynamicImage;

/// The image that `DynamicImage::crop_imm(x, y, w, h)` returns.
pub uninterp spec fn cropped_of(img: image::DynamicImage, x: u32, y: u32, w: u32, h: u32) ->
    image::DynamicImage;

/// The canvas after a successful `GenericImage::copy_from(tile, x, y)`.
pub uninterp spec fn pasted_of(canvas: image::DynamicImage, tile: image::DynamicImage, x: u32, y: u32) ->
    image::DynamicImage;

/// Relies on `GenericImageView::dimensions` of `DynamicImage`: the size of the
/// underlying buffer.
#[verifier::external_body]
pub(crate) fn dimensions(img: &image::DynamicImage) -> (r: (u32, u32))
    ensures
        r == image_dims(*img),
{
    image::GenericImageView::dimensions(img)
}

/// Relies on the variants of `DynamicImage`: only `ImageRgb32F` and
/// `ImageRgba32F` hold float samples.
#[verifier::external_body]
pub(crate) fn is_float_image(img: &image::DynamicImage) -> (r: bool)
    ensures
        r == has_float_samples(*img),
{
    matches!(img, image::DynamicImage::ImageRgb32F(_) | image::DynamicImage::ImageRgba32F(_))
}

/// Relies on `DynamicImage::new_rgba8`: a zeroed 8-bit RGBA buffer of exactly
/// `w` by `h` pixels. It panics where `4 * w`, or then `4 * w * h`, overflows
/// `usize`.
#[verifier::external_body]
pub(crate) fn blank_canvas(w: u32, h: u32) -> (r: image::DynamicImage)
    requires
        4 * w <= usize::MAX,
        4 * w * h <= usize::MAX,
    ensures
        r == blank_of(w, h),
        image_dims(r) == (w, h),
        !has_float_samples(r),
{
    image::DynamicImage::new_rgba8(w, h)
}

/// Relies on `DynamicImage::resize_exact` with the Lanczos3 filter: the result
/// is exactly `w` by `h` pixels, with the same sample type. The source and the
/// target must each hold at least one pixel: the sampling loops assume one.
/// The buffers it allocates, a float RGBA one of the source width by `h` and
/// one of `w` by `h` with at most four channels, must have lengths that fit
/// `usize`, or `ImageBuffer::new` panics.
#[verifier::external_body]
pub(crate) fn resize_lanczos(img: &image::DynamicImage, w: u32, h: u32) -> (r: image::DynamicImage)
    requires
        image_dims(*img).0 > 0,
        image_dims(*img).1 > 0,
        w > 0,
        h > 0,
        4 * image_dims(*img).0 <= usize::MAX,
        4 * image_dims(*img).0 * h <= usize::MAX,
        4 * w <= usize::MAX,
        4 * w * h <= usize::MAX,
    ensures
        r == resized_of(*img, w, h),
        image_dims(r) == (w, h),
        has_float_samples(r) == has_float_samples(*img),
{
    img.resize_exact(w, h, image::imageops::FilterType::Lanczos3)
}

/// The size of `crop_imm(x, y, w, h)` on an image of size `dims`: the
/// rectangle clamped to the image.
pub open spec fn crop_dims(dims: (u32, u32), x: u32, y: u32, w: u32, h: u32) -> (u32, u32) {
    let cx = if x <= dims.0 { x } else { dims.0 };
    let cy = if y <= dims.1 { y } else { dims.1 };
    (
        if w <= (dims.0 - cx) as u32 { w } else { (dims.0 - cx) as u32 },
        if h <= (dims.1 - cy) as u32 { h } else { (dims.1 - cy) as u32 },
    )
}

/// Relies on `DynamicImage::crop_imm`: a copy of the `w` by `h` rectangle at
/// (`x`, `y`), clamped to the image, with the same sample type.
#[verifier::external_body]
pub(crate) fn crop(img: &image::DynamicImage, x: u32, y: u32, w: u32, h: u32) -> (r:
    image::DynamicImage)
    ensures
        r == cropped_of(*img, x, y, w, h),
        image_dims(r) == crop_dims(image_dims(*img), x, y, w, h),
        has_float_samples(r) == has_float_samples(*img),
{
    img.crop_imm(x, y, w, h)
}

/// Relies on `GenericImage::copy_from` of `DynamicImage`: it fails, copying
/// nothing, unless `tile` placed at (`x`, `y`) lies inside `canvas`; the
/// canvas keeps its size and sample type. Each tile pixel is read as 8-bit
/// RGBA, a conversion that panics on a float NaN sample, so float tiles are
/// left out.
#[verifier::external_body]
pub(crate) fn paste(canvas: &mut image::DynamicImage, tile: &image::DynamicImage, x: u32, y: u32) -> (r:
    Result<(), image::ImageError>)
    requires
        !has_float_samples(*tile),
        image_dims(*tile).0 + x <= u32::MAX,
        image_dims(*tile).1 + y <= u32::MAX,
    ensures
        image_dims(*final(canvas)) == image_dims(*old(canvas)),
        has_float_samples(*final(canvas)) == has_float_samples(*old(canvas)),
        r is Ok <==> (image_dims(*tile).0 + x <= image_dims(*old(canvas)).0 && image_dims(
            *tile,
        ).1 + y <= image_dims(*old(canvas)).1),
        r is Ok ==> *final(canvas) == pasted_of(*old(canvas), *tile, x, y),
        r is Err ==> *final(canvas) == *old(canvas),
{
    image::GenericImage::copy_from(canvas, tile, x, y)
}

} // verus!
