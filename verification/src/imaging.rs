//! The calls into the picture and metadata crates, each behind a small
//! trusted item whose contract says what the crate's source shows of it.
use vstd::prelude::*;
use vstd::multiset::Multiset;
use image::DynamicImage;
use little_exif::metadata::Metadata;

verus! {

/// A decoded picture of the `image` crate; opaque here.
#[verifier::external_type_specification]
#[verifier::external_body]
pub struct ExDynamicImage(DynamicImage);

/// The EXIF metadata of a picture file, of the `little_exif` crate; opaque here.
#[verifier::external_type_specification]
#[verifier::external_body]
pub struct ExMetadata(Metadata);

/// The bytes of the thumbnail that `image::imageops::thumbnail` makes, at
/// `width` by `height`, of a picture of size `size` with the RGBA pixels
/// `pixels`: RGBA, four bytes a pixel, row by row. The crate reads a picture
/// only through its size and `get_pixel`, so these determine the result.
pub uninterp spec fn thumbnail_bytes(
    pixels: Map<(int, int), (u8, u8, u8, u8)>,
    size: (nat, nat),
    width: u32,
    height: u32,
) -> Seq<u8>;

/// The channel sums of every thumbnail pixel fit the crate's `u32`
/// accumulator. The crate adds up each channel of a block of source pixels
/// in a `u32` (`ThumbnailSum`, `thumbnail_sample_block`); a block spans at
/// most about `w / width + 1` columns and `h / height + 1` rows, give or take
/// the rounding of its `f32` block edges, which stays below a few pixels for
/// sides up to 2^24. This bound leaves that slack: it is a sufficient
/// condition, somewhat narrower than the exact one, which rests on `f32`
/// rounding.
pub open spec fn thumbnail_sums_fit(img: DynamicImage, width: u32, height: u32) -> bool {
    let (w, h) = picture_size(img);
    ||| w == 0
    ||| h == 0
    ||| width == 0
    ||| height == 0
    ||| (w <= 16777216 && h <= 16777216 && 256 * (w / (width as nat) + 8) * (h / (height as nat) + 8)
        <= u32::MAX)
}

/// Calls `image::imageops::thumbnail` on `img` with the size `width` by
/// `height`, and hands out its RGBA bytes with `ImageBuffer::into_vec`.
/// The crate allocates the buffer with `ImageBuffer::new`, four bytes a
/// pixel, which panics where that size overflows `usize`; it adds channel
/// values in a `u32`, which overflows on huge blocks (see
/// [`thumbnail_sums_fit`]). The bytes are [`thumbnail_bytes`] of the
/// picture's pixels and size at the asked size, four to a pixel; how the
/// crate averages them in floating point is not spelled out here.
#[verifier::external_body]
pub(crate) fn thumbnail_rgba(img: &DynamicImage, width: u32, height: u32) -> (r: Vec<u8>)
    requires
        4 * width * height <= usize::MAX,
        thumbnail_sums_fit(*img, width, height),
    ensures
        r@ == thumbnail_bytes(picture_pixels(*img), picture_size(*img), width, height),
        r.len() == 4 * width * height,
{
    image::imageops::thumbnail(img, width, height).into_vec()
}

/// What a picture holds: its pixels, keyed by `(x, y)`, each as the four
/// 8-bit RGBA channels that `GenericImageView::get_pixel` reports for it.
pub uninterp spec fn picture_pixels(img: DynamicImage) -> Map<(int, int), (u8, u8, u8, u8)>;

/// The width and height of a picture, as `DynamicImage::dimensions` gives them.
pub uninterp spec fn picture_size(img: DynamicImage) -> (nat, nat);

/// Calls `GenericImageView::dimensions` on `img`: its width and height.
#[verifier::external_body]
pub(crate) fn picture_dimensions(img: &DynamicImage) -> (r: (u32, u32))
    ensures
        (r.0 as nat, r.1 as nat) == picture_size(*img),
{
    image::GenericImageView::dimensions(img)
}

/// `after` holds a pixel at exactly the positions inside its size.
pub open spec fn pixels_fill(after: DynamicImage) -> bool {
    forall|p: (int, int)|
        #![trigger picture_pixels(after).dom().contains(p)]
        picture_pixels(after).dom().contains(p) <==> (0 <= p.0 < picture_size(after).0 && 0
            <= p.1 < picture_size(after).1)
}

/// `after` is `before` turned a quarter clockwise: the sizes swap, and the
/// pixel at `(x, y)` of `after` is the one at `(y, h - 1 - x)` of `before`,
/// `h` being the height of `before`.
pub open spec fn quarter_turn(before: DynamicImage, after: DynamicImage) -> bool {
    let (w, h) = picture_size(before);
    &&& picture_size(after) == (h, w)
    &&& pixels_fill(after)
    &&& forall|x: int, y: int|
        0 <= x < h && 0 <= y < w ==> #[trigger] picture_pixels(after)[(x, y)] == picture_pixels(
            before,
        )[(y, h - 1 - x)]
}

/// `after` is `before` turned a quarter counterclockwise: the sizes swap, and
/// the pixel at `(x, y)` of `after` is the one at `(w - 1 - y, x)` of
/// `before`, `w` being the width of `before`.
pub open spec fn three_quarter_turn(before: DynamicImage, after: DynamicImage) -> bool {
    let (w, h) = picture_size(before);
    &&& picture_size(after) == (h, w)
    &&& pixels_fill(after)
    &&& forall|x: int, y: int|
        0 <= x < h && 0 <= y < w ==> #[trigger] picture_pixels(after)[(x, y)] == picture_pixels(
            before,
        )[(w - 1 - y, x)]
}

/// `after` is `before` turned half way round: the size stays, and the pixel
/// at `(x, y)` of `after` is the one at `(w - 1 - x, h - 1 - y)` of `before`.
pub open spec fn half_turn(before: DynamicImage, after: DynamicImage) -> bool {
    let (w, h) = picture_size(before);
    &&& picture_size(after) == (w, h)
    &&& pixels_fill(after)
    &&& forall|x: int, y: int|
        0 <= x < w && 0 <= y < h ==> #[trigger] picture_pixels(after)[(x, y)] == picture_pixels(
            before,
        )[(w - 1 - x, h - 1 - y)]
}

/// Calls `DynamicImage::rotate90` (a quarter turn clockwise). The crate keeps
/// the pixel format and, in `imageops::rotate90_in`, puts the source pixel
/// `(x, y)` at `(h - 1 - y, x)` of a buffer of the swapped size; the
/// contract states that relation over [`picture_pixels`] and [`picture_size`].
#[verifier::external_body]
pub(crate) fn rotate_quarter(img: &DynamicImage) -> (r: DynamicImage)
    ensures
        picture_size(r) == (picture_size(*img).1, picture_size(*img).0),
        pixels_fill(r),
        forall|x: int, y: int|
            0 <= x < picture_size(*img).1 && 0 <= y < picture_size(*img).0 ==> #[trigger] picture_pixels(r)[(x, y)]
                == picture_pixels(*img)[(y, picture_size(*img).1 - 1 - x)],
{
    img.rotate90()
}

/// Calls `DynamicImage::rotate180` (a half turn). The crate keeps the pixel
/// format and, in `imageops::rotate180_in`, puts the source pixel `(x, y)` at
/// `(w - 1 - x, h - 1 - y)` of a buffer of the same size; the contract
/// states that relation over [`picture_pixels`] and [`picture_size`].
#[verifier::external_body]
pub(crate) fn rotate_half(img: &DynamicImage) -> (r: DynamicImage)
    ensures
        picture_size(r) == picture_size(*img),
        pixels_fill(r),
        forall|x: int, y: int|
            0 <= x < picture_size(*img).0 && 0 <= y < picture_size(*img).1 ==> #[trigger] picture_pixels(r)[(x, y)]
                == picture_pixels(*img)[(picture_size(*img).0 - 1 - x, picture_size(*img).1 - 1 - y)],
{
    img.rotate180()
}

/// Calls `DynamicImage::rotate270` (three quarter turns clockwise). The crate
/// keeps the pixel format and, in `imageops::rotate270_in`, puts the source
/// pixel `(x, y)` at `(y, w - 1 - x)` of a buffer of the swapped size;
/// the contract states that relation over [`picture_pixels`] and [`picture_size`].
#[verifier::external_body]
pub(crate) fn rotate_three_quarters(img: &DynamicImage) -> (r: DynamicImage)
    ensures
        picture_size(r) == (picture_size(*img).1, picture_size(*img).0),
        pixels_fill(r),
        forall|x: int, y: int|
            0 <= x < picture_size(*img).1 && 0 <= y < picture_size(*img).0 ==> #[trigger] picture_pixels(r)[(x, y)]
                == picture_pixels(*img)[(picture_size(*img).0 - 1 - y, x)],
{
    img.rotate270()
}

/// The values of the Orientation tag in the generic IFD number 0 of a
/// picture's metadata (the first such tag, where there are several), or
/// `None` where that IFD has no Orientation tag.
pub uninterp spec fn orientation_tag(meta: Metadata) -> Option<Seq<u16>>;

/// Every other tag of the metadata: each as its group (by its place among
/// `ExifTagGroup`'s variants), its IFD number, its tag id and its value
/// bytes in the metadata's byte order.
pub uninterp spec fn tags_besides_orientation(meta: Metadata) -> Multiset<(int, int, int, Seq<u8>)>;

/// Calls `Metadata::set_tag` with `ExifTag::Orientation(values)`. The crate
/// finds or creates the generic IFD number 0 (`get_ifd_mut`), drops every
/// tag with the Orientation id there and puts the new one in
/// (`ImageFileDirectory::set_tag`); no other tag is touched, and it does not
/// panic. After the call the Orientation values are `values`, and the other tags
/// are those before the call.
#[verifier::external_body]
pub(crate) fn set_orientation(meta: &mut Metadata, values: Vec<u16>)
    ensures
        orientation_tag(*final(meta)) == Some(values@),
        tags_besides_orientation(*final(meta)) == tags_besides_orientation(*old(meta)),
{
    meta.set_tag(little_exif::exif_tag::ExifTag::Orientation(values));
}

} // verus!
