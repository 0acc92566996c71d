//! The picture of a canvas as the rows of grey levels that an image file
//! holds: the top row first.
use vstd::prelude::*;

verus! {

/// A grey image of the `image` crate: an `image::GrayImage`.
#[verifier::external_body]
pub struct GrayPicture {
    image: image::GrayImage,
}

/// The grey levels that an image holds, row after row.
pub uninterp spec fn gray_levels(image: GrayPicture) -> Seq<u8>;

/// How many pixels a row of the image holds.
pub uninterp spec fn gray_width(image: GrayPicture) -> u32;

/// How many rows the image holds.
pub uninterp spec fn gray_height(image: GrayPicture) -> u32;

/// `image::ImageBuffer::from_raw` for grey images: the image of `width` by
/// `height` pixels over the given levels, if there are at least as many
/// levels as pixels.
#[verifier::external_body]
fn gray_from_raw(width: u32, height: u32, levels: Vec<u8>) -> (image: Option<GrayPicture>)
    ensures
        image is Some <==> width * height <= levels@.len(),
        image is Some ==> gray_levels(image.unwrap()) == levels@ && gray_width(image.unwrap())
            == width && gray_height(image.unwrap()) == height,
{
    match image::GrayImage::from_raw(width, height, levels) {
        Some(image) => Some(GrayPicture { image }),
        None => None,
    }
}

/// `image::imageops::flip_vertical_in_place` on a grey image: every row
/// changes places with the row as far from the bottom as it is from the top.
/// Levels behind the last pixel stay.
#[verifier::external_body]
fn gray_flip_vertical(image: &mut GrayPicture)
    requires
        gray_width(*old(image)) * gray_height(*old(image)) <= gray_levels(*old(image)).len(),
    ensures
        gray_width(*final(image)) == gray_width(*old(image)),
        gray_height(*final(image)) == gray_height(*old(image)),
        gray_levels(*final(image)).len() == gray_levels(*old(image)).len(),
        forall|i: int|
            0 <= i < gray_levels(*old(image)).len() ==> #[trigger] gray_levels(*final(image))[i]
                == gray_levels(*old(image))[mirrored(
                i,
                gray_width(*old(image)) as int,
                gray_height(*old(image)) as int,
            )],
{
    image::imageops::flip_vertical_in_place(&mut image.image)
}

/// `image::ImageBuffer::into_raw`: the levels that the image holds.
#[verifier::external_body]
fn gray_into_raw(image: GrayPicture) -> (levels: Vec<u8>)
    ensures
        levels@ == gray_levels(image),
{
    image.image.into_raw()
}

/// The place from which a vertical flip of `height` rows of `width` takes
/// what it puts at place `i`: the same column of the row that is as far from
/// the bottom as `i` is from the top. Places behind the last row keep what
/// they have.
pub open spec fn mirrored(i: int, width: int, height: int) -> int {
    if 0 <= i < width * height && width > 0 {
        (height - 1 - i / width) * width + i % width
    } else {
        i
    }
}

/// The rows of a picture in the opposite order.
pub open spec fn flipped(levels: Seq<u8>, width: int, height: int) -> Seq<u8> {
    Seq::new(levels.len(), |i: int| levels[mirrored(i, width, height)])
}

/// Turns a picture that is held from its bottom row up into one that is held
/// from its top row down, as image files are. Returns nothing unless there
/// is one level for each of the `width` by `height` pixels.
pub fn flip_rows(width: u32, height: u32, levels: Vec<u8>) -> (res: Option<Vec<u8>>)
    ensures
        res is Some <==> levels@.len() == width * height,
        res is Some ==> res.unwrap()@ == flipped(levels@, width as int, height as int),
{
    assert(width * height <= 0xffff_ffff * 0xffff_ffff) by (nonlinear_arith)
        requires
            0 <= width <= 0xffff_ffff,
            0 <= height <= 0xffff_ffff,
    ;
    if (levels.len() as u128) != (width as u128) * (height as u128) {
        return None;
    }
    let ghost given = levels@;
    match gray_from_raw(width, height, levels) {
        Some(image) => {
            let mut image = image;
            gray_flip_vertical(&mut image);
            let flipped_levels = gray_into_raw(image);
            assert(flipped_levels@ =~= flipped(given, width as int, height as int));
            Some(flipped_levels)
        },
        None => {
            assert(false);
            None
        },
    }
}

} // verus!
