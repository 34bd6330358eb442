//! Expanding packed three-channel pixels into four-channel pixels.

use vstd::prelude::*;
use crate::error::ViewError;
use crate::extent::Extent;

verus! {

/// The alpha value of a fully opaque pixel.
pub const OPAQUE: u8 = 0xff;

/// How many pixels a conversion writes: the whole pixels of the shorter of
/// the two buffers.
pub open spec fn paired_pixels(source_len: int, destination_len: int) -> int {
    if source_len / 3 <= destination_len / 4 {
        source_len / 3
    } else {
        destination_len / 4
    }
}

/// Whether the two buffers hold the same number of whole pixels and nothing
/// else.
pub open spec fn same_pixel_count(source_len: int, destination_len: int) -> bool {
    &&& source_len % 3 == 0
    &&& destination_len % 4 == 0
    &&& source_len / 3 == destination_len / 4
}

/// The three channels of one pixel of a source buffer.
pub open spec fn source_pixel(source: Seq<u8>, pixel: int) -> Seq<u8> {
    source.subrange(3 * pixel, 3 * pixel + 3)
}

/// The four channels of one pixel of a destination buffer.
pub open spec fn destination_pixel(destination: Seq<u8>, pixel: int) -> Seq<u8> {
    destination.subrange(4 * pixel, 4 * pixel + 4)
}

/// The byte at `index` of the destination after a conversion.
pub open spec fn converted_byte(source: Seq<u8>, destination: Seq<u8>, index: int) -> u8 {
    if index / 4 >= paired_pixels(source.len() as int, destination.len() as int) {
        destination[index]
    } else if index % 4 == 3 {
        OPAQUE
    } else {
        source[3 * (index / 4) + index % 4]
    }
}

/// The destination after a conversion: each paired pixel holds the three
/// source channels followed by full opacity, and what lies behind the last
/// paired pixel is as it was.
pub open spec fn converted(source: Seq<u8>, destination: Seq<u8>) -> Seq<u8> {
    Seq::new(destination.len(), |index: int| converted_byte(source, destination, index))
}

/// Rewrites `destination` from `source`, pixel by pixel in order. Where the
/// buffers disagree on the number of pixels, the pixels of the shorter one
/// are written and the rest of `destination` is left alone.
pub fn convert(source: &[u8], destination: &mut [u8])
    ensures
        final(destination)@ == converted(source@, old(destination)@),
        final(destination)@.len() == old(destination)@.len(),
        forall|pixel: int|
            0 <= pixel < paired_pixels(source@.len() as int, old(destination)@.len() as int)
                ==> #[trigger] destination_pixel(final(destination)@, pixel) == source_pixel(
                source@,
                pixel,
            ).push(OPAQUE),
        forall|index: int|
            4 * paired_pixels(source@.len() as int, old(destination)@.len() as int) <= index
                < old(destination)@.len() ==> final(destination)@[index] == old(
                destination,
            )@[index],
{
    let source_len: usize = source.len();
    let destination_len: usize = destination.len();
    let source_pixels: usize = source_len / 3;
    let destination_pixels: usize = destination_len / 4;
    let count: usize = if source_pixels <= destination_pixels {
        source_pixels
    } else {
        destination_pixels
    };
    let mut pixel: usize = 0;
    while pixel < count
        invariant
            pixel <= count,
            count == paired_pixels(source@.len() as int, old(destination)@.len() as int),
            source_len == source@.len(),
            destination_len == destination@.len(),
            3 * count <= source_len,
            4 * count <= destination_len,
            destination@.len() == old(destination)@.len(),
            forall|index: int|
                0 <= index < 4 * pixel ==> destination@[index] == converted_byte(
                    source@,
                    old(destination)@,
                    index,
                ),
            forall|index: int|
                4 * pixel <= index < destination@.len() ==> destination@[index] == old(
                    destination,
                )@[index],
        decreases count - pixel,
    {
        let from: usize = 3 * pixel;
        let to: usize = 4 * pixel;
        destination[to] = source[from];
        destination[to + 1] = source[from + 1];
        destination[to + 2] = source[from + 2];
        destination[to + 3] = OPAQUE;
        pixel += 1;
    }
    proof {
        assert(destination@ =~= converted(source@, old(destination)@));
        assert forall|pixel: int|
            0 <= pixel < paired_pixels(
                source@.len() as int,
                old(destination)@.len() as int,
            ) implies #[trigger] destination_pixel(destination@, pixel) == source_pixel(
            source@,
            pixel,
        ).push(OPAQUE) by {
            lemma_converted_pixel(source@, old(destination)@, pixel);
        }
    }
}

/// Whether a pixel of `channels` channels taking `bytes_per_pixel` bytes is
/// a red, a green and a blue byte.
pub open spec fn is_rgb8(channels: u8, bytes_per_pixel: u8) -> bool {
    channels == 3 && bytes_per_pixel == 3
}

/// Whether the buffers are those of an image of the given extent: three
/// bytes per pixel in the source and four in the destination.
pub open spec fn buffers_fit(image: Extent, source_len: int, destination_len: int) -> bool {
    source_len == 3 * image.pixel_count() && destination_len == 4 * image.pixel_count()
}

/// Accepts the one pixel layout that the converter reads.
pub fn check_pixel_layout(channels: u8, bytes_per_pixel: u8) -> (checked: Result<(), ViewError>)
    ensures
        checked is Ok <==> is_rgb8(channels, bytes_per_pixel),
        checked is Err ==> checked == Err::<(), ViewError>(ViewError::UnsupportedPixelLayout),
{
    if channels == 3 && bytes_per_pixel == 3 {
        Ok(())
    } else {
        Err(ViewError::UnsupportedPixelLayout)
    }
}

/// Fills the backbuffer of an image of extent `image` from its decoded
/// pixels, after checking both buffers against that extent. A refusal
/// leaves the backbuffer as it was.
pub fn fill_backbuffer(image: Extent, source: &[u8], destination: &mut [u8]) -> (filled: Result<
    (),
    ViewError,
>)
    ensures
        filled is Ok <==> image.valid() && buffers_fit(
            image,
            source@.len() as int,
            old(destination)@.len() as int,
        ),
        filled == Err::<(), ViewError>(ViewError::EmptyImage) <==> !image.valid(),
        filled == Err::<(), ViewError>(ViewError::BufferSizeMismatch) <==> image.valid()
            && !buffers_fit(image, source@.len() as int, old(destination)@.len() as int),
        filled is Ok ==> final(destination)@ == converted(source@, old(destination)@),
        filled is Ok ==> forall|pixel: int|
            0 <= pixel < image.pixel_count() ==> #[trigger] destination_pixel(
                final(destination)@,
                pixel,
            ) == source_pixel(source@, pixel).push(OPAQUE),
        filled is Err ==> final(destination)@ == old(destination)@,
{
    if !image.is_valid() {
        return Err(ViewError::EmptyImage);
    }
    let count: u64 = pixel_total(image);
    let source_len: u64 = source.len() as u64;
    let destination_len: u64 = destination.len() as u64;
    if source_len % 3 != 0 || source_len / 3 != count || destination_len % 4 != 0
        || destination_len / 4 != count {
        return Err(ViewError::BufferSizeMismatch);
    }
    convert(source, destination);
    Ok(())
}

fn pixel_total(image: Extent) -> (count: u64)
    ensures
        count == image.pixel_count(),
{
    assert(image.width * image.height <= 0xffff_ffff * 0xffff_ffff) by (nonlinear_arith)
        requires
            image.width <= 0xffff_ffff,
            image.height <= 0xffff_ffff,
    ;
    image.width as u64 * image.height as u64
}

/// After a conversion every paired pixel of the destination holds the red,
/// green and blue of the same pixel of the source, and full opacity,
/// whatever the destination held before.
pub proof fn lemma_converted_pixel(source: Seq<u8>, destination: Seq<u8>, pixel: int)
    requires
        0 <= pixel < paired_pixels(source.len() as int, destination.len() as int),
    ensures
        converted(source, destination)[4 * pixel] == source[3 * pixel],
        converted(source, destination)[4 * pixel + 1] == source[3 * pixel + 1],
        converted(source, destination)[4 * pixel + 2] == source[3 * pixel + 2],
        converted(source, destination)[4 * pixel + 3] == OPAQUE,
        destination_pixel(converted(source, destination), pixel) == source_pixel(
            source,
            pixel,
        ).push(OPAQUE),
{
    let after = converted(source, destination);
    assert(4 * pixel + 3 < destination.len());
    assert(3 * pixel + 2 < source.len());
    assert(after[4 * pixel] == converted_byte(source, destination, 4 * pixel));
    assert(after[4 * pixel + 1] == converted_byte(source, destination, 4 * pixel + 1));
    assert(after[4 * pixel + 2] == converted_byte(source, destination, 4 * pixel + 2));
    assert(after[4 * pixel + 3] == converted_byte(source, destination, 4 * pixel + 3));
    assert(destination_pixel(after, pixel) =~= source_pixel(source, pixel).push(OPAQUE));
}

/// For a source of `3 * count` bytes and a destination of `4 * count`
/// bytes, a conversion copies red, green and blue of every pixel and makes it
/// opaque, whatever the destination held before.
pub proof fn lemma_converted_matching_buffers(
    source: Seq<u8>,
    destination: Seq<u8>,
    count: int,
    pixel: int,
)
    requires
        source.len() == 3 * count,
        destination.len() == 4 * count,
        0 <= pixel < count,
    ensures
        converted(source, destination).len() == 4 * count,
        converted(source, destination)[4 * pixel] == source[3 * pixel],
        converted(source, destination)[4 * pixel + 1] == source[3 * pixel + 1],
        converted(source, destination)[4 * pixel + 2] == source[3 * pixel + 2],
        converted(source, destination)[4 * pixel + 3] == OPAQUE,
{
    lemma_converted_pixel(source, destination, pixel);
}

/// A conversion leaves alone whatever lies behind the last paired pixel.
pub proof fn lemma_converted_rest(source: Seq<u8>, destination: Seq<u8>, index: int)
    requires
        4 * paired_pixels(source.len() as int, destination.len() as int) <= index
            < destination.len(),
    ensures
        converted(source, destination)[index] == destination[index],
{
}

/// Where the two buffers hold the same number of whole pixels, the result
/// of a conversion does not depend on what the destination held before.
pub proof fn lemma_converted_ignores_prior_contents(
    source: Seq<u8>,
    first: Seq<u8>,
    second: Seq<u8>,
)
    requires
        same_pixel_count(source.len() as int, first.len() as int),
        first.len() == second.len(),
    ensures
        converted(source, first) == converted(source, second),
{
    assert(converted(source, first) =~= converted(source, second));
}

/// Converting a second time from the same source changes nothing.
pub proof fn lemma_converted_idempotent(source: Seq<u8>, destination: Seq<u8>)
    ensures
        converted(source, converted(source, destination)) == converted(source, destination),
{
    let once = converted(source, destination);
    assert(converted(source, once) =~= once);
}

} // verus!
