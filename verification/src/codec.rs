use crate::bits::{byte_with_x_last_bit, get_last_bit_of_byte, spec_last_bit, spec_with_last_bit};
use crate::image::{lsb_only_changed, Image, Pixel};
use vstd::prelude::*;

verus! {

/// The byte carried by two consecutive pixels: the channel LSBs of the first
/// pixel give bits 0-3 and those of the second give bits 4-7, channels
/// enumerated in the fixed order red, green, blue, alpha.
pub open spec fn spec_byte_of_pixels(p0: Pixel, p1: Pixel) -> u8 {
    spec_last_bit(p0.r) | (spec_last_bit(p0.g) << 1u8) | (spec_last_bit(p0.b) << 2u8) | (
    spec_last_bit(p0.a) << 3u8) | (spec_last_bit(p1.r) << 4u8) | (spec_last_bit(p1.g) << 5u8) | (
    spec_last_bit(p1.b) << 6u8) | (spec_last_bit(p1.a) << 7u8)
}

/// The byte embedded at pixel cursor `c`.
pub open spec fn spec_byte_at(pixels: Seq<Pixel>, c: int) -> u8
    recommends
        0 <= c,
        c + 2 <= pixels.len(),
{
    spec_byte_of_pixels(pixels[c], pixels[c + 1])
}

/// The `n` bytes embedded starting at pixel cursor `c`, two pixels per byte,
/// in byte order.
pub open spec fn spec_bytes_at(pixels: Seq<Pixel>, c: int, n: int) -> Seq<u8>
    recommends
        0 <= c,
        c + 2 * n <= pixels.len(),
{
    Seq::new(n as nat, |i: int| spec_byte_at(pixels, c + 2 * i))
}

/// The embedded bytes of a pixel range depend only on the pixels of that
/// range: a buffer that agrees on it carries the same bytes.
pub proof fn lemma_bytes_at_frame(p1: Seq<Pixel>, p2: Seq<Pixel>, c: int, n: int)
    requires
        p1.len() == p2.len(),
        0 <= c,
        0 <= n,
        c + 2 * n <= p1.len(),
        forall|i: int| c <= i < c + 2 * n ==> p2[i] == p1[i],
    ensures
        spec_bytes_at(p2, c, n) == spec_bytes_at(p1, c, n),
{
    assert forall|i: int| 0 <= i < n implies #[trigger] spec_byte_at(p2, c + 2 * i)
        == spec_byte_at(p1, c + 2 * i) by {
        assert(p2[c + 2 * i] == p1[c + 2 * i]);
        assert(p2[c + 2 * i + 1] == p1[c + 2 * i + 1]);
    }
    assert(spec_bytes_at(p2, c, n) =~= spec_bytes_at(p1, c, n));
}

/// A range of embedded bytes splits at any interior byte boundary.
pub proof fn lemma_bytes_at_concat(pixels: Seq<Pixel>, c: int, n1: int, n2: int)
    requires
        0 <= c,
        0 <= n1,
        0 <= n2,
        c + 2 * (n1 + n2) <= pixels.len(),
    ensures
        spec_bytes_at(pixels, c, n1 + n2) == spec_bytes_at(pixels, c, n1) + spec_bytes_at(
            pixels,
            c + 2 * n1,
            n2,
        ),
{
    assert(spec_bytes_at(pixels, c, n1 + n2) =~= spec_bytes_at(pixels, c, n1) + spec_bytes_at(
        pixels,
        c + 2 * n1,
        n2,
    ));
}

/// Forcing each channel LSB to the corresponding bit of `byte` makes the two
/// pixels carry exactly `byte`, and leaves every bit above bit 0 of every
/// channel unchanged.
proof fn lemma_byte_reassembly(byte: u8, r0: u8, g0: u8, b0: u8, a0: u8, r1: u8, g1: u8, b1: u8, a1: u8)
    ensures
        spec_last_bit(spec_with_last_bit(r0, (byte >> 0u8) & 1)) | (spec_last_bit(
            spec_with_last_bit(g0, (byte >> 1u8) & 1),
        ) << 1u8) | (spec_last_bit(spec_with_last_bit(b0, (byte >> 2u8) & 1)) << 2u8) | (
        spec_last_bit(spec_with_last_bit(a0, (byte >> 3u8) & 1)) << 3u8) | (spec_last_bit(
            spec_with_last_bit(r1, (byte >> 4u8) & 1),
        ) << 4u8) | (spec_last_bit(spec_with_last_bit(g1, (byte >> 5u8) & 1)) << 5u8) | (
        spec_last_bit(spec_with_last_bit(b1, (byte >> 6u8) & 1)) << 6u8) | (spec_last_bit(
            spec_with_last_bit(a1, (byte >> 7u8) & 1),
        ) << 7u8) == byte,
        spec_with_last_bit(r0, (byte >> 0u8) & 1) >> 1u8 == r0 >> 1u8,
        spec_with_last_bit(g0, (byte >> 1u8) & 1) >> 1u8 == g0 >> 1u8,
        spec_with_last_bit(b0, (byte >> 2u8) & 1) >> 1u8 == b0 >> 1u8,
        spec_with_last_bit(a0, (byte >> 3u8) & 1) >> 1u8 == a0 >> 1u8,
        spec_with_last_bit(r1, (byte >> 4u8) & 1) >> 1u8 == r1 >> 1u8,
        spec_with_last_bit(g1, (byte >> 5u8) & 1) >> 1u8 == g1 >> 1u8,
        spec_with_last_bit(b1, (byte >> 6u8) & 1) >> 1u8 == b1 >> 1u8,
        spec_with_last_bit(a1, (byte >> 7u8) & 1) >> 1u8 == a1 >> 1u8,
{
    assert(spec_last_bit(spec_with_last_bit(r0, (byte >> 0u8) & 1)) | (spec_last_bit(
        spec_with_last_bit(g0, (byte >> 1u8) & 1),
    ) << 1u8) | (spec_last_bit(spec_with_last_bit(b0, (byte >> 2u8) & 1)) << 2u8) | (spec_last_bit(
        spec_with_last_bit(a0, (byte >> 3u8) & 1),
    ) << 3u8) | (spec_last_bit(spec_with_last_bit(r1, (byte >> 4u8) & 1)) << 4u8) | (spec_last_bit(
        spec_with_last_bit(g1, (byte >> 5u8) & 1),
    ) << 5u8) | (spec_last_bit(spec_with_last_bit(b1, (byte >> 6u8) & 1)) << 6u8) | (spec_last_bit(
        spec_with_last_bit(a1, (byte >> 7u8) & 1),
    ) << 7u8) == byte) by (bit_vector);
    assert(spec_with_last_bit(r0, (byte >> 0u8) & 1) >> 1u8 == r0 >> 1u8 && spec_with_last_bit(
        g0,
        (byte >> 1u8) & 1,
    ) >> 1u8 == g0 >> 1u8 && spec_with_last_bit(b0, (byte >> 2u8) & 1) >> 1u8 == b0 >> 1u8
        && spec_with_last_bit(a0, (byte >> 3u8) & 1) >> 1u8 == a0 >> 1u8 && spec_with_last_bit(
        r1,
        (byte >> 4u8) & 1,
    ) >> 1u8 == r1 >> 1u8 && spec_with_last_bit(g1, (byte >> 5u8) & 1) >> 1u8 == g1 >> 1u8
        && spec_with_last_bit(b1, (byte >> 6u8) & 1) >> 1u8 == b1 >> 1u8 && spec_with_last_bit(
        a1,
        (byte >> 7u8) & 1,
    ) >> 1u8 == a1 >> 1u8) by (bit_vector);
}

/// Embed one byte into the least-significant channel bits of the two pixels at
/// the cursor, advancing the cursor by exactly 2. No other pixel changes, and
/// within the two touched pixels only channel LSBs change.
pub fn write_byte_to_image(img: &mut Image, pixel_cursor: &mut u32, byte: &u8)
    requires
        old(img).wf(),
        *old(pixel_cursor) + 2 <= old(img).spec_size(),
    ensures
        final(img).wf(),
        final(img).spec_width() == old(img).spec_width(),
        final(img).spec_height() == old(img).spec_height(),
        *final(pixel_cursor) == *old(pixel_cursor) + 2,
        spec_byte_at(final(img)@, *old(pixel_cursor) as int) == *byte,
        forall|i: int|
            0 <= i < old(img)@.len() && !(*old(pixel_cursor) <= i < *old(pixel_cursor) + 2)
                ==> final(img)@[i] == old(img)@[i],
        forall|i: int| 0 <= i < old(img)@.len() ==> lsb_only_changed(old(img)@[i], final(img)@[i]),
{
    let ghost c0 = *pixel_cursor as int;
    let pos_a = match img.get_pixel_position(*pixel_cursor) {
        Ok(pos) => pos,
        Err(_) => vstd::pervasive::unreached(),
    };
    let pa = img.get_pixel(pos_a.0, pos_a.1);
    let new_a = Pixel {
        r: byte_with_x_last_bit(&pa.r, (*byte >> 0u8) & 1),
        g: byte_with_x_last_bit(&pa.g, (*byte >> 1u8) & 1),
        b: byte_with_x_last_bit(&pa.b, (*byte >> 2u8) & 1),
        a: byte_with_x_last_bit(&pa.a, (*byte >> 3u8) & 1),
    };
    *pixel_cursor = *pixel_cursor + 1;
    img.put_pixel(pos_a.0, pos_a.1, new_a);

    let pos_b = match img.get_pixel_position(*pixel_cursor) {
        Ok(pos) => pos,
        Err(_) => vstd::pervasive::unreached(),
    };
    let pb = img.get_pixel(pos_b.0, pos_b.1);
    let new_b = Pixel {
        r: byte_with_x_last_bit(&pb.r, (*byte >> 4u8) & 1),
        g: byte_with_x_last_bit(&pb.g, (*byte >> 5u8) & 1),
        b: byte_with_x_last_bit(&pb.b, (*byte >> 6u8) & 1),
        a: byte_with_x_last_bit(&pb.a, (*byte >> 7u8) & 1),
    };
    *pixel_cursor = *pixel_cursor + 1;
    img.put_pixel(pos_b.0, pos_b.1, new_b);

    proof {
        lemma_byte_reassembly(
            *byte,
            old(img)@[c0].r,
            old(img)@[c0].g,
            old(img)@[c0].b,
            old(img)@[c0].a,
            old(img)@[c0 + 1].r,
            old(img)@[c0 + 1].g,
            old(img)@[c0 + 1].b,
            old(img)@[c0 + 1].a,
        );
        assert(img@ =~= old(img)@.update(c0, new_a).update(c0 + 1, new_b));
    }
}

/// Read back the byte carried by the two pixels at the cursor, advancing the
/// cursor by exactly 2.
pub fn read_byte_from_image(img: &Image, pixel_cursor: &mut u32) -> (byte: u8)
    requires
        img.wf(),
        *old(pixel_cursor) + 2 <= img.spec_size(),
    ensures
        *final(pixel_cursor) == *old(pixel_cursor) + 2,
        byte == spec_byte_at(img@, *old(pixel_cursor) as int),
{
    let pos_a = match img.get_pixel_position(*pixel_cursor) {
        Ok(pos) => pos,
        Err(_) => vstd::pervasive::unreached(),
    };
    let pa = img.get_pixel(pos_a.0, pos_a.1);
    *pixel_cursor = *pixel_cursor + 1;

    let pos_b = match img.get_pixel_position(*pixel_cursor) {
        Ok(pos) => pos,
        Err(_) => vstd::pervasive::unreached(),
    };
    let pb = img.get_pixel(pos_b.0, pos_b.1);
    *pixel_cursor = *pixel_cursor + 1;

    get_last_bit_of_byte(&pa.r) | (get_last_bit_of_byte(&pa.g) << 1u8) | (get_last_bit_of_byte(
        &pa.b,
    ) << 2u8) | (get_last_bit_of_byte(&pa.a) << 3u8) | (get_last_bit_of_byte(&pb.r) << 4u8) | (
    get_last_bit_of_byte(&pb.g) << 5u8) | (get_last_bit_of_byte(&pb.b) << 6u8) | (
    get_last_bit_of_byte(&pb.a) << 7u8)
}

/// Embed an ordered byte sequence, one byte after another, advancing the
/// shared cursor by 2 per byte. Pixels outside the consumed range are
/// untouched, and every touched pixel changes only in channel LSBs.
pub fn write_byte_vector_to_image(img: &mut Image, pixel_cursor: &mut u32, bytes: &Vec<u8>)
    requires
        old(img).wf(),
        *old(pixel_cursor) + 2 * bytes@.len() <= old(img).spec_size(),
    ensures
        final(img).wf(),
        final(img).spec_width() == old(img).spec_width(),
        final(img).spec_height() == old(img).spec_height(),
        *final(pixel_cursor) == *old(pixel_cursor) + 2 * bytes@.len(),
        spec_bytes_at(final(img)@, *old(pixel_cursor) as int, bytes@.len() as int) == bytes@,
        forall|i: int|
            0 <= i < old(img)@.len() && !(*old(pixel_cursor) <= i < *old(pixel_cursor) + 2
                * bytes@.len()) ==> final(img)@[i] == old(img)@[i],
        forall|i: int| 0 <= i < old(img)@.len() ==> lsb_only_changed(old(img)@[i], final(img)@[i]),
{
    let ghost img0 = *img;
    let ghost c0 = *pixel_cursor as int;
    let n = bytes.len();
    let mut i: usize = 0;
    while i < n
        invariant
            img.wf(),
            img.spec_width() == img0.spec_width(),
            img.spec_height() == img0.spec_height(),
            img@.len() == img0@.len(),
            i <= n,
            n == bytes@.len(),
            0 <= c0,
            c0 + 2 * n <= img0.spec_size(),
            img.spec_size() == img0.spec_size(),
            *pixel_cursor == c0 + 2 * i,
            spec_bytes_at(img@, c0, i as int) == bytes@.subrange(0, i as int),
            forall|k: int|
                0 <= k < img0@.len() && !(c0 <= k < c0 + 2 * i) ==> img@[k] == img0@[k],
            forall|k: int| 0 <= k < img0@.len() ==> lsb_only_changed(img0@[k], img@[k]),
        decreases n - i,
    {
        let ghost prev = *img;
        write_byte_to_image(img, pixel_cursor, &bytes[i]);
        proof {
            lemma_bytes_at_frame(prev@, img@, c0, i as int);
            assert(spec_bytes_at(img@, c0, i as int + 1) =~= bytes@.subrange(0, i as int + 1));
            assert forall|k: int|
                0 <= k < img0@.len() implies lsb_only_changed(img0@[k], img@[k]) by {
                assert(lsb_only_changed(img0@[k], prev@[k]));
                assert(lsb_only_changed(prev@[k], img@[k]));
            }
        }
        i = i + 1;
    }
    proof {
        assert(bytes@.subrange(0, n as int) =~= bytes@);
    }
}

/// Read back `length` embedded bytes in order, advancing the shared cursor by
/// 2 per byte.
pub fn read_bytes_from_image(img: &Image, pixel_cursor: &mut u32, length: &u32) -> (bytes: Vec<u8>)
    requires
        img.wf(),
        *old(pixel_cursor) + 2 * (*length) <= img.spec_size(),
    ensures
        *final(pixel_cursor) == *old(pixel_cursor) + 2 * (*length),
        bytes@ == spec_bytes_at(img@, *old(pixel_cursor) as int, *length as int),
{
    let ghost c0 = *pixel_cursor as int;
    let mut bytes: Vec<u8> = Vec::new();
    let mut i: u32 = 0;
    while i < *length
        invariant
            img.wf(),
            i <= *length,
            0 <= c0,
            c0 + 2 * (*length) <= img.spec_size(),
            *pixel_cursor == c0 + 2 * i,
            bytes@ == spec_bytes_at(img@, c0, i as int),
        decreases *length - i,
    {
        let byte = read_byte_from_image(img, pixel_cursor);
        bytes.push(byte);
        proof {
            assert(bytes@ =~= spec_bytes_at(img@, c0, i as int + 1));
        }
        i = i + 1;
    }
    bytes
}

} // verus!
