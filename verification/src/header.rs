use crate::codec::{
    lemma_bytes_at_concat, lemma_bytes_at_frame, read_byte_from_image, read_bytes_from_image,
    spec_bytes_at, write_byte_to_image, write_byte_vector_to_image,
};
use crate::convert::{
    convert_byte_vector_to_u32, convert_u32_to_bytes, lemma_be_round_trip, spec_be_bytes,
    spec_be_u32,
};
use crate::image::{lsb_only_changed, Image};
use vstd::prelude::*;

verus! {

/// Logical bytes in the frame header: one flags byte, two 4-byte big-endian
/// lengths, and sixteen reserved salt bytes.
pub const HEADER_BYTES: u32 = 25;

/// Pixels the header always occupies: two per header byte, independent of
/// content.
pub const HEADER_PIXELS: u32 = 50;

/// The frame header: the byte lengths of the name and of the data that follow
/// it in the embedded stream.
#[derive(Clone, Copy, Debug, PartialEq, Eq, Structural)]
pub struct Header {
    pub name_length: u32,
    pub data_length: u32,
}

/// The serialized header: one zero flags byte, the big-endian name length,
/// the big-endian data length, then sixteen zero salt bytes, in that order.
pub open spec fn spec_header_bytes(name_length: u32, data_length: u32) -> Seq<u8> {
    seq![0u8] + spec_be_bytes(name_length) + spec_be_bytes(data_length) + Seq::new(
        16,
        |i: int| 0u8,
    )
}

/// The header described by 25 serialized header bytes: the two length fields
/// reassembled big-endian from bytes 1..5 and 5..9.
pub open spec fn spec_parse_header(hb: Seq<u8>) -> Header
    recommends
        hb.len() == HEADER_BYTES,
{
    Header {
        name_length: spec_be_u32(hb.subrange(1, 5)),
        data_length: spec_be_u32(hb.subrange(5, 9)),
    }
}

/// Header round trip: parsing the serialized header of any pair of 32-bit
/// lengths returns exactly that pair.
pub proof fn lemma_header_round_trip(name_length: u32, data_length: u32)
    ensures
        spec_header_bytes(name_length, data_length).len() == HEADER_BYTES,
        spec_parse_header(spec_header_bytes(name_length, data_length)) == (Header {
            name_length,
            data_length,
        }),
{
    let hb = spec_header_bytes(name_length, data_length);
    assert(hb.subrange(1, 5) =~= spec_be_bytes(name_length));
    assert(hb.subrange(5, 9) =~= spec_be_bytes(data_length));
    lemma_be_round_trip(name_length);
    lemma_be_round_trip(data_length);
}

/// Serialize the frame header for the given name and data into the image at
/// the cursor: flags byte, name length, data length, salt, in that fixed
/// order, consuming exactly `HEADER_PIXELS` pixels.
pub fn write_header(img: &mut Image, data: &Vec<u8>, name: &Vec<u8>, pixel_cursor: &mut u32)
    requires
        old(img).wf(),
        name@.len() <= u32::MAX,
        data@.len() <= u32::MAX,
        *old(pixel_cursor) + HEADER_PIXELS <= old(img).spec_size(),
    ensures
        final(img).wf(),
        final(img).spec_width() == old(img).spec_width(),
        final(img).spec_height() == old(img).spec_height(),
        *final(pixel_cursor) == *old(pixel_cursor) + HEADER_PIXELS,
        spec_bytes_at(final(img)@, *old(pixel_cursor) as int, HEADER_BYTES as int)
            == spec_header_bytes(name@.len() as u32, data@.len() as u32),
        forall|i: int|
            0 <= i < old(img)@.len() && !(*old(pixel_cursor) <= i < *old(pixel_cursor)
                + HEADER_PIXELS) ==> final(img)@[i] == old(img)@[i],
        forall|i: int| 0 <= i < old(img)@.len() ==> lsb_only_changed(old(img)@[i], final(img)@[i]),
{
    let ghost c0 = *pixel_cursor as int;
    let ghost img0 = *img;
    write_byte_to_image(img, pixel_cursor, &0);
    let ghost img1 = *img;
    let name_length_bytes = convert_u32_to_bytes(name.len() as u32);
    write_byte_vector_to_image(img, pixel_cursor, &name_length_bytes);
    let ghost img2 = *img;
    let data_length_bytes = convert_u32_to_bytes(data.len() as u32);
    write_byte_vector_to_image(img, pixel_cursor, &data_length_bytes);
    let ghost img3 = *img;
    let mut salt: Vec<u8> = Vec::new();
    let mut k: usize = 0;
    while k < 16
        invariant
            k <= 16,
            salt@.len() == k,
            forall|j: int| 0 <= j < k ==> salt@[j] == 0u8,
        decreases 16 - k,
    {
        salt.push(0);
        k = k + 1;
    }
    write_byte_vector_to_image(img, pixel_cursor, &salt);
    proof {
        assert forall|i: int| c0 <= i < c0 + 2 implies img@[i] == img1@[i] by {}
        lemma_bytes_at_frame(img1@, img@, c0, 1);
        assert(spec_bytes_at(img@, c0, 1) =~= seq![0u8]);

        assert forall|i: int| c0 + 2 <= i < c0 + 10 implies img@[i] == img2@[i] by {}
        lemma_bytes_at_frame(img2@, img@, c0 + 2, 4);

        assert forall|i: int| c0 + 10 <= i < c0 + 18 implies img@[i] == img3@[i] by {}
        lemma_bytes_at_frame(img3@, img@, c0 + 10, 4);

        assert(salt@ =~= Seq::new(16, |i: int| 0u8));

        lemma_bytes_at_concat(img@, c0, 1, 24);
        lemma_bytes_at_concat(img@, c0 + 2, 4, 20);
        lemma_bytes_at_concat(img@, c0 + 10, 4, 16);
        assert(spec_bytes_at(img@, c0, HEADER_BYTES as int) =~= spec_header_bytes(
            name@.len() as u32,
            data@.len() as u32,
        ));

        assert forall|i: int|
            0 <= i < img0@.len() implies lsb_only_changed(img0@[i], img@[i]) by {
            assert(lsb_only_changed(img0@[i], img1@[i]));
            assert(lsb_only_changed(img1@[i], img2@[i]));
            assert(lsb_only_changed(img2@[i], img3@[i]));
            assert(lsb_only_changed(img3@[i], img@[i]));
        }
    }
}

/// Deserialize the frame header at the cursor: skip the flags byte,
/// reassemble the two big-endian length fields, skip the salt, consuming
/// exactly `HEADER_PIXELS` pixels.
pub fn read_header(img: &Image, pixel_cursor: &mut u32) -> (header: Header)
    requires
        img.wf(),
        *old(pixel_cursor) + HEADER_PIXELS <= img.spec_size(),
    ensures
        *final(pixel_cursor) == *old(pixel_cursor) + HEADER_PIXELS,
        header == spec_parse_header(
            spec_bytes_at(img@, *old(pixel_cursor) as int, HEADER_BYTES as int),
        ),
{
    let ghost c0 = *pixel_cursor as int;
    let _flags = read_byte_from_image(img, pixel_cursor);
    let name_length_vec = read_bytes_from_image(img, pixel_cursor, &4);
    let data_length_vec = read_bytes_from_image(img, pixel_cursor, &4);
    let _salt = read_bytes_from_image(img, pixel_cursor, &16);

    let header = Header {
        name_length: convert_byte_vector_to_u32(&name_length_vec),
        data_length: convert_byte_vector_to_u32(&data_length_vec),
    };
    proof {
        let hb = spec_bytes_at(img@, c0, HEADER_BYTES as int);
        assert(hb.subrange(1, 5) =~= spec_bytes_at(img@, c0 + 2, 4));
        assert(hb.subrange(5, 9) =~= spec_bytes_at(img@, c0 + 10, 4));
    }
    header
}

} // verus!
