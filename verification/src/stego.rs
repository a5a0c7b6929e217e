use crate::capacity::{capacity_refused, spec_capacity_refused};
use crate::codec::{
    lemma_bytes_at_concat, lemma_bytes_at_frame, read_bytes_from_image, spec_bytes_at,
    write_byte_vector_to_image,
};
use crate::convert::construct_string_from_byte_vector;
use crate::error::StegoError;
use crate::header::{
    lemma_header_round_trip, read_header, spec_header_bytes, spec_parse_header, write_header,
    Header, HEADER_BYTES, HEADER_PIXELS,
};
use crate::image::{lsb_only_changed, Image, Pixel};
use vstd::prelude::*;
use vstd::utf8::{decode_utf8, valid_utf8};

verus! {

/// A recovered payload: the embedded file name and the raw file bytes.
pub struct FileData {
    pub name: String,
    pub data: Vec<u8>,
}

/// The embedded stream needs two pixels per byte of header, name and data.
pub open spec fn spec_stream_fits(img: Image, name_len: int, data_len: int) -> bool {
    2 * (HEADER_BYTES + name_len + data_len) <= img.spec_size()
}

/// The pixel buffer carries an encoding of `(name, data)`: the serialized
/// header for their lengths, then the name bytes, then the data bytes, as one
/// continuous byte stream starting at pixel 0.
pub open spec fn spec_encoded(pixels: Seq<Pixel>, name: Seq<u8>, data: Seq<u8>) -> bool {
    spec_bytes_at(pixels, 0, HEADER_BYTES + name.len() + data.len()) == spec_header_bytes(
        name.len() as u32,
        data.len() as u32,
    ) + name + data
}

/// The header a decoder recovers from the first embedded bytes.
pub open spec fn spec_header_of(pixels: Seq<Pixel>) -> Header {
    spec_parse_header(spec_bytes_at(pixels, 0, HEADER_BYTES as int))
}

/// The name bytes a decoder recovers: the stretch after the header whose
/// length the header declares.
pub open spec fn spec_name_bytes_of(pixels: Seq<Pixel>) -> Seq<u8> {
    spec_bytes_at(pixels, HEADER_PIXELS as int, spec_header_of(pixels).name_length as int)
}

/// The data bytes a decoder recovers: the stretch after the name whose length
/// the header declares.
pub open spec fn spec_data_bytes_of(pixels: Seq<Pixel>) -> Seq<u8> {
    spec_bytes_at(
        pixels,
        HEADER_PIXELS + 2 * spec_header_of(pixels).name_length,
        spec_header_of(pixels).data_length as int,
    )
}

/// Pixels a decode of this buffer consumes: the header plus two pixels per
/// declared name and data byte.
pub open spec fn spec_required_pixels(pixels: Seq<Pixel>) -> int {
    HEADER_PIXELS + 2 * (spec_header_of(pixels).name_length + spec_header_of(
        pixels,
    ).data_length)
}

/// Encode a payload. A payload that exceeds the capacity threshold is refused
/// with `CapacityError`, and a stream that needs more pixels than the image
/// has with `BoundsError`, in both cases before any pixel changes. Otherwise
/// the header, the name bytes and the data bytes are written as one stream
/// from pixel 0; pixels past the stream are untouched, and every pixel keeps
/// all channel bits above bit 0.
pub fn encode_data(img: &mut Image, data: &Vec<u8>, name: &Vec<u8>) -> (r: Result<
    (),
    StegoError,
>)
    requires
        old(img).wf(),
        name@.len() <= u32::MAX,
        data@.len() <= u32::MAX,
    ensures
        final(img).wf(),
        final(img).spec_width() == old(img).spec_width(),
        final(img).spec_height() == old(img).spec_height(),
        spec_capacity_refused(*old(img), data@.len() as int) ==> r == Err::<(), StegoError>(
            StegoError::CapacityError,
        ) && final(img)@ == old(img)@,
        !spec_capacity_refused(*old(img), data@.len() as int) && !spec_stream_fits(
            *old(img),
            name@.len() as int,
            data@.len() as int,
        ) ==> r == Err::<(), StegoError>(StegoError::BoundsError) && final(img)@ == old(img)@,
        !spec_capacity_refused(*old(img), data@.len() as int) && spec_stream_fits(
            *old(img),
            name@.len() as int,
            data@.len() as int,
        ) ==> {
            &&& r == Ok::<(), StegoError>(())
            &&& spec_encoded(final(img)@, name@, data@)
            &&& forall|i: int|
                2 * (HEADER_BYTES + name@.len() + data@.len()) <= i < old(img)@.len()
                    ==> final(img)@[i] == old(img)@[i]
            &&& forall|i: int|
                0 <= i < old(img)@.len() ==> lsb_only_changed(old(img)@[i], final(img)@[i])
        },
{
    if capacity_refused(img, data.len()) {
        return Err(StegoError::CapacityError);
    }
    let total_bytes: u64 = HEADER_BYTES as u64 + name.len() as u64 + data.len() as u64;
    let size: u64 = (img.width() as u64) * (img.height() as u64);
    if 2 * total_bytes > size {
        return Err(StegoError::BoundsError);
    }

    let ghost img0 = *img;
    let ghost n = name@.len() as int;
    let ghost m = data@.len() as int;
    let mut pixel_cursor: u32 = 0;
    write_header(img, data, name, &mut pixel_cursor);
    let ghost img1 = *img;
    write_byte_vector_to_image(img, &mut pixel_cursor, name);
    let ghost img2 = *img;
    write_byte_vector_to_image(img, &mut pixel_cursor, data);
    proof {
        assert forall|i: int| 0 <= i < HEADER_PIXELS implies img@[i] == img1@[i] by {}
        lemma_bytes_at_frame(img1@, img@, 0, HEADER_BYTES as int);

        assert forall|i: int| HEADER_PIXELS <= i < HEADER_PIXELS + 2 * n implies img@[i]
            == img2@[i] by {}
        lemma_bytes_at_frame(img2@, img@, HEADER_PIXELS as int, n);

        lemma_bytes_at_concat(img@, 0, HEADER_BYTES as int, n + m);
        lemma_bytes_at_concat(img@, HEADER_PIXELS as int, n, m);
        assert(spec_bytes_at(img@, 0, HEADER_BYTES + n + m) =~= spec_header_bytes(
            name@.len() as u32,
            data@.len() as u32,
        ) + name@ + data@);

        assert forall|i: int|
            0 <= i < img0@.len() implies lsb_only_changed(img0@[i], img@[i]) by {
            assert(lsb_only_changed(img0@[i], img1@[i]));
            assert(lsb_only_changed(img1@[i], img2@[i]));
            assert(lsb_only_changed(img2@[i], img@[i]));
        }
    }
    Ok(())
}

/// Decode a payload. Fails with `BoundsError` when the image cannot hold the
/// header, or cannot hold the name and data lengths the recovered header
/// declares; fails with `EncodingError` when the recovered name bytes are not
/// valid UTF-8; otherwise returns the declared name and data bytes, the name
/// interpreted as UTF-8.
pub fn decode_data(img: &Image) -> (r: Result<FileData, StegoError>)
    requires
        img.wf(),
    ensures
        img.spec_size() < HEADER_PIXELS ==> r == Err::<FileData, StegoError>(
            StegoError::BoundsError,
        ),
        HEADER_PIXELS <= img.spec_size() && img.spec_size() < spec_required_pixels(img@) ==> r
            == Err::<FileData, StegoError>(StegoError::BoundsError),
        HEADER_PIXELS <= img.spec_size() && spec_required_pixels(img@) <= img.spec_size() ==> {
            &&& !valid_utf8(spec_name_bytes_of(img@)) ==> r == Err::<FileData, StegoError>(
                StegoError::EncodingError,
            )
            &&& valid_utf8(spec_name_bytes_of(img@)) ==> (r matches Ok(fd) && fd.name@
                == decode_utf8(spec_name_bytes_of(img@)) && fd.data@ == spec_data_bytes_of(img@))
        },
{
    let size: u64 = (img.width() as u64) * (img.height() as u64);
    if size < HEADER_PIXELS as u64 {
        return Err(StegoError::BoundsError);
    }

    let mut pixel_cursor: u32 = 0;
    let header = read_header(img, &mut pixel_cursor);

    let required: u64 = HEADER_PIXELS as u64 + 2 * (header.name_length as u64
        + header.data_length as u64);
    if required > size {
        return Err(StegoError::BoundsError);
    }

    let file_name_bytes = read_bytes_from_image(img, &mut pixel_cursor, &header.name_length);
    let data_bytes = read_bytes_from_image(img, &mut pixel_cursor, &header.data_length);

    match construct_string_from_byte_vector(&file_name_bytes) {
        Ok(name) => Ok(FileData { name, data: data_bytes }),
        Err(e) => Err(e),
    }
}

/// Round trip: a pixel buffer that carries an encoding of `(name, data)`
/// decodes to exactly that pair, byte for byte — the recovered header
/// declares the two lengths, the recovered name bytes equal `name`, and the
/// recovered data bytes equal `data`.
pub proof fn lemma_encode_decode_round_trip(pixels: Seq<Pixel>, name: Seq<u8>, data: Seq<u8>)
    requires
        name.len() <= u32::MAX,
        data.len() <= u32::MAX,
        2 * (HEADER_BYTES + name.len() + data.len()) <= pixels.len(),
        spec_encoded(pixels, name, data),
    ensures
        spec_header_of(pixels).name_length == name.len(),
        spec_header_of(pixels).data_length == data.len(),
        spec_required_pixels(pixels) == 2 * (HEADER_BYTES + name.len() + data.len()),
        spec_name_bytes_of(pixels) == name,
        spec_data_bytes_of(pixels) == data,
{
    let n = name.len() as int;
    let m = data.len() as int;
    let stream = spec_header_bytes(name.len() as u32, data.len() as u32) + name + data;
    lemma_header_round_trip(name.len() as u32, data.len() as u32);
    lemma_bytes_at_concat(pixels, 0, HEADER_BYTES as int, n + m);
    lemma_bytes_at_concat(pixels, HEADER_PIXELS as int, n, m);
    assert(spec_bytes_at(pixels, 0, HEADER_BYTES as int) =~= stream.subrange(
        0,
        HEADER_BYTES as int,
    ));
    assert(stream.subrange(0, HEADER_BYTES as int) =~= spec_header_bytes(
        name.len() as u32,
        data.len() as u32,
    ));
    assert(spec_header_of(pixels) == Header {
        name_length: name.len() as u32,
        data_length: data.len() as u32,
    });
    assert(spec_bytes_at(pixels, HEADER_PIXELS as int, n) =~= stream.subrange(
        HEADER_BYTES as int,
        HEADER_BYTES + n,
    ));
    assert(stream.subrange(HEADER_BYTES as int, HEADER_BYTES + n) =~= name);
    assert(spec_bytes_at(pixels, HEADER_PIXELS + 2 * n, m) =~= stream.subrange(
        HEADER_BYTES + n,
        HEADER_BYTES + n + m,
    ));
    assert(stream.subrange(HEADER_BYTES + n, HEADER_BYTES + n + m) =~= data);
    assert(spec_name_bytes_of(pixels) == spec_bytes_at(pixels, HEADER_PIXELS as int, n));
    assert(spec_data_bytes_of(pixels) == spec_bytes_at(pixels, HEADER_PIXELS + 2 * n, m));
}

} // verus!
