use img_fu::capacity::get_image_capacity;
use img_fu::codec::{read_byte_from_image, read_bytes_from_image, write_byte_to_image};
use img_fu::convert::{
    construct_string_from_byte_vector, convert_byte_vector_to_u32, convert_string_to_bytes,
    convert_u32_to_bytes,
};
use img_fu::error::StegoError;
use img_fu::header::{read_header, write_header};
use img_fu::image::{Image, Pixel};
use img_fu::stego::{decode_data, encode_data};

fn filled(width: u32, height: u32, r: u8, g: u8, b: u8, a: u8) -> Image {
    Image::new(width, height, Pixel { r, g, b, a })
}

#[test]
fn test_convert_u32_to_bytes() {
    let u32_val: u32 = 8123;
    let bytes = convert_u32_to_bytes(u32_val);

    let original_val = convert_byte_vector_to_u32(&bytes);
    assert_eq!(original_val, u32_val);
}

#[test]
fn test_write_and_read_single_pixel() {
    let mut img = filled(100, 100, 13, 57, 201, 255);

    for byte in 0..255u8 {
        // Write a byte to the image
        let mut write_pixel_cursor: u32 = 0;
        write_byte_to_image(&mut img, &mut write_pixel_cursor, &byte);
        assert_eq!(write_pixel_cursor, 2);
        // Read the byte back
        let mut read_pixel_cursor: u32 = 0;
        let read_byte = read_byte_from_image(&img, &mut read_pixel_cursor);
        assert_eq!(read_pixel_cursor, 2);

        assert_eq!(byte, read_byte);
    }
}

#[test]
fn test_get_pixel_position() {
    let img = filled(768, 200, 0, 0, 0, 255);

    assert_eq!(img.get_pixel_position(0).unwrap(), (0, 0));
    assert_eq!(img.get_pixel_position(10).unwrap(), (10, 0));
    assert_eq!(img.get_pixel_position(1000).unwrap(), (232, 1));
    assert_eq!(img.get_pixel_position(10000).unwrap(), (16, 13));
    assert_eq!(img.get_pixel_position(100000).unwrap(), (160, 130));
}

#[test]
fn test_pixel_position_row_wrap_and_bounds() {
    let img = filled(64, 32, 0, 0, 0, 0);

    assert_eq!(img.get_pixel_position(0).unwrap(), (0, 0));
    assert_eq!(img.get_pixel_position(64).unwrap(), (0, 1));
    assert_eq!(
        img.get_pixel_position(64 * 32),
        Err(StegoError::BoundsError)
    );
    assert_eq!(
        img.get_pixel_position(u32::MAX),
        Err(StegoError::BoundsError)
    );
}

#[test]
fn test_e2e_encode_decode() {
    let img = filled(500, 500, 120, 33, 7, 255);

    let data: Vec<u8> = b"abcdefgh".to_vec();
    let name = "data.txt".to_string();

    let mut img_copy = img.clone();
    encode_data(&mut img_copy, &data, &convert_string_to_bytes(&name)).unwrap();

    let file_data = decode_data(&img_copy).unwrap();

    assert_eq!(file_data.name, name);
    assert_eq!(file_data.data, data);
}

#[test]
fn test_big_endian_exact_bytes() {
    assert_eq!(convert_u32_to_bytes(8123), vec![0x00, 0x00, 0x1f, 0xbb]);
    assert_eq!(convert_u32_to_bytes(0), vec![0, 0, 0, 0]);
    assert_eq!(
        convert_u32_to_bytes(u32::MAX),
        vec![0xff, 0xff, 0xff, 0xff]
    );
    assert_eq!(convert_byte_vector_to_u32(&vec![0x01, 0x02, 0x03, 0x04]), 0x01020304);
    assert_eq!(convert_byte_vector_to_u32(&convert_u32_to_bytes(u32::MAX)), u32::MAX);
}

#[test]
fn test_byte_packing_exact_pixels() {
    // 0xb2 = 1011_0010: bits 0..3 are 0,1,0,0 and bits 4..7 are 1,1,0,1
    let mut img = filled(10, 10, 0, 0, 0, 0);
    let mut cursor: u32 = 0;
    write_byte_to_image(&mut img, &mut cursor, &0xb2);

    assert_eq!(img.get_pixel(0, 0), Pixel { r: 0, g: 1, b: 0, a: 0 });
    assert_eq!(img.get_pixel(1, 0), Pixel { r: 1, g: 1, b: 0, a: 1 });
    // pixels past the two consumed ones are untouched
    assert_eq!(img.get_pixel(2, 0), Pixel { r: 0, g: 0, b: 0, a: 0 });
}

#[test]
fn test_channel_bits_above_lsb_preserved() {
    let mut img = filled(10, 10, 0xaa, 0x55, 0xfe, 0x81);
    let mut cursor: u32 = 0;
    write_byte_to_image(&mut img, &mut cursor, &0xff);

    for (x, y) in [(0u32, 0u32), (1, 0)] {
        let p = img.get_pixel(x, y);
        assert_eq!(p.r >> 1, 0xaa >> 1);
        assert_eq!(p.g >> 1, 0x55 >> 1);
        assert_eq!(p.b >> 1, 0xfe >> 1);
        assert_eq!(p.a >> 1, 0x81 >> 1);
        // the byte 0xff sets every LSB
        assert_eq!(p.r & 1, 1);
        assert_eq!(p.g & 1, 1);
        assert_eq!(p.b & 1, 1);
        assert_eq!(p.a & 1, 1);
    }
    // an untouched pixel is bit-for-bit unchanged
    assert_eq!(img.get_pixel(5, 5), Pixel { r: 0xaa, g: 0x55, b: 0xfe, a: 0x81 });
}

#[test]
fn test_header_round_trip_exec() {
    let mut img = filled(100, 100, 9, 9, 9, 9);
    let name: Vec<u8> = vec![7; 123];
    let data: Vec<u8> = vec![8; 4096];

    let mut write_cursor: u32 = 0;
    write_header(&mut img, &data, &name, &mut write_cursor);
    assert_eq!(write_cursor, 50);

    let mut read_cursor: u32 = 0;
    let header = read_header(&img, &mut read_cursor);
    assert_eq!(read_cursor, 50);
    assert_eq!(header.name_length, 123);
    assert_eq!(header.data_length, 4096);
}

#[test]
fn test_header_wire_layout() {
    // The header is 1 flags byte, 4 + 4 big-endian length bytes and 16 zero
    // salt bytes, 25 bytes in all.
    let mut img = filled(100, 100, 3, 1, 4, 1);
    let name: Vec<u8> = vec![0xee; 2];
    let data: Vec<u8> = vec![0; 0x01020304];
    let mut cursor: u32 = 0;
    write_header(&mut img, &data, &name, &mut cursor);

    let mut read_cursor: u32 = 0;
    let bytes = read_bytes_from_image(&img, &mut read_cursor, &25);
    let mut expected: Vec<u8> = vec![0x00];
    expected.extend_from_slice(&[0x00, 0x00, 0x00, 0x02]);
    expected.extend_from_slice(&[0x01, 0x02, 0x03, 0x04]);
    expected.extend_from_slice(&[0x00; 16]);
    assert_eq!(bytes, expected);
}

#[test]
fn test_capacity_reported() {
    let img = filled(500, 500, 0, 0, 0, 0);
    assert_eq!(get_image_capacity(&img), 500 * 500 - 1000);
}

#[test]
fn test_capacity_refusal_leaves_image_unchanged() {
    // 50 x 40 pixels: capacity is 2000 - 1000 = 1000 bytes. A 1000-byte
    // payload uses 100% > 99.9% and is refused; 999 bytes (99.9% exactly) is
    // not refused for capacity, but its stream does not fit, a bounds error.
    let img = filled(50, 40, 77, 88, 99, 11);

    let name: Vec<u8> = b"x".to_vec();
    let too_big: Vec<u8> = vec![1; 1000];
    let mut img_copy = img.clone();
    assert_eq!(
        encode_data(&mut img_copy, &too_big, &name),
        Err(StegoError::CapacityError)
    );
    for i in 0..50u32 {
        assert_eq!(img_copy.get_pixel(i, i % 40), img.get_pixel(i, i % 40));
    }
    assert_eq!(img_copy.get_pixel(49, 39), img.get_pixel(49, 39));

    let at_threshold: Vec<u8> = vec![1; 999];
    let mut img_copy2 = img.clone();
    assert_eq!(
        encode_data(&mut img_copy2, &at_threshold, &name),
        Err(StegoError::BoundsError)
    );
    assert_eq!(img_copy2.get_pixel(0, 0), img.get_pixel(0, 0));
}

#[test]
fn test_encode_refused_below_reserve() {
    // fewer pixels than the reserve: always a capacity error
    let mut img = filled(10, 10, 0, 0, 0, 0);
    let empty: Vec<u8> = Vec::new();
    assert_eq!(
        encode_data(&mut img, &empty, &empty),
        Err(StegoError::CapacityError)
    );
}

#[test]
fn test_decode_image_too_small_for_header() {
    let img = filled(7, 7, 0, 0, 0, 0);
    assert!(matches!(decode_data(&img), Err(StegoError::BoundsError)));
}

#[test]
fn test_decode_garbage_header_out_of_bounds() {
    // every channel LSB is 1, so the recovered lengths are u32::MAX and the
    // declared stream cannot fit
    let img = filled(10, 10, 255, 255, 255, 255);
    assert!(matches!(decode_data(&img), Err(StegoError::BoundsError)));
}

#[test]
fn test_decode_invalid_utf8_name() {
    let mut img = filled(200, 200, 1, 2, 3, 4);
    let bad_name: Vec<u8> = vec![0xff, 0xfe];
    let data: Vec<u8> = b"payload".to_vec();
    encode_data(&mut img, &data, &bad_name).unwrap();
    assert!(matches!(decode_data(&img), Err(StegoError::EncodingError)));
}

#[test]
fn test_string_conversions() {
    let name = "data.txt".to_string();
    let bytes = convert_string_to_bytes(&name);
    assert_eq!(bytes, b"data.txt".to_vec());

    let back = construct_string_from_byte_vector(&bytes).unwrap();
    assert_eq!(back, name);

    let invalid: Vec<u8> = vec![0xc0, 0x20];
    assert_eq!(
        construct_string_from_byte_vector(&invalid),
        Err(StegoError::EncodingError)
    );
}

#[test]
fn test_round_trip_empty_name_and_data() {
    let mut img = filled(100, 100, 42, 42, 42, 42);
    let empty: Vec<u8> = Vec::new();
    encode_data(&mut img, &empty, &empty).unwrap();
    let file_data = decode_data(&img).unwrap();
    assert_eq!(file_data.name, "");
    assert_eq!(file_data.data, empty);
}

#[test]
fn test_round_trip_all_byte_values() {
    let mut img = filled(200, 200, 250, 128, 64, 32);
    let name: Vec<u8> = b"bytes.bin".to_vec();
    let data: Vec<u8> = (0..=255u8).collect();
    encode_data(&mut img, &data, &name).unwrap();
    let file_data = decode_data(&img).unwrap();
    assert_eq!(file_data.name, "bytes.bin");
    assert_eq!(file_data.data, data);
}
