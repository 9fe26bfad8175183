use pnm::color::ColorType;
use pnm::encoder::{EncodeError, FlatSamples, PNMEncoder};
use pnm::header::{
    ArbitraryHeader, ArbitraryTuplType, BitmapHeader, GraymapHeader, HeaderRecord, PNMHeader,
    PNMSubtype, PixmapHeader, SampleEncoding,
};

fn encode_with(
    encoder: PNMEncoder,
    image: FlatSamples,
    width: u32,
    height: u32,
    color: ColorType,
) -> (Result<(), EncodeError>, Vec<u8>) {
    let mut encoder = encoder;
    let r = encoder.encode(image, width, height, color);
    (r, encoder.into_writer())
}

fn header_only(decoded: HeaderRecord) -> PNMHeader {
    PNMHeader { decoded, encoded: None }
}

#[test]
fn dynamic_gray_is_pam_with_raw_samples() {
    let samples = [0u8, 255];
    let (r, out) = encode_with(PNMEncoder::new(Vec::new()), FlatSamples::U8(&samples), 2, 1, ColorType::Gray(8));
    assert_eq!(r, Ok(()));
    let mut expected = b"P7\nWIDTH 2\nHEIGHT 1\nDEPTH 1\nMAXVAL 255\nTUPLTYPE GRAYSCALE\nENDHDR\n".to_vec();
    expected.extend_from_slice(&[0, 255]);
    assert_eq!(out, expected);
}

#[test]
fn dynamic_one_bit_gray_is_black_and_white() {
    let samples = [0u8, 1, 1];
    let (r, out) = encode_with(PNMEncoder::new(Vec::new()), FlatSamples::U8(&samples), 3, 1, ColorType::Gray(1));
    assert_eq!(r, Ok(()));
    let mut expected = b"P7\nWIDTH 3\nHEIGHT 1\nDEPTH 1\nMAXVAL 1\nTUPLTYPE BLACKANDWHITE\nENDHDR\n".to_vec();
    expected.extend_from_slice(&[0, 1, 1]);
    assert_eq!(out, expected);
}

#[test]
fn dynamic_rgba_low_depth_maxval() {
    let samples = [1u8, 2, 3, 4];
    let (r, out) = encode_with(PNMEncoder::new(Vec::new()), FlatSamples::U8(&samples), 1, 1, ColorType::RGBA(4));
    assert_eq!(r, Ok(()));
    let mut expected = b"P7\nWIDTH 1\nHEIGHT 1\nDEPTH 4\nMAXVAL 15\nTUPLTYPE RGB_ALPHA\nENDHDR\n".to_vec();
    expected.extend_from_slice(&[1, 2, 3, 4]);
    assert_eq!(out, expected);
}

#[test]
fn dynamic_gray_alpha_names() {
    let samples = [9u8, 8];
    let (r, out) = encode_with(PNMEncoder::new(Vec::new()), FlatSamples::U8(&samples), 1, 1, ColorType::GrayA(1));
    assert_eq!(r, Ok(()));
    assert!(out.starts_with(b"P7\nWIDTH 1\nHEIGHT 1\nDEPTH 2\nMAXVAL 1\nTUPLTYPE BLACKANDWHITE_ALPHA\nENDHDR\n"));
    let (r, out) = encode_with(PNMEncoder::new(Vec::new()), FlatSamples::U8(&samples), 1, 1, ColorType::GrayA(8));
    assert_eq!(r, Ok(()));
    assert!(out.starts_with(b"P7\nWIDTH 1\nHEIGHT 1\nDEPTH 2\nMAXVAL 255\nTUPLTYPE GRAYSCALE_ALPHA\nENDHDR\n"));
}

#[test]
fn dynamic_sixteen_bit_buffer_is_big_endian() {
    let samples = [5u16, 256];
    let (r, out) = encode_with(PNMEncoder::new(Vec::new()), FlatSamples::U16(&samples), 2, 1, ColorType::Gray(8));
    assert_eq!(r, Ok(()));
    let mut expected = b"P7\nWIDTH 2\nHEIGHT 1\nDEPTH 1\nMAXVAL 255\nTUPLTYPE GRAYSCALE\nENDHDR\n".to_vec();
    expected.extend_from_slice(&[0, 5, 1, 0]);
    assert_eq!(out, expected);
}

#[test]
fn dynamic_refuses_palette_and_deep_colors() {
    let samples = [0u8; 3];
    let (r, out) = encode_with(PNMEncoder::new(vec![7]), FlatSamples::U8(&samples), 1, 1, ColorType::Palette(8));
    assert_eq!(r, Err(EncodeError::UnsupportedColor(ColorType::Palette(8))));
    assert_eq!(out, vec![7]);
    let (r, _) = encode_with(PNMEncoder::new(Vec::new()), FlatSamples::U8(&samples), 1, 1, ColorType::RGB(16));
    assert_eq!(r, Err(EncodeError::UnsupportedColor(ColorType::RGB(16))));
    let (r, _) = encode_with(PNMEncoder::new(Vec::new()), FlatSamples::U8(&samples), 3, 1, ColorType::Gray(0));
    assert_eq!(r, Err(EncodeError::UnsupportedColor(ColorType::Gray(0))));
}

#[test]
fn subtype_graymap_ascii() {
    let samples = [1u8, 22, 255];
    let enc = PNMEncoder::new(Vec::new()).with_subtype(PNMSubtype::Graymap(SampleEncoding::Ascii));
    let (r, out) = encode_with(enc, FlatSamples::U8(&samples), 3, 1, ColorType::Gray(8));
    assert_eq!(r, Ok(()));
    assert_eq!(out, b"P2\n3 1 255\n1 22 255 ".to_vec());
}

#[test]
fn subtype_pixmap_binary() {
    let samples = [1u8, 2, 3];
    let enc = PNMEncoder::new(Vec::new()).with_subtype(PNMSubtype::Pixmap(SampleEncoding::Binary));
    let (r, out) = encode_with(enc, FlatSamples::U8(&samples), 1, 1, ColorType::RGB(8));
    assert_eq!(r, Ok(()));
    let mut expected = b"P6\n1 1 255\n".to_vec();
    expected.extend_from_slice(&[1, 2, 3]);
    assert_eq!(out, expected);
}

#[test]
fn subtype_bitmap_packs_bits() {
    let samples = [0u8, 1, 1, 1, 1, 1, 1, 1, 0, 1, 1, 1, 1, 1, 1, 1, 1, 1, 1, 0];
    let enc = PNMEncoder::new(Vec::new()).with_subtype(PNMSubtype::Bitmap(SampleEncoding::Binary));
    let (r, out) = encode_with(enc, FlatSamples::U8(&samples), 10, 2, ColorType::Gray(1));
    assert_eq!(r, Ok(()));
    let mut expected = b"P4\n10 2\n".to_vec();
    expected.extend_from_slice(&[0x80, 0x80, 0x00, 0x40]);
    assert_eq!(out, expected);
}

#[test]
fn subtype_bitmap_of_eight_bit_gray_checks_samples() {
    let samples = [0u8, 200];
    let enc = PNMEncoder::new(Vec::new()).with_subtype(PNMSubtype::Bitmap(SampleEncoding::Binary));
    let (r, out) = encode_with(enc, FlatSamples::U8(&samples), 2, 1, ColorType::Gray(8));
    assert_eq!(r, Err(EncodeError::SampleTooLarge));
    assert!(out.is_empty());
    let samples = [0u8, 1, 0];
    let enc = PNMEncoder::new(Vec::new()).with_subtype(PNMSubtype::Bitmap(SampleEncoding::Ascii));
    let (r, out) = encode_with(enc, FlatSamples::U8(&samples), 3, 1, ColorType::Gray(8));
    assert_eq!(r, Ok(()));
    assert_eq!(out, b"P1\n3 1\n0 1 0 ".to_vec());
}

#[test]
fn subtype_refuses_incompatible_colors() {
    let samples = [0u8; 3];
    let enc = PNMEncoder::new(Vec::new()).with_subtype(PNMSubtype::Graymap(SampleEncoding::Binary));
    let (r, out) = encode_with(enc, FlatSamples::U8(&samples), 1, 1, ColorType::RGB(8));
    assert_eq!(r, Err(EncodeError::UnrepresentableColor));
    assert!(out.is_empty());
    let enc = PNMEncoder::new(Vec::new()).with_subtype(PNMSubtype::Pixmap(SampleEncoding::Binary));
    let (r, _) = encode_with(enc, FlatSamples::U8(&samples), 3, 1, ColorType::Gray(8));
    assert_eq!(r, Err(EncodeError::UnrepresentableColor));
    let enc = PNMEncoder::new(Vec::new()).with_subtype(PNMSubtype::Bitmap(SampleEncoding::Binary));
    let (r, _) = encode_with(enc, FlatSamples::U8(&samples), 3, 1, ColorType::Gray(4));
    assert_eq!(r, Err(EncodeError::UnrepresentableColor));
}

#[test]
fn subtype_arbitrary_map_is_dynamic() {
    let samples = [4u8, 5, 6];
    let a = encode_with(
        PNMEncoder::new(Vec::new()).with_subtype(PNMSubtype::ArbitraryMap),
        FlatSamples::U8(&samples), 1, 1, ColorType::RGB(8));
    let b = encode_with(PNMEncoder::new(Vec::new()), FlatSamples::U8(&samples), 1, 1, ColorType::RGB(8));
    assert_eq!(a, b);
    assert_eq!(a.0, Ok(()));
}

#[test]
fn builders_override_each_other() {
    let samples = [1u8, 2, 3];
    let header = header_only(HeaderRecord::Pixmap(PixmapHeader {
        encoding: SampleEncoding::Binary, height: 1, width: 1, maxval: 255 }));
    let a = encode_with(
        PNMEncoder::new(Vec::new()).with_header(header).with_dynamic_header(),
        FlatSamples::U8(&samples), 1, 1, ColorType::RGB(8));
    let b = encode_with(PNMEncoder::new(Vec::new()), FlatSamples::U8(&samples), 1, 1, ColorType::RGB(8));
    assert_eq!(a, b);
    let c = encode_with(
        PNMEncoder::new(Vec::new()).with_subtype(PNMSubtype::Graymap(SampleEncoding::Ascii))
            .with_subtype(PNMSubtype::Pixmap(SampleEncoding::Ascii)),
        FlatSamples::U8(&samples), 1, 1, ColorType::RGB(8));
    assert_eq!(c.1, b"P3\n1 1 255\n1 2 3 ".to_vec());
}

#[test]
fn ascii_lines_break_before_seventy_one() {
    let samples = [255u8; 30];
    let enc = PNMEncoder::new(Vec::new()).with_subtype(PNMSubtype::Graymap(SampleEncoding::Ascii));
    let (r, out) = encode_with(enc, FlatSamples::U8(&samples), 30, 1, ColorType::Gray(8));
    assert_eq!(r, Ok(()));
    let mut expected = b"P2\n30 1 255\n".to_vec();
    expected.extend_from_slice("255 ".repeat(17).as_bytes());
    expected.push(b'\n');
    expected.extend_from_slice("255 ".repeat(13).as_bytes());
    assert_eq!(out, expected);
    for line in out.split(|&b| b == b'\n') {
        assert!(line.len() <= 70);
    }
}

#[test]
fn ascii_break_can_fall_before_a_space() {
    // "100 100 " and twenty "10 " fill 68 bytes; the next "10" reaches 70 and its space goes on a
    // new line.
    let mut samples = vec![100u8, 100];
    samples.extend_from_slice(&[10u8; 21]);
    let enc = PNMEncoder::new(Vec::new()).with_subtype(PNMSubtype::Graymap(SampleEncoding::Ascii));
    let (r, out) = encode_with(enc, FlatSamples::U8(&samples), 23, 1, ColorType::Gray(8));
    assert_eq!(r, Ok(()));
    let body = &out[b"P2\n23 1 255\n".len()..];
    let mut expected = b"100 100 ".to_vec();
    expected.extend_from_slice("10 ".repeat(20).as_bytes());
    expected.extend_from_slice(b"10\n ");
    assert_eq!(body, &expected[..]);
}

#[test]
fn chosen_header_with_encoded_bytes_is_written_verbatim() {
    let samples = [7u8, 8];
    let header = PNMHeader {
        decoded: HeaderRecord::Graymap(GraymapHeader {
            encoding: SampleEncoding::Binary, height: 1, width: 2, maxwhite: 255 }),
        encoded: Some(b"\n# made by hand\n2 1\n255\n".to_vec()),
    };
    let enc = PNMEncoder::new(Vec::new()).with_header(header);
    let (r, out) = encode_with(enc, FlatSamples::U8(&samples), 2, 1, ColorType::Gray(8));
    assert_eq!(r, Ok(()));
    let mut expected = b"P5\n# made by hand\n2 1\n255\n".to_vec();
    expected.extend_from_slice(&[7, 8]);
    assert_eq!(out, expected);
}

#[test]
fn chosen_header_dimension_mismatch() {
    let samples = [0u8; 4];
    let header = header_only(HeaderRecord::Graymap(GraymapHeader {
        encoding: SampleEncoding::Binary, height: 2, width: 2, maxwhite: 255 }));
    let enc = PNMEncoder::new(vec![1, 2]).with_header(header);
    let (r, out) = encode_with(enc, FlatSamples::U8(&samples), 4, 1, ColorType::Gray(8));
    assert_eq!(r, Err(EncodeError::DimensionMismatch));
    assert_eq!(out, vec![1, 2]);
}

#[test]
fn chosen_header_color_errors() {
    let samples = [0u8; 3];
    let cases = [
        (HeaderRecord::Bitmap(BitmapHeader { encoding: SampleEncoding::Binary, height: 1, width: 1 }),
            EncodeError::BitmapColor),
        (HeaderRecord::Graymap(GraymapHeader { encoding: SampleEncoding::Binary, height: 1, width: 1, maxwhite: 255 }),
            EncodeError::GraymapColor),
        (HeaderRecord::Arbitrary(ArbitraryHeader { height: 1, width: 1, depth: 3, maxval: 255,
            tupltype: Some(ArbitraryTuplType::Grayscale) }), EncodeError::ArbitraryColor),
        (HeaderRecord::Arbitrary(ArbitraryHeader { height: 1, width: 1, depth: 1, maxval: 255,
            tupltype: None }), EncodeError::ArbitraryColor),
    ];
    for (record, err) in cases {
        let enc = PNMEncoder::new(Vec::new()).with_header(header_only(record));
        let (r, out) = encode_with(enc, FlatSamples::U8(&samples), 1, 1, ColorType::RGB(8));
        assert_eq!(r, Err(err));
        assert!(out.is_empty());
    }
    let enc = PNMEncoder::new(Vec::new()).with_header(header_only(HeaderRecord::Pixmap(PixmapHeader {
        encoding: SampleEncoding::Binary, height: 1, width: 1, maxval: 255 })));
    let (r, _) = encode_with(enc, FlatSamples::U8(&samples[..1]), 1, 1, ColorType::Gray(8));
    assert_eq!(r, Err(EncodeError::PixmapColor));
}

#[test]
fn chosen_pam_without_tupltype_takes_any_color_of_its_depth() {
    let samples = [1u8, 2, 3];
    let header = header_only(HeaderRecord::Arbitrary(ArbitraryHeader {
        height: 1, width: 1, depth: 3, maxval: 255, tupltype: None }));
    let enc = PNMEncoder::new(Vec::new()).with_header(header);
    let (r, out) = encode_with(enc, FlatSamples::U8(&samples), 1, 1, ColorType::Palette(8));
    assert_eq!(r, Ok(()));
    let mut expected = b"P7\nWIDTH 1\nHEIGHT 1\nDEPTH 3\nMAXVAL 255\nENDHDR\n".to_vec();
    expected.extend_from_slice(&[1, 2, 3]);
    assert_eq!(out, expected);
}

#[test]
fn chosen_pam_custom_tupltype() {
    let samples = [9u8];
    let header = header_only(HeaderRecord::Arbitrary(ArbitraryHeader {
        height: 1, width: 1, depth: 1, maxval: 15, tupltype: Some(ArbitraryTuplType::Custom("FOO".to_string())) }));
    let enc = PNMEncoder::new(Vec::new()).with_header(header);
    let (r, out) = encode_with(enc, FlatSamples::U8(&samples), 1, 1, ColorType::Gray(4));
    assert_eq!(r, Ok(()));
    let mut expected = b"P7\nWIDTH 1\nHEIGHT 1\nDEPTH 1\nMAXVAL 15\nTUPLTYPE FOO\nENDHDR\n".to_vec();
    expected.push(9);
    assert_eq!(out, expected);
}

#[test]
fn chosen_header_sample_checks() {
    let samples = [10u8, 200];
    let header = header_only(HeaderRecord::Graymap(GraymapHeader {
        encoding: SampleEncoding::Binary, height: 1, width: 2, maxwhite: 100 }));
    let enc = PNMEncoder::new(Vec::new()).with_header(header.clone());
    let (r, _) = encode_with(enc, FlatSamples::U8(&samples), 2, 1, ColorType::Gray(8));
    assert_eq!(r, Err(EncodeError::SampleTooLarge));
    // With a bit depth whose values all fit, the samples are not looked at.
    let enc = PNMEncoder::new(Vec::new()).with_header(header.clone());
    let (r, _) = encode_with(enc, FlatSamples::U8(&samples), 2, 1, ColorType::Gray(6));
    assert_eq!(r, Ok(()));
    let enc = PNMEncoder::new(Vec::new()).with_header(header);
    let (r, _) = encode_with(enc, FlatSamples::U8(&samples), 2, 1, ColorType::Gray(9));
    assert_eq!(r, Err(EncodeError::BitDepthTooLarge));
}

#[test]
fn buffer_size_errors() {
    let samples = [0u8; 5];
    let (r, out) = encode_with(PNMEncoder::new(Vec::new()), FlatSamples::U8(&samples), 2, 2, ColorType::Gray(8));
    assert_eq!(r, Err(EncodeError::BufferSizeMismatch));
    assert!(out.is_empty());
    let (r, _) = encode_with(PNMEncoder::new(Vec::new()), FlatSamples::U8(&samples), u32::MAX, u32::MAX, ColorType::RGBA(8));
    assert_eq!(r, Err(EncodeError::InvalidDimensions(u32::MAX, u32::MAX, 4)));
}

#[test]
fn appends_after_existing_output() {
    let samples = [3u8];
    let mut enc = PNMEncoder::new(b"xy".to_vec()).with_subtype(PNMSubtype::Graymap(SampleEncoding::Binary));
    assert_eq!(enc.encode(FlatSamples::U8(&samples), 1, 1, ColorType::Gray(8)), Ok(()));
    assert_eq!(enc.encode(FlatSamples::U8(&samples), 1, 1, ColorType::Gray(8)), Ok(()));
    let out = enc.into_writer();
    let mut expected = b"xyP5\n1 1 255\n".to_vec();
    expected.push(3);
    expected.extend_from_slice(b"P5\n1 1 255\n");
    expected.push(3);
    assert_eq!(out, expected);
}

#[test]
fn empty_images() {
    let samples: [u8; 0] = [];
    let (r, out) = encode_with(PNMEncoder::new(Vec::new()), FlatSamples::U8(&samples), 0, 0, ColorType::Gray(8));
    assert_eq!(r, Ok(()));
    assert_eq!(out, b"P7\nWIDTH 0\nHEIGHT 0\nDEPTH 1\nMAXVAL 255\nTUPLTYPE GRAYSCALE\nENDHDR\n".to_vec());
    let enc = PNMEncoder::new(vec![9]).with_subtype(PNMSubtype::Bitmap(SampleEncoding::Binary));
    let (r, out) = encode_with(enc, FlatSamples::U8(&samples), 0, 3, ColorType::Gray(1));
    assert_eq!(r, Err(EncodeError::EmptyBitmap));
    assert_eq!(out, vec![9]);
    let header = header_only(HeaderRecord::Bitmap(BitmapHeader {
        encoding: SampleEncoding::Binary, height: 0, width: 0 }));
    let enc = PNMEncoder::new(Vec::new()).with_header(header);
    let (r, out) = encode_with(enc, FlatSamples::U8(&samples), 0, 0, ColorType::Gray(1));
    assert_eq!(r, Err(EncodeError::EmptyBitmap));
    assert!(out.is_empty());
    let enc = PNMEncoder::new(Vec::new()).with_subtype(PNMSubtype::Bitmap(SampleEncoding::Ascii));
    let (r, out) = encode_with(enc, FlatSamples::U8(&samples), 0, 3, ColorType::Gray(1));
    assert_eq!(r, Ok(()));
    assert_eq!(out, b"P1\n0 3\n".to_vec());
}

#[test]
fn header_accessors() {
    let header = header_only(HeaderRecord::Pixmap(PixmapHeader {
        encoding: SampleEncoding::Ascii, height: 5, width: 7, maxval: 1000 }));
    assert_eq!(header.width(), 7);
    assert_eq!(header.height(), 5);
    assert_eq!(header.maximal_sample(), 1000);
    assert_eq!(header.subtype(), PNMSubtype::Pixmap(SampleEncoding::Ascii));
    let mut out = Vec::new();
    header.write(&mut out);
    assert_eq!(out, b"P3\n7 5 1000\n".to_vec());
}

#[test]
fn decimal_digits() {
    assert_eq!(pnm::decimal::decimal_bytes(0), b"0".to_vec());
    assert_eq!(pnm::decimal::decimal_bytes(4294967295), b"4294967295".to_vec());
    assert_eq!(pnm::color::num_components(ColorType::Palette(8)), 3);
}

#[test]
fn with_header_overrides_earlier_choices() {
    let samples = [1u8, 2];
    let header = header_only(HeaderRecord::Graymap(GraymapHeader {
        encoding: SampleEncoding::Ascii, height: 1, width: 2, maxwhite: 255 }));
    let a = encode_with(
        PNMEncoder::new(Vec::new()).with_subtype(PNMSubtype::Pixmap(SampleEncoding::Binary))
            .with_dynamic_header().with_header(header.clone()),
        FlatSamples::U8(&samples), 2, 1, ColorType::Gray(8));
    let b = encode_with(PNMEncoder::new(Vec::new()).with_header(header),
        FlatSamples::U8(&samples), 2, 1, ColorType::Gray(8));
    assert_eq!(a, b);
    assert_eq!(a.1, b"P2\n2 1 255\n1 2 ".to_vec());
}
