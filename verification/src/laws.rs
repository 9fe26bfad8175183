//! Properties of the encoder as a whole, stated over the specifications of its operations.
use vstd::prelude::*;
use vstd::arithmetic::power2::{lemma2_to64, pow2};
use crate::color::{bit_depth, spec_num_components, ColorType};
use crate::autobreak::break_before;
use crate::decimal::{decimal, lemma_decimal_len};
use crate::encoder::{
    ascii_body, ascii_body_from, be_bytes, binary_body, body_bytes, check_image, pbm_row, pbm_rows, dynamic_header, dynamic_params,
    size_overflows, spec_encode, ASCII_LINE_CAPACITY, color_fits_header, pbm_byte, pbm_bits_upto, spec_write_with_header, subtype_header, tuple_encoding_of, EncodeError, FlatSamples, HeaderStrategy,
    TupleEncoding,
};
use crate::header::{magic_bytes, record_bytes, tupltype_line, tupltype_name, ArbitraryHeader, BitmapHeader, GraymapHeader, PixmapHeader, ArbitraryTuplType, HeaderRecord, PNMHeader, PNMSubtype, SampleEncoding};

verus! {

/// The default strategy accepts every gray, gray-alpha, RGB or RGBA image of one to eight bits
/// per sample whose buffer holds exactly width times height pixels: it writes a PAM header made
/// for the image, then the samples as bytes.
pub proof fn law_dynamic_header_encodes_supported_images(
    image: FlatSamples,
    width: u32,
    height: u32,
    color: ColorType,
)
    requires
        dynamic_params(color) is Some,
        !size_overflows(spec_num_components(color), width as nat, height as nat),
        spec_num_components(color) * width * height == image.values().len(),
    ensures
        dynamic_header(width, height, color) is Ok,
        spec_encode(HeaderStrategy::Dynamic, image, width, height, color) == Ok::<
            Seq<u8>,
            EncodeError,
        >(dynamic_header(width, height, color)->Ok_0.spec_bytes() + binary_body(image)),
{
    lemma2_to64();
    let header = dynamic_header(width, height, color)->Ok_0;
    assert(check_image(header, image, width, height, color) == Ok::<TupleEncoding, EncodeError>(
        TupleEncoding::U8 { encoding: crate::header::SampleEncoding::Binary },
    ));
}

/// A colour type for which no PAM header is made (a palette, a bit depth of 0 or more than 8)
/// is refused by the default strategy before anything else is looked at.
pub proof fn law_dynamic_header_refuses_unsupported_colors(
    image: FlatSamples,
    width: u32,
    height: u32,
    color: ColorType,
)
    requires
        dynamic_params(color) is None,
    ensures
        spec_encode(HeaderStrategy::Dynamic, image, width, height, color) == Err::<
            Seq<u8>,
            EncodeError,
        >(EncodeError::UnsupportedColor(color)),
{
}

/// The PAM subtype chosen explicitly behaves exactly as the default strategy.
pub proof fn law_arbitrary_subtype_is_dynamic(
    image: FlatSamples,
    width: u32,
    height: u32,
    color: ColorType,
)
    ensures
        spec_encode(HeaderStrategy::Subtype(PNMSubtype::ArbitraryMap), image, width, height, color)
            == spec_encode(HeaderStrategy::Dynamic, image, width, height, color),
{
}

/// Trying to encode an image that the chosen subtype cannot express is an error: a PPM takes only
/// 8-bit RGB, a PGM only 8-bit gray, a PBM only 1-bit or 8-bit gray.
pub proof fn law_subtype_refuses_incompatible_colors(
    subtype: PNMSubtype,
    image: FlatSamples,
    width: u32,
    height: u32,
    color: ColorType,
)
    requires
        subtype matches PNMSubtype::Pixmap(_) ==> color != ColorType::RGB(8),
        subtype matches PNMSubtype::Graymap(_) ==> color != ColorType::Gray(8),
        subtype matches PNMSubtype::Bitmap(_) ==> color != ColorType::Gray(8) && color
            != ColorType::Gray(1),
        subtype != PNMSubtype::ArbitraryMap,
    ensures
        spec_encode(HeaderStrategy::Subtype(subtype), image, width, height, color) == Err::<
            Seq<u8>,
            EncodeError,
        >(EncodeError::UnrepresentableColor),
{
}

/// With a chosen subtype, whatever is written starts with that subtype's magic number, which
/// also fixes the encoding of the samples.
pub proof fn law_subtype_magic_number(
    subtype: PNMSubtype,
    image: FlatSamples,
    width: u32,
    height: u32,
    color: ColorType,
)
    ensures
        spec_encode(HeaderStrategy::Subtype(subtype), image, width, height, color) matches Ok(bytes)
            ==> bytes.take(2) == magic_bytes(subtype),
{
    if let Ok(bytes) = spec_encode(HeaderStrategy::Subtype(subtype), image, width, height, color) {
        let header = subtype_header(subtype, width, height, color)->Ok_0;
        assert(header.spec_subtype() == subtype);
        assert(bytes.take(2) =~= magic_bytes(subtype));
    }
}

/// With a chosen header, an image whose width or height differs from the header's is refused.
pub proof fn law_chosen_header_must_match_dimensions(
    header: PNMHeader,
    image: FlatSamples,
    width: u32,
    height: u32,
    color: ColorType,
)
    requires
        header.spec_width() != width || header.spec_height() != height,
    ensures
        spec_encode(HeaderStrategy::Chosen(header), image, width, height, color) == Err::<
            Seq<u8>,
            EncodeError,
        >(EncodeError::DimensionMismatch),
{
}

/// A binary PBM header with an image of no pixels is refused, and nothing is written: there is
/// no row to pack.
pub proof fn law_empty_binary_bitmap_refused(
    header: PNMHeader,
    image: FlatSamples,
    width: u32,
    height: u32,
    color: ColorType,
)
    requires
        header.decoded matches HeaderRecord::Bitmap(h) && h.encoding == SampleEncoding::Binary,
        header.spec_width() == width,
        header.spec_height() == height,
        color is Gray,
        bit_depth(color) <= 8,
        width == 0 || height == 0,
        image.values().len() == 0,
    ensures
        spec_encode(HeaderStrategy::Chosen(header), image, width, height, color) == Err::<
            Seq<u8>,
            EncodeError,
        >(EncodeError::EmptyBitmap),
{
    assert(1 * width * height == 0) by (nonlinear_arith)
        requires
            width == 0 || height == 0,
    ;
    assert(1 * width <= u32::MAX);
}

/// With a chosen header, whatever is written starts with that header exactly as given (its
/// original bytes where it was read from a file), followed by the samples in the header's
/// encoding: a decoded header is written back unchanged.
pub proof fn law_chosen_header_written_verbatim(
    header: PNMHeader,
    image: FlatSamples,
    width: u32,
    height: u32,
    color: ColorType,
)
    ensures
        spec_encode(HeaderStrategy::Chosen(header), image, width, height, color) matches Ok(bytes)
            ==> bytes == header.spec_bytes() + body_bytes(
            tuple_encoding_of(header.decoded),
            image,
            width,
        ),
{
}

/// Binary samples take one byte each for 8-bit buffers and two bytes each for 16-bit buffers.
pub proof fn law_binary_body_length(image: FlatSamples)
    ensures
        binary_body(image).len() == match image {
            FlatSamples::U8(_) => image.values().len(),
            FlatSamples::U16(_) => 2 * image.values().len(),
        },
{
    match image {
        FlatSamples::U8(_) => {},
        FlatSamples::U16(s) => lemma_be_bytes_length(s@),
    }
}

proof fn lemma_be_bytes_length(s: Seq<u16>)
    ensures
        be_bytes(s).len() == 2 * s.len(),
    decreases s.len(),
{
    if s.len() > 0 {
        lemma_be_bytes_length(s.drop_last());
    }
}

/// A row of pixels packs into one byte per eight pixels, the last byte padded.
pub proof fn law_pbm_row_length(s: Seq<u32>)
    ensures
        pbm_row(s).len() == (s.len() + 7) / 8,
    decreases s.len(),
{
    if s.len() > 8 {
        law_pbm_row_length(s.skip(8));
    }
}

/// A binary PBM body of `rows` rows of `width` pixels has `(width + 7) / 8` bytes per row.
pub proof fn law_pbm_rows_length(s: Seq<u32>, width: nat, rows: nat)
    requires
        width > 0,
        s.len() == width * rows,
    ensures
        pbm_rows(s, width).len() == rows * ((width + 7) / 8),
    decreases rows,
{
    if rows == 0 {
        assert(s.len() == 0) by (nonlinear_arith)
            requires
                s.len() == width * rows,
                rows == 0,
        ;
    } else if rows == 1 {
        assert(s.len() == width) by (nonlinear_arith)
            requires
                s.len() == width * rows,
                rows == 1,
        ;
        law_pbm_row_length(s);
        assert(rows * ((width + 7) / 8) == (width + 7) / 8) by (nonlinear_arith)
            requires
                rows == 1,
        ;
    } else {
        assert(s.len() == width * (rows - 1) + width) by (nonlinear_arith)
            requires
                s.len() == width * rows,
                rows >= 2,
        ;
        assert(s.len() > width) by (nonlinear_arith)
            requires
                s.len() == width * (rows - 1) + width,
                rows >= 2,
                width > 0,
        ;
        law_pbm_row_length(s.take(width as int));
        law_pbm_rows_length(s.skip(width as int), width, (rows - 1) as nat);
        assert(rows * ((width + 7) / 8) == ((width + 7) / 8) + (rows - 1) * ((width + 7) / 8))
            by (nonlinear_arith)
            requires
                rows >= 2,
        ;
        assert(pbm_rows(s, width) == pbm_row(s.take(width as int)) + pbm_rows(
            s.skip(width as int),
            width,
        ));
    }
}

/// Whether no line of `s` is longer than `capacity`, the current line already holding `current`
/// bytes.
pub open spec fn lines_fit(s: Seq<u8>, current: nat, capacity: nat) -> bool
    decreases s.len(),
{
    if s.len() == 0 {
        true
    } else if s[0] == 10 {
        lines_fit(s.drop_first(), 0, capacity)
    } else {
        current + 1 <= capacity && lines_fit(s.drop_first(), current + 1, capacity)
    }
}

/// The length of the current line after `s`, the line holding `current` bytes before it.
pub open spec fn line_after(s: Seq<u8>, current: nat) -> nat
    decreases s.len(),
{
    if s.len() == 0 {
        current
    } else if s[0] == 10 {
        line_after(s.drop_first(), 0)
    } else {
        line_after(s.drop_first(), current + 1)
    }
}

proof fn lemma_lines_fit_concat(a: Seq<u8>, b: Seq<u8>, current: nat, capacity: nat)
    ensures
        lines_fit(a + b, current, capacity) == (lines_fit(a, current, capacity) && lines_fit(
            b,
            line_after(a, current),
            capacity,
        )),
    decreases a.len(),
{
    if a.len() > 0 {
        assert((a + b).drop_first() =~= a.drop_first() + b);
        assert((a + b)[0] == a[0]);
        if a[0] == 10 {
            lemma_lines_fit_concat(a.drop_first(), b, 0, capacity);
        } else {
            lemma_lines_fit_concat(a.drop_first(), b, current + 1, capacity);
        }
    } else {
        assert(a + b =~= b);
    }
}

proof fn lemma_lines_fit_plain(s: Seq<u8>, current: nat, capacity: nat)
    requires
        forall|k: int| 0 <= k < s.len() ==> s[k] != 10,
    ensures
        line_after(s, current) == current + s.len(),
        s.len() > 0 ==> (lines_fit(s, current, capacity) == (current + s.len() <= capacity)),
    decreases s.len(),
{
    if s.len() > 0 {
        assert(s[0] != 10);
        assert forall|k: int| 0 <= k < s.drop_first().len() implies s.drop_first()[k] != 10 by {
            assert(s.drop_first()[k] == s[k + 1]);
        }
        lemma_lines_fit_plain(s.drop_first(), current + 1, capacity);
        if s.len() == 1 {
            assert(lines_fit(s.drop_first(), current + 1, capacity));
        }
        assert(lines_fit(s, current, capacity) == (current + 1 <= capacity && lines_fit(
            s.drop_first(),
            current + 1,
            capacity,
        )));
    }
}

proof fn lemma_decimal_digits(n: nat)
    ensures
        forall|k: int| 0 <= k < decimal(n).len() ==> 48 <= #[trigger] decimal(n)[k] <= 57,
    decreases n,
{
    if n >= 10 {
        lemma_decimal_digits(n / 10);
        assert forall|k: int| 0 <= k < decimal(n).len() implies 48 <= #[trigger] decimal(n)[k]
            <= 57 by {
            if k < decimal(n / 10).len() {
                assert(decimal(n)[k] == decimal(n / 10)[k]);
            }
        }
    }
}

proof fn lemma_piece_fits(line_len: nat, piece: Seq<u8>)
    requires
        line_len <= 70,
        1 <= piece.len() <= 10,
        forall|k: int| 0 <= k < piece.len() ==> piece[k] != 10,
    ensures
        lines_fit(break_before(line_len, piece, 70).0, line_len, 70),
        line_after(break_before(line_len, piece, 70).0, line_len) == break_before(
            line_len,
            piece,
            70,
        ).1,
        break_before(line_len, piece, 70).1 <= 70,
{
    lemma_lines_fit_plain(piece, line_len, 70);
    lemma_lines_fit_plain(piece, 0, 70);
    if line_len > 0 && line_len + piece.len() > 70 {
        let out = seq![10u8] + piece;
        assert(out[0] == 10);
        assert(out.drop_first() =~= piece);
    }
}

/// In plain-text output no line is longer than 70 bytes, the limit of the `pnm` formats.
pub proof fn law_ascii_lines_fit(values: Seq<u32>, line_len: nat)
    requires
        line_len <= 70,
    ensures
        lines_fit(ascii_body_from(values, line_len), line_len, 70),
    decreases values.len(),
{
    if values.len() > 0 {
        let d = decimal(values[0] as nat);
        lemma_decimal_len(values[0] as nat);
        lemma_decimal_digits(values[0] as nat);
        assert forall|k: int| 0 <= k < d.len() implies d[k] != 10 by {
            assert(48 <= d[k] <= 57);
        }
        let (a, l1) = break_before(line_len, d, 70);
        let sp = seq![32u8];
        let (b, l2) = break_before(l1, sp, 70);
        lemma_piece_fits(line_len, d);
        lemma_piece_fits(l1, sp);
        law_ascii_lines_fit(values.drop_first(), l2);
        let rest = ascii_body_from(values.drop_first(), l2);
        assert(ascii_body_from(values, line_len) == a + b + rest);
        lemma_lines_fit_concat(a, b + rest, line_len, 70);
        lemma_lines_fit_concat(b, rest, l1, 70);
        assert(a + b + rest =~= a + (b + rest));
    }
}

/// The plain-text body of an image keeps every line within 70 bytes.
pub proof fn law_ascii_body_lines_fit(values: Seq<u32>)
    ensures
        lines_fit(ascii_body(values), 0, 70),
{
    law_ascii_lines_fit(values, 0);
}

/// An 8-bit RGB image under the PPM subtype is written as `P6` (binary) or `P3` (plain), then
/// `"\n{width} {height} 255\n"`, then its samples: the header carries the image's own width and
/// height, in that order.
pub proof fn law_pixmap_subtype_header(
    encoding: SampleEncoding,
    image: FlatSamples,
    width: u32,
    height: u32,
)
    requires
        !size_overflows(3, width as nat, height as nat),
        3 * width * height == image.values().len(),
    ensures
        spec_encode(
            HeaderStrategy::Subtype(PNMSubtype::Pixmap(encoding)),
            image,
            width,
            height,
            ColorType::RGB(8),
        ) == Ok::<Seq<u8>, EncodeError>(
            seq![
                'P' as u8,
                if encoding == SampleEncoding::Binary { '6' as u8 } else { '3' as u8 },
                '\n' as u8,
            ] + decimal(width as nat) + seq![' ' as u8] + decimal(height as nat) + seq![
                ' ' as u8,
                '2' as u8,
                '5' as u8,
                '5' as u8,
                '\n' as u8,
            ] + body_bytes(TupleEncoding::U8 { encoding }, image, width),
        ),
{
    lemma2_to64();
    lemma_decimal_255();
    let bytes = spec_encode(
        HeaderStrategy::Subtype(PNMSubtype::Pixmap(encoding)),
        image,
        width,
        height,
        ColorType::RGB(8),
    )->Ok_0;
    assert(bytes =~= seq![
        'P' as u8,
        if encoding == SampleEncoding::Binary { '6' as u8 } else { '3' as u8 },
        '\n' as u8,
    ] + decimal(width as nat) + seq![' ' as u8] + decimal(height as nat) + seq![
        ' ' as u8,
        '2' as u8,
        '5' as u8,
        '5' as u8,
        '\n' as u8,
    ] + body_bytes(TupleEncoding::U8 { encoding }, image, width));
}

/// An 8-bit gray image under the PGM subtype is written as `P5` (binary) or `P2` (plain), then
/// `"\n{width} {height} 255\n"`, then its samples.
pub proof fn law_graymap_subtype_header(
    encoding: SampleEncoding,
    image: FlatSamples,
    width: u32,
    height: u32,
)
    requires
        !size_overflows(1, width as nat, height as nat),
        1 * width * height == image.values().len(),
    ensures
        spec_encode(
            HeaderStrategy::Subtype(PNMSubtype::Graymap(encoding)),
            image,
            width,
            height,
            ColorType::Gray(8),
        ) == Ok::<Seq<u8>, EncodeError>(
            seq![
                'P' as u8,
                if encoding == SampleEncoding::Binary { '5' as u8 } else { '2' as u8 },
                '\n' as u8,
            ] + decimal(width as nat) + seq![' ' as u8] + decimal(height as nat) + seq![
                ' ' as u8,
                '2' as u8,
                '5' as u8,
                '5' as u8,
                '\n' as u8,
            ] + body_bytes(TupleEncoding::U8 { encoding }, image, width),
        ),
{
    lemma2_to64();
    lemma_decimal_255();
    let bytes = spec_encode(
        HeaderStrategy::Subtype(PNMSubtype::Graymap(encoding)),
        image,
        width,
        height,
        ColorType::Gray(8),
    )->Ok_0;
    assert(bytes =~= seq![
        'P' as u8,
        if encoding == SampleEncoding::Binary { '5' as u8 } else { '2' as u8 },
        '\n' as u8,
    ] + decimal(width as nat) + seq![' ' as u8] + decimal(height as nat) + seq![
        ' ' as u8,
        '2' as u8,
        '5' as u8,
        '5' as u8,
        '\n' as u8,
    ] + body_bytes(TupleEncoding::U8 { encoding }, image, width));
}

/// A 1-bit gray image under the PBM subtype is written as `P4` with packed rows, or `P1` with
/// plain text, after `"\n{width} {height}\n"`; a binary one needs a pixel.
pub proof fn law_bitmap_subtype_header(
    encoding: SampleEncoding,
    image: FlatSamples,
    width: u32,
    height: u32,
)
    requires
        !size_overflows(1, width as nat, height as nat),
        1 * width * height == image.values().len(),
        encoding == SampleEncoding::Binary ==> image.values().len() > 0,
    ensures
        spec_encode(
            HeaderStrategy::Subtype(PNMSubtype::Bitmap(encoding)),
            image,
            width,
            height,
            ColorType::Gray(1),
        ) == Ok::<Seq<u8>, EncodeError>(
            seq![
                'P' as u8,
                if encoding == SampleEncoding::Binary { '4' as u8 } else { '1' as u8 },
                '\n' as u8,
            ] + decimal(width as nat) + seq![' ' as u8] + decimal(height as nat) + seq![
                '\n' as u8,
            ] + if encoding == SampleEncoding::Binary {
                pbm_rows(image.values(), width as nat)
            } else {
                ascii_body(image.values())
            },
        ),
{
    lemma2_to64();
    let bytes = spec_encode(
        HeaderStrategy::Subtype(PNMSubtype::Bitmap(encoding)),
        image,
        width,
        height,
        ColorType::Gray(1),
    )->Ok_0;
    assert(bytes =~= seq![
        'P' as u8,
        if encoding == SampleEncoding::Binary { '4' as u8 } else { '1' as u8 },
        '\n' as u8,
    ] + decimal(width as nat) + seq![' ' as u8] + decimal(height as nat) + seq!['\n' as u8]
        + if encoding == SampleEncoding::Binary {
        pbm_rows(image.values(), width as nat)
    } else {
        ascii_body(image.values())
    });
}

proof fn lemma_decimal_255()
    ensures
        decimal(255) == seq!['2' as u8, '5' as u8, '5' as u8],
{
    reveal_with_fuel(decimal, 3);
    assert(decimal(255) =~= seq!['2' as u8, '5' as u8, '5' as u8]);
}

/// The value of a digit string read as a decimal number.
pub open spec fn digits_value(s: Seq<u8>) -> int
    decreases s.len(),
{
    if s.len() == 0 {
        0
    } else {
        digits_value(s.drop_last()) * 10 + (s.last() - 48)
    }
}

/// The decimal text of a number is made of the digits `0` to `9`, reads back as the number, and
/// has no leading zero except for zero itself.
pub proof fn law_decimal_reads_back(n: nat)
    ensures
        forall|k: int| 0 <= k < decimal(n).len() ==> '0' as u8 <= #[trigger] decimal(n)[k] <= '9' as u8,
        digits_value(decimal(n)) == n,
        decimal(n)[0] == '0' as u8 ==> n == 0 && decimal(n).len() == 1,
    decreases n,
{
    lemma_decimal_digits(n);
    lemma_decimal_len(n);
    if n >= 10 {
        law_decimal_reads_back(n / 10);
        lemma_decimal_len(n / 10);
        let d = decimal(n);
        assert(d.drop_last() =~= decimal(n / 10));
        assert(d[0] == decimal(n / 10)[0]);
        assert(d.last() == (48 + n % 10) as u8);
        assert(digits_value(d) == digits_value(decimal(n / 10)) * 10 + (n % 10));
        assert((n / 10) * 10 + n % 10 == n);
    } else {
        let d = decimal(n);
        assert(d.drop_last() =~= Seq::<u8>::empty());
        assert(digits_value(d) == digits_value(d.drop_last()) * 10 + (d.last() - 48));
    }
}

/// Packing a group of up to eight pixels: bit `7 - i` of the byte is set exactly when pixel `i`
/// exists and is black (0); the first pixel is the most significant bit.
pub proof fn law_pbm_byte_bits(chunk: Seq<u32>, i: nat)
    requires
        i < 8,
    ensures
        ((pbm_byte(chunk) >> ((7 - i) as u8)) & 1u8 == 1u8) == (i < chunk.len() && chunk[i as int]
            == 0),
{
    let b0: u8 = if 0 < chunk.len() && chunk[0] == 0 { 1 } else { 0 };
    let b1: u8 = if 1 < chunk.len() && chunk[1] == 0 { 1 } else { 0 };
    let b2: u8 = if 2 < chunk.len() && chunk[2] == 0 { 1 } else { 0 };
    let b3: u8 = if 3 < chunk.len() && chunk[3] == 0 { 1 } else { 0 };
    let b4: u8 = if 4 < chunk.len() && chunk[4] == 0 { 1 } else { 0 };
    let b5: u8 = if 5 < chunk.len() && chunk[5] == 0 { 1 } else { 0 };
    let b6: u8 = if 6 < chunk.len() && chunk[6] == 0 { 1 } else { 0 };
    let b7: u8 = if 7 < chunk.len() && chunk[7] == 0 { 1 } else { 0 };
    reveal_with_fuel(pbm_bits_upto, 9);
    assert(pbm_bits_upto(chunk, 8) == b0 * 128 + b1 * 64 + b2 * 32 + b3 * 16 + b4 * 8 + b5 * 4
        + b6 * 2 + b7);
    let x: u8 = pbm_byte(chunk);
    assert(x == b0 * 128 + b1 * 64 + b2 * 32 + b3 * 16 + b4 * 8 + b5 * 4 + b6 * 2 + b7);
    assert(
        b0 <= 1 && b1 <= 1 && b2 <= 1 && b3 <= 1 && b4 <= 1 && b5 <= 1 && b6 <= 1 && b7 <= 1
        && x == b0 * 128 + b1 * 64 + b2 * 32 + b3 * 16 + b4 * 8 + b5 * 4 + b6 * 2 + b7
        ==> (x >> 7u8) & 1u8 == b0 && (x >> 6u8) & 1u8 == b1 && (x >> 5u8) & 1u8 == b2
            && (x >> 4u8) & 1u8 == b3 && (x >> 3u8) & 1u8 == b4 && (x >> 2u8) & 1u8 == b5
            && (x >> 1u8) & 1u8 == b6 && (x >> 0u8) & 1u8 == b7
    ) by (bit_vector);
}

/// The default strategy makes a PAM header exactly for gray, gray-alpha, RGB and RGBA images of
/// one to eight bits per sample. The header carries the image's width and height, the number of
/// components as depth, `2^n - 1` as maxval for `n` bits, and the tuple type of the colour:
/// black-and-white for one bit, gray scale otherwise, each with its alpha variant, RGB and RGB
/// with alpha.
pub proof fn law_dynamic_header_fields(width: u32, height: u32, color: ColorType)
    ensures
        dynamic_header(width, height, color) is Ok <==> (!(color is Palette) && 1 <= bit_depth(
            color,
        ) <= 8),
        dynamic_header(width, height, color) matches Ok(header) ==> {
            &&& header.encoded is None
            &&& header.decoded matches HeaderRecord::Arbitrary(a) && {
                &&& a.width == width
                &&& a.height == height
                &&& a.maxval == pow2(bit_depth(color) as nat) - 1
                &&& a.depth == match color {
                    ColorType::Gray(_) => 1u32,
                    ColorType::GrayA(_) => 2u32,
                    ColorType::RGB(_) => 3u32,
                    ColorType::RGBA(_) => 4u32,
                    ColorType::Palette(_) => 3u32,
                }
                &&& a.tupltype == Some(
                    match color {
                        ColorType::Gray(n) => if n == 1 {
                            ArbitraryTuplType::BlackAndWhite
                        } else {
                            ArbitraryTuplType::Grayscale
                        },
                        ColorType::GrayA(n) => if n == 1 {
                            ArbitraryTuplType::BlackAndWhiteAlpha
                        } else {
                            ArbitraryTuplType::GrayscaleAlpha
                        },
                        ColorType::RGB(_) => ArbitraryTuplType::RGB,
                        _ => ArbitraryTuplType::RGBAlpha,
                    },
                )
            }
        },
{
    lemma2_to64();
}

/// The tuple types are written under their PAM names.
pub proof fn law_tupltype_names()
    ensures
        tupltype_name(ArbitraryTuplType::BlackAndWhite) == seq![
            'B' as u8, 'L' as u8, 'A' as u8, 'C' as u8, 'K' as u8, 'A' as u8, 'N' as u8, 'D' as u8,
            'W' as u8, 'H' as u8, 'I' as u8, 'T' as u8, 'E' as u8,
        ],
        tupltype_name(ArbitraryTuplType::BlackAndWhiteAlpha) == seq![
            'B' as u8, 'L' as u8, 'A' as u8, 'C' as u8, 'K' as u8, 'A' as u8, 'N' as u8, 'D' as u8,
            'W' as u8, 'H' as u8, 'I' as u8, 'T' as u8, 'E' as u8, '_' as u8, 'A' as u8, 'L' as u8,
            'P' as u8, 'H' as u8, 'A' as u8,
        ],
        tupltype_name(ArbitraryTuplType::Grayscale) == seq![
            'G' as u8, 'R' as u8, 'A' as u8, 'Y' as u8, 'S' as u8, 'C' as u8, 'A' as u8, 'L' as u8,
            'E' as u8,
        ],
        tupltype_name(ArbitraryTuplType::GrayscaleAlpha) == seq![
            'G' as u8, 'R' as u8, 'A' as u8, 'Y' as u8, 'S' as u8, 'C' as u8, 'A' as u8, 'L' as u8,
            'E' as u8, '_' as u8, 'A' as u8, 'L' as u8, 'P' as u8, 'H' as u8, 'A' as u8,
        ],
        tupltype_name(ArbitraryTuplType::RGB) == seq!['R' as u8, 'G' as u8, 'B' as u8],
        tupltype_name(ArbitraryTuplType::RGBAlpha) == seq![
            'R' as u8, 'G' as u8, 'B' as u8, '_' as u8, 'A' as u8, 'L' as u8, 'P' as u8, 'H' as u8,
            'A' as u8,
        ],
        forall|name: String| #[trigger]
            tupltype_name(ArbitraryTuplType::Custom(name)) == vstd::utf8::encode_utf8(name@),
{
}

/// Where the header's maximum is below the largest value of the image's bit depth, and the
/// dimensions and colour type agree with the header, the image is refused as having a sample
/// too large exactly when some sample, the first one included, exceeds the header's maximum.
pub proof fn law_sample_range_checked(
    header: PNMHeader,
    image: FlatSamples,
    width: u32,
    height: u32,
    color: ColorType,
)
    requires
        header.spec_width() == width,
        header.spec_height() == height,
        color_fits_header(header.decoded, color),
        bit_depth(color) <= 8,
        header.spec_maximal_sample() < pow2(bit_depth(color) as nat) - 1,
    ensures
        (check_image(header, image, width, height, color) == Err::<TupleEncoding, EncodeError>(
            EncodeError::SampleTooLarge,
        )) <==> (exists|i: int|
            0 <= i < image.values().len() && image.values()[i] > header.spec_maximal_sample()),
        (spec_write_with_header(header, image, width, height, color) == Err::<Seq<u8>, EncodeError>(
            EncodeError::SampleTooLarge,
        )) <==> (exists|i: int|
            0 <= i < image.values().len() && image.values()[i] > header.spec_maximal_sample()),
{
    lemma2_to64();
}

/// Where every value of the image's bit depth is within the header's maximum, samples are not
/// looked at: no image is refused as having a sample too large.
pub proof fn law_sample_range_unchecked(
    header: PNMHeader,
    image: FlatSamples,
    width: u32,
    height: u32,
    color: ColorType,
)
    requires
        bit_depth(color) <= 8,
        header.spec_maximal_sample() >= pow2(bit_depth(color) as nat) - 1,
    ensures
        check_image(header, image, width, height, color) != Err::<TupleEncoding, EncodeError>(
            EncodeError::SampleTooLarge,
        ),
{
    lemma2_to64();
}

/// The magic numbers: `P1` to `P3` for plain PBM, PGM and PPM, `P4` to `P6` for binary, `P7`
/// for PAM.
pub proof fn law_magic_numbers()
    ensures
        magic_bytes(PNMSubtype::Bitmap(SampleEncoding::Ascii)) == seq!['P' as u8, '1' as u8],
        magic_bytes(PNMSubtype::Graymap(SampleEncoding::Ascii)) == seq!['P' as u8, '2' as u8],
        magic_bytes(PNMSubtype::Pixmap(SampleEncoding::Ascii)) == seq!['P' as u8, '3' as u8],
        magic_bytes(PNMSubtype::Bitmap(SampleEncoding::Binary)) == seq!['P' as u8, '4' as u8],
        magic_bytes(PNMSubtype::Graymap(SampleEncoding::Binary)) == seq!['P' as u8, '5' as u8],
        magic_bytes(PNMSubtype::Pixmap(SampleEncoding::Binary)) == seq!['P' as u8, '6' as u8],
        magic_bytes(PNMSubtype::ArbitraryMap) == seq!['P' as u8, '7' as u8],
{
}

/// The text of the header fields: `"\n{width} {height}\n"` for PBM, with `" {maxval}"` before the
/// last line break for PGM and PPM; for PAM one line per field, `WIDTH`, `HEIGHT`, `DEPTH`,
/// `MAXVAL`, then `TUPLTYPE` where there is one, then `ENDHDR`.
pub proof fn law_header_field_text(
    encoding: SampleEncoding,
    width: u32,
    height: u32,
    depth: u32,
    maxval: u32,
    tupltype: Option<ArbitraryTuplType>,
)
    ensures
        record_bytes(HeaderRecord::Bitmap(BitmapHeader { encoding, height, width })) == seq![
            '\n' as u8,
        ] + decimal(width as nat) + seq![' ' as u8] + decimal(height as nat) + seq!['\n' as u8],
        record_bytes(HeaderRecord::Graymap(GraymapHeader { encoding, height, width, maxwhite: maxval }))
            == seq!['\n' as u8] + decimal(width as nat) + seq![' ' as u8] + decimal(height as nat)
            + seq![' ' as u8] + decimal(maxval as nat) + seq!['\n' as u8],
        record_bytes(HeaderRecord::Pixmap(PixmapHeader { encoding, height, width, maxval })) == seq![
            '\n' as u8,
        ] + decimal(width as nat) + seq![' ' as u8] + decimal(height as nat) + seq![' ' as u8]
            + decimal(maxval as nat) + seq!['\n' as u8],
        record_bytes(
            HeaderRecord::Arbitrary(ArbitraryHeader { height, width, depth, maxval, tupltype }),
        ) == seq!['\n' as u8, 'W' as u8, 'I' as u8, 'D' as u8, 'T' as u8, 'H' as u8, ' ' as u8]
            + decimal(width as nat) + seq![
            '\n' as u8, 'H' as u8, 'E' as u8, 'I' as u8, 'G' as u8, 'H' as u8, 'T' as u8, ' ' as u8,
        ] + decimal(height as nat) + seq![
            '\n' as u8, 'D' as u8, 'E' as u8, 'P' as u8, 'T' as u8, 'H' as u8, ' ' as u8,
        ] + decimal(depth as nat) + seq![
            '\n' as u8, 'M' as u8, 'A' as u8, 'X' as u8, 'V' as u8, 'A' as u8, 'L' as u8, ' ' as u8,
        ] + decimal(maxval as nat) + seq!['\n' as u8] + match tupltype {
            Some(t) => seq![
                'T' as u8, 'U' as u8, 'P' as u8, 'L' as u8, 'T' as u8, 'Y' as u8, 'P' as u8, 'E' as u8,
                ' ' as u8,
            ] + tupltype_name(t) + seq!['\n' as u8],
            None => Seq::<u8>::empty(),
        } + seq!['E' as u8, 'N' as u8, 'D' as u8, 'H' as u8, 'D' as u8, 'R' as u8, '\n' as u8],
{
    let t = tupltype;
    assert(tupltype_line(t) == match t {
        Some(t) => seq![
            'T' as u8, 'U' as u8, 'P' as u8, 'L' as u8, 'T' as u8, 'Y' as u8, 'P' as u8, 'E' as u8,
            ' ' as u8,
        ] + tupltype_name(t) + seq!['\n' as u8],
        None => Seq::<u8>::empty(),
    });
}

/// How samples are written under each header: packed bits for binary PBM, text for plain PBM,
/// PGM and PPM, bytes for binary PGM and PPM and for PAM.
pub proof fn law_sample_encoding_of_headers(record: HeaderRecord)
    ensures
        tuple_encoding_of(record) == match record {
            HeaderRecord::Bitmap(h) => if h.encoding == SampleEncoding::Binary {
                TupleEncoding::PbmBits
            } else {
                TupleEncoding::U8 { encoding: SampleEncoding::Ascii }
            },
            HeaderRecord::Graymap(h) => TupleEncoding::U8 { encoding: h.encoding },
            HeaderRecord::Pixmap(h) => TupleEncoding::U8 { encoding: h.encoding },
            HeaderRecord::Arbitrary(_) => TupleEncoding::U8 { encoding: SampleEncoding::Binary },
        },
{
}

/// Which colour types each header takes: PBM and PGM only gray, PPM only RGB; a PAM header with a
/// named tuple type the colour type of that name (gray for black-and-white and gray scale, their
/// alpha variants with alpha, RGB, RGB with alpha); a PAM header with no or a custom tuple type
/// any colour type with as many components as its depth.
pub proof fn law_header_colors(record: HeaderRecord, color: ColorType)
    ensures
        color_fits_header(record, color) == match record {
            HeaderRecord::Bitmap(_) => color is Gray,
            HeaderRecord::Graymap(_) => color is Gray,
            HeaderRecord::Pixmap(_) => color is RGB,
            HeaderRecord::Arbitrary(h) => match h.tupltype {
                Some(ArbitraryTuplType::BlackAndWhite) => color is Gray,
                Some(ArbitraryTuplType::Grayscale) => color is Gray,
                Some(ArbitraryTuplType::BlackAndWhiteAlpha) => color is GrayA,
                Some(ArbitraryTuplType::GrayscaleAlpha) => color is GrayA,
                Some(ArbitraryTuplType::RGB) => color is RGB,
                Some(ArbitraryTuplType::RGBAlpha) => color is RGBA,
                _ => h.depth == match color {
                    ColorType::Gray(_) => 1u32,
                    ColorType::GrayA(_) => 2u32,
                    ColorType::RGB(_) => 3u32,
                    ColorType::RGBA(_) => 4u32,
                    ColorType::Palette(_) => 3u32,
                },
            },
        },
{
}

/// An image that passes the dimension, colour, depth and sample checks is refused exactly when
/// its buffer does not hold width times height pixels of the colour's components.
pub proof fn law_buffer_must_match(
    header: PNMHeader,
    image: FlatSamples,
    width: u32,
    height: u32,
    color: ColorType,
)
    requires
        header.spec_width() == width,
        header.spec_height() == height,
        color_fits_header(header.decoded, color),
        bit_depth(color) <= 8,
        header.spec_maximal_sample() >= pow2(bit_depth(color) as nat) - 1,
        !size_overflows(spec_num_components(color), width as nat, height as nat),
    ensures
        (check_image(header, image, width, height, color) == Err::<TupleEncoding, EncodeError>(
            EncodeError::BufferSizeMismatch,
        )) <==> spec_num_components(color) * width * height != image.values().len(),
{
    lemma2_to64();
}

/// 16-bit samples are written as two bytes each, the high byte first; 8-bit samples as they are.
pub proof fn law_binary_body_bytes(image: FlatSamples, k: int)
    requires
        0 <= k < image.values().len(),
    ensures
        image matches FlatSamples::U8(s) ==> binary_body(image)[k] == s@[k],
        image matches FlatSamples::U16(s) ==> {
            &&& binary_body(image)[2 * k] == s@[k] / 256
            &&& binary_body(image)[2 * k + 1] == s@[k] % 256
        },
{
    if let FlatSamples::U16(s) = image {
        lemma_be_bytes_index(s@, k);
    }
}

proof fn lemma_be_bytes_index(s: Seq<u16>, k: int)
    requires
        0 <= k < s.len(),
    ensures
        be_bytes(s).len() == 2 * s.len(),
        be_bytes(s)[2 * k] == s[k] / 256,
        be_bytes(s)[2 * k + 1] == s[k] % 256,
    decreases s.len(),
{
    lemma_be_bytes_length(s);
    lemma_be_bytes_length(s.drop_last());
    if k < s.len() - 1 {
        lemma_be_bytes_index(s.drop_last(), k);
    }
}

/// Byte `j` of a packed row holds pixels `8j` to `8j + 7` of the row (fewer in the last byte).
pub proof fn law_pbm_row_bytes(s: Seq<u32>, j: int)
    requires
        0 <= j,
        8 * j < s.len(),
    ensures
        pbm_row(s).len() == (s.len() + 7) / 8,
        pbm_row(s)[j] == pbm_byte(
            s.subrange(8 * j, if 8 * j + 8 <= s.len() { 8 * j + 8 } else { s.len() as int }),
        ),
    decreases s.len(),
{
    law_pbm_row_length(s);
    if s.len() <= 8 {
        assert(j == 0);
        assert(s.subrange(0, s.len() as int) =~= s);
    } else if j == 0 {
        assert(s.subrange(0, 8) =~= s.take(8));
    } else {
        let rest = s.skip(8);
        law_pbm_row_bytes(rest, j - 1);
        let end = if 8 * j + 8 <= s.len() { 8 * j + 8 } else { s.len() as int };
        assert(rest.subrange(8 * (j - 1), end - 8) =~= s.subrange(8 * j, end));
        assert(pbm_row(s) == seq![pbm_byte(s.take(8))] + pbm_row(rest));
    }
}

/// A binary PBM body of `rows` rows of `width` pixels is the rows packed one after the other,
/// `(width + 7) / 8` bytes each: row `r` is packed from pixels `r * width` to `r * width + width`.
pub proof fn law_pbm_rows_layout(s: Seq<u32>, width: nat, rows: nat, r: int)
    requires
        width > 0,
        s.len() == width * rows,
        0 <= r < rows,
    ensures
        pbm_rows(s, width).len() == rows * ((width + 7) / 8),
        pbm_rows(s, width).subrange(
            r * ((width as int + 7) / 8),
            r * ((width as int + 7) / 8) + (width as int + 7) / 8,
        ) == pbm_row(s.subrange(r * width, r * width + width)),
    decreases rows,
{
    law_pbm_rows_length(s, width, rows);
    let b: int = (width as int + 7) / 8;
    let w: int = width as int;
    if rows == 1 {
        assert(s.len() == width) by (nonlinear_arith)
            requires
                s.len() == width * rows,
                rows == 1,
        ;
        assert(r == 0);
        law_pbm_row_length(s);
        assert(s.subrange(0, w) =~= s);
        assert(pbm_rows(s, width).subrange(0, b) =~= pbm_rows(s, width));
    } else {
        assert(s.len() == width * (rows - 1) + width) by (nonlinear_arith)
            requires
                s.len() == width * rows,
                rows >= 2,
        ;
        assert(s.len() > width) by (nonlinear_arith)
            requires
                s.len() == width * (rows - 1) + width,
                rows >= 2,
                width > 0,
        ;
        let rest = s.skip(w);
        law_pbm_row_length(s.take(w));
        law_pbm_rows_length(rest, width, (rows - 1) as nat);
        assert(pbm_rows(s, width) == pbm_row(s.take(w)) + pbm_rows(rest, width));
        if r == 0 {
            assert(s.subrange(0, w) =~= s.take(w));
            assert(pbm_rows(s, width).subrange(0, b) =~= pbm_row(s.take(w)));
        } else {
            law_pbm_rows_layout(rest, width, (rows - 1) as nat, r - 1);
            assert(r * b == (r - 1) * b + b) by (nonlinear_arith)
                requires
                    r >= 1,
            ;
            assert(r * w == (r - 1) * w + w) by (nonlinear_arith)
                requires
                    r >= 1,
            ;
            assert((r - 1) * w + w <= (rows - 1) * w) by (nonlinear_arith)
                requires
                    r < rows,
                    w > 0,
            ;
            assert(0 <= (r - 1) * w) by (nonlinear_arith)
                requires
                    r >= 1,
                    w > 0,
            ;
            let lo = (r - 1) * w;
            assert(rest.len() == (rows - 1) * w) by (nonlinear_arith)
                requires
                    rest.len() == s.len() - w,
                    s.len() == width * (rows - 1) + width,
                    w == width,
            ;
            assert(lo + w <= rest.len());
            assert(r * w == lo + w);
            assert forall|k: int| 0 <= k < w implies #[trigger] rest.subrange(lo, lo + w)[k]
                == s.subrange(r * w, r * w + w)[k] by {
                assert(rest[lo + k] == s[w + lo + k]);
            }
            assert(rest.subrange(lo, lo + w) =~= s.subrange(r * w, r * w + w));
            assert(0 <= (r - 1) * b) by (nonlinear_arith)
                requires
                    r >= 1,
                    b >= 0,
            ;
            assert((r - 1) * b + b <= (rows - 1) * b) by (nonlinear_arith)
                requires
                    r < rows,
                    b >= 0,
            ;
            assert(pbm_rows(s, width).subrange(r * b, r * b + b) =~= pbm_rows(
                rest,
                width,
            ).subrange((r - 1) * b, (r - 1) * b + b));
        }
    }
}

/// The bytes of `s` without its line breaks.
pub open spec fn without_breaks(s: Seq<u8>) -> Seq<u8>
    decreases s.len(),
{
    if s.len() == 0 {
        Seq::empty()
    } else if s[0] == 10 {
        without_breaks(s.drop_first())
    } else {
        seq![s[0]] + without_breaks(s.drop_first())
    }
}

/// Each sample in decimal followed by a space, one after the other.
pub open spec fn sample_text(values: Seq<u32>) -> Seq<u8>
    decreases values.len(),
{
    if values.len() == 0 {
        Seq::empty()
    } else {
        decimal(values[0] as nat) + seq![' ' as u8] + sample_text(values.drop_first())
    }
}

proof fn lemma_without_breaks_concat(a: Seq<u8>, b: Seq<u8>)
    ensures
        without_breaks(a + b) == without_breaks(a) + without_breaks(b),
    decreases a.len(),
{
    if a.len() == 0 {
        assert(a + b =~= b);
        assert(without_breaks(a) + without_breaks(b) =~= without_breaks(b));
    } else {
        assert((a + b).drop_first() =~= a.drop_first() + b);
        assert((a + b)[0] == a[0]);
        lemma_without_breaks_concat(a.drop_first(), b);
        if a[0] != 10 {
            assert(seq![a[0]] + (without_breaks(a.drop_first()) + without_breaks(b)) =~= (seq![
                a[0],
            ] + without_breaks(a.drop_first())) + without_breaks(b));
        }
    }
}

proof fn lemma_without_breaks_plain(s: Seq<u8>)
    requires
        forall|k: int| 0 <= k < s.len() ==> s[k] != 10,
    ensures
        without_breaks(s) == s,
    decreases s.len(),
{
    if s.len() > 0 {
        assert forall|k: int| 0 <= k < s.drop_first().len() implies s.drop_first()[k] != 10 by {
            assert(s.drop_first()[k] == s[k + 1]);
        }
        lemma_without_breaks_plain(s.drop_first());
        assert(seq![s[0]] + s.drop_first() =~= s);
    }
}

proof fn lemma_break_before_text(line_len: nat, piece: Seq<u8>)
    requires
        forall|k: int| 0 <= k < piece.len() ==> piece[k] != 10,
    ensures
        without_breaks(break_before(line_len, piece, 70).0) == piece,
{
    lemma_without_breaks_plain(piece);
    if line_len > 0 && line_len + piece.len() > 70 {
        lemma_without_breaks_concat(seq![10u8], piece);
        assert(without_breaks(seq![10u8]) =~= Seq::<u8>::empty()) by {
            let nl = seq![10u8];
            assert(nl[0] == 10);
            assert(nl.drop_first() =~= Seq::<u8>::empty());
            assert(without_breaks(nl) == without_breaks(nl.drop_first()));
        }
        assert(Seq::<u8>::empty() + piece =~= piece);
    }
}

/// Plain-text samples: with its line breaks taken out, the text is each sample in decimal
/// followed by a space, in order; the breaks add nothing else.
pub proof fn law_ascii_text(values: Seq<u32>, line_len: nat)
    ensures
        without_breaks(ascii_body_from(values, line_len)) == sample_text(values),
    decreases values.len(),
{
    if values.len() > 0 {
        let d = decimal(values[0] as nat);
        lemma_decimal_digits(values[0] as nat);
        assert forall|k: int| 0 <= k < d.len() implies d[k] != 10 by {
            assert(48 <= d[k] <= 57);
        }
        let sp = seq![32u8];
        let (a, l1) = break_before(line_len, d, 70);
        let (b, l2) = break_before(l1, sp, 70);
        lemma_break_before_text(line_len, d);
        lemma_break_before_text(l1, sp);
        law_ascii_text(values.drop_first(), l2);
        let rest = ascii_body_from(values.drop_first(), l2);
        assert(ascii_body_from(values, line_len) == a + b + rest);
        lemma_without_breaks_concat(a + b, rest);
        lemma_without_breaks_concat(a, b);
        assert(seq![' ' as u8] == sp);
    }
}

/// A written header is `P` and the digit of its kind (1 to 3 plain PBM, PGM, PPM; 4 to 6 binary;
/// 7 PAM), then the bytes it was read from where it has them, else its fields as text.
pub proof fn law_header_bytes(header: PNMHeader)
    ensures
        header.spec_bytes() == seq![
            'P' as u8,
            match header.decoded {
                HeaderRecord::Bitmap(h) => if h.encoding == SampleEncoding::Ascii {
                    '1' as u8
                } else {
                    '4' as u8
                },
                HeaderRecord::Graymap(h) => if h.encoding == SampleEncoding::Ascii {
                    '2' as u8
                } else {
                    '5' as u8
                },
                HeaderRecord::Pixmap(h) => if h.encoding == SampleEncoding::Ascii {
                    '3' as u8
                } else {
                    '6' as u8
                },
                HeaderRecord::Arbitrary(_) => '7' as u8,
            },
        ] + match header.encoded {
            Some(content) => content@,
            None => record_bytes(header.decoded),
        },
{
}

/// Plain-text lines break at 70 bytes: a line break goes in before a number or a space exactly
/// when the current line is not empty and would grow past 70 bytes; the new line then holds what
/// was written.
pub proof fn law_line_breaks(line_len: nat, piece: Seq<u8>)
    ensures
        ASCII_LINE_CAPACITY == 70,
        line_len > 0 && line_len + piece.len() > 70 ==> break_before(line_len, piece, 70) == (
            seq!['\n' as u8] + piece,
            piece.len(),
        ),
        !(line_len > 0 && line_len + piece.len() > 70) ==> break_before(line_len, piece, 70) == (
            piece,
            line_len + piece.len(),
        ),
{
}

/// An image that agrees with the header in dimensions and colour type, with a bit depth of at
/// most 8 whose values the header allows, is refused for its dimensions exactly when components
/// times width, or that times height, exceeds the address space.
pub proof fn law_dimensions_overflow(
    header: PNMHeader,
    image: FlatSamples,
    width: u32,
    height: u32,
    color: ColorType,
)
    requires
        header.spec_width() == width,
        header.spec_height() == height,
        color_fits_header(header.decoded, color),
        bit_depth(color) <= 8,
        header.spec_maximal_sample() >= pow2(bit_depth(color) as nat) - 1,
    ensures
        (check_image(header, image, width, height, color) is Err && check_image(
            header,
            image,
            width,
            height,
            color,
        )->Err_0 is InvalidDimensions) <==> (spec_num_components(color) * width > usize::MAX
            || spec_num_components(color) * width * height > usize::MAX),
{
    lemma2_to64();
}

} // verus!
