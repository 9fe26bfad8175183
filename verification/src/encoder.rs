//! Encoding of images into the `pnm` formats.
use vstd::prelude::*;
use vstd::arithmetic::power2::{lemma2_to64, pow2};
use crate::autobreak::{break_before, AutoBreak};
use crate::color::{bit_depth, num_components, spec_num_components, ColorType};
use crate::decimal::{decimal, decimal_bytes};
use crate::header::{
    push_bytes, ArbitraryHeader, ArbitraryTuplType, BitmapHeader, GraymapHeader, HeaderRecord,
    PNMHeader, PNMSubtype, PixmapHeader, SampleEncoding,
};

verus! {

/// The samples of an image, row after row, the components of each pixel in turn.
#[derive(Clone, Copy)]
pub enum FlatSamples<'a> {
    U8(&'a [u8]),
    U16(&'a [u16]),
}

/// Why an image could not be encoded.
#[derive(Clone, Copy, Debug, PartialEq, Eq)]
pub enum EncodeError {
    /// No `pnm` format was chosen for the colour type.
    UnsupportedColor(ColorType),
    /// The colour type cannot be expressed in the chosen subtype.
    UnrepresentableColor,
    /// The header's width or height differs from the image's.
    DimensionMismatch,
    /// A PBM header holds only gray images.
    BitmapColor,
    /// A PGM header holds only gray images.
    GraymapColor,
    /// A PPM header holds only RGB images.
    PixmapColor,
    /// The PAM header's tuple type or depth does not fit the colour type.
    ArbitraryColor,
    /// Samples of more than eight bits are not encoded.
    BitDepthTooLarge,
    /// A sample exceeds the largest value that the header allows.
    SampleTooLarge,
    /// Width, height and components multiply past the address space: width, height, components.
    InvalidDimensions(u32, u32, usize),
    /// The buffer length is not width times height times components.
    BufferSizeMismatch,
    /// A binary PBM image needs at least one pixel: it has no rows to pack.
    EmptyBitmap,
}

/// How the samples of a checked image are written after the header.
#[derive(Clone, Copy, Debug, PartialEq, Eq)]
pub enum TupleEncoding {
    /// Packed bits, eight pixels to a byte, each row starting on a new byte; zero is black.
    PbmBits,
    /// One sample after the other, as bytes or as text.
    U8 { encoding: SampleEncoding },
}

/// How the encoder chooses the header of each image.
pub enum HeaderStrategy {
    /// A PAM header made to fit each image.
    Dynamic,
    /// The given subtype; the rest of the header made to fit each image.
    Subtype(PNMSubtype),
    /// Exactly this header.
    Chosen(PNMHeader),
}

/// The longest line of plain-text samples, unless one number alone is longer.
pub const ASCII_LINE_CAPACITY: usize = 70;

impl<'a> FlatSamples<'a> {
    /// The sample values, widened.
    pub open spec fn values(self) -> Seq<u32> {
        match self {
            FlatSamples::U8(s) => s@.map_values(|b: u8| b as u32),
            FlatSamples::U16(s) => s@.map_values(|b: u16| b as u32),
        }
    }
}

/// Each 16-bit sample as two bytes, most significant first.
pub open spec fn be_bytes(s: Seq<u16>) -> Seq<u8>
    decreases s.len(),
{
    if s.len() == 0 {
        Seq::empty()
    } else {
        be_bytes(s.drop_last()) + seq![(s.last() / 256) as u8, (s.last() % 256) as u8]
    }
}

/// The samples written as bytes.
pub open spec fn binary_body(image: FlatSamples) -> Seq<u8> {
    match image {
        FlatSamples::U8(s) => s@,
        FlatSamples::U16(s) => be_bytes(s@),
    }
}

/// The value of bit `7 - i` of a byte.
pub open spec fn bit_weight(i: nat) -> nat {
    if i == 0 {
        128
    } else if i == 1 {
        64
    } else if i == 2 {
        32
    } else if i == 3 {
        16
    } else if i == 4 {
        8
    } else if i == 5 {
        4
    } else if i == 6 {
        2
    } else if i == 7 {
        1
    } else {
        0
    }
}

/// The bits for the first `k` pixels of a packed group: bit `7 - i` is set iff pixel `i` exists
/// and is 0 (black).
pub open spec fn pbm_bits_upto(chunk: Seq<u32>, k: nat) -> nat
    decreases k,
{
    if k == 0 {
        0
    } else {
        pbm_bits_upto(chunk, (k - 1) as nat) + if (k - 1) < chunk.len() && chunk[k - 1] == 0 {
            bit_weight((k - 1) as nat)
        } else {
            0
        }
    }
}

/// The byte that packs up to eight pixels.
pub open spec fn pbm_byte(chunk: Seq<u32>) -> u8 {
    pbm_bits_upto(chunk, 8) as u8
}

/// One row of pixels, packed eight to a byte; the last byte padded with white.
pub open spec fn pbm_row(s: Seq<u32>) -> Seq<u8>
    decreases s.len(),
{
    if s.len() == 0 {
        Seq::empty()
    } else if s.len() <= 8 {
        seq![pbm_byte(s)]
    } else {
        seq![pbm_byte(s.take(8))] + pbm_row(s.skip(8))
    }
}

/// The rows of `width` pixels, each packed on its own.
pub open spec fn pbm_rows(s: Seq<u32>, width: nat) -> Seq<u8>
    decreases s.len(),
{
    if width == 0 || s.len() == 0 {
        Seq::empty()
    } else if s.len() <= width {
        pbm_row(s)
    } else {
        pbm_row(s.take(width as int)) + pbm_rows(s.skip(width as int), width)
    }
}

/// The samples as decimal numbers, each followed by a space, the current line holding `line_len`
/// bytes; a line break goes in before a number or a space that would make a line too long.
pub open spec fn ascii_body_from(values: Seq<u32>, line_len: nat) -> Seq<u8>
    decreases values.len(),
{
    if values.len() == 0 {
        Seq::empty()
    } else {
        let (a, l1) = break_before(line_len, decimal(values[0] as nat), ASCII_LINE_CAPACITY as nat);
        let (b, l2) = break_before(l1, seq![32u8], ASCII_LINE_CAPACITY as nat);
        a + b + ascii_body_from(values.drop_first(), l2)
    }
}

/// The samples as lines of decimal text.
pub open spec fn ascii_body(values: Seq<u32>) -> Seq<u8> {
    ascii_body_from(values, 0)
}

/// The bytes after the header for the given encoding of the samples.
pub open spec fn body_bytes(encoding: TupleEncoding, image: FlatSamples, width: u32) -> Seq<u8> {
    match encoding {
        TupleEncoding::PbmBits => pbm_rows(image.values(), width as nat),
        TupleEncoding::U8 { encoding: SampleEncoding::Binary } => binary_body(image),
        TupleEncoding::U8 { encoding: SampleEncoding::Ascii } => ascii_body(image.values()),
    }
}

/// Whether the colour type fits the header: only a combination known to be wrong is refused.
pub open spec fn color_fits_header(record: HeaderRecord, color: ColorType) -> bool {
    match record {
        HeaderRecord::Bitmap(_) => color is Gray,
        HeaderRecord::Graymap(_) => color is Gray,
        HeaderRecord::Pixmap(_) => color is RGB,
        HeaderRecord::Arbitrary(h) => match h.tupltype {
            Some(ArbitraryTuplType::BlackAndWhite) => color is Gray,
            Some(ArbitraryTuplType::BlackAndWhiteAlpha) => color is GrayA,
            Some(ArbitraryTuplType::Grayscale) => color is Gray,
            Some(ArbitraryTuplType::GrayscaleAlpha) => color is GrayA,
            Some(ArbitraryTuplType::RGB) => color is RGB,
            Some(ArbitraryTuplType::RGBAlpha) => color is RGBA,
            Some(ArbitraryTuplType::Custom(_)) => h.depth == spec_num_components(color),
            None => h.depth == spec_num_components(color),
        },
    }
}

/// The error for a colour type that does not fit the header.
pub open spec fn color_error(record: HeaderRecord) -> EncodeError {
    match record {
        HeaderRecord::Bitmap(_) => EncodeError::BitmapColor,
        HeaderRecord::Graymap(_) => EncodeError::GraymapColor,
        HeaderRecord::Pixmap(_) => EncodeError::PixmapColor,
        HeaderRecord::Arbitrary(_) => EncodeError::ArbitraryColor,
    }
}

/// The largest sample of `n` bits.
pub open spec fn max_sample_value(n: u8) -> u32 {
    (pow2(n as nat) - 1) as u32
}

/// How the samples are written under a header.
pub open spec fn tuple_encoding_of(record: HeaderRecord) -> TupleEncoding {
    match record {
        HeaderRecord::Bitmap(h) => match h.encoding {
            SampleEncoding::Binary => TupleEncoding::PbmBits,
            SampleEncoding::Ascii => TupleEncoding::U8 { encoding: SampleEncoding::Ascii },
        },
        HeaderRecord::Graymap(h) => TupleEncoding::U8 { encoding: h.encoding },
        HeaderRecord::Pixmap(h) => TupleEncoding::U8 { encoding: h.encoding },
        HeaderRecord::Arbitrary(_) => TupleEncoding::U8 { encoding: SampleEncoding::Binary },
    }
}

/// Whether some sample exceeds `maxval`.
pub open spec fn some_sample_exceeds(values: Seq<u32>, maxval: u32) -> bool {
    exists|i: int| 0 <= i < values.len() && values[i] > maxval
}

/// Whether components times width times height, multiplied in that order, overflows `usize`.
pub open spec fn size_overflows(components: nat, width: nat, height: nat) -> bool {
    components * width > usize::MAX || components * width * height > usize::MAX
}

/// The checks of an image's samples against a header, in the order they are made: the bit
/// depth, the sample range, the buffer size and, for packed bits, that there is a pixel; on
/// success, how the samples are to be written.
pub open spec fn check_samples(
    header: PNMHeader,
    image: FlatSamples,
    width: u32,
    height: u32,
    color: ColorType,
) -> Result<TupleEncoding, EncodeError> {
    let components = spec_num_components(color);
    if bit_depth(color) > 8 {
        Err(EncodeError::BitDepthTooLarge)
    } else if header.spec_maximal_sample() < max_sample_value(bit_depth(color))
        && some_sample_exceeds(image.values(), header.spec_maximal_sample()) {
        Err(EncodeError::SampleTooLarge)
    } else if size_overflows(components, width as nat, height as nat) {
        Err(EncodeError::InvalidDimensions(width, height, components as usize))
    } else if components * width * height != image.values().len() {
        Err(EncodeError::BufferSizeMismatch)
    } else if tuple_encoding_of(header.decoded) == TupleEncoding::PbmBits && image.values().len()
        == 0 {
        Err(EncodeError::EmptyBitmap)
    } else {
        Ok(tuple_encoding_of(header.decoded))
    }
}

/// The checks of an image against a header, in the order they are made: the dimensions, the
/// colour type, then the samples; on success, how the samples are to be written.
pub open spec fn check_image(
    header: PNMHeader,
    image: FlatSamples,
    width: u32,
    height: u32,
    color: ColorType,
) -> Result<TupleEncoding, EncodeError> {
    if header.spec_width() != width || header.spec_height() != height {
        Err(EncodeError::DimensionMismatch)
    } else if !color_fits_header(header.decoded, color) {
        Err(color_error(header.decoded))
    } else {
        check_samples(header, image, width, height, color)
    }
}

/// The bytes written for an image under a header, or the error.
pub open spec fn spec_write_with_header(
    header: PNMHeader,
    image: FlatSamples,
    width: u32,
    height: u32,
    color: ColorType,
) -> Result<Seq<u8>, EncodeError> {
    match check_image(header, image, width, height, color) {
        Ok(encoding) => Ok(header.spec_bytes() + body_bytes(encoding, image, width)),
        Err(e) => Err(e),
    }
}

/// The maxval and tuple type of the PAM header made for a colour type, if one is made.
pub open spec fn dynamic_params(color: ColorType) -> Option<(u32, ArbitraryTuplType)> {
    match color {
        ColorType::Gray(n) => if n == 1 {
            Some((1u32, ArbitraryTuplType::BlackAndWhite))
        } else if 1 <= n <= 8 {
            Some((max_sample_value(n), ArbitraryTuplType::Grayscale))
        } else {
            None
        },
        ColorType::GrayA(n) => if n == 1 {
            Some((1u32, ArbitraryTuplType::BlackAndWhiteAlpha))
        } else if 1 <= n <= 8 {
            Some((max_sample_value(n), ArbitraryTuplType::GrayscaleAlpha))
        } else {
            None
        },
        ColorType::RGB(n) => if 1 <= n <= 8 {
            Some((max_sample_value(n), ArbitraryTuplType::RGB))
        } else {
            None
        },
        ColorType::RGBA(n) => if 1 <= n <= 8 {
            Some((max_sample_value(n), ArbitraryTuplType::RGBAlpha))
        } else {
            None
        },
        ColorType::Palette(_) => None,
    }
}

/// The PAM header made for an image, or the error for a colour type that has none.
pub open spec fn dynamic_header(width: u32, height: u32, color: ColorType) -> Result<
    PNMHeader,
    EncodeError,
> {
    match dynamic_params(color) {
        Some((maxval, tupltype)) => Ok(
            PNMHeader {
                decoded: HeaderRecord::Arbitrary(
                    ArbitraryHeader {
                        width,
                        height,
                        depth: spec_num_components(color) as u32,
                        maxval,
                        tupltype: Some(tupltype),
                    },
                ),
                encoded: None,
            },
        ),
        None => Err(EncodeError::UnsupportedColor(color)),
    }
}

/// The header made for an image of a chosen subtype, or the error for a colour type that the
/// subtype cannot express.
pub open spec fn subtype_header(
    subtype: PNMSubtype,
    width: u32,
    height: u32,
    color: ColorType,
) -> Result<PNMHeader, EncodeError> {
    match subtype {
        PNMSubtype::ArbitraryMap => dynamic_header(width, height, color),
        PNMSubtype::Pixmap(encoding) => if color == ColorType::RGB(8) {
            Ok(
                PNMHeader {
                    decoded: HeaderRecord::Pixmap(
                        PixmapHeader { encoding, width, height, maxval: 255 },
                    ),
                    encoded: None,
                },
            )
        } else {
            Err(EncodeError::UnrepresentableColor)
        },
        PNMSubtype::Graymap(encoding) => if color == ColorType::Gray(8) {
            Ok(
                PNMHeader {
                    decoded: HeaderRecord::Graymap(
                        GraymapHeader { encoding, width, height, maxwhite: 255 },
                    ),
                    encoded: None,
                },
            )
        } else {
            Err(EncodeError::UnrepresentableColor)
        },
        PNMSubtype::Bitmap(encoding) => if color == ColorType::Gray(8) || color == ColorType::Gray(
            1,
        ) {
            Ok(
                PNMHeader {
                    decoded: HeaderRecord::Bitmap(BitmapHeader { encoding, width, height }),
                    encoded: None,
                },
            )
        } else {
            Err(EncodeError::UnrepresentableColor)
        },
    }
}

/// The header that a strategy gives an image, or the error.
pub open spec fn strategy_header(
    strategy: HeaderStrategy,
    width: u32,
    height: u32,
    color: ColorType,
) -> Result<PNMHeader, EncodeError> {
    match strategy {
        HeaderStrategy::Dynamic => dynamic_header(width, height, color),
        HeaderStrategy::Subtype(subtype) => subtype_header(subtype, width, height, color),
        HeaderStrategy::Chosen(header) => Ok(header),
    }
}

/// The bytes that encoding an image under a strategy writes, or the error.
pub open spec fn spec_encode(
    strategy: HeaderStrategy,
    image: FlatSamples,
    width: u32,
    height: u32,
    color: ColorType,
) -> Result<Seq<u8>, EncodeError> {
    match strategy_header(strategy, width, height, color) {
        Ok(header) => spec_write_with_header(header, image, width, height, color),
        Err(e) => Err(e),
    }
}

/// Encodes images to any of the `pnm` image formats, appending them to its output buffer.
pub struct PNMEncoder {
    writer: Vec<u8>,
    header: HeaderStrategy,
}

// An image whose buffer length has been checked against its dimensions and colour type.
struct CheckedImageBuffer<'a> {
    image: FlatSamples<'a>,
    width: u32,
    height: u32,
    color: ColorType,
}

// A header before any check.
struct UncheckedHeader<'a> {
    header: &'a PNMHeader,
}

// A header whose dimensions agree with the image.
struct CheckedDimensions<'a> {
    unchecked: UncheckedHeader<'a>,
    width: u32,
    height: u32,
}

// A header whose dimensions and colour type agree with the image.
struct CheckedHeaderColor<'a> {
    dimensions: CheckedDimensions<'a>,
    color: ColorType,
}

// A header that agrees with the image in every respect, with the way to write the samples.
struct CheckedHeader<'a> {
    color: CheckedHeaderColor<'a>,
    encoding: CheckedEncoding<'a>,
}

// What remains to be written once the header has been written.
struct CheckedEncoding<'a> {
    encoding: TupleEncoding,
    image: CheckedImageBuffer<'a>,
}

impl<'a> FlatSamples<'a> {
    fn len(&self) -> (n: usize)
        ensures
            n == self.values().len(),
    {
        match self {
            FlatSamples::U8(s) => s.len(),
            FlatSamples::U16(s) => s.len(),
        }
    }

    fn get(&self, i: usize) -> (v: u32)
        requires
            i < self.values().len(),
        ensures
            v == self.values()[i as int],
    {
        match self {
            FlatSamples::U8(s) => s[i] as u32,
            FlatSamples::U16(s) => s[i] as u32,
        }
    }
}

/// The bit depth of the colour type.
fn color_bits(color: ColorType) -> (n: u8)
    ensures
        n == bit_depth(color),
{
    match color {
        ColorType::Gray(n) => n,
        ColorType::RGB(n) => n,
        ColorType::Palette(n) => n,
        ColorType::GrayA(n) => n,
        ColorType::RGBA(n) => n,
    }
}

/// The largest sample of `n` bits.
fn max_sample_for_depth(n: u8) -> (m: u32)
    requires
        n <= 8,
    ensures
        m == max_sample_value(n),
{
    proof {
        lemma2_to64();
    }
    if n == 0 {
        0
    } else if n == 1 {
        1
    } else if n == 2 {
        3
    } else if n == 3 {
        7
    } else if n == 4 {
        15
    } else if n == 5 {
        31
    } else if n == 6 {
        63
    } else if n == 7 {
        127
    } else {
        255
    }
}

/// Whether some sample exceeds `maxval`.
fn any_sample_exceeds(image: &FlatSamples, maxval: u32) -> (r: bool)
    ensures
        r == some_sample_exceeds(image.values(), maxval),
{
    let n = image.len();
    let mut i: usize = 0;
    while i < n
        invariant
            n == image.values().len(),
            i <= n,
            forall|j: int| 0 <= j < i ==> image.values()[j] <= maxval,
        decreases n - i,
    {
        if image.get(i) > maxval {
            return true;
        }
        i = i + 1;
    }
    false
}

impl<'a> CheckedImageBuffer<'a> {
    fn check(image: FlatSamples<'a>, width: u32, height: u32, color: ColorType) -> (r: Result<
        CheckedImageBuffer<'a>,
        EncodeError,
    >)
        ensures
            match r {
                Ok(buf) => {
                    &&& !size_overflows(spec_num_components(color), width as nat, height as nat)
                    &&& spec_num_components(color) * width * height == image.values().len()
                    &&& buf.image == image
                    &&& buf.width == width
                    &&& buf.height == height
                    &&& buf.color == color
                },
                Err(e) => if size_overflows(
                    spec_num_components(color),
                    width as nat,
                    height as nat,
                ) {
                    e == EncodeError::InvalidDimensions(
                        width,
                        height,
                        spec_num_components(color) as usize,
                    )
                } else {
                    &&& spec_num_components(color) * width * height != image.values().len()
                    &&& e == EncodeError::BufferSizeMismatch
                },
            },
    {
        let components = num_components(color);
        let uwidth = width as usize;
        let uheight = height as usize;
        match components.checked_mul(uwidth) {
            None => Err(EncodeError::InvalidDimensions(width, height, components)),
            Some(v) => match v.checked_mul(uheight) {
                None => Err(EncodeError::InvalidDimensions(width, height, components)),
                Some(v) => if v == image.len() {
                    Ok(CheckedImageBuffer { image, width, height, color })
                } else {
                    Err(EncodeError::BufferSizeMismatch)
                },
            },
        }
    }
}

impl<'a> UncheckedHeader<'a> {
    fn check_header_dimensions(self, width: u32, height: u32) -> (r: Result<
        CheckedDimensions<'a>,
        EncodeError,
    >)
        ensures
            match r {
                Ok(d) => {
                    &&& self.header.spec_width() == width
                    &&& self.header.spec_height() == height
                    &&& d.unchecked.header == self.header
                    &&& d.width == width
                    &&& d.height == height
                },
                Err(e) => {
                    &&& (self.header.spec_width() != width || self.header.spec_height() != height)
                    &&& e == EncodeError::DimensionMismatch
                },
            },
    {
        if self.header.width() != width || self.header.height() != height {
            return Err(EncodeError::DimensionMismatch);
        }
        Ok(CheckedDimensions { unchecked: self, width, height })
    }
}

impl<'a> CheckedDimensions<'a> {
    // Refuses only a combination known to be wrong (e.g. a PPM header with a gray image); a PAM
    // header without a known tuple type takes any colour type of its depth.
    fn check_header_color(self, color: ColorType) -> (r: Result<CheckedHeaderColor<'a>, EncodeError>)
        ensures
            match r {
                Ok(c) => {
                    &&& color_fits_header(self.unchecked.header.decoded, color)
                    &&& c.dimensions == self
                    &&& c.color == color
                },
                Err(e) => {
                    &&& !color_fits_header(self.unchecked.header.decoded, color)
                    &&& e == color_error(self.unchecked.header.decoded)
                },
            },
    {
        let components: u32 = match color {
            ColorType::Gray(_) => 1,
            ColorType::GrayA(_) => 2,
            ColorType::Palette(_) | ColorType::RGB(_) => 3,
            ColorType::RGBA(_) => 4,
        };
        match &self.unchecked.header.decoded {
            HeaderRecord::Bitmap(_) => match color {
                ColorType::Gray(_) => {},
                _ => return Err(EncodeError::BitmapColor),
            },
            HeaderRecord::Graymap(_) => match color {
                ColorType::Gray(_) => {},
                _ => return Err(EncodeError::GraymapColor),
            },
            HeaderRecord::Pixmap(_) => match color {
                ColorType::RGB(_) => {},
                _ => return Err(EncodeError::PixmapColor),
            },
            HeaderRecord::Arbitrary(h) => {
                let fits = match (&h.tupltype, color) {
                    (Some(ArbitraryTuplType::BlackAndWhite), ColorType::Gray(_)) => true,
                    (Some(ArbitraryTuplType::BlackAndWhiteAlpha), ColorType::GrayA(_)) => true,
                    (Some(ArbitraryTuplType::Grayscale), ColorType::Gray(_)) => true,
                    (Some(ArbitraryTuplType::GrayscaleAlpha), ColorType::GrayA(_)) => true,
                    (Some(ArbitraryTuplType::RGB), ColorType::RGB(_)) => true,
                    (Some(ArbitraryTuplType::RGBAlpha), ColorType::RGBA(_)) => true,
                    (None, _) => h.depth == components,
                    (Some(ArbitraryTuplType::Custom(_)), _) => h.depth == components,
                    _ => false,
                };
                if !fits {
                    return Err(EncodeError::ArbitraryColor);
                }
            },
        }
        Ok(CheckedHeaderColor { dimensions: self, color })
    }
}

impl<'a> CheckedHeaderColor<'a> {
    fn check_sample_values(self, image: FlatSamples<'a>) -> (r: Result<CheckedHeader<'a>, EncodeError>)
        ensures
            match r {
                Ok(c) => {
                    &&& check_samples(
                        *self.dimensions.unchecked.header,
                        image,
                        self.dimensions.width,
                        self.dimensions.height,
                        self.color,
                    ) == Ok::<TupleEncoding, EncodeError>(c.encoding.encoding)
                    &&& c.color == self
                    &&& c.encoding.image.image == image
                    &&& c.encoding.image.width == self.dimensions.width
                    &&& c.encoding.image.height == self.dimensions.height
                    &&& c.encoding.image.color == self.color
                },
                Err(e) => check_samples(
                    *self.dimensions.unchecked.header,
                    image,
                    self.dimensions.width,
                    self.dimensions.height,
                    self.color,
                ) == Err::<TupleEncoding, EncodeError>(e),
            },
    {
        let header_maxval = self.dimensions.unchecked.header.maximal_sample();
        let n = color_bits(self.color);
        // Deeper samples are refused before their range is computed.
        if n > 8 {
            return Err(EncodeError::BitDepthTooLarge);
        }
        let max_sample = max_sample_for_depth(n);
        // The sample scan is skipped where the header allows every value of the bit depth.
        if header_maxval < max_sample && any_sample_exceeds(&image, header_maxval) {
            return Err(EncodeError::SampleTooLarge);
        }
        let encoding = match &self.dimensions.unchecked.header.decoded {
            HeaderRecord::Bitmap(h) => match h.encoding {
                SampleEncoding::Binary => TupleEncoding::PbmBits,
                SampleEncoding::Ascii => TupleEncoding::U8 { encoding: SampleEncoding::Ascii },
            },
            HeaderRecord::Graymap(h) => TupleEncoding::U8 { encoding: h.encoding },
            HeaderRecord::Pixmap(h) => TupleEncoding::U8 { encoding: h.encoding },
            HeaderRecord::Arbitrary(_) => TupleEncoding::U8 { encoding: SampleEncoding::Binary },
        };
        let width = self.dimensions.width;
        let height = self.dimensions.height;
        let color = self.color;
        let image = CheckedImageBuffer::check(image, width, height, color)?;
        // Packed bits are written row by row; an image without pixels has no row.
        if let TupleEncoding::PbmBits = encoding {
            if image.image.len() == 0 {
                return Err(EncodeError::EmptyBitmap);
            }
        }
        Ok(CheckedHeader { color: self, encoding: CheckedEncoding { encoding, image } })
    }
}

impl<'a> CheckedHeader<'a> {
    fn write_header(self, writer: &mut Vec<u8>) -> (r: CheckedEncoding<'a>)
        ensures
            final(writer)@ == old(writer)@ + self.color.dimensions.unchecked.header.spec_bytes(),
            r == self.encoding,
    {
        self.header().write(writer);
        self.encoding
    }

    fn header(&self) -> (h: &PNMHeader)
        ensures
            h == self.color.dimensions.unchecked.header,
    {
        self.color.dimensions.unchecked.header
    }
}

/// Appends the samples as bytes, 16-bit samples most significant byte first.
fn write_binary(image: &FlatSamples, out: &mut Vec<u8>)
    ensures
        final(out)@ == old(out)@ + binary_body(*image),
{
    match image {
        FlatSamples::U8(s) => push_bytes(out, s),
        FlatSamples::U16(s) => {
            let n = s.len();
            let mut i: usize = 0;
            while i < n
                invariant
                    n == s@.len(),
                    i <= n,
                    out@ == old(out)@ + be_bytes(s@.take(i as int)),
                decreases n - i,
            {
                let v = s[i];
                out.push((v / 256) as u8);
                out.push((v % 256) as u8);
                i = i + 1;
                assert(s@.take(i as int).drop_last() =~= s@.take(i - 1));
                assert(out@ =~= old(out)@ + be_bytes(s@.take(i as int)));
            }
            assert(s@.take(n as int) =~= s@);
        },
    }
}

/// Appends the samples as lines of decimal text, each number followed by a space.
fn write_ascii(image: &FlatSamples, out: &mut Vec<u8>)
    ensures
        final(out)@ == old(out)@ + ascii_body(image.values()),
{
    let n = image.len();
    let ghost values = image.values();
    let mut lines = AutoBreak::new(ASCII_LINE_CAPACITY);
    let mut i: usize = 0;
    assert(values.skip(0) =~= values);
    while i < n
        invariant
            n == values.len(),
            values == image.values(),
            i <= n,
            lines.capacity() == ASCII_LINE_CAPACITY,
            old(out)@ + ascii_body(values) == out@ + ascii_body_from(
                values.skip(i as int),
                lines.current_line_len(),
            ),
        decreases n - i,
    {
        let ghost rest = values.skip(i as int);
        let ghost before = out@;
        let ghost line_len = lines.current_line_len();
        let number = decimal_bytes(image.get(i));
        lines.write(out, number.as_slice());
        lines.write(out, &[32u8]);
        assert(rest[0] == values[i as int]);
        assert(rest.drop_first() =~= values.skip(i + 1));
        let ghost (a, l1) = break_before(line_len, decimal(rest[0] as nat), ASCII_LINE_CAPACITY as nat);
        let ghost (b, l2) = break_before(l1, seq![32u8], ASCII_LINE_CAPACITY as nat);
        assert(ascii_body_from(rest, line_len) == a + b + ascii_body_from(rest.drop_first(), l2));
        assert(out@ =~= before + a + b);
        i = i + 1;
    }
    assert(values.skip(n as int) =~= Seq::<u32>::empty());
}

/// The value of bit `7 - k` of a byte.
fn bit_weight_of(k: usize) -> (w: u8)
    requires
        k < 8,
    ensures
        w == bit_weight(k as nat),
{
    if k == 0 {
        128
    } else if k == 1 {
        64
    } else if k == 2 {
        32
    } else if k == 3 {
        16
    } else if k == 4 {
        8
    } else if k == 5 {
        4
    } else if k == 6 {
        2
    } else {
        1
    }
}

/// The sum of the weights of the first `k` bits.
spec fn weight_total(k: nat) -> nat
    decreases k,
{
    if k == 0 {
        0
    } else {
        weight_total((k - 1) as nat) + bit_weight((k - 1) as nat)
    }
}

proof fn lemma_pbm_bits_bound(chunk: Seq<u32>, k: nat)
    ensures
        pbm_bits_upto(chunk, k) <= weight_total(k),
    decreases k,
{
    if k > 0 {
        lemma_pbm_bits_bound(chunk, (k - 1) as nat);
    }
}

proof fn lemma_weight_total_8()
    ensures
        weight_total(8) == 255,
{
    reveal_with_fuel(weight_total, 9);
}

/// Packs the pixels `start..end` (at most eight) into one byte.
fn pack_pbm_byte(image: &FlatSamples, start: usize, end: usize) -> (b: u8)
    requires
        start < end <= image.values().len(),
        end - start <= 8,
    ensures
        b == pbm_byte(image.values().subrange(start as int, end as int)),
{
    let ghost chunk = image.values().subrange(start as int, end as int);
    let count = end - start;
    let mut byte: u8 = 0;
    let mut k: usize = 0;
    proof {
        lemma_weight_total_8();
    }
    while k < 8
        invariant
            chunk == image.values().subrange(start as int, end as int),
            count == chunk.len(),
            start + count == end,
            end <= image.values().len(),
            k <= 8,
            byte == pbm_bits_upto(chunk, k as nat),
            weight_total(8) == 255,
        decreases 8 - k,
    {
        proof {
            lemma_pbm_bits_bound(chunk, (k + 1) as nat);
            lemma_weight_total_upto((k + 1) as nat);
        }
        // Black pixels are written as ones.
        if k < count && image.get(start + k) == 0 {
            byte = byte + bit_weight_of(k);
        }
        k = k + 1;
    }
    byte
}

proof fn lemma_weight_total_upto(k: nat)
    requires
        k <= 8,
    ensures
        weight_total(k) <= 255,
{
    reveal_with_fuel(weight_total, 9);
}

/// Appends the packed bits of the pixels `start..end`, eight to a byte.
fn write_pbm_row(image: &FlatSamples, start: usize, end: usize, out: &mut Vec<u8>)
    requires
        start <= end <= image.values().len(),
    ensures
        final(out)@ == old(out)@ + pbm_row(image.values().subrange(start as int, end as int)),
{
    let ghost values = image.values();
    let mut pos: usize = start;
    while pos < end
        invariant
            values == image.values(),
            start <= pos <= end,
            end <= values.len(),
            old(out)@ + pbm_row(values.subrange(start as int, end as int)) == out@ + pbm_row(
                values.subrange(pos as int, end as int),
            ),
        decreases end - pos,
    {
        let ghost rest = values.subrange(pos as int, end as int);
        let ghost before = out@;
        let chunk_end = if end - pos <= 8 {
            end
        } else {
            pos + 8
        };
        let byte = pack_pbm_byte(image, pos, chunk_end);
        out.push(byte);
        if end - pos > 8 {
            assert(rest.take(8) =~= values.subrange(pos as int, chunk_end as int));
            assert(rest.skip(8) =~= values.subrange(chunk_end as int, end as int));
        } else {
            assert(rest =~= values.subrange(pos as int, chunk_end as int));
            assert(values.subrange(chunk_end as int, end as int) =~= Seq::<u32>::empty());
        }
        assert(out@ =~= before + seq![byte]);
        pos = chunk_end;
    }
}

/// Appends the rows of `width` pixels, each packed eight pixels to a byte.
fn write_pbm(image: &FlatSamples, width: u32, out: &mut Vec<u8>)
    requires
        width > 0,
    ensures
        final(out)@ == old(out)@ + pbm_rows(image.values(), width as nat),
{
    let ghost values = image.values();
    let n = image.len();
    let w = width as usize;
    let mut row_start: usize = 0;
    assert(values.skip(0) =~= values);
    while row_start < n
        invariant
            values == image.values(),
            n == values.len(),
            w == width,
            w > 0,
            row_start <= n,
            old(out)@ + pbm_rows(values, w as nat) == out@ + pbm_rows(
                values.skip(row_start as int),
                w as nat,
            ),
        decreases n - row_start,
    {
        let ghost rest = values.skip(row_start as int);
        let row_end = if n - row_start <= w {
            n
        } else {
            row_start + w
        };
        write_pbm_row(image, row_start, row_end, out);
        if n - row_start <= w {
            assert(rest =~= values.subrange(row_start as int, row_end as int));
            assert(values.skip(row_end as int) =~= Seq::<u32>::empty());
        } else {
            assert(rest.take(w as int) =~= values.subrange(row_start as int, row_end as int));
            assert(rest.skip(w as int) =~= values.skip(row_end as int));
        }
        row_start = row_end;
    }
    assert(values.skip(n as int) =~= Seq::<u32>::empty());
}

impl<'a> CheckedEncoding<'a> {
    fn write_image(self, writer: &mut Vec<u8>)
        requires
            self.encoding == TupleEncoding::PbmBits ==> {
                &&& self.image.width > 0
                &&& self.image.image.values().len() > 0
                &&& self.image.image.values().len() % (self.image.width as nat) == 0
            },
        ensures
            final(writer)@ == old(writer)@ + body_bytes(
                self.encoding,
                self.image.image,
                self.image.width,
            ),
    {
        let CheckedEncoding { encoding, image: CheckedImageBuffer { image, width, .. } } = self;
        match encoding {
            TupleEncoding::U8 { encoding: SampleEncoding::Binary } => write_binary(&image, writer),
            TupleEncoding::U8 { encoding: SampleEncoding::Ascii } => write_ascii(&image, writer),
            TupleEncoding::PbmBits => {
                write_pbm(&image, width, writer);
            },
        }
    }
}

/// The PAM header made to fit an image, or the error for a colour type that has none.
fn dynamic_header_for(width: u32, height: u32, color: ColorType) -> (r: Result<PNMHeader, EncodeError>)
    ensures
        r == dynamic_header(width, height, color),
{
    let depth = num_components(color) as u32;
    let (maxval, tupltype) = match color {
        ColorType::Gray(1) => (1u32, ArbitraryTuplType::BlackAndWhite),
        ColorType::GrayA(1) => (1u32, ArbitraryTuplType::BlackAndWhiteAlpha),
        ColorType::Gray(n) if 1 <= n && n <= 8 => (
            max_sample_for_depth(n),
            ArbitraryTuplType::Grayscale,
        ),
        ColorType::GrayA(n) if 1 <= n && n <= 8 => (
            max_sample_for_depth(n),
            ArbitraryTuplType::GrayscaleAlpha,
        ),
        ColorType::RGB(n) if 1 <= n && n <= 8 => (max_sample_for_depth(n), ArbitraryTuplType::RGB),
        ColorType::RGBA(n) if 1 <= n && n <= 8 => (
            max_sample_for_depth(n),
            ArbitraryTuplType::RGBAlpha,
        ),
        _ => return Err(EncodeError::UnsupportedColor(color)),
    };
    Ok(
        PNMHeader {
            decoded: HeaderRecord::Arbitrary(
                ArbitraryHeader { width, height, depth, maxval, tupltype: Some(tupltype) },
            ),
            encoded: None,
        },
    )
}

/// The header made for an image of a chosen subtype, or the error for a colour type that the
/// subtype cannot express.
fn subtype_header_for(subtype: PNMSubtype, width: u32, height: u32, color: ColorType) -> (r: Result<
    PNMHeader,
    EncodeError,
>)
    ensures
        r == subtype_header(subtype, width, height, color),
{
    match (subtype, color) {
        (PNMSubtype::ArbitraryMap, color) => dynamic_header_for(width, height, color),
        (PNMSubtype::Pixmap(encoding), ColorType::RGB(8)) => Ok(
            PNMHeader {
                decoded: HeaderRecord::Pixmap(PixmapHeader { encoding, width, height, maxval: 255 }),
                encoded: None,
            },
        ),
        (PNMSubtype::Graymap(encoding), ColorType::Gray(8)) => Ok(
            PNMHeader {
                decoded: HeaderRecord::Graymap(
                    GraymapHeader { encoding, width, height, maxwhite: 255 },
                ),
                encoded: None,
            },
        ),
        (PNMSubtype::Bitmap(encoding), ColorType::Gray(8))
        | (PNMSubtype::Bitmap(encoding), ColorType::Gray(1)) => Ok(
            PNMHeader {
                decoded: HeaderRecord::Bitmap(BitmapHeader { encoding, width, height }),
                encoded: None,
            },
        ),
        (_, _) => Err(EncodeError::UnrepresentableColor),
    }
}

impl PNMEncoder {
    /// The bytes written so far, starting with those the encoder was made with.
    pub closed spec fn written(&self) -> Seq<u8> {
        self.writer@
    }

    /// How the encoder chooses each image's header.
    pub closed spec fn strategy(&self) -> HeaderStrategy {
        self.header
    }

    /// Creates an encoder that appends to `writer`.
    ///
    /// The encoded images will have some `pnm` format. If more control over the image type is
    /// required, use either one of `with_subtype` or `with_header`. For more information on the
    /// behaviour, see `with_dynamic_header`.
    pub fn new(writer: Vec<u8>) -> (r: PNMEncoder)
        ensures
            r.written() == writer@,
            r.strategy() == HeaderStrategy::Dynamic,
    {
        PNMEncoder { writer, header: HeaderStrategy::Dynamic }
    }

    /// Encodes a specific pnm subtype image.
    ///
    /// The magic number and encoding type will be chosen as provided while the rest of the header
    /// data will be generated dynamically. Trying to encode incompatible images (e.g. encoding an
    /// RGB image as Graymap) will result in an error.
    ///
    /// This will overwrite the effect of earlier calls to `with_header` and `with_dynamic_header`.
    pub fn with_subtype(self, subtype: PNMSubtype) -> (r: PNMEncoder)
        ensures
            r.written() == self.written(),
            r.strategy() == HeaderStrategy::Subtype(subtype),
    {
        PNMEncoder { writer: self.writer, header: HeaderStrategy::Subtype(subtype) }
    }

    /// Enforces the use of a chosen header.
    ///
    /// While this option gives the most control over the actual written data, the encoding process
    /// will error in case the header data and image parameters do not agree. It is the users
    /// obligation to ensure that the width and height are set accordingly, for example.
    ///
    /// Choose this option if you want a lossless decoding/encoding round trip.
    ///
    /// This will overwrite the effect of earlier calls to `with_subtype` and `with_dynamic_header`.
    pub fn with_header(self, header: PNMHeader) -> (r: PNMEncoder)
        ensures
            r.written() == self.written(),
            r.strategy() == HeaderStrategy::Chosen(header),
    {
        PNMEncoder { writer: self.writer, header: HeaderStrategy::Chosen(header) }
    }

    /// Creates the header dynamically for each image.
    ///
    /// This is the default option upon creation of the encoder. With this, most images should be
    /// encodable but the specific format chosen is out of the users control. The pnm subtype is
    /// chosen arbitrarily by the library.
    ///
    /// This will overwrite the effect of earlier calls to `with_subtype` and `with_header`.
    pub fn with_dynamic_header(self) -> (r: PNMEncoder)
        ensures
            r.written() == self.written(),
            r.strategy() == HeaderStrategy::Dynamic,
    {
        PNMEncoder { writer: self.writer, header: HeaderStrategy::Dynamic }
    }

    /// Gives back the output buffer with everything written to it.
    pub fn into_writer(self) -> (w: Vec<u8>)
        ensures
            w@ == self.written(),
    {
        self.writer
    }

    /// Encodes an image, appending it to the output buffer.
    ///
    /// Some `pnm` subtypes are incompatible with some color options, a chosen header most
    /// certainly with any deviation from the original decoded image. Nothing is written when
    /// an error is returned.
    pub fn encode(&mut self, image: FlatSamples, width: u32, height: u32, color: ColorType) -> (r:
        Result<(), EncodeError>)
        ensures
            final(self).strategy() == old(self).strategy(),
            match spec_encode(old(self).strategy(), image, width, height, color) {
                Ok(bytes) => r is Ok && final(self).written() == old(self).written() + bytes,
                Err(e) => r == Err::<(), EncodeError>(e) && final(self).written() == old(
                    self,
                ).written(),
            },
    {
        match &self.header {
            HeaderStrategy::Dynamic => self.write_dynamic_header(image, width, height, color),
            HeaderStrategy::Subtype(subtype) => self.write_subtyped_header(
                *subtype,
                image,
                width,
                height,
                color,
            ),
            HeaderStrategy::Chosen(header) => Self::write_with_header(
                &mut self.writer,
                header,
                image,
                width,
                height,
                color,
            ),
        }
    }

    /// Checks the image against the header and, where they agree, appends the header and the
    /// samples to `writer`.
    fn write_with_header(
        writer: &mut Vec<u8>,
        header: &PNMHeader,
        image: FlatSamples,
        width: u32,
        height: u32,
        color: ColorType,
    ) -> (r: Result<(), EncodeError>)
        ensures
            match spec_write_with_header(*header, image, width, height, color) {
                Ok(bytes) => r is Ok && final(writer)@ == old(writer)@ + bytes,
                Err(e) => r == Err::<(), EncodeError>(e) && final(writer)@ == old(writer)@,
            },
    {
        let unchecked = UncheckedHeader { header };
        let checked = unchecked.check_header_dimensions(width, height)?.check_header_color(
            color,
        )?.check_sample_values(image)?;
        let encoding = checked.write_header(writer);
        proof {
            if encoding.encoding == TupleEncoding::PbmBits {
                // Only a PBM header packs bits, and it holds a gray image: one sample per pixel,
                // `height` full rows of `width` pixels.
                let len = image.values().len() as int;
                let w = width as int;
                let h = height as int;
                assert(color is Gray);
                assert(len == w * h);
                if w == 0 {
                    assert(w * h == 0) by (nonlinear_arith)
                        requires
                            w == 0,
                    ;
                }
                vstd::arithmetic::div_mod::lemma_mod_multiples_basic(h, w);
                vstd::arithmetic::mul::lemma_mul_is_commutative(h, w);
                assert(len % w == 0);
            }
        }
        encoding.write_image(writer);
        proof {
            assert(writer@ =~= old(writer)@ + header.spec_bytes() + body_bytes(
                encoding.encoding,
                image,
                width,
            ));
        }
        Ok(())
    }

    /// Chooses a PAM header that fits the image and writes the image with it.
    fn write_dynamic_header(
        &mut self,
        image: FlatSamples,
        width: u32,
        height: u32,
        color: ColorType,
    ) -> (r: Result<(), EncodeError>)
        ensures
            final(self).strategy() == old(self).strategy(),
            match spec_encode(HeaderStrategy::Dynamic, image, width, height, color) {
                Ok(bytes) => r is Ok && final(self).written() == old(self).written() + bytes,
                Err(e) => r == Err::<(), EncodeError>(e) && final(self).written() == old(self).written(),
            },
    {
        let header = dynamic_header_for(width, height, color)?;
        Self::write_with_header(&mut self.writer, &header, image, width, height, color)
    }

    /// Writes the image with a header of the chosen subtype, where the subtype can express it.
    fn write_subtyped_header(
        &mut self,
        subtype: PNMSubtype,
        image: FlatSamples,
        width: u32,
        height: u32,
        color: ColorType,
    ) -> (r: Result<(), EncodeError>)
        ensures
            final(self).strategy() == old(self).strategy(),
            match spec_encode(HeaderStrategy::Subtype(subtype), image, width, height, color) {
                Ok(bytes) => r is Ok && final(self).written() == old(self).written() + bytes,
                Err(e) => r == Err::<(), EncodeError>(e) && final(self).written() == old(self).written(),
            },
    {
        if let PNMSubtype::ArbitraryMap = subtype {
            return self.write_dynamic_header(image, width, height, color);
        }
        let header = subtype_header_for(subtype, width, height, color)?;
        Self::write_with_header(&mut self.writer, &header, image, width, height, color)
    }
}

} // verus!
