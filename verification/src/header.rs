//! The headers of the `pnm` formats and their textual form.
use vstd::prelude::*;
use crate::decimal::{decimal, push_decimal};

verus! {

/// Whether samples are written as raw bytes or as decimal text.
#[derive(Clone, Copy, Debug, PartialEq, Eq)]
pub enum SampleEncoding {
    /// Samples are written as bytes.
    Binary,
    /// Samples are written as decimal numbers separated by whitespace.
    Ascii,
}

/// The kind of a `pnm` image, as its magic number names it.
#[derive(Clone, Copy, Debug, PartialEq, Eq)]
pub enum PNMSubtype {
    /// PBM, black and white.
    Bitmap(SampleEncoding),
    /// PGM, gray scale.
    Graymap(SampleEncoding),
    /// PPM, red, green and blue.
    Pixmap(SampleEncoding),
    /// PAM, arbitrary tuples of samples.
    ArbitraryMap,
}

/// The header fields of a PBM image.
#[derive(Clone, Copy, Debug)]
pub struct BitmapHeader {
    pub encoding: SampleEncoding,
    pub height: u32,
    pub width: u32,
}

/// The header fields of a PGM image.
#[derive(Clone, Copy, Debug)]
pub struct GraymapHeader {
    pub encoding: SampleEncoding,
    pub height: u32,
    pub width: u32,
    pub maxwhite: u32,
}

/// The header fields of a PPM image.
#[derive(Clone, Copy, Debug)]
pub struct PixmapHeader {
    pub encoding: SampleEncoding,
    pub height: u32,
    pub width: u32,
    pub maxval: u32,
}

/// The header fields of a PAM image.
#[derive(Clone, Debug)]
pub struct ArbitraryHeader {
    pub height: u32,
    pub width: u32,
    pub depth: u32,
    pub maxval: u32,
    pub tupltype: Option<ArbitraryTuplType>,
}

/// The tuple types that a PAM header can name.
#[derive(Clone, Debug)]
pub enum ArbitraryTuplType {
    BlackAndWhite,
    BlackAndWhiteAlpha,
    Grayscale,
    GrayscaleAlpha,
    RGB,
    RGBAlpha,
    /// Any other name.
    Custom(String),
}

/// The decoded fields of a header, one variant per format.
#[derive(Clone, Debug)]
pub enum HeaderRecord {
    Bitmap(BitmapHeader),
    Graymap(GraymapHeader),
    Pixmap(PixmapHeader),
    Arbitrary(ArbitraryHeader),
}

/// A `pnm` header: its fields, and where it was read from a file, the exact bytes that followed
/// the magic number there.
#[derive(Clone, Debug)]
pub struct PNMHeader {
    pub decoded: HeaderRecord,
    pub encoded: Option<Vec<u8>>,
}

/// The two bytes of the magic number of a subtype: `P1` to `P7`.
pub open spec fn magic_bytes(subtype: PNMSubtype) -> Seq<u8> {
    let digit: u8 = match subtype {
        PNMSubtype::Bitmap(SampleEncoding::Ascii) => 49,
        PNMSubtype::Graymap(SampleEncoding::Ascii) => 50,
        PNMSubtype::Pixmap(SampleEncoding::Ascii) => 51,
        PNMSubtype::Bitmap(SampleEncoding::Binary) => 52,
        PNMSubtype::Graymap(SampleEncoding::Binary) => 53,
        PNMSubtype::Pixmap(SampleEncoding::Binary) => 54,
        PNMSubtype::ArbitraryMap => 55,
    };
    seq![80u8, digit]
}

/// The name that a PAM header gives a tuple type.
pub open spec fn tupltype_name(t: ArbitraryTuplType) -> Seq<u8> {
    match t {
        ArbitraryTuplType::BlackAndWhite => seq![66u8, 76, 65, 67, 75, 65, 78, 68, 87, 72, 73, 84, 69],
        ArbitraryTuplType::BlackAndWhiteAlpha => seq![
            66u8, 76, 65, 67, 75, 65, 78, 68, 87, 72, 73, 84, 69, 95, 65, 76, 80, 72, 65,
        ],
        ArbitraryTuplType::Grayscale => seq![71u8, 82, 65, 89, 83, 67, 65, 76, 69],
        ArbitraryTuplType::GrayscaleAlpha => seq![
            71u8, 82, 65, 89, 83, 67, 65, 76, 69, 95, 65, 76, 80, 72, 65,
        ],
        ArbitraryTuplType::RGB => seq![82u8, 71, 66],
        ArbitraryTuplType::RGBAlpha => seq![82u8, 71, 66, 95, 65, 76, 80, 72, 65],
        ArbitraryTuplType::Custom(name) => vstd::utf8::encode_utf8(name@),
    }
}

/// `"\n"`
pub open spec fn newline() -> Seq<u8> {
    seq![10u8]
}

/// `" "`
pub open spec fn space() -> Seq<u8> {
    seq![32u8]
}

/// `"\nWIDTH "`
pub open spec fn width_key() -> Seq<u8> {
    seq![10u8, 87, 73, 68, 84, 72, 32]
}

/// `"\nHEIGHT "`
pub open spec fn height_key() -> Seq<u8> {
    seq![10u8, 72, 69, 73, 71, 72, 84, 32]
}

/// `"\nDEPTH "`
pub open spec fn depth_key() -> Seq<u8> {
    seq![10u8, 68, 69, 80, 84, 72, 32]
}

/// `"\nMAXVAL "`
pub open spec fn maxval_key() -> Seq<u8> {
    seq![10u8, 77, 65, 88, 86, 65, 76, 32]
}

/// `"TUPLTYPE "`
pub open spec fn tupltype_key() -> Seq<u8> {
    seq![84u8, 85, 80, 76, 84, 89, 80, 69, 32]
}

/// `"ENDHDR\n"`
pub open spec fn endhdr_key() -> Seq<u8> {
    seq![69u8, 78, 68, 72, 68, 82, 10]
}

/// The line of a PAM header that names the tuple type, if there is one.
pub open spec fn tupltype_line(t: Option<ArbitraryTuplType>) -> Seq<u8> {
    match t {
        Some(t) => tupltype_key() + tupltype_name(t) + newline(),
        None => Seq::empty(),
    }
}

/// The text that follows the magic number when a header is written from its fields.
pub open spec fn record_bytes(r: HeaderRecord) -> Seq<u8> {
    match r {
        HeaderRecord::Bitmap(h) => newline() + decimal(h.width as nat) + space() + decimal(
            h.height as nat,
        ) + newline(),
        HeaderRecord::Graymap(h) => newline() + decimal(h.width as nat) + space() + decimal(
            h.height as nat,
        ) + space() + decimal(h.maxwhite as nat) + newline(),
        HeaderRecord::Pixmap(h) => newline() + decimal(h.width as nat) + space() + decimal(
            h.height as nat,
        ) + space() + decimal(h.maxval as nat) + newline(),
        HeaderRecord::Arbitrary(h) => width_key() + decimal(h.width as nat) + height_key()
            + decimal(h.height as nat) + depth_key() + decimal(h.depth as nat) + maxval_key()
            + decimal(h.maxval as nat) + newline() + tupltype_line(h.tupltype) + endhdr_key(),
    }
}

/// Appends `bytes` to `out`.
pub fn push_bytes(out: &mut Vec<u8>, bytes: &[u8])
    ensures
        final(out)@ == old(out)@ + bytes@,
{
    let n = bytes.len();
    let mut i: usize = 0;
    while i < n
        invariant
            n == bytes@.len(),
            i <= n,
            out@ == old(out)@ + bytes@.take(i as int),
        decreases n - i,
    {
        out.push(bytes[i]);
        i = i + 1;
        assert(out@ =~= old(out)@ + bytes@.take(i as int));
    }
    assert(bytes@.take(n as int) =~= bytes@);
}

impl ArbitraryTuplType {
    /// Appends the name of the tuple type to `out`.
    pub fn write_name(&self, out: &mut Vec<u8>)
        ensures
            final(out)@ == old(out)@ + tupltype_name(*self),
    {
        match self {
            ArbitraryTuplType::BlackAndWhite => push_bytes(
                out,
                &[66u8, 76, 65, 67, 75, 65, 78, 68, 87, 72, 73, 84, 69],
            ),
            ArbitraryTuplType::BlackAndWhiteAlpha => push_bytes(
                out,
                &[66u8, 76, 65, 67, 75, 65, 78, 68, 87, 72, 73, 84, 69, 95, 65, 76, 80, 72, 65],
            ),
            ArbitraryTuplType::Grayscale => push_bytes(out, &[71u8, 82, 65, 89, 83, 67, 65, 76, 69]),
            ArbitraryTuplType::GrayscaleAlpha => push_bytes(
                out,
                &[71u8, 82, 65, 89, 83, 67, 65, 76, 69, 95, 65, 76, 80, 72, 65],
            ),
            ArbitraryTuplType::RGB => push_bytes(out, &[82u8, 71, 66]),
            ArbitraryTuplType::RGBAlpha => push_bytes(out, &[82u8, 71, 66, 95, 65, 76, 80, 72, 65]),
            ArbitraryTuplType::Custom(name) => push_bytes(out, name.as_str().as_bytes()),
        }
    }
}

impl PNMHeader {
    /// The subtype that the header's fields describe.
    pub open spec fn spec_subtype(&self) -> PNMSubtype {
        match self.decoded {
            HeaderRecord::Bitmap(h) => PNMSubtype::Bitmap(h.encoding),
            HeaderRecord::Graymap(h) => PNMSubtype::Graymap(h.encoding),
            HeaderRecord::Pixmap(h) => PNMSubtype::Pixmap(h.encoding),
            HeaderRecord::Arbitrary(_) => PNMSubtype::ArbitraryMap,
        }
    }

    /// The width that the header declares.
    pub open spec fn spec_width(&self) -> u32 {
        match self.decoded {
            HeaderRecord::Bitmap(h) => h.width,
            HeaderRecord::Graymap(h) => h.width,
            HeaderRecord::Pixmap(h) => h.width,
            HeaderRecord::Arbitrary(h) => h.width,
        }
    }

    /// The height that the header declares.
    pub open spec fn spec_height(&self) -> u32 {
        match self.decoded {
            HeaderRecord::Bitmap(h) => h.height,
            HeaderRecord::Graymap(h) => h.height,
            HeaderRecord::Pixmap(h) => h.height,
            HeaderRecord::Arbitrary(h) => h.height,
        }
    }

    /// The largest sample value that the header allows.
    pub open spec fn spec_maximal_sample(&self) -> u32 {
        match self.decoded {
            HeaderRecord::Bitmap(_) => 1,
            HeaderRecord::Graymap(h) => h.maxwhite,
            HeaderRecord::Pixmap(h) => h.maxval,
            HeaderRecord::Arbitrary(h) => h.maxval,
        }
    }

    /// The bytes that writing the header produces: the magic number, then the bytes the header
    /// was read from where it has them, else its fields as text.
    pub open spec fn spec_bytes(&self) -> Seq<u8> {
        magic_bytes(self.spec_subtype()) + match self.encoded {
            Some(content) => content@,
            None => record_bytes(self.decoded),
        }
    }

    /// Returns the subtype that the header's fields describe.
    pub fn subtype(&self) -> (s: PNMSubtype)
        ensures
            s == self.spec_subtype(),
    {
        match &self.decoded {
            HeaderRecord::Bitmap(h) => PNMSubtype::Bitmap(h.encoding),
            HeaderRecord::Graymap(h) => PNMSubtype::Graymap(h.encoding),
            HeaderRecord::Pixmap(h) => PNMSubtype::Pixmap(h.encoding),
            HeaderRecord::Arbitrary(_) => PNMSubtype::ArbitraryMap,
        }
    }

    /// Returns the width that the header declares.
    pub fn width(&self) -> (w: u32)
        ensures
            w == self.spec_width(),
    {
        match &self.decoded {
            HeaderRecord::Bitmap(h) => h.width,
            HeaderRecord::Graymap(h) => h.width,
            HeaderRecord::Pixmap(h) => h.width,
            HeaderRecord::Arbitrary(h) => h.width,
        }
    }

    /// Returns the height that the header declares.
    pub fn height(&self) -> (h: u32)
        ensures
            h == self.spec_height(),
    {
        match &self.decoded {
            HeaderRecord::Bitmap(h) => h.height,
            HeaderRecord::Graymap(h) => h.height,
            HeaderRecord::Pixmap(h) => h.height,
            HeaderRecord::Arbitrary(h) => h.height,
        }
    }

    /// Returns the largest sample value that the header allows.
    pub fn maximal_sample(&self) -> (m: u32)
        ensures
            m == self.spec_maximal_sample(),
    {
        match &self.decoded {
            HeaderRecord::Bitmap(_) => 1,
            HeaderRecord::Graymap(h) => h.maxwhite,
            HeaderRecord::Pixmap(h) => h.maxval,
            HeaderRecord::Arbitrary(h) => h.maxval,
        }
    }

    /// Appends the header to `out`.
    pub fn write(&self, out: &mut Vec<u8>)
        ensures
            final(out)@ == old(out)@ + self.spec_bytes(),
    {
        let digit: u8 = match self.subtype() {
            PNMSubtype::Bitmap(SampleEncoding::Ascii) => 49,
            PNMSubtype::Graymap(SampleEncoding::Ascii) => 50,
            PNMSubtype::Pixmap(SampleEncoding::Ascii) => 51,
            PNMSubtype::Bitmap(SampleEncoding::Binary) => 52,
            PNMSubtype::Graymap(SampleEncoding::Binary) => 53,
            PNMSubtype::Pixmap(SampleEncoding::Binary) => 54,
            PNMSubtype::ArbitraryMap => 55,
        };
        out.push(80u8);
        out.push(digit);
        let ghost start = out@;
        assert(start =~= old(out)@ + magic_bytes(self.spec_subtype()));
        match &self.encoded {
            Some(content) => {
                push_bytes(out, content.as_slice());
            },
            None => {
                write_record(&self.decoded, out);
            },
        }
        assert(out@ =~= old(out)@ + self.spec_bytes());
    }
}

/// Appends the fields of a header, as text, to `out`.
fn write_record(record: &HeaderRecord, out: &mut Vec<u8>)
    ensures
        final(out)@ == old(out)@ + record_bytes(*record),
{
    match record {
        HeaderRecord::Bitmap(h) => {
            out.push(10u8);
            push_decimal(out, h.width);
            out.push(32u8);
            push_decimal(out, h.height);
            out.push(10u8);
            assert(out@ =~= old(out)@ + record_bytes(*record));
        },
        HeaderRecord::Graymap(h) => {
            write_three_fields(out, h.width, h.height, h.maxwhite);
        },
        HeaderRecord::Pixmap(h) => {
            write_three_fields(out, h.width, h.height, h.maxval);
        },
        HeaderRecord::Arbitrary(h) => {
            write_arbitrary(h, out);
        },
    }
}

/// Appends `"\n{a} {b} {c}\n"` to `out`.
fn write_three_fields(out: &mut Vec<u8>, a: u32, b: u32, c: u32)
    ensures
        final(out)@ == old(out)@ + newline() + decimal(a as nat) + space() + decimal(b as nat)
            + space() + decimal(c as nat) + newline(),
{
    out.push(10u8);
    push_decimal(out, a);
    out.push(32u8);
    push_decimal(out, b);
    out.push(32u8);
    push_decimal(out, c);
    out.push(10u8);
    assert(out@ =~= old(out)@ + newline() + decimal(a as nat) + space() + decimal(b as nat)
        + space() + decimal(c as nat) + newline());
}

/// Appends the fields of a PAM header to `out`.
fn write_arbitrary(h: &ArbitraryHeader, out: &mut Vec<u8>)
    ensures
        final(out)@ == old(out)@ + record_bytes(HeaderRecord::Arbitrary(*h)),
{
    push_bytes(out, &[10u8, 87, 73, 68, 84, 72, 32]);
    push_decimal(out, h.width);
    push_bytes(out, &[10u8, 72, 69, 73, 71, 72, 84, 32]);
    push_decimal(out, h.height);
    let ghost first = out@;
    assert(first =~= old(out)@ + width_key() + decimal(h.width as nat) + height_key() + decimal(
        h.height as nat,
    ));
    push_bytes(out, &[10u8, 68, 69, 80, 84, 72, 32]);
    push_decimal(out, h.depth);
    push_bytes(out, &[10u8, 77, 65, 88, 86, 65, 76, 32]);
    push_decimal(out, h.maxval);
    out.push(10u8);
    let ghost second = out@;
    assert(second =~= first + depth_key() + decimal(h.depth as nat) + maxval_key() + decimal(
        h.maxval as nat,
    ) + newline());
    match &h.tupltype {
        Some(t) => {
            push_bytes(out, &[84u8, 85, 80, 76, 84, 89, 80, 69, 32]);
            t.write_name(out);
            out.push(10u8);
        },
        None => {},
    }
    assert(out@ =~= second + tupltype_line(h.tupltype));
    push_bytes(out, &[69u8, 78, 68, 72, 68, 82, 10]);
    assert(out@ =~= old(out)@ + record_bytes(HeaderRecord::Arbitrary(*h)));
}

} // verus!
