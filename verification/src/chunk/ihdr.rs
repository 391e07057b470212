//! The image header: geometry and pixel format of the image.
use vstd::prelude::*;

use crate::chunk::{Chunk, ChunkView};
use crate::consts;
use crate::decode::Error as DecoderError;
use crate::decoder::Parser;
use crate::encode::Error as EncoderError;
use crate::encoder::{frame, Enc};
use crate::endian::{be32_at, be32_bytes, encode_u32, encode_u8, lemma_be32_round_trip, u32_from_be};

verus! {

/// The color types of the format.
#[derive(Copy, Clone, Debug, PartialEq, Eq)]
pub enum ColorType {
    /// Greyscale: 1, 2, 4, 8 or 16 bits.
    Grey,
    /// Red, green, blue: 8 or 16 bits each.
    Rgb,
    /// Index into a palette: 1, 2, 4 or 8 bits.
    Palette,
    /// Greyscale with alpha: 8 or 16 bits each.
    GreyAlpha,
    /// Red, green, blue, alpha: 8 or 16 bits each.
    Rgba,
}

impl ColorType {
    /// The byte that stands for this color type in an image header.
    pub open spec fn spec_code(self) -> u8 {
        match self {
            ColorType::Grey => 0,
            ColorType::Rgb => 2,
            ColorType::Palette => 3,
            ColorType::GreyAlpha => 4,
            ColorType::Rgba => 6,
        }
    }

    /// The color type that the byte `code` stands for, if any.
    pub open spec fn spec_from_code(code: u8) -> Option<ColorType> {
        if code == 0 {
            Some(ColorType::Grey)
        } else if code == 2 {
            Some(ColorType::Rgb)
        } else if code == 3 {
            Some(ColorType::Palette)
        } else if code == 4 {
            Some(ColorType::GreyAlpha)
        } else if code == 6 {
            Some(ColorType::Rgba)
        } else {
            None
        }
    }

    /// Number of channels of a pixel.
    pub open spec fn spec_channels(self) -> int {
        match self {
            ColorType::Grey | ColorType::Palette => 1,
            ColorType::GreyAlpha => 2,
            ColorType::Rgb => 3,
            ColorType::Rgba => 4,
        }
    }

    /// Bits of one pixel: the channels times the bits of a channel, where a
    /// channel of a multi-channel pixel takes 8 bits at depth 8 and 16 bits
    /// at any other depth.
    pub open spec fn spec_bpp(self, bit_depth: u8) -> int {
        self.spec_channels() * if self.spec_channels() > 1 {
            if bit_depth == 8 {
                8
            } else {
                16
            }
        } else {
            bit_depth as int
        }
    }

    /// Whether the format allows this color type at this bit depth.
    pub open spec fn allows(self, bit_depth: u8) -> bool {
        match self {
            ColorType::Grey => bit_depth == 1 || bit_depth == 2 || bit_depth == 4 || bit_depth
                == 8 || bit_depth == 16,
            ColorType::Palette => bit_depth == 1 || bit_depth == 2 || bit_depth == 4 || bit_depth
                == 8,
            ColorType::Rgb | ColorType::GreyAlpha | ColorType::Rgba => bit_depth == 8 || bit_depth
                == 16,
        }
    }

    /// The byte that stands for this color type in an image header.
    pub fn code(self) -> (code: u8)
        ensures
            code == self.spec_code(),
    {
        match self {
            ColorType::Grey => 0,
            ColorType::Rgb => 2,
            ColorType::Palette => 3,
            ColorType::GreyAlpha => 4,
            ColorType::Rgba => 6,
        }
    }

    /// The color type that the byte `code` stands for; an error for a byte
    /// that stands for none.
    pub fn from_code(code: u8) -> (res: Result<ColorType, DecoderError>)
        ensures
            res == match ColorType::spec_from_code(code) {
                Some(color_type) => Ok::<ColorType, DecoderError>(color_type),
                None => Err(DecoderError::ColorType(code)),
            },
    {
        match code {
            0 => Ok(ColorType::Grey),
            2 => Ok(ColorType::Rgb),
            3 => Ok(ColorType::Palette),
            4 => Ok(ColorType::GreyAlpha),
            6 => Ok(ColorType::Rgba),
            c => Err(DecoderError::ColorType(c)),
        }
    }

    /// Number of channels of a pixel.
    pub fn channels(self) -> (n: u8)
        ensures
            n == self.spec_channels(),
    {
        match self {
            ColorType::Grey | ColorType::Palette => 1,
            ColorType::GreyAlpha => 2,
            ColorType::Rgb => 3,
            ColorType::Rgba => 4,
        }
    }

    /// Bits of one pixel at the given bit depth.
    pub fn bpp(self, bit_depth: u8) -> (bits: u8)
        requires
            1 <= bit_depth <= 16,
        ensures
            bits == self.spec_bpp(bit_depth),
            1 <= bits <= 64,
    {
        let ch = self.channels();
        ch * if ch > 1 {
            if bit_depth == 8 {
                8
            } else {
                16
            }
        } else {
            bit_depth
        }
    }

    /// Accepts the pairs of color type and bit depth that the format allows,
    /// and reports any other pair.
    pub fn check_png_color_validity(self, bd: u8) -> (res: Result<(), DecoderError>)
        ensures
            self.allows(bd) ==> res == Ok::<(), DecoderError>(()),
            !self.allows(bd) ==> res == Err::<(), DecoderError>(DecoderError::ColorMode(self, bd)),
    {
        match self {
            ColorType::Grey => {
                if !(bd == 1 || bd == 2 || bd == 4 || bd == 8 || bd == 16) {
                    return Err(DecoderError::ColorMode(self, bd));
                }
            },
            ColorType::Palette => {
                if !(bd == 1 || bd == 2 || bd == 4 || bd == 8) {
                    return Err(DecoderError::ColorMode(self, bd));
                }
            },
            ColorType::Rgb | ColorType::GreyAlpha | ColorType::Rgba => {
                if !(bd == 8 || bd == 16) {
                    return Err(DecoderError::ColorMode(self, bd));
                }
            },
        }
        Ok(())
    }
}

/// The body of the image header chunk.
///
/// The fields are public, so a value may hold anything; [`ImageHeader::valid`]
/// says which values the format allows, and decoding yields only those.
#[derive(Copy, Clone, Debug, PartialEq, Eq)]
pub struct ImageHeader {
    /// Width of the image in pixels.
    pub width: u32,
    /// Height of the image in pixels.
    pub height: u32,
    /// The color type of the image.
    pub color_type: ColorType,
    /// Bits per channel.
    pub bit_depth: u8,
    /// True for Adam7 interlacing, false for none.
    pub interlace: bool,
}

impl ImageHeader {
    /// What the format asks of an image header: no dimension is zero, and
    /// the color type is allowed at the bit depth.
    pub open spec fn valid(self) -> bool {
        &&& self.width > 0
        &&& self.height > 0
        &&& self.color_type.allows(self.bit_depth)
    }

    /// The 13 bytes of the chunk's body.
    pub open spec fn spec_body(self) -> Seq<u8> {
        be32_bytes(self.width) + be32_bytes(self.height) + seq![
            self.bit_depth,
            self.color_type.spec_code(),
            0u8,
            0u8,
            if self.interlace { 1u8 } else { 0u8 },
        ]
    }

    /// What a chunk body decodes to.  The constraints are tried in the order
    /// of the fields, and the first one broken decides the error.
    pub open spec fn spec_read(body: Seq<u8>) -> Result<ImageHeader, DecoderError> {
        if body.len() != consts::IMAGE_HEADER_SIZE {
            Err(DecoderError::ChunkLength(consts::IMAGE_HEADER))
        } else if be32_at(body, 0) == 0 || be32_at(body, 4) == 0 {
            Err(DecoderError::ImageDimensions)
        } else if body[8] == 0 || body[8] > 16 {
            Err(DecoderError::BitDepth(body[8]))
        } else {
            match ColorType::spec_from_code(body[9]) {
                None => Err(DecoderError::ColorType(body[9])),
                Some(color_type) => if !color_type.allows(body[8]) {
                    Err(DecoderError::ColorMode(color_type, body[8]))
                } else if body[10] != 0 {
                    Err(DecoderError::CompressionMethod)
                } else if body[11] != 0 {
                    Err(DecoderError::FilterMethod)
                } else if body[12] > 1 {
                    Err(DecoderError::InterlaceMethod)
                } else {
                    Ok(
                        ImageHeader {
                            width: be32_at(body, 0) as u32,
                            height: be32_at(body, 4) as u32,
                            color_type,
                            bit_depth: body[8],
                            interlace: body[12] == 1,
                        },
                    )
                },
            }
        }
    }

    /// Bits of one pixel.
    pub open spec fn spec_bpp(self) -> int {
        self.color_type.spec_bpp(self.bit_depth)
    }

    /// Bytes of the raw image: all pixels of the image laid out as one
    /// stream of bits, rounded up to whole bytes.
    pub open spec fn spec_raw_size(self) -> int {
        (self.width * self.height * self.spec_bpp() + 7) / 8
    }

    /// Decodes the body of an image header chunk.
    pub fn read(body: &[u8]) -> (res: Result<ImageHeader, DecoderError>)
        ensures
            res == ImageHeader::spec_read(body@),
            res matches Ok(header) ==> header.valid(),
    {
        if body.len() != consts::IMAGE_HEADER_SIZE {
            return Err(DecoderError::ChunkLength(consts::IMAGE_HEADER));
        }
        let width = u32_from_be(body[0], body[1], body[2], body[3]);
        let height = u32_from_be(body[4], body[5], body[6], body[7]);
        if width == 0 || height == 0 {
            return Err(DecoderError::ImageDimensions);
        }
        let bit_depth = body[8];
        if bit_depth == 0 || bit_depth > 16 {
            return Err(DecoderError::BitDepth(bit_depth));
        }
        let color_type = match ColorType::from_code(body[9]) {
            Ok(color_type) => color_type,
            Err(e) => return Err(e),
        };
        match color_type.check_png_color_validity(bit_depth) {
            Ok(()) => {},
            Err(e) => return Err(e),
        }
        if body[10] != 0 {
            return Err(DecoderError::CompressionMethod);
        }
        if body[11] != 0 {
            return Err(DecoderError::FilterMethod);
        }
        let interlace = match body[12] {
            0 => false,
            1 => true,
            _ => return Err(DecoderError::InterlaceMethod),
        };
        Ok(ImageHeader { width, height, color_type, bit_depth, interlace })
    }

    /// Reads the body of the current chunk and decodes it as an image
    /// header.
    pub fn parse(parse: &mut Parser) -> (res: Result<Chunk, DecoderError>)
        ensures
            final(parse)@ == old(parse)@.after_read(old(parse)@.length as int),
            old(parse)@.length > old(parse)@.remaining() ==> res == Err::<Chunk, DecoderError>(
                DecoderError::UnexpectedEof,
            ),
            old(parse)@.length <= old(parse)@.remaining() ==> match ImageHeader::spec_read(
                old(parse)@.next_bytes(old(parse)@.length as int),
            ) {
                Ok(header) => res is Ok && res->Ok_0@ == ChunkView::ImageHeader(header),
                Err(e) => res == Err::<Chunk, DecoderError>(e),
            },
    {
        let buffer = match parse.raw() {
            Ok(buffer) => buffer,
            Err(e) => return Err(e),
        };
        match ImageHeader::read(buffer.as_slice()) {
            Ok(header) => Ok(Chunk::ImageHeader(header)),
            Err(e) => Err(e),
        }
    }

    /// Writes the image header chunk: the fields in their fixed order, then
    /// framed with length, tag and checksum.
    pub fn write(&self, enc: &mut Enc) -> (res: Result<(), EncoderError>)
        ensures
            res == Ok::<(), EncoderError>(()),
            final(enc)@.output == old(enc)@.output + frame(consts::IMAGE_HEADER, self.spec_body()),
    {
        let mut header: Vec<u8> = Vec::new();
        encode_u32(&mut header, self.width);
        encode_u32(&mut header, self.height);
        encode_u8(&mut header, self.bit_depth);
        encode_u8(&mut header, self.color_type.code());
        encode_u8(&mut header, 0u8);
        encode_u8(&mut header, 0u8);
        encode_u8(&mut header, if self.interlace { 1u8 } else { 0u8 });
        assert(header@ =~= self.spec_body());
        enc.chunk(consts::IMAGE_HEADER, header.as_slice())
    }

    /// Bits of one pixel.
    pub fn bpp(&self) -> (bits: u8)
        requires
            1 <= self.bit_depth <= 16,
        ensures
            bits == self.spec_bpp(),
            1 <= bits <= 64,
    {
        self.color_type.bpp(self.bit_depth)
    }

    /// Bytes of the raw image buffer for this width, height and pixel format.
    pub fn raw_size(&self) -> (size: usize)
        requires
            1 <= self.bit_depth <= 16,
            self.spec_raw_size() <= usize::MAX,
        ensures
            size == self.spec_raw_size(),
    {
        let bpp: u128 = self.bpp() as u128;
        assert(0 <= self.width * self.height <= 0xFFFF_FFFF * 0xFFFF_FFFF) by (nonlinear_arith)
            requires
                0 <= self.width <= 0xFFFF_FFFF,
                0 <= self.height <= 0xFFFF_FFFF,
        ;
        let n: u128 = self.width as u128 * self.height as u128;
        assert(0 <= n * bpp <= 0xFFFF_FFFF * 0xFFFF_FFFF * 64) by (nonlinear_arith)
            requires
                0 <= n <= 0xFFFF_FFFF * 0xFFFF_FFFF,
                0 <= bpp <= 64,
        ;
        let size: u128 = (n * bpp + 7) / 8;
        size as usize
    }
}

/// Decoding the body of a valid image header gives the header back.
pub proof fn lemma_image_header_round_trip(header: ImageHeader)
    requires
        header.valid(),
    ensures
        header.spec_body().len() == consts::IMAGE_HEADER_SIZE,
        ImageHeader::spec_read(header.spec_body()) == Ok::<ImageHeader, DecoderError>(header),
{
    lemma_be32_round_trip(header.width);
    lemma_be32_round_trip(header.height);
    let body = header.spec_body();
    assert(body.len() == 13);
    assert(be32_at(body, 0) == be32_at(be32_bytes(header.width), 0));
    assert(be32_at(body, 4) == be32_at(be32_bytes(header.height), 0));
}

} // verus!
