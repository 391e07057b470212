use png_pong::checksum::Crc32Table;
use png_pong::chunk::{Chunk, ColorType, ImageHeader, Text, Unknown};
use png_pong::consts::{IMAGE_HEADER, MAX_CHUNK_SIZE, PNG_SIGNATURE, TEXT};
use png_pong::decode::Error;
use png_pong::decoder::{same_tag, Decoder};
use png_pong::encode::Error as EncoderError;
use png_pong::encoder::Enc;
use png_pong::endian::{encode_u32, encode_u8, u32_from_be, u32_to_be};

const COLOR_TYPES: [ColorType; 5] = [
    ColorType::Grey,
    ColorType::Rgb,
    ColorType::Palette,
    ColorType::GreyAlpha,
    ColorType::Rgba,
];

fn allowed(color_type: ColorType) -> &'static [u8] {
    match color_type {
        ColorType::Grey => &[1, 2, 4, 8, 16],
        ColorType::Palette => &[1, 2, 4, 8],
        ColorType::Rgb | ColorType::GreyAlpha | ColorType::Rgba => &[8, 16],
    }
}

fn body(width: u32, height: u32, tail: [u8; 5]) -> Vec<u8> {
    let mut body = width.to_be_bytes().to_vec();
    body.extend_from_slice(&height.to_be_bytes());
    body.extend_from_slice(&tail);
    body
}

fn encoded(chunk: &Chunk) -> Vec<u8> {
    let mut enc = Enc::new();
    chunk.write(&mut enc).unwrap();
    enc.into_bytes()
}

fn decoded(data: Vec<u8>) -> Vec<Result<Chunk, Error>> {
    let mut chunks = Decoder::new(data).unwrap().into_chunks();
    let mut items = Vec::new();
    while let Some(item) = chunks.next() {
        items.push(item);
    }
    items
}

#[test]
fn validity_matrix_is_exact() {
    for color_type in COLOR_TYPES {
        for depth in 0..=255u8 {
            let expected = if allowed(color_type).contains(&depth) {
                Ok(())
            } else {
                Err(Error::ColorMode(color_type, depth))
            };
            assert_eq!(color_type.check_png_color_validity(depth), expected);
        }
    }
}

#[test]
fn color_type_codes() {
    let codes = [0u8, 2, 3, 4, 6];
    for (color_type, code) in COLOR_TYPES.into_iter().zip(codes) {
        assert_eq!(color_type.code(), code);
        assert_eq!(ColorType::from_code(code), Ok(color_type));
    }
    for code in 0..=255u8 {
        if !codes.contains(&code) {
            assert_eq!(ColorType::from_code(code), Err(Error::ColorType(code)));
        }
    }
}

#[test]
fn channels_of_each_color_type() {
    assert_eq!(ColorType::Grey.channels(), 1);
    assert_eq!(ColorType::Palette.channels(), 1);
    assert_eq!(ColorType::GreyAlpha.channels(), 2);
    assert_eq!(ColorType::Rgb.channels(), 3);
    assert_eq!(ColorType::Rgba.channels(), 4);
}

#[test]
fn bits_per_pixel() {
    assert_eq!(ColorType::Grey.bpp(1), 1);
    assert_eq!(ColorType::Grey.bpp(16), 16);
    assert_eq!(ColorType::Palette.bpp(4), 4);
    assert_eq!(ColorType::GreyAlpha.bpp(8), 16);
    assert_eq!(ColorType::GreyAlpha.bpp(16), 32);
    assert_eq!(ColorType::Rgb.bpp(8), 24);
    assert_eq!(ColorType::Rgb.bpp(16), 48);
    assert_eq!(ColorType::Rgba.bpp(8), 32);
    assert_eq!(ColorType::Rgba.bpp(16), 64);
    assert_eq!(ColorType::Rgb.bpp(4), 48);
    let header = ImageHeader {
        width: 2,
        height: 2,
        color_type: ColorType::Rgba,
        bit_depth: 8,
        interlace: false,
    };
    assert_eq!(header.bpp(), 32);
}

#[test]
fn raw_size_rounds_the_whole_image_once() {
    let mut header = ImageHeader {
        width: 3,
        height: 3,
        color_type: ColorType::Grey,
        bit_depth: 1,
        interlace: false,
    };
    assert_eq!(header.raw_size(), 2);
    header.bit_depth = 8;
    assert_eq!(header.raw_size(), 9);
    header.color_type = ColorType::Rgba;
    assert_eq!(header.raw_size(), 36);
    header.bit_depth = 16;
    assert_eq!(header.raw_size(), 72);
    header = ImageHeader {
        width: 5,
        height: 1,
        color_type: ColorType::Palette,
        bit_depth: 2,
        interlace: true,
    };
    assert_eq!(header.raw_size(), 2);
    header.width = 1000;
    header.height = 1000;
    assert_eq!(header.raw_size(), 250_000);
}

#[test]
fn image_header_reads_its_fields() {
    let header = ImageHeader::read(&body(640, 480, [8, 2, 0, 0, 1])).unwrap();
    assert_eq!(
        header,
        ImageHeader {
            width: 640,
            height: 480,
            color_type: ColorType::Rgb,
            bit_depth: 8,
            interlace: true,
        }
    );
    let big = ImageHeader::read(&body(u32::MAX, 0x0102_0304, [16, 0, 0, 0, 0])).unwrap();
    assert_eq!((big.width, big.height), (u32::MAX, 0x0102_0304));
    assert!(!big.interlace);
}

#[test]
fn image_header_errors() {
    assert_eq!(ImageHeader::read(&body(1, 0, [8, 6, 0, 0, 0])), Err(Error::ImageDimensions));
    assert_eq!(ImageHeader::read(&body(0, 1, [8, 6, 0, 0, 0])), Err(Error::ImageDimensions));
    assert_eq!(ImageHeader::read(&body(1, 1, [0, 6, 0, 0, 0])), Err(Error::BitDepth(0)));
    assert_eq!(ImageHeader::read(&body(1, 1, [17, 6, 0, 0, 0])), Err(Error::BitDepth(17)));
    assert_eq!(ImageHeader::read(&body(1, 1, [8, 1, 0, 0, 0])), Err(Error::ColorType(1)));
    assert_eq!(ImageHeader::read(&body(1, 1, [8, 5, 0, 0, 0])), Err(Error::ColorType(5)));
    assert_eq!(ImageHeader::read(&body(1, 1, [8, 7, 0, 0, 0])), Err(Error::ColorType(7)));
    assert_eq!(
        ImageHeader::read(&body(1, 1, [16, 3, 0, 0, 0])),
        Err(Error::ColorMode(ColorType::Palette, 16))
    );
    assert_eq!(
        ImageHeader::read(&body(1, 1, [3, 0, 0, 0, 0])),
        Err(Error::ColorMode(ColorType::Grey, 3))
    );
    assert_eq!(ImageHeader::read(&body(1, 1, [8, 6, 1, 0, 0])), Err(Error::CompressionMethod));
    assert_eq!(ImageHeader::read(&body(1, 1, [8, 6, 0, 1, 0])), Err(Error::FilterMethod));
    assert_eq!(ImageHeader::read(&body(1, 1, [8, 6, 0, 0, 2])), Err(Error::InterlaceMethod));
    assert_eq!(ImageHeader::read(&body(1, 1, [8, 6, 0, 0, 255])), Err(Error::InterlaceMethod));
}

#[test]
fn image_header_reports_the_first_broken_constraint() {
    assert_eq!(ImageHeader::read(&body(0, 0, [0, 9, 9, 9, 9])), Err(Error::ImageDimensions));
    assert_eq!(ImageHeader::read(&body(1, 1, [0, 9, 9, 9, 9])), Err(Error::BitDepth(0)));
    assert_eq!(ImageHeader::read(&body(1, 1, [4, 9, 9, 9, 9])), Err(Error::ColorType(9)));
    assert_eq!(
        ImageHeader::read(&body(1, 1, [4, 6, 9, 9, 9])),
        Err(Error::ColorMode(ColorType::Rgba, 4))
    );
    assert_eq!(ImageHeader::read(&body(1, 1, [8, 6, 9, 9, 9])), Err(Error::CompressionMethod));
    assert_eq!(ImageHeader::read(&body(1, 1, [8, 6, 0, 9, 9])), Err(Error::FilterMethod));
}

#[test]
fn image_header_of_another_size_is_a_length_error() {
    let good = body(1, 1, [8, 6, 0, 0, 0]);
    assert_eq!(ImageHeader::read(&good[..12]), Err(Error::ChunkLength(IMAGE_HEADER)));
    assert_eq!(ImageHeader::read(&[]), Err(Error::ChunkLength(IMAGE_HEADER)));
    let mut long = good.clone();
    long.push(0);
    assert_eq!(ImageHeader::read(&long), Err(Error::ChunkLength(IMAGE_HEADER)));
    let mut enc = Enc::new();
    enc.chunk(IMAGE_HEADER, &long).unwrap();
    assert_eq!(decoded(enc.into_bytes()), vec![Err(Error::ChunkLength(IMAGE_HEADER))]);
}

#[test]
fn image_header_round_trip() {
    for color_type in COLOR_TYPES {
        for &bit_depth in allowed(color_type) {
            for interlace in [false, true] {
                for (width, height) in [(1, 1), (640, 480), (u32::MAX, 1), (7, u32::MAX)] {
                    let header = ImageHeader { width, height, color_type, bit_depth, interlace };
                    let data = encoded(&Chunk::ImageHeader(header));
                    assert_eq!(data.len(), 8 + 25);
                    assert_eq!(decoded(data), vec![Ok(Chunk::ImageHeader(header))]);
                }
            }
        }
    }
}

#[test]
fn text_reads_key_and_value() {
    assert_eq!(
        Text::from_body(b"Title\0Hello"),
        Ok(Text { key: "Title".to_string(), val: "Hello".to_string() })
    );
    assert_eq!(
        Text::from_body(b"k\0"),
        Ok(Text { key: "k".to_string(), val: String::new() })
    );
    assert_eq!(
        Text::from_body(b"Comment\0one\0two"),
        Ok(Text { key: "Comment".to_string(), val: "one\0two".to_string() })
    );
}

#[test]
fn text_splits_at_the_first_terminator() {
    assert_eq!(Text::split(b"ab\0cd\0e"), Ok((b"ab".to_vec(), b"cd\0e".to_vec())));
    assert_eq!(Text::split(&[0xC3, 0, 0xFF]), Ok((vec![0xC3], vec![0xFF])));
}

#[test]
fn text_key_sizes() {
    assert_eq!(Text::from_body(b""), Err(Error::KeySize(0)));
    assert_eq!(Text::from_body(b"\0value"), Err(Error::KeySize(0)));
    let mut longest = vec![b'k'; 79];
    longest.push(0);
    longest.extend_from_slice(b"v");
    assert_eq!(
        Text::from_body(&longest),
        Ok(Text { key: "k".repeat(79), val: "v".to_string() })
    );
    let mut too_long = vec![b'k'; 80];
    too_long.push(0);
    assert_eq!(Text::from_body(&too_long), Err(Error::KeySize(80)));
    assert_eq!(Text::from_body(&[b'k'; 300]), Err(Error::KeySize(300)));
}

#[test]
fn text_without_terminator() {
    assert_eq!(Text::from_body(b"Title"), Err(Error::NulTerminator));
    assert_eq!(Text::from_body(&[b'k'; 79]), Err(Error::NulTerminator));
    assert_eq!(Text::from_body(&[b'k'; 80]), Err(Error::KeySize(80)));
}

#[test]
fn text_is_decoded_lossily() {
    assert_eq!(
        Text::from_body(b"Author\0caf\xE9"),
        Ok(Text { key: "Author".to_string(), val: "caf\u{FFFD}".to_string() })
    );
    assert_eq!(
        Text::from_body(b"\xFFkey\0v"),
        Ok(Text { key: "\u{FFFD}key".to_string(), val: "v".to_string() })
    );
    assert_eq!(
        Text::from_body("Titel\0Gr\u{FC}\u{DF}e \u{2603}".as_bytes()),
        Ok(Text { key: "Titel".to_string(), val: "Gr\u{FC}\u{DF}e \u{2603}".to_string() })
    );
}

#[test]
fn text_round_trip() {
    let texts = [
        ("Title", "A small picture"),
        ("k", ""),
        ("Description", "two\nlines, and ~ more"),
        ("Schl\u{FC}ssel", "\u{2603} snow"),
    ];
    for (key, val) in texts {
        let text = Text { key: key.to_string(), val: val.to_string() };
        let data = encoded(&Chunk::Text(text.clone()));
        assert_eq!(data.len(), 8 + 12 + key.len() + 1 + val.len());
        assert_eq!(decoded(data), vec![Ok(Chunk::Text(text))]);
    }
    let longest = Text { key: "K".repeat(79), val: "v".repeat(1000) };
    assert_eq!(
        decoded(encoded(&Chunk::Text(longest.clone()))),
        vec![Ok(Chunk::Text(longest))]
    );
}

#[test]
fn text_with_a_terminator_in_its_key_does_not_come_back() {
    let text = Text { key: "a\0b".to_string(), val: "c".to_string() };
    assert_eq!(
        decoded(encoded(&Chunk::Text(text))),
        vec![Ok(Chunk::Text(Text { key: "a".to_string(), val: "b\0c".to_string() }))]
    );
}

#[test]
fn text_write_bytes() {
    let mut enc = Enc::new();
    Text { key: "ab".to_string(), val: "c".to_string() }.write(&mut enc).unwrap();
    let data = enc.into_bytes();
    assert_eq!(&data[..8], &PNG_SIGNATURE);
    assert_eq!(&data[8..12], &[0, 0, 0, 4]);
    assert_eq!(&data[12..16], &TEXT);
    assert_eq!(&data[16..20], b"ab\0c");
    let sum = Crc32Table::new().checksum(b"tEXtab\0c");
    assert_eq!(&data[20..], &sum.to_be_bytes());
}

#[test]
fn text_with_empty_key_is_not_written() {
    let mut enc = Enc::new();
    let text = Text { key: String::new(), val: "v".to_string() };
    assert_eq!(text.write(&mut enc), Err(EncoderError::KeySize(0)));
    assert_eq!(Chunk::Text(text).write(&mut enc), Err(EncoderError::KeySize(0)));
    assert_eq!(enc.as_bytes(), &PNG_SIGNATURE);
}

#[test]
fn oversized_chunk_is_not_written() {
    let mut enc = Enc::new();
    assert_eq!(enc.prepare(MAX_CHUNK_SIZE + 1, *b"big!"), Err(EncoderError::ChunkTooBig));
    assert_eq!(enc.as_bytes(), &PNG_SIGNATURE);
    assert_eq!(enc.prepare(MAX_CHUNK_SIZE, *b"big!"), Ok(()));
    assert_eq!(&enc.as_bytes()[8..], &[0x7F, 0xFF, 0xFF, 0xFF, b'b', b'i', b'g', b'!']);
}

#[test]
fn unknown_chunk_round_trip() {
    let unknown = Unknown { name: *b"IDAT", data: (0..=255).collect() };
    let data = encoded(&Chunk::Unknown(unknown.clone()));
    assert_eq!(decoded(data), vec![Ok(Chunk::Unknown(unknown))]);
}

#[test]
fn big_endian_numbers() {
    assert_eq!(u32_from_be(0x12, 0x34, 0x56, 0x78), 0x1234_5678);
    assert_eq!(u32_from_be(0xFF, 0xFF, 0xFF, 0xFF), u32::MAX);
    assert_eq!(u32_from_be(0, 0, 0, 13), 13);
    assert_eq!(u32_to_be(0x1234_5678), [0x12, 0x34, 0x56, 0x78]);
    assert_eq!(u32_to_be(u32::MAX), [0xFF; 4]);
    assert_eq!(u32_to_be(256), [0, 0, 1, 0]);
    let mut out = vec![9];
    encode_u32(&mut out, 0xA1B2_C3D4);
    encode_u8(&mut out, 7);
    assert_eq!(out, vec![9, 0xA1, 0xB2, 0xC3, 0xD4, 7]);
}

#[test]
fn checksum_of_known_messages() {
    let table = Crc32Table::new();
    assert_eq!(table.checksum(b"123456789"), 0xCBF4_3926);
    assert_eq!(table.checksum(b"IEND"), 0xAE42_6082);
    assert_eq!(table.checksum(b""), 0);
    assert_eq!(table.update(0, 1), 0x7707_3096);
    assert_eq!(table.update(0, 255), 0x2D02_EF8D);
    assert_eq!(table.update(0xFFFF_FFFF, 0), 0x2DFD_1072);
}

#[test]
fn checksum_folds_byte_by_byte() {
    let table = Crc32Table::new();
    let mut acc = 0xFFFF_FFFF;
    for &byte in b"123456789" {
        acc = table.update(acc, byte);
    }
    assert_eq!(acc, table.fold(0xFFFF_FFFF, b"123456789"));
    assert_eq!(acc ^ 0xFFFF_FFFF, 0xCBF4_3926);
    assert_eq!(table.fold(table.fold(7, b"ab"), b"cd"), table.fold(7, b"abcd"));
}

#[test]
fn tags_compare_byte_by_byte() {
    assert!(same_tag(b"IHDR", &IMAGE_HEADER));
    assert!(!same_tag(b"IHDr", &IMAGE_HEADER));
    assert!(!same_tag(b"tEXt", &IMAGE_HEADER));
}

#[test]
fn parser_walks_a_chunk() {
    let mut enc = Enc::new();
    enc.chunk(*b"abCd", &[10, 20, 30]).unwrap();
    let mut parser = Decoder::new(enc.into_bytes()).unwrap().parser();
    assert!(!parser.has_palette());
    assert_eq!(parser.prepare(), Ok(Some(*b"abCd")));
    assert_eq!(parser.len(), 3);
    assert_eq!(parser.u8(), Ok(10));
    assert_eq!(parser.bytes::<2>(), Ok([20, 30]));
    assert_eq!(parser.check_crc(b"abCd"), Ok(()));
    assert_eq!(parser.prepare(), Ok(None));
    assert_eq!(parser.u8(), Err(Error::UnexpectedEof));
    parser.set_palette();
    assert!(parser.has_palette());
}

#[test]
fn parser_reads_whole_bodies() {
    let mut enc = Enc::new();
    enc.chunk(*b"abCd", &[10, 20, 30]).unwrap();
    enc.chunk(*b"efGh", &[40]).unwrap();
    let mut parser = Decoder::new(enc.into_bytes()).unwrap().parser();
    assert_eq!(parser.prepare(), Ok(Some(*b"abCd")));
    assert_eq!(parser.raw(), Ok(vec![10, 20, 30]));
    assert_eq!(parser.check_crc(b"abCd"), Ok(()));
    assert_eq!(parser.prepare(), Ok(Some(*b"efGh")));
    assert_eq!(parser.unknown_chunk(), Ok(vec![40]));
    assert_eq!(parser.check_crc(b"efGh"), Ok(()));
    assert_eq!(parser.prepare(), Ok(None));
}

#[test]
fn parser_reports_a_wrong_checksum_with_the_tag() {
    let mut enc = Enc::new();
    enc.chunk(*b"abCd", &[10, 20, 30]).unwrap();
    let mut parser = Decoder::new(enc.into_bytes()).unwrap().parser();
    assert_eq!(parser.prepare(), Ok(Some(*b"abCd")));
    assert_eq!(parser.vec(2), Ok(vec![10, 20]));
    assert_eq!(parser.check_crc(b"abCd"), Err(Error::Crc32(*b"abCd")));
}

#[test]
fn parser_short_reads_use_up_the_input() {
    let mut data = PNG_SIGNATURE.to_vec();
    data.extend_from_slice(&[0, 0, 0, 9, b'a', b'b', b'C', b'd', 1, 2]);
    let mut parser = Decoder::new(data).unwrap().parser();
    assert_eq!(parser.prepare(), Ok(Some(*b"abCd")));
    assert_eq!(parser.len(), 9);
    assert_eq!(parser.raw(), Err(Error::UnexpectedEof));
    assert_eq!(parser.u8(), Err(Error::UnexpectedEof));
    assert_eq!(parser.check_crc(b"abCd"), Err(Error::UnexpectedEof));
    assert_eq!(parser.prepare(), Ok(None));
}

#[test]
fn encoder_writes_piece_by_piece() {
    let mut enc = Enc::new();
    assert_eq!(enc.take_bytes(), PNG_SIGNATURE.to_vec());
    enc.prepare(7, *b"teSt").unwrap();
    enc.u8(1);
    enc.u32(0x0203_0405);
    enc.str("a");
    enc.write_crc();
    let mut whole = Enc::new();
    whole.chunk(*b"teSt", &[1, 2, 3, 4, 5, b'a', 0]).unwrap();
    assert_eq!(enc.as_bytes(), &whole.as_bytes()[8..]);
    let taken = enc.take_bytes();
    assert_eq!(taken.len(), 12 + 7);
    assert!(enc.as_bytes().is_empty());
    enc.chunk(*b"IEND", &[]).unwrap();
    assert_eq!(enc.into_bytes(), vec![0, 0, 0, 0, 0x49, 0x45, 0x4E, 0x44, 0xAE, 0x42, 0x60, 0x82]);
}

#[test]
fn parser_can_be_fed_and_trimmed() {
    let mut enc = Enc::new();
    enc.chunk(*b"abCd", &[10, 20, 30]).unwrap();
    let data = enc.into_bytes();
    let mut parser = Decoder::new(data[..8].to_vec()).unwrap().parser();
    assert_eq!(parser.needed(), 8);
    parser.feed(&data[8..16]);
    assert_eq!(parser.needed(), 3 + 4);
    parser.discard_read();
    assert_eq!(parser.needed(), 3 + 4);
    parser.feed(&data[16..]);
    assert_eq!(parser.needed(), 0);
    assert_eq!(parser.prepare(), Ok(Some(*b"abCd")));
    parser.discard_read();
    assert_eq!(parser.raw(), Ok(vec![10, 20, 30]));
    parser.discard_read();
    assert_eq!(parser.check_crc(b"abCd"), Ok(()));
    assert_eq!(parser.prepare(), Ok(None));
}
