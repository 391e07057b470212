use png_pong::chunk::{Chunk, ColorType, ImageHeader, Text, Unknown};
use png_pong::consts::{IMAGE_HEADER, PNG_SIGNATURE, TEXT};
use png_pong::decode::{Chunks, Error, Step};
use png_pong::decoder::Decoder;
use png_pong::encoder::Enc;

const IEND: [u8; 12] = [0, 0, 0, 0, 0x49, 0x45, 0x4E, 0x44, 0xAE, 0x42, 0x60, 0x82];

const IHDR_1X1_RGBA8: [u8; 25] = [
    0, 0, 0, 13, 0x49, 0x48, 0x44, 0x52, 0, 0, 0, 1, 0, 0, 0, 1, 8, 6, 0, 0, 0, 0x1F, 0x15, 0xC4,
    0x89,
];

fn header() -> ImageHeader {
    ImageHeader {
        width: 1,
        height: 1,
        color_type: ColorType::Rgba,
        bit_depth: 8,
        interlace: false,
    }
}

fn title() -> Text {
    Text { key: "Title".to_string(), val: "A small picture".to_string() }
}

fn stream(parts: &[&[u8]]) -> Vec<u8> {
    let mut data = PNG_SIGNATURE.to_vec();
    for part in parts {
        data.extend_from_slice(part);
    }
    data
}

fn framed(name: [u8; 4], body: &[u8]) -> Vec<u8> {
    let mut enc = Enc::new();
    enc.chunk(name, body).unwrap();
    enc.into_bytes()[8..].to_vec()
}

fn chunks(data: Vec<u8>) -> Chunks {
    Decoder::new(data).unwrap().into_chunks()
}

fn all(data: Vec<u8>) -> Vec<Result<Chunk, Error>> {
    let mut chunks = chunks(data);
    let mut items = Vec::new();
    while let Some(item) = chunks.next() {
        items.push(item);
    }
    assert_eq!(chunks.next(), None);
    items
}

#[test]
fn wrong_prefix_is_invalid_signature() {
    let mut data = stream(&[&IHDR_1X1_RGBA8, &IEND]);
    data[0] = 0x88;
    assert_eq!(Decoder::new(data).err(), Some(Error::InvalidSignature));
    assert_eq!(Decoder::new(b"GIF89a..".to_vec()).err(), Some(Error::InvalidSignature));
}

#[test]
fn short_input_is_unexpected_eof() {
    assert_eq!(Decoder::new(Vec::new()).err(), Some(Error::UnexpectedEof));
    assert_eq!(Decoder::new(PNG_SIGNATURE[..7].to_vec()).err(), Some(Error::UnexpectedEof));
}

#[test]
fn signature_alone_is_an_empty_sequence() {
    assert!(all(PNG_SIGNATURE.to_vec()).is_empty());
}

#[test]
fn zero_width_is_a_dimension_error() {
    let body = [0, 0, 0, 0, 0, 0, 0, 1, 8, 6, 0, 0, 0];
    assert_eq!(ImageHeader::read(&body), Err(Error::ImageDimensions));
    let items = all(stream(&[&framed(IMAGE_HEADER, &body)]));
    assert_eq!(items, vec![Err(Error::ImageDimensions)]);
}

#[test]
fn rgb_at_depth_4_is_a_color_mode_error() {
    let body = [0, 0, 0, 1, 0, 0, 0, 1, 4, 2, 0, 0, 0];
    assert_eq!(ImageHeader::read(&body), Err(Error::ColorMode(ColorType::Rgb, 4)));
    let items = all(stream(&[&framed(IMAGE_HEADER, &body)]));
    assert_eq!(items, vec![Err(Error::ColorMode(ColorType::Rgb, 4))]);
}

#[test]
fn no_terminator_in_80_bytes_is_a_key_size_error() {
    let body = [b'k'; 80];
    assert_eq!(Text::from_body(&body), Err(Error::KeySize(80)));
    let mut late = [b'k'; 100].to_vec();
    late[90] = 0;
    assert_eq!(Text::from_body(&late), Err(Error::KeySize(90)));
    let items = all(stream(&[&framed(TEXT, &body)]));
    assert_eq!(items, vec![Err(Error::KeySize(80))]);
}

#[test]
fn three_chunks_come_in_order() {
    let mut enc = Enc::new();
    Chunk::ImageHeader(header()).write(&mut enc).unwrap();
    Chunk::Text(title()).write(&mut enc).unwrap();
    let private = Unknown { name: *b"prVt", data: vec![1, 2, 3, 0, 255] };
    Chunk::Unknown(private.clone()).write(&mut enc).unwrap();
    let items = all(enc.into_bytes());
    assert_eq!(
        items,
        vec![
            Ok(Chunk::ImageHeader(header())),
            Ok(Chunk::Text(title())),
            Ok(Chunk::Unknown(private)),
        ]
    );
}

#[test]
fn known_stream_decodes() {
    let items = all(stream(&[&IHDR_1X1_RGBA8, &IEND]));
    assert_eq!(
        items,
        vec![
            Ok(Chunk::ImageHeader(header())),
            Ok(Chunk::Unknown(Unknown { name: *b"IEND", data: Vec::new() })),
        ]
    );
}

#[test]
fn encoder_writes_the_known_bytes() {
    let mut enc = Enc::new();
    header().write(&mut enc).unwrap();
    enc.chunk(*b"IEND", &[]).unwrap();
    assert_eq!(enc.as_bytes(), &stream(&[&IHDR_1X1_RGBA8, &IEND])[..]);
}

#[test]
fn flipping_any_body_bit_is_a_checksum_error() {
    let mut enc = Enc::new();
    header().write(&mut enc).unwrap();
    title().write(&mut enc).unwrap();
    enc.chunk(*b"prVt", &[7, 7, 7]).unwrap();
    let good = enc.into_bytes();
    let text_at = 8 + 25;
    let body_len = "Title".len() + 1 + "A small picture".len();
    for byte in 0..body_len {
        for bit in 0..8 {
            let mut bad = good.clone();
            bad[text_at + 8 + byte] ^= 1 << bit;
            let items = all(bad);
            assert_eq!(items, vec![Ok(Chunk::ImageHeader(header())), Err(Error::Crc32(TEXT))]);
        }
    }
}

#[test]
fn flipping_a_tag_bit_is_a_checksum_error() {
    let mut bad = stream(&[&IHDR_1X1_RGBA8, &IEND]);
    bad[8 + 25 + 4] ^= 0x20;
    assert_eq!(
        all(bad),
        vec![Ok(Chunk::ImageHeader(header())), Err(Error::Crc32(*b"iEND"))]
    );
}

#[test]
fn checksum_failure_comes_before_a_body_error() {
    let body = [0, 0, 0, 0, 0, 0, 0, 1, 8, 6, 0, 0, 0];
    let mut chunk = framed(IMAGE_HEADER, &body);
    let last = chunk.len() - 1;
    chunk[last] ^= 1;
    assert_eq!(all(stream(&[&chunk])), vec![Err(Error::Crc32(IMAGE_HEADER))]);
}

#[test]
fn oversized_length_is_rejected_with_no_body_read() {
    let head = [0x80, 0, 0, 0, b'b', b'i', b'g', b'!'];
    assert_eq!(all(stream(&[&head])), vec![Err(Error::ChunkLength(*b"big!"))]);
    let mut with_body = head.to_vec();
    with_body.extend_from_slice(&[0u8; 64]);
    assert_eq!(all(stream(&[&with_body])), vec![Err(Error::ChunkLength(*b"big!"))]);
}

#[test]
fn largest_length_is_not_a_length_error() {
    let head = [0x7F, 0xFF, 0xFF, 0xFF, b'b', b'i', b'g', b'!'];
    assert_eq!(all(stream(&[&head])), vec![Err(Error::UnexpectedEof)]);
}

#[test]
fn input_that_ends_inside_a_chunk_is_unexpected_eof() {
    let whole = stream(&[&IHDR_1X1_RGBA8]);
    for len in 9..whole.len() {
        assert_eq!(all(whole[..len].to_vec()), vec![Err(Error::UnexpectedEof)]);
    }
    assert_eq!(all(whole), vec![Ok(Chunk::ImageHeader(header()))]);
}

#[test]
fn sequence_stays_ended_after_an_error() {
    let mut bad = stream(&[&IHDR_1X1_RGBA8, &IEND]);
    bad[8 + 10] ^= 1;
    let mut chunks = chunks(bad);
    assert_eq!(chunks.next(), Some(Err(Error::Crc32(IMAGE_HEADER))));
    assert_eq!(chunks.next(), None);
    assert_eq!(chunks.next(), None);
}

#[test]
fn palette_chunk_sets_the_flag() {
    let plte = framed(*b"PLTE", &[255, 0, 0, 0, 255, 0]);
    let mut chunks = chunks(stream(&[&IHDR_1X1_RGBA8, &plte, &IEND]));
    assert!(!chunks.has_palette());
    assert!(matches!(chunks.next(), Some(Ok(Chunk::ImageHeader(_)))));
    assert!(!chunks.has_palette());
    assert_eq!(
        chunks.next(),
        Some(Ok(Chunk::Unknown(Unknown { name: *b"PLTE", data: vec![255, 0, 0, 0, 255, 0] })))
    );
    assert!(chunks.has_palette());
    assert!(matches!(chunks.next(), Some(Ok(Chunk::Unknown(_)))));
    assert!(chunks.has_palette());
    assert_eq!(chunks.next(), None);
    assert!(chunks.has_palette());
}

#[test]
fn steps_carry_the_palette_signal() {
    let plte = framed(*b"PLTE", &[1, 2, 3]);
    let data = stream(&[&IHDR_1X1_RGBA8, &plte, &IEND]);
    let mut steps = Decoder::new(data).unwrap().into_steps();
    assert_eq!(
        steps.next(),
        Some(Ok(Step { chunk: Chunk::ImageHeader(header()), palette: false }))
    );
    assert_eq!(
        steps.next(),
        Some(Ok(Step {
            chunk: Chunk::Unknown(Unknown { name: *b"PLTE", data: vec![1, 2, 3] }),
            palette: true
        }))
    );
    assert_eq!(
        steps.next(),
        Some(Ok(Step {
            chunk: Chunk::Unknown(Unknown { name: *b"IEND", data: Vec::new() }),
            palette: true
        }))
    );
    assert_eq!(steps.next(), None);
}

#[test]
fn chunks_can_be_fed_piece_by_piece() {
    let whole = stream(&[&IHDR_1X1_RGBA8, &framed(TEXT, b"Title\0fed"), &IEND]);
    let mut fed = Decoder::new(whole[..8].to_vec()).unwrap().into_chunks();
    let mut at = 8;
    let mut items = Vec::new();
    loop {
        fed.discard_read();
        loop {
            let need = fed.needed();
            if need == 0 || at == whole.len() {
                break;
            }
            let end = (at + need.min(5)).min(whole.len());
            fed.feed(&whole[at..end]);
            at = end;
        }
        match fed.next() {
            Some(item) => items.push(item),
            None => break,
        }
    }
    assert_eq!(items, all(whole));
    assert_eq!(items.len(), 3);
    assert_eq!(fed.needed(), 0);
}

#[test]
fn needed_counts_up_to_the_end_of_the_chunk() {
    let mut fed = Decoder::new(PNG_SIGNATURE.to_vec()).unwrap().into_chunks();
    assert_eq!(fed.needed(), 8);
    fed.feed(&IHDR_1X1_RGBA8[..3]);
    assert_eq!(fed.needed(), 5);
    fed.feed(&IHDR_1X1_RGBA8[3..8]);
    assert_eq!(fed.needed(), 13 + 4);
    fed.feed(&IHDR_1X1_RGBA8[8..24]);
    assert_eq!(fed.needed(), 1);
    fed.feed(&IHDR_1X1_RGBA8[24..]);
    assert_eq!(fed.needed(), 0);
    fed.feed(&IEND[..2]);
    assert_eq!(fed.needed(), 0);
    assert_eq!(fed.next(), Some(Ok(Chunk::ImageHeader(header()))));
    assert_eq!(fed.needed(), 6);
    fed.discard_read();
    assert_eq!(fed.needed(), 6);
}

#[test]
fn oversized_chunk_needs_no_body() {
    let mut fed = Decoder::new(PNG_SIGNATURE.to_vec()).unwrap().into_chunks();
    fed.feed(&[0xFF, 0xFF, 0xFF, 0xFF, b'b', b'i', b'g', b'!']);
    assert_eq!(fed.needed(), 0);
    assert_eq!(fed.next(), Some(Err(Error::ChunkLength(*b"big!"))));
    assert_eq!(fed.needed(), 0);
    assert_eq!(fed.next(), None);
}

#[test]
fn steps_can_be_fed() {
    let mut fed = Decoder::new(PNG_SIGNATURE.to_vec()).unwrap().into_steps();
    assert_eq!(fed.needed(), 8);
    fed.feed(&IEND);
    assert_eq!(fed.needed(), 0);
    fed.discard_read();
    assert_eq!(
        fed.next(),
        Some(Ok(Step {
            chunk: Chunk::Unknown(Unknown { name: *b"IEND", data: Vec::new() }),
            palette: false
        }))
    );
    assert_eq!(fed.needed(), 8);
    assert_eq!(fed.next(), None);
    assert_eq!(fed.needed(), 0);
}
