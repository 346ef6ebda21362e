use ilff::{
    check_header, chunk_name, next_chunk_offset, read_body, read_ilff, strip_nul_padding,
    DecodeError, ImageResource, TraceEvent, CHUNK_TYPE_BODY, CHUNK_TYPE_NAME, MAGIC_ILFF,
    RES_TYPE_IRES,
};

fn put_u32(out: &mut Vec<u8>, v: u32) {
    out.extend_from_slice(&v.to_le_bytes());
}

fn put_u16(out: &mut Vec<u8>, v: u16) {
    out.extend_from_slice(&v.to_le_bytes());
}

fn header_with(magic: u32, res_type: u32) -> Vec<u8> {
    let mut out = Vec::new();
    put_u32(&mut out, magic);
    put_u32(&mut out, 0);
    put_u32(&mut out, 4);
    put_u32(&mut out, 0);
    put_u32(&mut out, res_type);
    out
}

fn header() -> Vec<u8> {
    header_with(MAGIC_ILFF, RES_TYPE_IRES)
}

fn chunk(out: &mut Vec<u8>, tag: u32, size: u32, align: u32, payload: &[u8]) {
    put_u32(out, tag);
    put_u32(out, size);
    put_u32(out, align);
    put_u32(out, size);
    out.extend_from_slice(payload);
}

fn pad(out: &mut Vec<u8>, align: usize) {
    while align > 0 && out.len() % align != 0 {
        out.push(0);
    }
}

fn name_chunk(out: &mut Vec<u8>, text: &[u8], align: u32) {
    chunk(out, CHUNK_TYPE_NAME, text.len() as u32, align, text);
    pad(out, align as usize);
}

fn body_payload(width: u16, height: u16, pixels: &[u8]) -> Vec<u8> {
    let mut p = Vec::new();
    for _ in 0..4 {
        put_u32(&mut p, 0xAAAA_AAAA);
    }
    put_u16(&mut p, 0xBBBB);
    put_u16(&mut p, width);
    put_u16(&mut p, height);
    put_u16(&mut p, 0xCCCC);
    put_u16(&mut p, 0xCCCC);
    put_u16(&mut p, width);
    put_u16(&mut p, height);
    put_u16(&mut p, 0xDDDD);
    assert_eq!(p.len(), 32);
    p.extend_from_slice(pixels);
    p
}

fn body_chunk(out: &mut Vec<u8>, width: u16, height: u16, pixels: &[u8], align: u32) {
    let p = body_payload(width, height, pixels);
    chunk(out, CHUNK_TYPE_BODY, p.len() as u32, align, &p);
    pad(out, align as usize);
}

fn decode(bytes: &[u8]) -> Result<Vec<ImageResource>, DecodeError> {
    let mut trace = Vec::new();
    read_ilff(bytes, &mut trace)
}

fn tag(s: &[u8; 4]) -> u32 {
    u32::from_le_bytes(*s)
}

#[test]
fn tags_are_ascii() {
    assert_eq!(MAGIC_ILFF, tag(b"ILFF"));
    assert_eq!(RES_TYPE_IRES, tag(b"IRES"));
    assert_eq!(CHUNK_TYPE_NAME, tag(b"NAME"));
    assert_eq!(CHUNK_TYPE_BODY, tag(b"BODY"));
}

#[test]
fn sprite_end_to_end() {
    let mut b = header();
    name_chunk(&mut b, b"Sprite\0\0", 4);
    body_chunk(&mut b, 2, 1, &[1, 2, 3, 4, 5, 6, 7, 8], 4);
    let mut trace = Vec::new();
    let images = read_ilff(&b, &mut trace).unwrap();
    assert_eq!(images.len(), 1);
    assert_eq!(images[0].name.as_deref(), Some("Sprite"));
    assert_eq!(images[0].width, 2);
    assert_eq!(images[0].height, 1);
    assert_eq!(images[0].data, vec![1, 2, 3, 4, 5, 6, 7, 8]);
    assert!(matches!(trace[0], TraceEvent::Magic(m) if m == MAGIC_ILFF));
    assert!(trace.iter().any(|e| matches!(e, TraceEvent::Name(n) if n == "Sprite")));
    assert!(trace.iter().any(|e| matches!(e, TraceEvent::Loaded { width: 2, height: 1, len: 8, .. })));
}

#[test]
fn bad_magic_is_invalid_format() {
    let mut b = header_with(tag(b"ILFX"), RES_TYPE_IRES);
    body_chunk(&mut b, 1, 1, &[9, 9, 9, 9], 4);
    let mut trace = Vec::new();
    assert_eq!(read_ilff(&b, &mut trace).unwrap_err(), DecodeError::InvalidFormat);
    assert!(trace.iter().any(|e| matches!(e, TraceEvent::InvalidMagic)));
}

#[test]
fn bad_resource_type_is_invalid_format() {
    let b = header_with(MAGIC_ILFF, tag(b"IRSX"));
    let mut trace = Vec::new();
    assert_eq!(read_ilff(&b, &mut trace).unwrap_err(), DecodeError::InvalidFormat);
    assert!(trace.iter().any(|e| matches!(e, TraceEvent::InvalidResourceType)));
}

#[test]
fn short_header_is_truncated() {
    assert_eq!(decode(&[]).unwrap_err(), DecodeError::TruncatedData);
    assert_eq!(decode(b"ILF").unwrap_err(), DecodeError::TruncatedData);
    let b = header();
    assert_eq!(decode(&b[..12]).unwrap_err(), DecodeError::TruncatedData);
}

#[test]
fn header_only_decodes_to_nothing() {
    assert!(decode(&header()).unwrap().is_empty());
}

#[test]
fn check_header_alone() {
    let mut trace = Vec::new();
    assert_eq!(check_header(&header(), &mut trace), Ok(()));
    assert_eq!(trace.len(), 2);
    assert!(matches!(trace[1], TraceEvent::ResourceType(t) if t == RES_TYPE_IRES));
}

#[test]
fn trailing_bytes_shorter_than_a_tag_end_the_walk() {
    let mut b = header();
    body_chunk(&mut b, 1, 1, &[1, 2, 3, 4], 4);
    b.extend_from_slice(&[0xEE, 0xEE, 0xEE]);
    assert_eq!(decode(&b).unwrap().len(), 1);
}

#[test]
fn partial_chunk_header_is_truncated() {
    let mut b = header();
    b.extend_from_slice(&[0u8; 10]);
    assert_eq!(decode(&b).unwrap_err(), DecodeError::TruncatedData);
}

#[test]
fn body_below_subheader_size_is_invalid_chunk() {
    let mut b = header();
    let p = body_payload(1, 1, &[]);
    chunk(&mut b, CHUNK_TYPE_BODY, 31, 4, &p);
    let mut trace = Vec::new();
    assert_eq!(read_ilff(&b, &mut trace).unwrap_err(), DecodeError::InvalidChunk);
    assert!(trace.iter().any(|e| matches!(e, TraceEvent::InvalidBodySize)));
}

#[test]
fn body_without_room_for_subheader_is_truncated() {
    let mut b = header();
    chunk(&mut b, CHUNK_TYPE_BODY, 40, 4, &[0u8; 20]);
    assert_eq!(decode(&b).unwrap_err(), DecodeError::TruncatedData);
}

#[test]
fn body_payload_past_end_is_truncated() {
    let mut b = header();
    let p = body_payload(2, 2, &[0u8; 16]);
    chunk(&mut b, CHUNK_TYPE_BODY, 48, 4, &p[..40]);
    assert_eq!(decode(&b).unwrap_err(), DecodeError::TruncatedData);
}

#[test]
fn name_payload_past_end_is_truncated() {
    let mut b = header();
    chunk(&mut b, CHUNK_TYPE_NAME, 16, 4, b"Short");
    assert_eq!(decode(&b).unwrap_err(), DecodeError::TruncatedData);
}

#[test]
fn short_pixels_dropped_and_walk_goes_on() {
    let mut b = header();
    body_chunk(&mut b, 2, 2, &[7u8; 12], 4);
    body_chunk(&mut b, 1, 1, &[1, 2, 3, 4], 4);
    let mut trace = Vec::new();
    let images = read_ilff(&b, &mut trace).unwrap();
    assert_eq!(images.len(), 1);
    assert_eq!(images[0].width, 1);
    assert_eq!(images[0].data, vec![1, 2, 3, 4]);
    assert!(trace.iter().any(|e| matches!(e, TraceEvent::ShortPixelData)));
}

#[test]
fn long_pixels_truncated() {
    let mut b = header();
    body_chunk(&mut b, 1, 2, &[1, 2, 3, 4, 5, 6, 7, 8, 9, 10, 11, 12], 4);
    let images = decode(&b).unwrap();
    assert_eq!(images.len(), 1);
    assert_eq!(images[0].data, vec![1, 2, 3, 4, 5, 6, 7, 8]);
}

#[test]
fn zero_sized_image() {
    let mut b = header();
    body_chunk(&mut b, 0, 5, &[1, 2, 3, 4], 4);
    let images = decode(&b).unwrap();
    assert_eq!(images.len(), 1);
    assert_eq!(images[0].height, 5);
    assert!(images[0].data.is_empty());
}

#[test]
fn width_and_height_are_little_endian() {
    let mut b = header();
    let pixels = vec![3u8; 0x0102 * 4];
    body_chunk(&mut b, 0x0102, 1, &pixels, 4);
    let images = decode(&b).unwrap();
    assert_eq!(images[0].width, 0x0102);
    assert_eq!(images[0].height, 1);
    assert_eq!(images[0].data.len(), 0x0102 * 4);
}

#[test]
fn one_name_labels_two_bodies() {
    let mut b = header();
    name_chunk(&mut b, b"Hero\0\0\0\0", 4);
    body_chunk(&mut b, 1, 1, &[1, 1, 1, 1], 4);
    body_chunk(&mut b, 1, 1, &[2, 2, 2, 2], 4);
    let images = decode(&b).unwrap();
    assert_eq!(images.len(), 2);
    assert_eq!(images[0].name.as_deref(), Some("Hero"));
    assert_eq!(images[1].name.as_deref(), Some("Hero"));
}

#[test]
fn later_name_replaces_earlier() {
    let mut b = header();
    body_chunk(&mut b, 1, 1, &[0, 0, 0, 0], 4);
    name_chunk(&mut b, b"A\0\0\0", 4);
    body_chunk(&mut b, 1, 1, &[1, 1, 1, 1], 4);
    name_chunk(&mut b, b"B\0\0\0", 4);
    body_chunk(&mut b, 1, 1, &[2, 2, 2, 2], 4);
    let images = decode(&b).unwrap();
    assert_eq!(images.len(), 3);
    assert_eq!(images[0].name, None);
    assert_eq!(images[1].name.as_deref(), Some("A"));
    assert_eq!(images[2].name.as_deref(), Some("B"));
}

#[test]
fn padding_follows_chunk_alignment() {
    let mut b = header();
    // The name ends at offset 41; alignment 8 puts the next header at 48.
    name_chunk(&mut b, b"Tile\0", 8);
    assert_eq!(b.len(), 48);
    body_chunk(&mut b, 1, 1, &[5, 6, 7, 8], 16);
    let images = decode(&b).unwrap();
    assert_eq!(images.len(), 1);
    assert_eq!(images[0].name.as_deref(), Some("Tile"));
    assert_eq!(images[0].data, vec![5, 6, 7, 8]);
}

#[test]
fn zero_alignment_means_no_padding() {
    let mut b = header();
    name_chunk(&mut b, b"Odd", 0);
    assert_eq!(b.len(), 39);
    body_chunk(&mut b, 1, 1, &[1, 2, 3, 4], 0);
    let images = decode(&b).unwrap();
    assert_eq!(images.len(), 1);
    assert_eq!(images[0].name.as_deref(), Some("Odd"));
}

#[test]
fn unknown_chunk_skipped() {
    let mut b = header();
    chunk(&mut b, tag(b"FOOB"), 8, 4, b"NAMEBODY");
    pad(&mut b, 4);
    body_chunk(&mut b, 1, 1, &[4, 3, 2, 1], 4);
    let mut trace = Vec::new();
    let images = read_ilff(&b, &mut trace).unwrap();
    assert_eq!(images.len(), 1);
    assert_eq!(images[0].name, None);
    assert_eq!(images[0].data, vec![4, 3, 2, 1]);
    assert!(trace.iter().any(|e| matches!(e, TraceEvent::UnknownChunk(t) if *t == tag(b"FOOB"))));
}

#[test]
fn unknown_chunk_past_end_ends_the_walk() {
    let mut b = header();
    body_chunk(&mut b, 1, 1, &[1, 2, 3, 4], 4);
    chunk(&mut b, tag(b"FOOB"), 1000, 4, b"xy");
    assert_eq!(decode(&b).unwrap().len(), 1);
}

#[test]
fn next_offset_values() {
    assert_eq!(next_chunk_offset(41, 8, 100), Some(48));
    assert_eq!(next_chunk_offset(48, 8, 100), Some(48));
    assert_eq!(next_chunk_offset(41, 0, 100), Some(41));
    assert_eq!(next_chunk_offset(41, 1, 41), Some(41));
    assert_eq!(next_chunk_offset(41, 8, 45), None);
}

#[test]
fn read_body_alone() {
    let mut b = header();
    body_chunk(&mut b, 1, 1, &[1, 2, 3, 4, 5], 1);
    let mut trace = Vec::new();
    let name = Some("N".to_string());
    let image = read_body(&b, 20, &name, &mut trace).unwrap().unwrap();
    assert_eq!(image.name.as_deref(), Some("N"));
    assert_eq!(image.data, vec![1, 2, 3, 4]);
    assert!(matches!(trace[0], TraceEvent::Body));
}

#[test]
fn chunk_name_strips_nul_padding() {
    assert_eq!(chunk_name(b"Sprite\0\0"), "Sprite");
    assert_eq!(chunk_name(b"a\0b\0"), "a\0b");
    assert_eq!(chunk_name(b""), "");
    assert_eq!(chunk_name(b"\0\0\0\0"), "");
}

#[test]
fn chunk_name_replaces_invalid_utf8() {
    assert_eq!(chunk_name(b"ok\xFF\0"), "ok\u{FFFD}");
    assert_eq!(chunk_name("caf\u{e9}".as_bytes()), "caf\u{e9}");
}

#[test]
fn strip_nul_padding_values() {
    assert_eq!(strip_nul_padding("x\0\0"), "x");
    assert_eq!(strip_nul_padding("\0x"), "\0x");
}
