//! Binary layout of the container: tags, field offsets, and little-endian reads.
use byteorder::{ByteOrder, LittleEndian};
use vstd::prelude::*;

verus! {

/// Container magic: the ASCII bytes "ILFF" read as a little-endian `u32`.
pub const MAGIC_ILFF: u32 = 0x46464C49;

/// Resource-type tag of an image resource set: "IRES".
pub const RES_TYPE_IRES: u32 = 0x53455249;

/// Tag of a chunk that carries a name: "NAME".
pub const CHUNK_TYPE_NAME: u32 = 0x454D414E;

/// Tag of a chunk that carries one image: "BODY".
pub const CHUNK_TYPE_BODY: u32 = 0x59444F42;

/// Container header: magic, file size, alignment, reserved, resource type.
pub const HEADER_LEN: usize = 20;

/// Chunk header: tag, payload size, alignment, chunk size.
pub const CHUNK_HEADER_LEN: usize = 16;

/// Sub-header at the start of a BODY payload: four `u32` and eight `u16` fields.
pub const BODY_SUBHEADER_LEN: usize = 32;

/// Offset of the image width (the second `u16` field) inside a BODY payload.
pub const BODY_WIDTH_OFFSET: usize = 18;

/// Offset of the image height (the third `u16` field) inside a BODY payload.
pub const BODY_HEIGHT_OFFSET: usize = 20;

/// The little-endian `u16` stored at `b[at]`, `b[at + 1]`.
pub open spec fn le_u16(b: Seq<u8>, at: int) -> int {
    b[at] as int + 256 * (b[at + 1] as int)
}

/// The little-endian `u32` stored at `b[at] .. b[at + 3]`.
pub open spec fn le_u32(b: Seq<u8>, at: int) -> int {
    le_u16(b, at) + 65536 * le_u16(b, at + 2)
}

/// Relies on byteorder's `LittleEndian::read_u16`: it returns
/// `u16::from_le_bytes` of the first two bytes of the slice it is given.
#[verifier::external_body]
pub(crate) fn read_u16_at(b: &[u8], at: usize) -> (r: u16)
    requires
        at + 2 <= b@.len(),
    ensures
        r as int == le_u16(b@, at as int),
{
    LittleEndian::read_u16(&b[at..])
}

/// Relies on byteorder's `LittleEndian::read_u32`: it returns
/// `u32::from_le_bytes` of the first four bytes of the slice it is given.
#[verifier::external_body]
pub(crate) fn read_u32_at(b: &[u8], at: usize) -> (r: u32)
    requires
        at + 4 <= b@.len(),
    ensures
        r as int == le_u32(b@, at as int),
{
    LittleEndian::read_u32(&b[at..])
}

} // verus!
