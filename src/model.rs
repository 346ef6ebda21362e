//! The decoded values and the specification of what a container decodes to.
use crate::layout::{
    le_u16, le_u32, BODY_HEIGHT_OFFSET, BODY_SUBHEADER_LEN, BODY_WIDTH_OFFSET, CHUNK_HEADER_LEN,
    CHUNK_TYPE_BODY, CHUNK_TYPE_NAME, HEADER_LEN, MAGIC_ILFF, RES_TYPE_IRES,
};
use crate::text::name_text;
use vstd::prelude::*;

verus! {

/// Why a container could not be decoded.
#[derive(Debug, Clone, Copy, PartialEq, Eq, Structural)]
pub enum DecodeError {
    /// The magic is not "ILFF" or the resource type is not "IRES".
    InvalidFormat,
    /// The data ends inside a field or a payload that had to be read in full.
    TruncatedData,
    /// A BODY chunk declares a payload too small for its sub-header.
    InvalidChunk,
}

/// One decoded image: an optional name, its size, and `width * height * 4`
/// bytes of interleaved 8-bit RGBA pixels.
#[derive(Debug, Clone)]
pub struct ImageResource {
    pub name: Option<String>,
    pub width: u16,
    pub height: u16,
    pub data: Vec<u8>,
}

/// The mathematical value of an [`ImageResource`].
pub struct ImageView {
    pub name: Option<Seq<char>>,
    pub width: u16,
    pub height: u16,
    pub data: Seq<u8>,
}

impl ImageView {
    /// The pixel buffer holds exactly four bytes for each pixel.
    pub open spec fn wf(self) -> bool {
        self.data.len() == pixel_len(self.width as int, self.height as int)
    }
}

/// The view of an optional string.
pub open spec fn opt_text(name: Option<String>) -> Option<Seq<char>> {
    match name {
        Some(s) => Some(s@),
        None => None,
    }
}

impl View for ImageResource {
    type V = ImageView;

    open spec fn view(&self) -> ImageView {
        ImageView { name: opt_text(self.name), width: self.width, height: self.height, data: self.data@ }
    }
}

/// The views of a sequence of images.
pub open spec fn images_view(v: Seq<ImageResource>) -> Seq<ImageView> {
    v.map_values(|i: ImageResource| i@)
}

/// The view of a decoding result.
pub open spec fn result_view(r: Result<Vec<ImageResource>, DecodeError>) -> Result<Seq<ImageView>, DecodeError> {
    match r {
        Ok(v) => Ok(images_view(v@)),
        Err(e) => Err(e),
    }
}

/// Number of pixel bytes of a `width` x `height` RGBA image.
pub open spec fn pixel_len(width: int, height: int) -> int {
    width * height * 4
}

/// `end` moved forward to the next multiple of `align`; no move when `align` is 0.
pub open spec fn padded(end: int, align: int) -> int {
    if align == 0 {
        end
    } else {
        end + (align - end % align) % align
    }
}

/// Tag of the chunk whose header starts at `pos`.
pub open spec fn chunk_tag(b: Seq<u8>, pos: int) -> int {
    le_u32(b, pos)
}

/// Declared payload size of the chunk at `pos`.
pub open spec fn chunk_size(b: Seq<u8>, pos: int) -> int {
    le_u32(b, pos + 4)
}

/// Alignment field of the chunk at `pos`.
pub open spec fn chunk_align(b: Seq<u8>, pos: int) -> int {
    le_u32(b, pos + 8)
}

/// Offset of the payload of the chunk at `pos`.
pub open spec fn payload_start(pos: int) -> int {
    pos + CHUNK_HEADER_LEN
}

/// Offset just past the declared payload of the chunk at `pos`.
pub open spec fn chunk_end(b: Seq<u8>, pos: int) -> int {
    payload_start(pos) + chunk_size(b, pos)
}

/// Offset of the chunk header that follows the chunk at `pos`, after padding
/// to the chunk's own alignment.
pub open spec fn next_chunk(b: Seq<u8>, pos: int) -> int {
    padded(chunk_end(b, pos), chunk_align(b, pos))
}

/// Width field of the BODY chunk at `pos`.
pub open spec fn body_width(b: Seq<u8>, pos: int) -> int {
    le_u16(b, payload_start(pos) + BODY_WIDTH_OFFSET)
}

/// Height field of the BODY chunk at `pos`.
pub open spec fn body_height(b: Seq<u8>, pos: int) -> int {
    le_u16(b, payload_start(pos) + BODY_HEIGHT_OFFSET)
}

/// The pixel bytes that follow the sub-header of the BODY chunk at `pos`.
pub open spec fn body_pixels(b: Seq<u8>, pos: int) -> Seq<u8> {
    b.subrange(payload_start(pos) + BODY_SUBHEADER_LEN, chunk_end(b, pos))
}

/// The image that the BODY chunk at `pos` gives under the name `name`: its
/// pixel bytes cut to the size that its width and height call for.
pub open spec fn body_image(b: Seq<u8>, pos: int, name: Option<Seq<char>>) -> ImageView {
    ImageView {
        name,
        width: body_width(b, pos) as u16,
        height: body_height(b, pos) as u16,
        data: body_pixels(b, pos).subrange(0, pixel_len(body_width(b, pos), body_height(b, pos))),
    }
}

/// What the BODY chunk at `pos` gives: an error when its sub-header or its
/// payload cannot be read, `None` when its pixel bytes are too few for its
/// size, and otherwise its image.
pub open spec fn body_outcome(b: Seq<u8>, pos: int, name: Option<Seq<char>>) -> Result<Option<ImageView>, DecodeError> {
    if payload_start(pos) + BODY_SUBHEADER_LEN > b.len() {
        Err(DecodeError::TruncatedData)
    } else if chunk_size(b, pos) < BODY_SUBHEADER_LEN {
        Err(DecodeError::InvalidChunk)
    } else if chunk_end(b, pos) > b.len() {
        Err(DecodeError::TruncatedData)
    } else if body_pixels(b, pos).len() < pixel_len(body_width(b, pos), body_height(b, pos)) {
        Ok(None)
    } else {
        Ok(Some(body_image(b, pos, name)))
    }
}

/// A measure that every step of the chunk walk decreases.
pub open spec fn remaining(b: Seq<u8>, pos: int) -> nat {
    if pos <= b.len() {
        (b.len() - pos + 1) as nat
    } else {
        0
    }
}

/// `r` with `acc` in front of its images; an error stays as it is.
pub open spec fn after(acc: Seq<ImageView>, r: Result<Seq<ImageView>, DecodeError>) -> Result<Seq<ImageView>, DecodeError> {
    match r {
        Ok(s) => Ok(acc + s),
        Err(e) => Err(e),
    }
}

/// The images decoded from the chunks that start at `pos`, when `name` is the
/// name that the last NAME chunk before `pos` set.
///
/// The walk ends without error where fewer than four bytes are left for a
/// chunk tag. A NAME chunk sets the name; a BODY chunk gives an image when its
/// pixel bytes suffice and is dropped otherwise; any other chunk is skipped.
pub open spec fn decode_chunks(b: Seq<u8>, pos: int, name: Option<Seq<char>>) -> Result<Seq<ImageView>, DecodeError>
    decreases remaining(b, pos),
{
    if pos < 0 || pos + 4 > b.len() {
        Ok(Seq::empty())
    } else if pos + CHUNK_HEADER_LEN > b.len() {
        Err(DecodeError::TruncatedData)
    } else if chunk_tag(b, pos) == CHUNK_TYPE_NAME {
        if chunk_end(b, pos) > b.len() {
            Err(DecodeError::TruncatedData)
        } else {
            let label = name_text(b.subrange(payload_start(pos), chunk_end(b, pos)));
            decode_chunks(b, next_chunk(b, pos), Some(label))
        }
    } else if chunk_tag(b, pos) == CHUNK_TYPE_BODY {
        match body_outcome(b, pos, name) {
            Err(e) => Err(e),
            Ok(None) => decode_chunks(b, next_chunk(b, pos), name),
            Ok(Some(image)) => after(seq![image], decode_chunks(b, next_chunk(b, pos), name)),
        }
    } else {
        decode_chunks(b, next_chunk(b, pos), name)
    }
}

/// Outcome of the container header check.
pub open spec fn header_check(b: Seq<u8>) -> Result<(), DecodeError> {
    if b.len() < 4 {
        Err(DecodeError::TruncatedData)
    } else if le_u32(b, 0) != MAGIC_ILFF {
        Err(DecodeError::InvalidFormat)
    } else if b.len() < HEADER_LEN {
        Err(DecodeError::TruncatedData)
    } else if le_u32(b, 16) != RES_TYPE_IRES {
        Err(DecodeError::InvalidFormat)
    } else {
        Ok(())
    }
}

/// What the container `b` decodes to.
pub open spec fn decode_spec(b: Seq<u8>) -> Result<Seq<ImageView>, DecodeError> {
    match header_check(b) {
        Err(e) => Err(e),
        Ok(()) => decode_chunks(b, HEADER_LEN as int, None),
    }
}

} // verus!
