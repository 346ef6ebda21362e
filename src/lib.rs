//! Decoder for the chunked "ILFF/IRES" image resource container.
//!
//! The container is a little-endian byte layout: a 20-byte header, then a run
//! of chunks. Each chunk has a 16-byte header (tag, payload size, alignment,
//! chunk size), its payload, and padding up to a multiple of its own alignment.
//! NAME chunks label the BODY chunks that follow them; a BODY chunk holds one
//! RGBA image. Every other chunk is skipped.
//!
//! The executable decoder in `decoder` is proved to compute exactly the value
//! of the specification `model::decode_spec`, and `laws` proves the general
//! properties of that specification.

mod layout;

pub use layout::{
    le_u16, le_u32, BODY_HEIGHT_OFFSET, BODY_SUBHEADER_LEN, BODY_WIDTH_OFFSET, CHUNK_HEADER_LEN,
    CHUNK_TYPE_BODY, CHUNK_TYPE_NAME, HEADER_LEN, MAGIC_ILFF, RES_TYPE_IRES,
};

mod text;

pub use text::{chunk_name, name_text, strip_nul_padding, strip_trailing_nul, utf8_lossy};

mod model;

pub use model::{
    after, body_height, body_image, body_outcome, body_pixels, body_width, chunk_align, chunk_end, chunk_size,
    chunk_tag, decode_chunks, decode_spec, header_check, images_view, next_chunk, opt_text, padded,
    payload_start, pixel_len, remaining, result_view, DecodeError, ImageResource, ImageView,
};

mod decoder;

pub use decoder::{
    check_header, extends, header_trace, next_chunk_offset, read_body, read_ilff, TraceEvent,
};

mod laws;

pub use laws::{
    body_chunks, body_decodes, lemma_bad_magic_rejected, lemma_bad_resource_type_rejected,
    lemma_chunk_images_well_formed, lemma_decoded_images_well_formed, lemma_images_at_most_bodies,
    lemma_long_pixels_truncated, lemma_name_labels_following_bodies, lemma_next_chunk_aligned,
    lemma_short_body_rejected, lemma_short_pixels_dropped, lemma_unknown_chunk_skipped,
};
