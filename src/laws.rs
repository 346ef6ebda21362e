//! General properties of the container specification, proved.
use crate::layout::{le_u32, BODY_SUBHEADER_LEN, CHUNK_HEADER_LEN, CHUNK_TYPE_BODY, CHUNK_TYPE_NAME, HEADER_LEN, MAGIC_ILFF, RES_TYPE_IRES};
use crate::model::{
    after, body_image, body_pixels, body_width, body_height, chunk_align, chunk_end, chunk_size,
    chunk_tag, decode_chunks, decode_spec, next_chunk, padded, payload_start, pixel_len,
    remaining, DecodeError, ImageView,
};
use crate::text::name_text;
use vstd::arithmetic::div_mod::{lemma_fundamental_div_mod, lemma_mod_multiples_basic, lemma_mod_self_0, lemma_small_mod};
use vstd::prelude::*;

verus! {

/// The BODY chunk at `pos` can be read in full and holds at least the pixel
/// bytes that its width and height call for.
pub open spec fn body_decodes(b: Seq<u8>, pos: int) -> bool {
    &&& 0 <= pos
    &&& pos + CHUNK_HEADER_LEN <= b.len()
    &&& chunk_tag(b, pos) == CHUNK_TYPE_BODY
    &&& chunk_size(b, pos) >= BODY_SUBHEADER_LEN
    &&& chunk_end(b, pos) <= b.len()
    &&& body_pixels(b, pos).len() >= pixel_len(body_width(b, pos), body_height(b, pos))
}

/// Number of BODY chunks on the chunk walk that starts at `pos`.
pub open spec fn body_chunks(b: Seq<u8>, pos: int) -> nat
    decreases remaining(b, pos),
{
    if pos < 0 || pos + CHUNK_HEADER_LEN > b.len() {
        0
    } else {
        (if chunk_tag(b, pos) == CHUNK_TYPE_BODY { 1nat } else { 0nat }) + body_chunks(b, next_chunk(b, pos))
    }
}

/// Every image decoded from the chunks at `pos` has exactly
/// `width * height * 4` pixel bytes.
pub proof fn lemma_chunk_images_well_formed(b: Seq<u8>, pos: int, name: Option<Seq<char>>)
    ensures
        decode_chunks(b, pos, name) matches Ok(r) ==> forall|i: int| 0 <= i < r.len() ==> (#[trigger] r[i]).wf(),
    decreases remaining(b, pos),
{
    if pos < 0 || pos + 4 > b.len() || pos + CHUNK_HEADER_LEN > b.len() {
    } else if chunk_tag(b, pos) == CHUNK_TYPE_NAME {
        if chunk_end(b, pos) <= b.len() {
            let label = name_text(b.subrange(payload_start(pos), chunk_end(b, pos)));
            lemma_chunk_images_well_formed(b, next_chunk(b, pos), Some(label));
        }
    } else {
        lemma_chunk_images_well_formed(b, next_chunk(b, pos), name);
        if body_decodes(b, pos) {
            let image = body_image(b, pos, name);
            assert(image.wf());
            if let Ok(rest) = decode_chunks(b, next_chunk(b, pos), name) {
                let r = seq![image] + rest;
                assert forall|i: int| 0 <= i < r.len() implies (#[trigger] r[i]).wf() by {
                    if i > 0 {
                        assert(r[i] == rest[i - 1]);
                    }
                }
            }
        }
    }
}

/// Every image of a decoded container has exactly `width * height * 4`
/// pixel bytes.
pub proof fn lemma_decoded_images_well_formed(b: Seq<u8>)
    ensures
        decode_spec(b) matches Ok(r) ==> forall|i: int| 0 <= i < r.len() ==> (#[trigger] r[i]).wf(),
{
    lemma_chunk_images_well_formed(b, HEADER_LEN as int, None);
}

/// A container whose magic is not "ILFF" is rejected as `InvalidFormat`,
/// with no images.
pub proof fn lemma_bad_magic_rejected(b: Seq<u8>)
    requires
        b.len() >= 4,
        le_u32(b, 0) != MAGIC_ILFF,
    ensures
        decode_spec(b) == Err::<Seq<ImageView>, DecodeError>(DecodeError::InvalidFormat),
{
}

/// A container whose resource-type tag is not "IRES" is rejected as
/// `InvalidFormat`.
pub proof fn lemma_bad_resource_type_rejected(b: Seq<u8>)
    requires
        b.len() >= HEADER_LEN,
        le_u32(b, 16) != RES_TYPE_IRES,
    ensures
        decode_spec(b) == Err::<Seq<ImageView>, DecodeError>(DecodeError::InvalidFormat),
{
}

/// A BODY chunk whose declared size is below 32 fails with `InvalidChunk`,
/// where its 32-byte sub-header is present.
pub proof fn lemma_short_body_rejected(b: Seq<u8>, pos: int, name: Option<Seq<char>>)
    requires
        0 <= pos,
        payload_start(pos) + BODY_SUBHEADER_LEN <= b.len(),
        chunk_tag(b, pos) == CHUNK_TYPE_BODY,
        chunk_size(b, pos) < BODY_SUBHEADER_LEN,
    ensures
        decode_chunks(b, pos, name) == Err::<Seq<ImageView>, DecodeError>(DecodeError::InvalidChunk),
{
}

/// A BODY chunk with fewer pixel bytes than `width * height * 4` gives no
/// image, and decoding goes on with the next chunk.
pub proof fn lemma_short_pixels_dropped(b: Seq<u8>, pos: int, name: Option<Seq<char>>)
    requires
        0 <= pos,
        chunk_tag(b, pos) == CHUNK_TYPE_BODY,
        chunk_size(b, pos) >= BODY_SUBHEADER_LEN,
        chunk_end(b, pos) <= b.len(),
        body_pixels(b, pos).len() < pixel_len(body_width(b, pos), body_height(b, pos)),
    ensures
        decode_chunks(b, pos, name) == decode_chunks(b, next_chunk(b, pos), name),
{
}

/// The images decoded from the chunks at `pos` are no more than the BODY
/// chunks among them.
pub proof fn lemma_images_at_most_bodies(b: Seq<u8>, pos: int, name: Option<Seq<char>>)
    ensures
        decode_chunks(b, pos, name) matches Ok(r) ==> r.len() <= body_chunks(b, pos),
    decreases remaining(b, pos),
{
    if pos < 0 || pos + 4 > b.len() || pos + CHUNK_HEADER_LEN > b.len() {
    } else if chunk_tag(b, pos) == CHUNK_TYPE_NAME {
        if chunk_end(b, pos) <= b.len() {
            let label = name_text(b.subrange(payload_start(pos), chunk_end(b, pos)));
            lemma_images_at_most_bodies(b, next_chunk(b, pos), Some(label));
        }
    } else {
        lemma_images_at_most_bodies(b, next_chunk(b, pos), name);
    }
}

/// A BODY chunk with more pixel bytes than `width * height * 4` gives an
/// image that holds exactly the first `width * height * 4` of them.
pub proof fn lemma_long_pixels_truncated(b: Seq<u8>, pos: int, name: Option<Seq<char>>)
    requires
        body_decodes(b, pos),
    ensures
        decode_chunks(b, pos, name) == after(seq![body_image(b, pos, name)], decode_chunks(b, next_chunk(b, pos), name)),
        body_image(b, pos, name).data == body_pixels(b, pos).subrange(0, pixel_len(body_width(b, pos), body_height(b, pos))),
        body_image(b, pos, name).data.len() == pixel_len(body_width(b, pos), body_height(b, pos)),
{
}

/// A NAME chunk followed by two BODY chunks that both give images names
/// both images.
pub proof fn lemma_name_labels_following_bodies(b: Seq<u8>, pos: int, name: Option<Seq<char>>)
    requires
        0 <= pos,
        pos + CHUNK_HEADER_LEN <= b.len(),
        chunk_tag(b, pos) == CHUNK_TYPE_NAME,
        chunk_end(b, pos) <= b.len(),
        body_decodes(b, next_chunk(b, pos)),
        body_decodes(b, next_chunk(b, next_chunk(b, pos))),
        decode_chunks(b, pos, name) is Ok,
    ensures
        decode_chunks(b, pos, name) matches Ok(r) && r.len() >= 2
            && r[0].name == Some(name_text(b.subrange(payload_start(pos), chunk_end(b, pos))))
            && r[1].name == Some(name_text(b.subrange(payload_start(pos), chunk_end(b, pos)))),
{
    let label = Some(name_text(b.subrange(payload_start(pos), chunk_end(b, pos))));
    let p2 = next_chunk(b, pos);
    let p3 = next_chunk(b, p2);
    assert(decode_chunks(b, pos, name) == decode_chunks(b, p2, label));
    assert(decode_chunks(b, p2, label) == after(seq![body_image(b, p2, label)], decode_chunks(b, p3, label)));
    assert(decode_chunks(b, p3, label) == after(seq![body_image(b, p3, label)], decode_chunks(b, next_chunk(b, p3), label)));
}

/// After a chunk whose alignment field `A` is not zero, the next chunk header
/// starts at the first multiple of `A` at or after the end of its payload.
pub proof fn lemma_next_chunk_aligned(b: Seq<u8>, pos: int)
    requires
        chunk_align(b, pos) > 0,
        chunk_end(b, pos) >= 0,
    ensures
        next_chunk(b, pos) % chunk_align(b, pos) == 0,
        chunk_end(b, pos) <= next_chunk(b, pos) < chunk_end(b, pos) + chunk_align(b, pos),
{
    let a = chunk_align(b, pos);
    let end = chunk_end(b, pos);
    let r = end % a;
    lemma_fundamental_div_mod(end, a);
    lemma_mod_self_0(a);
    if r == 0 {
        assert(next_chunk(b, pos) == end);
    } else {
        lemma_small_mod((a - r) as nat, a as nat);
        assert(next_chunk(b, pos) == (end / a + 1) * a) by (nonlinear_arith)
            requires
                next_chunk(b, pos) == end + (a - r),
                end == a * (end / a) + r,
        ;
        lemma_mod_multiples_basic(end / a + 1, a);
    }
}

/// A chunk whose tag is neither NAME nor BODY is skipped: decoding goes on
/// at its payload end, padded to its alignment, with the name and the images
/// unchanged.
pub proof fn lemma_unknown_chunk_skipped(b: Seq<u8>, pos: int, name: Option<Seq<char>>)
    requires
        0 <= pos,
        pos + CHUNK_HEADER_LEN <= b.len(),
        chunk_tag(b, pos) != CHUNK_TYPE_NAME,
        chunk_tag(b, pos) != CHUNK_TYPE_BODY,
    ensures
        decode_chunks(b, pos, name) == decode_chunks(
            b,
            padded(payload_start(pos) + chunk_size(b, pos), chunk_align(b, pos)),
            name,
        ),
{
}

} // verus!
