//! The executable decoder, proved to compute `decode_spec`.
use crate::layout::{
    le_u32, read_u16_at, read_u32_at, BODY_HEIGHT_OFFSET, BODY_SUBHEADER_LEN, BODY_WIDTH_OFFSET,
    CHUNK_HEADER_LEN, CHUNK_TYPE_BODY, CHUNK_TYPE_NAME, HEADER_LEN, MAGIC_ILFF, RES_TYPE_IRES,
};
use crate::model::{
    after, body_image, body_outcome, body_pixels, chunk_end, decode_chunks, decode_spec,
    header_check, images_view, next_chunk, opt_text, padded, pixel_len, result_view, DecodeError,
    ImageResource, ImageView,
};
use crate::text::chunk_name;
use vstd::arithmetic::div_mod::{lemma_mod_self_0, lemma_small_mod};
use vstd::prelude::*;

verus! {

/// One step of the decoder's audit trail, in the order the steps were taken.
#[derive(Debug, Clone)]
pub enum TraceEvent {
    /// The container magic that was read.
    Magic(u32),
    /// The magic was not "ILFF".
    InvalidMagic,
    /// The resource type that was read.
    ResourceType(u32),
    /// The resource type was not "IRES".
    InvalidResourceType,
    /// A chunk header with this tag and payload size was read.
    Chunk { tag: u32, size: u32 },
    /// A NAME chunk set this name.
    Name(String),
    /// A BODY chunk was found.
    Body,
    /// A BODY chunk declared a payload too small for its sub-header.
    InvalidBodySize,
    /// A BODY chunk had fewer pixel bytes than its size calls for and was dropped.
    ShortPixelData,
    /// An image was decoded.
    Loaded { name: Option<String>, width: u16, height: u16, len: usize },
    /// A chunk with this unknown tag was skipped.
    UnknownChunk(u32),
}

/// `new` keeps `old` as its prefix.
pub open spec fn extends<T>(old: Seq<T>, new: Seq<T>) -> bool {
    old.len() <= new.len() && forall|i: int| 0 <= i < old.len() ==> new[i] == old[i]
}

/// The offset of the next chunk header after a chunk that ends at `end`, with
/// alignment `align`; `None` when that offset lies past `len`.
pub fn next_chunk_offset(end: usize, align: u32, len: usize) -> (r: Option<usize>)
    requires
        end <= len,
    ensures
        match r {
            Some(p) => p == padded(end as int, align as int) && end <= p <= len,
            None => padded(end as int, align as int) > len,
        },
{
    if align == 0 {
        return Some(end);
    }
    let a = align as u64;
    let rem = (end as u64) % a;
    proof {
        lemma_mod_self_0(a as int);
    }
    if rem == 0 {
        Some(end)
    } else {
        let pad = a - rem;
        proof {
            lemma_small_mod(pad as nat, a as nat);
        }
        if pad > (len - end) as u64 {
            None
        } else {
            Some(end + pad as usize)
        }
    }
}

/// The trace lines that the header check appends for the container `b`.
pub open spec fn header_trace(b: Seq<u8>) -> Seq<TraceEvent> {
    if b.len() < 4 {
        Seq::empty()
    } else if le_u32(b, 0) != MAGIC_ILFF {
        seq![TraceEvent::Magic(le_u32(b, 0) as u32), TraceEvent::InvalidMagic]
    } else if b.len() < HEADER_LEN {
        seq![TraceEvent::Magic(MAGIC_ILFF)]
    } else if le_u32(b, 16) != RES_TYPE_IRES {
        seq![
            TraceEvent::Magic(MAGIC_ILFF),
            TraceEvent::ResourceType(le_u32(b, 16) as u32),
            TraceEvent::InvalidResourceType,
        ]
    } else {
        seq![TraceEvent::Magic(MAGIC_ILFF), TraceEvent::ResourceType(RES_TYPE_IRES)]
    }
}

/// Checks the 20-byte container header: the magic must be "ILFF" and the
/// resource type "IRES".
pub fn check_header(bytes: &[u8], trace: &mut Vec<TraceEvent>) -> (r: Result<(), DecodeError>)
    ensures
        r == header_check(bytes@),
        final(trace)@ == old(trace)@ + header_trace(bytes@),
{
    let ghost t0 = trace@;
    if bytes.len() < 4 {
        proof {
            assert(trace@ =~= t0 + header_trace(bytes@));
        }
        return Err(DecodeError::TruncatedData);
    }
    let magic = read_u32_at(bytes, 0);
    trace.push(TraceEvent::Magic(magic));
    if magic != MAGIC_ILFF {
        trace.push(TraceEvent::InvalidMagic);
        proof {
            assert(trace@ =~= t0 + header_trace(bytes@));
        }
        return Err(DecodeError::InvalidFormat);
    }
    if bytes.len() < HEADER_LEN {
        proof {
            assert(trace@ =~= t0 + header_trace(bytes@));
        }
        return Err(DecodeError::TruncatedData);
    }
    let res_type = read_u32_at(bytes, 16);
    trace.push(TraceEvent::ResourceType(res_type));
    if res_type != RES_TYPE_IRES {
        trace.push(TraceEvent::InvalidResourceType);
        proof {
            assert(trace@ =~= t0 + header_trace(bytes@));
        }
        return Err(DecodeError::InvalidFormat);
    }
    proof {
        assert(trace@ =~= t0 + header_trace(bytes@));
    }
    Ok(())
}

/// Reads the BODY chunk whose header starts at `pos`: its 32-byte sub-header,
/// then its pixel bytes, cut to `width * height * 4`.
pub fn read_body(bytes: &[u8], pos: usize, name: &Option<String>, trace: &mut Vec<TraceEvent>) -> (r: Result<Option<ImageResource>, DecodeError>)
    requires
        pos + CHUNK_HEADER_LEN <= bytes@.len(),
    ensures
        match (r, body_outcome(bytes@, pos as int, opt_text(*name))) {
            (Err(e), Err(f)) => e == f,
            (Ok(None), Ok(None)) => true,
            (Ok(Some(image)), Ok(Some(v))) => image@ == v && v.wf(),
            _ => false,
        },
        extends(old(trace)@, final(trace)@),
{
    let ghost b = bytes@;
    let len = bytes.len();
    let size = read_u32_at(bytes, pos + 4);
    trace.push(TraceEvent::Body);
    let start = pos + CHUNK_HEADER_LEN;
    if len - start < BODY_SUBHEADER_LEN {
        return Err(DecodeError::TruncatedData);
    }
    let width = read_u16_at(bytes, start + BODY_WIDTH_OFFSET);
    let height = read_u16_at(bytes, start + BODY_HEIGHT_OFFSET);
    if (size as u64) < (BODY_SUBHEADER_LEN as u64) {
        trace.push(TraceEvent::InvalidBodySize);
        return Err(DecodeError::InvalidChunk);
    }
    if (size as u64) > ((len - start) as u64) {
        return Err(DecodeError::TruncatedData);
    }
    let end = start + size as usize;
    let pixels_start = start + BODY_SUBHEADER_LEN;
    proof {
        assert(0 <= width * height <= 65535 * 65535) by (nonlinear_arith)
            requires
                width <= 65535,
                height <= 65535,
        ;
    }
    let expected: u64 = (width as u64) * (height as u64) * 4;
    if ((end - pixels_start) as u64) < expected {
        trace.push(TraceEvent::ShortPixelData);
        return Ok(None);
    }
    let pixels_end = pixels_start + expected as usize;
    let data = vstd::slice::slice_to_vec(&bytes[pixels_start..pixels_end]);
    let label = match name {
        Some(s) => Some(s.clone()),
        None => None,
    };
    let image = ImageResource { name: label, width, height, data };
    proof {
        assert(data@ =~= body_pixels(b, pos as int).subrange(0, pixel_len(width as int, height as int)));
        assert(image@ == body_image(b, pos as int, opt_text(*name)));
    }
    trace.push(
        TraceEvent::Loaded { name: image.name.clone(), width, height, len: image.data.len() },
    );
    Ok(Some(image))
}

/// Decodes the chunk whose header starts at `pos`: a NAME chunk replaces
/// `name`, a BODY chunk may add an image to `images`, any other chunk is
/// skipped. Returns the offset of the next chunk header, or `None` when that
/// offset lies past the end of `bytes`.
fn read_chunk(
    bytes: &[u8],
    pos: usize,
    name: &mut Option<String>,
    images: &mut Vec<ImageResource>,
    trace: &mut Vec<TraceEvent>,
) -> (r: Result<Option<usize>, DecodeError>)
    requires
        pos + CHUNK_HEADER_LEN <= bytes@.len(),
        forall|i: int| 0 <= i < old(images)@.len() ==> (#[trigger] old(images)@[i])@.wf(),
    ensures
        after(images_view(old(images)@), decode_chunks(bytes@, pos as int, opt_text(*old(name)))) == match r {
            Err(e) => Err(e),
            Ok(None) => Ok(images_view(final(images)@)),
            Ok(Some(p)) => after(images_view(final(images)@), decode_chunks(bytes@, p as int, opt_text(*final(name)))),
        },
        r matches Ok(Some(p)) ==> pos < p <= bytes@.len(),
        forall|i: int| 0 <= i < final(images)@.len() ==> (#[trigger] final(images)@[i])@.wf(),
        extends(old(trace)@, final(trace)@),
{
    let ghost b = bytes@;
    let ghost label0 = opt_text(*name);
    let ghost acc = images_view(images@);
    let len = bytes.len();
    let tag = read_u32_at(bytes, pos);
    let size = read_u32_at(bytes, pos + 4);
    let align = read_u32_at(bytes, pos + 8);
    trace.push(TraceEvent::Chunk { tag, size });
    let start = pos + CHUNK_HEADER_LEN;
    let fits = (size as u64) <= ((len - start) as u64);
    let end: usize = if fits {
        start + size as usize
    } else {
        len
    };
    if tag == CHUNK_TYPE_NAME {
        if !fits {
            return Err(DecodeError::TruncatedData);
        }
        let label = chunk_name(&bytes[start..end]);
        trace.push(TraceEvent::Name(label.clone()));
        *name = Some(label);
    } else if tag == CHUNK_TYPE_BODY {
        match read_body(bytes, pos, name, trace) {
            Err(e) => {
                return Err(e);
            },
            Ok(None) => {},
            Ok(Some(image)) => {
                images.push(image);
                proof {
                    assert(images_view(images@) =~= acc.push(image@));
                    match decode_chunks(b, next_chunk(b, pos as int), label0) {
                        Ok(s) => {
                            assert(acc + (seq![image@] + s) =~= acc.push(image@) + s);
                        },
                        Err(_) => {},
                    }
                }
            },
        }
    } else {
        trace.push(TraceEvent::UnknownChunk(tag));
        if !fits {
            proof {
                assert(acc + Seq::empty() =~= acc);
            }
            return Ok(None);
        }
    }
    proof {
        assert(chunk_end(b, pos as int) == end);
        assert(next_chunk(b, pos as int) == padded(end as int, align as int));
        assert(after(acc, decode_chunks(b, pos as int, label0)) == after(
            images_view(images@),
            decode_chunks(b, next_chunk(b, pos as int), opt_text(*name)),
        ));
    }
    match next_chunk_offset(end, align, len) {
        Some(p) => Ok(Some(p)),
        None => {
            proof {
                assert(images_view(images@) + Seq::empty() =~= images_view(images@));
            }
            Ok(None)
        },
    }
}

/// Decodes a whole container: checks the header, then walks the chunks.
///
/// The result is exactly `decode_spec(bytes)`: the images of the BODY chunks
/// whose pixel bytes suffice, each named by the last NAME chunk before it, or
/// the first error met. Every step taken is appended to `trace`, starting
/// with the lines of the header check.
pub fn read_ilff(bytes: &[u8], trace: &mut Vec<TraceEvent>) -> (r: Result<Vec<ImageResource>, DecodeError>)
    ensures
        result_view(r) == decode_spec(bytes@),
        r is Ok ==> forall|i: int| 0 <= i < r->Ok_0@.len() ==> (#[trigger] r->Ok_0@[i])@.wf(),
        extends(old(trace)@ + header_trace(bytes@), final(trace)@),
{
    match check_header(bytes, trace) {
        Err(e) => {
            return Err(e);
        },
        Ok(()) => {},
    }
    let len = bytes.len();
    let mut pos: usize = HEADER_LEN;
    let mut images: Vec<ImageResource> = Vec::new();
    let mut name: Option<String> = None;
    proof {
        assert(images_view(images@) + Seq::empty() =~= Seq::<ImageView>::empty());
    }
    loop
        invariant
            HEADER_LEN <= pos <= len,
            len == bytes@.len(),
            decode_spec(bytes@) == after(images_view(images@), decode_chunks(bytes@, pos as int, opt_text(name))),
            forall|i: int| 0 <= i < images@.len() ==> (#[trigger] images@[i])@.wf(),
            extends(old(trace)@ + header_trace(bytes@), trace@),
        decreases len - pos,
    {
        if len - pos < 4 {
            proof {
                assert(images_view(images@) + Seq::empty() =~= images_view(images@));
            }
            return Ok(images);
        }
        if len - pos < CHUNK_HEADER_LEN {
            return Err(DecodeError::TruncatedData);
        }
        match read_chunk(bytes, pos, &mut name, &mut images, trace) {
            Err(e) => {
                return Err(e);
            },
            Ok(None) => {
                return Ok(images);
            },
            Ok(Some(p)) => {
                pos = p;
            },
        }
    }
}

} // verus!
