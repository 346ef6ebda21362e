//! Turning the bytes of a NAME chunk into text.
use vstd::prelude::*;

verus! {

/// The text that lossy UTF-8 decoding gives for `b`: valid sequences decode as
/// usual and each invalid one becomes U+FFFD.
pub uninterp spec fn utf8_lossy(b: Seq<u8>) -> Seq<char>;

/// `s` without its trailing NUL characters.
pub open spec fn strip_trailing_nul(s: Seq<char>) -> Seq<char>
    decreases s.len(),
{
    if s.len() > 0 && s.last() == '\0' {
        strip_trailing_nul(s.drop_last())
    } else {
        s
    }
}

/// The name that a NAME chunk with payload `payload` carries.
pub open spec fn name_text(payload: Seq<u8>) -> Seq<char> {
    strip_trailing_nul(utf8_lossy(payload))
}

/// Relies on `String::from_utf8_lossy`: it never fails, its result depends on
/// the bytes alone, and no bytes give no text.
#[verifier::external_body]
fn decode_lossy(b: &[u8]) -> (r: String)
    ensures
        r@ == utf8_lossy(b@),
        b@.len() == 0 ==> r@.len() == 0,
{
    String::from_utf8_lossy(b).into_owned()
}

/// Relies on `str::trim_end_matches` with the pattern `'\0'`: it removes every
/// NUL character at the end of the text and nothing else.
#[verifier::external_body]
fn trim_trailing_nul(s: &str) -> (r: String)
    ensures
        r@ == strip_trailing_nul(s@),
{
    s.trim_end_matches('\0').to_string()
}

/// Strips the NUL padding from the end of decoded chunk text.
pub fn strip_nul_padding(text: &str) -> (r: String)
    ensures
        r@ == strip_trailing_nul(text@),
{
    trim_trailing_nul(text)
}

/// The name carried by a NAME chunk payload: the bytes decoded as UTF-8, with
/// invalid sequences replaced, and the trailing NUL padding removed.
pub fn chunk_name(payload: &[u8]) -> (r: String)
    ensures
        r@ == name_text(payload@),
{
    let text = decode_lossy(payload);
    strip_nul_padding(text.as_str())
}

} // verus!
