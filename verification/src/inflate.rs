//! Inflate a compressed `<diagram>` payload back to `<mxGraphModel>` XML.
//!
//! drawio's interactively saved files compress the `<diagram>` body:
//! URL-encode the `<mxGraphModel>` UTF-8 text, raw-DEFLATE it (no zlib
//! header), then base64-encode the result. Inflation reverses the three
//! steps: base64 decode, raw inflate, URL decode.

use vstd::prelude::*;
use std::io::Read as _;
use base64::Engine as _;
use base64::engine::general_purpose::STANDARD;
use flate2::read::DeflateDecoder;
use percent_encoding::percent_decode_str;
use crate::error::RenderError;
use crate::text::{chars_of, trim, trim_bounds, trim_start, string_of_range};

verus! {

/// The bytes the standard-alphabet, padded base64 text `text` denotes, if
/// it is valid base64.
pub uninterp spec fn base64_decoded(text: Seq<char>) -> Option<Seq<u8>>;

/// The UTF-8 text a raw DEFLATE stream inflates to, if the stream is valid
/// and its output is UTF-8.
pub uninterp spec fn inflated_text(data: Seq<u8>) -> Option<Seq<char>>;

/// `text` with `%XX` escapes percent-decoded, if the resulting bytes are
/// UTF-8.
pub uninterp spec fn url_decoded(text: Seq<char>) -> Option<Seq<char>>;

/// `base64::engine::general_purpose::STANDARD.decode`: the decoded bytes,
/// or the decoder's error exactly when the text is not valid base64.
#[verifier::external_body]
fn base64_decode(text: &str) -> (r: Result<Vec<u8>, base64::DecodeError>)
    ensures
        match r {
            Ok(v) => base64_decoded(text@) == Some(v@),
            Err(_) => base64_decoded(text@) == None::<Seq<u8>>,
        },
{
    STANDARD.decode(text)
}

/// `flate2::read::DeflateDecoder` read to a `String`: the inflated text,
/// or the I/O error exactly when the stream or its UTF-8 is invalid.
#[verifier::external_body]
fn inflate_raw(data: &[u8]) -> (r: Result<String, std::io::Error>)
    ensures
        match r {
            Ok(s) => inflated_text(data@) == Some(s@),
            Err(_) => inflated_text(data@) == None::<Seq<char>>,
        },
{
    let mut text = String::new();
    DeflateDecoder::new(data).read_to_string(&mut text)?;
    Ok(text)
}

/// `percent_encoding::percent_decode_str(..).decode_utf8()`: the decoded
/// text, or the UTF-8 error's message exactly when the decoded bytes are
/// not UTF-8.
#[verifier::external_body]
fn url_decode(text: &str) -> (r: Result<String, String>)
    ensures
        match r {
            Ok(s) => url_decoded(text@) == Some(s@),
            Err(_) => url_decoded(text@) == None::<Seq<char>>,
        },
{
    percent_decode_str(text).decode_utf8().map(|s| s.into_owned()).map_err(|e| e.to_string())
}

/// Whether a `<diagram>` body is compressed: uncompressed bodies start,
/// after leading whitespace, with `<`.
pub open spec fn compressed_body(body: Seq<char>) -> bool {
    let t = trim_start(body);
    !(t.len() > 0 && t[0] == '<')
}

/// Decide whether a `<diagram>` body is compressed. Uncompressed bodies
/// start with `<` (the opening of `<mxGraphModel>`); anything else is
/// treated as compressed.
pub fn is_compressed_body(body: &str) -> (r: bool)
    ensures
        r == compressed_body(body@),
{
    let v = chars_of(body);
    let mut a: usize = 0;
    while a < v.len() && crate::text::is_whitespace(v[a])
        invariant
            a <= v@.len(),
            forall|j: int| 0 <= j < a ==> crate::text::is_ws(v@[j]),
        decreases v@.len() - a,
    {
        a = a + 1;
    }
    proof {
        crate::text::lemma_trim_start_skip(v@, a as int);
    }
    !(a < v.len() && v[a] == '<')
}

/// Inflate a compressed `<diagram>` body into its `<mxGraphModel>` XML.
/// Leading and trailing whitespace is tolerated.
pub fn inflate_diagram_body(body: &str) -> (r: Result<String, RenderError>)
    ensures
        match base64_decoded(trim(body@)) {
            None => r matches Err(RenderError::Base64Decode(_)),
            Some(bytes) => match inflated_text(bytes) {
                None => r matches Err(RenderError::Inflate(_)),
                Some(u) => match url_decoded(u) {
                    None => r matches Err(RenderError::UrlDecode(_)),
                    Some(x) => r matches Ok(s) && s@ == x,
                },
            },
        },
{
    let v = chars_of(body);
    let (a, b) = trim_bounds(&v, 0, v.len());
    assert(v@.subrange(0, v@.len() as int) =~= v@);
    let trimmed = string_of_range(&v, a, b);
    let compressed = match base64_decode(trimmed.as_str()) {
        Ok(bytes) => bytes,
        Err(e) => return Err(RenderError::Base64Decode(e)),
    };
    let url_encoded = match inflate_raw(compressed.as_slice()) {
        Ok(s) => s,
        Err(e) => return Err(RenderError::Inflate(e)),
    };
    match url_decode(url_encoded.as_str()) {
        Ok(xml) => Ok(xml),
        Err(msg) => Err(RenderError::UrlDecode(msg)),
    }
}

} // verus!
