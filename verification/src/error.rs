//! The renderer's error type.

use vstd::prelude::*;

verus! {

/// `base64::DecodeError`, why a base64 payload did not decode.
#[verifier::external_type_specification]
#[verifier::external_body]
pub struct ExDecodeError(base64::DecodeError);

/// `std::io::Error`, why a DEFLATE stream did not inflate.
#[verifier::external_type_specification]
#[verifier::external_body]
pub struct ExIoError(std::io::Error);

/// Why a document could not be rendered.
#[derive(Debug)]
pub enum RenderError {
    /// The XML did not parse; the message says where and why.
    Xml(String),
    /// A compressed diagram body was not valid base64.
    Base64Decode(base64::DecodeError),
    /// A compressed diagram body was not a raw DEFLATE stream of UTF-8.
    Inflate(std::io::Error),
    /// An inflated diagram body was not valid percent-encoded UTF-8.
    UrlDecode(String),
    /// A stencil uses a drawing command the renderer cannot honour.
    UnsupportedStencilCmd(String),
    /// The file is marked `compressed="true"`; such files are refused.
    CompressedUnsupported,
}

} // verus!
