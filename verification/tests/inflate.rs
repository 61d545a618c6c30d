use base64::Engine;
use std::io::Write;
use drawio_headless::error::RenderError;
use drawio_headless::inflate::{inflate_diagram_body, is_compressed_body};
use drawio_headless::model::parse;

#[test]
fn detects_uncompressed_body() {
    assert!(!is_compressed_body("<mxGraphModel><root/></mxGraphModel>"));
    assert!(!is_compressed_body("  \n  <mxGraphModel/>"));
}

#[test]
fn detects_compressed_body() {
    assert!(is_compressed_body("tZZfj5swDMA="));
    assert!(is_compressed_body("  AAAA  "));
}

/// `xml` as drawio compresses a diagram body: percent-encoded, raw-deflated
/// and base64-encoded.
fn compress(xml: &str) -> String {
    let encoded = percent_encoding::utf8_percent_encode(xml, percent_encoding::NON_ALPHANUMERIC).to_string();
    let mut enc = flate2::write::DeflateEncoder::new(Vec::new(), flate2::Compression::default());
    enc.write_all(encoded.as_bytes()).unwrap();
    let bytes = enc.finish().unwrap();
    base64::engine::general_purpose::STANDARD.encode(bytes)
}

const MODEL: &str = r#"<mxGraphModel><root><mxCell id="0"/><mxCell id="1" parent="0"/><mxCell id="a" value="Hi &amp; bye" vertex="1" parent="1" style="fillColor=#fff;"><mxGeometry x="5" y="6" width="7" height="8" as="geometry"/></mxCell></root></mxGraphModel>"#;

#[test]
fn inflates_a_compressed_body() {
    let body = compress(MODEL);
    assert_eq!(inflate_diagram_body(&body).unwrap(), MODEL);
    let padded = format!("  \n{body}\n ");
    assert_eq!(inflate_diagram_body(&padded).unwrap(), MODEL);
}

#[test]
fn compressed_diagram_cells_are_read() {
    let xml = format!("<mxfile host=\"x\"><diagram id=\"p\">{}</diagram></mxfile>", compress(MODEL));
    let m = parse(&xml).unwrap();
    assert_eq!(m.vertices.len(), 1);
    assert_eq!(m.vertices[0].id, "a");
    assert_eq!(m.vertices[0].label, "Hi & bye");
    assert_eq!(m.vertices[0].h, drawio_headless::decimal::Decimal::from_int(8));
}

#[test]
fn bad_base64_is_reported() {
    let err = inflate_diagram_body("!!!not base64!!!").err().unwrap();
    assert!(matches!(err, RenderError::Base64Decode(_)));
}

#[test]
fn non_deflate_payload_is_reported() {
    // Valid base64 ("hello") that is not a raw DEFLATE stream.
    let err = inflate_diagram_body("aGVsbG8=").err().unwrap();
    assert!(matches!(err, RenderError::Inflate(_)));
}

#[test]
fn invalid_percent_encoding_is_reported() {
    let mut enc = flate2::write::DeflateEncoder::new(Vec::new(), flate2::Compression::default());
    enc.write_all(b"%FF%FE").unwrap();
    let body = base64::engine::general_purpose::STANDARD.encode(enc.finish().unwrap());
    let err = inflate_diagram_body(&body).err().unwrap();
    assert!(matches!(err, RenderError::UrlDecode(_)));
}


#[test]
fn edge_without_both_ends_is_dropped() {
    let xml = r#"<mxfile><diagram><mxGraphModel><root>
<mxCell id="e" edge="1" source="a"/>
<mxCell id="v" vertex="1"/>
</root></mxGraphModel></diagram></mxfile>"#;
    let m = parse(xml).unwrap();
    assert!(m.edges.is_empty());
    assert_eq!(m.vertices.len(), 1);
    assert_eq!(m.vertices[0].w, drawio_headless::decimal::Decimal::zero());
}
