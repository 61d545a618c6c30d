use drawio_headless::author::{Diagram, Node};
use drawio_headless::decimal::Decimal;
use drawio_headless::error::RenderError;
use drawio_headless::model::parse;

#[test]
fn parses_minimal_diagram() {
    let xml = r#"
<mxfile host="x" compressed="false">
  <diagram id="p" name="P">
    <mxGraphModel>
      <root>
        <mxCell id="0"/>
        <mxCell id="1" parent="0"/>
        <mxCell id="a" value="A" vertex="1" parent="1" style="shape=mxgraph.aws4.resourceIcon;fillColor=#ED7100;">
          <mxGeometry x="10" y="20" width="78" height="78" as="geometry"/>
        </mxCell>
        <mxCell id="b" value="B" vertex="1" parent="1" style="fillColor=#E7157B;">
          <mxGeometry x="200" y="20" width="78" height="78" as="geometry"/>
        </mxCell>
        <mxCell id="e1" edge="1" parent="1" source="a" target="b" style="">
          <mxGeometry relative="1" as="geometry"/>
        </mxCell>
      </root>
    </mxGraphModel>
  </diagram>
</mxfile>
"#;
    let m = parse(xml).unwrap();
    assert_eq!(m.vertices.len(), 2);
    assert_eq!(m.edges.len(), 1);
    assert_eq!(m.vertices[0].id, "a");
    assert_eq!(m.vertices[0].x, Decimal::from_int(10));
}

#[test]
fn rejects_compressed() {
    let xml = r#"<mxfile compressed="true"><diagram>blob</diagram></mxfile>"#;
    let err = parse(xml).unwrap_err();
    assert!(matches!(err, RenderError::CompressedUnsupported));
}

#[test]
fn rejects_compressed_in_single_quotes() {
    let xml = "<mxfile compressed='true'><diagram>blob</diagram></mxfile>";
    assert!(matches!(parse(xml), Err(RenderError::CompressedUnsupported)));
}

#[test]
fn mismatched_closing_tag_is_an_xml_error() {
    assert!(matches!(parse("<mxfile><diagram></mxfile>"), Err(RenderError::Xml(_))));
}

#[test]
fn parse_keeps_edge_ends_and_geometry() {
    let xml = r#"<mxfile><diagram><mxGraphModel><root>
<mxCell id="0"/><mxCell id="1" parent="0"/>
<mxCell id="a" value="A" vertex="1" parent="1" style=""><mxGeometry x="1.5" y="2" width="3" height="4" as="geometry"/></mxCell>
<mxCell id="b" value="B" vertex="1" parent="1" style=""><mxGeometry x="10" y="20" width="30" height="40" as="geometry"/></mxCell>
<mxCell id="e" edge="1" parent="1" source="a" target="b" style="endArrow=open;"/>
</root></mxGraphModel></diagram></mxfile>"#;
    let m = parse(xml).unwrap();
    assert_eq!(m.vertices.len(), 2);
    assert_eq!(m.vertices[0].x, Decimal::from_micros(1_500_000));
    assert_eq!(m.vertices[1].h, Decimal::from_int(40));
    assert_eq!(m.edges.len(), 1);
    assert_eq!(m.edges[0].source, "a");
    assert_eq!(m.edges[0].target, "b");
}

#[test]
fn serialised_diagram_reads_back() {
    let mut d = Diagram::new("Page <1>".to_string());
    let a = d.add_node(Node::raw(
        "a".to_string(),
        Decimal::from_micros(1_500_000),
        Decimal::from_int(2),
        Decimal::from_int(78),
        Decimal::from_int(78),
        "A & \"B\"".to_string(),
        "fillColor=#ED7100;".to_string(),
    ));
    let b = d.add_node(Node::raw(
        "b".to_string(),
        Decimal::from_int(200),
        Decimal::from_int(-5),
        Decimal::from_int(10),
        Decimal::from_int(20),
        "line\nbreak".to_string(),
        "".to_string(),
    ));
    d.connect_pinned(&a, &b, Some((Decimal::from_int(1), Decimal::from_micros(500_000))), None);
    let m = parse(&d.to_xml()).unwrap();
    assert_eq!(m.vertices.len(), 2);
    assert_eq!(m.vertices[0].id, "a");
    assert_eq!(m.vertices[0].label, "A & \"B\"");
    assert_eq!(m.vertices[0].style, "fillColor=#ED7100;");
    assert_eq!(m.vertices[0].x, Decimal::from_micros(1_500_000));
    assert_eq!(m.vertices[1].label, "line\nbreak");
    assert_eq!(m.vertices[1].y, Decimal::from_int(-5));
    assert_eq!(m.edges.len(), 1);
    assert_eq!(m.edges[0].id, "e1");
    assert_eq!(m.edges[0].source, "a");
    assert_eq!(m.edges[0].target, "b");
    assert!(m.edges[0].style.ends_with("rounded=0;exitX=1;exitY=0.5;"), "{}", m.edges[0].style);
}
