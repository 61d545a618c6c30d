use drawio_headless::author::Diagram;
use drawio_headless::aws;
use drawio_headless::decimal::{Coord, Decimal};
use drawio_headless::model::Vertex;
use drawio_headless::render::{
    aws4_res_icon_alias, compute_viewbox, edge_endpoints, facing_side, orthogonal_corner, render,
    side_of_override, Side, Stencils,
};
use drawio_headless::stencil::StencilLibrary;

/// A small AWS library holding the glyphs the diagrams below use.
const AWS_FIXTURE: &str = r#"<shapes name="mxgraph.aws4">
<shape name="Lambda" w="10" h="10" aspect="variable">
  <foreground>
    <path><move x="0" y="0"/><line x="10" y="10"/><close/></path>
    <fill/>
  </foreground>
</shape>
<shape name="Elasticsearch Service" w="20" h="10">
  <foreground>
    <path><move x="0" y="0"/><line x="20" y="0"/><line x="20" y="10"/><close/></path>
    <fillstroke/>
  </foreground>
</shape>
</shapes>"#;

fn libs() -> Stencils {
    Stencils {
        aws4: StencilLibrary::from_xml(AWS_FIXTURE, "mxgraph.aws4").unwrap(),
        azure: StencilLibrary::new(),
        gcp: StencilLibrary::new(),
        kubernetes: StencilLibrary::new(),
    }
}

fn d(n: i64) -> Decimal {
    Decimal::from_int(n)
}

fn dp(s: &str) -> Decimal {
    Decimal::parse(s).unwrap()
}

fn plain_vertex(id: &str, x: i64, y: i64, w: i64, h: i64) -> Vertex {
    Vertex {
        id: id.to_string(),
        label: String::new(),
        style: String::new(),
        x: d(x),
        y: d(y),
        w: d(w),
        h: d(h),
    }
}

/// The ends as whole millionths (the tests below use even positions).
fn pt(p: (Coord, Coord, Coord, Coord)) -> (i128, i128, i128, i128) {
    (p.0.halves() / 2, p.1.halves() / 2, p.2.halves() / 2, p.3.halves() / 2)
}

fn c(n: i64) -> Coord {
    Coord::from_decimal(d(n))
}

fn m(n: i64) -> i128 {
    n as i128 * 1_000_000
}

#[test]
fn renders_minimal_diagram() {
    let xml = r#"
<mxfile compressed="false"><diagram><mxGraphModel><root>
<mxCell id="0"/><mxCell id="1" parent="0"/>
<mxCell id="a" value="A" vertex="1" parent="1" style="shape=mxgraph.aws4.resourceIcon;fillColor=#ED7100;resIcon=mxgraph.aws4.lambda;">
  <mxGeometry x="10" y="20" width="78" height="78" as="geometry"/>
</mxCell>
</root></mxGraphModel></diagram></mxfile>"#;
    let svg = render(xml, &libs()).unwrap();
    assert!(svg.starts_with("<svg"));
    assert!(svg.contains("<rect"));
    assert!(svg.contains("<path")); // stencil glyph rendered
}

#[test]
fn raw_opensearch_res_icon_resolves_via_alias() {
    let xml = r#"
<mxfile compressed="false"><diagram><mxGraphModel><root>
<mxCell id="0"/><mxCell id="1" parent="0"/>
<mxCell id="os" value="OpenSearch" vertex="1" parent="1" style="shape=mxgraph.aws4.resourceIcon;fillColor=#3334B9;resIcon=mxgraph.aws4.opensearch_service;">
  <mxGeometry x="40" y="40" width="78" height="78" as="geometry"/>
</mxCell>
</root></mxGraphModel></diagram></mxfile>"#;
    let svg = render(xml, &libs()).unwrap();
    assert!(svg.contains("<path"), "expected stencil glyph path, got only: {svg}",);
}

#[test]
fn aws4_res_icon_alias_maps_opensearch_to_elasticsearch() {
    assert_eq!(
        aws4_res_icon_alias("mxgraph.aws4.opensearch_service"),
        Some("elasticsearch_service"),
    );
    assert_eq!(aws4_res_icon_alias("opensearch_service"), Some("elasticsearch_service"));
    assert_eq!(aws4_res_icon_alias("mxgraph.aws4.lambda"), None);
}

#[test]
fn lib_default_endpoints_snap_to_side_centres_same_row() {
    let a = plain_vertex("a", 0, 0, 78, 78);
    let b = plain_vertex("b", 300, 0, 78, 78);
    let p = pt(edge_endpoints(&a, &b, None, None));
    assert_eq!((p.0, p.1), (m(78), m(39)), "source should be A's right-mid");
    assert_eq!((p.2, p.3), (m(300), m(39)), "target should be B's left-mid");
}

#[test]
fn lib_default_endpoints_never_land_on_a_corner_when_diagonal() {
    let a = plain_vertex("a", 0, 0, 78, 78);
    let b = plain_vertex("b", 300, 200, 78, 78);
    let (sx, sy, tx, ty) = edge_endpoints(&a, &b, None, None);
    let is_corner = |x: Coord, y: Coord, v: &Vertex| {
        let touches_vertical_side =
            x == Coord::from_decimal(v.x) || x == Coord::from_decimal(v.x.add(v.w));
        let touches_horizontal_side =
            y == Coord::from_decimal(v.y) || y == Coord::from_decimal(v.y.add(v.h));
        touches_vertical_side && touches_horizontal_side
    };
    assert!(!is_corner(sx, sy, &a), "exit landed on a corner: ({sx:?}, {sy:?})");
    assert!(!is_corner(tx, ty, &b), "entry landed on a corner: ({tx:?}, {ty:?})");
    assert_eq!((sx, sy), (c(78), c(39)), "exit should be A's right-mid");
    assert_eq!((tx, ty), (c(339), c(200)), "entry should be B's top-mid");
}

#[test]
fn default_endpoints_pick_perpendicular_entry_when_vertical_offset_dominates() {
    let a = plain_vertex("a", 0, 0, 78, 78);
    let b = plain_vertex("b", 200, 300, 78, 78);
    let p = pt(edge_endpoints(&a, &b, None, None));
    assert_eq!((p.0, p.1), (m(39), m(78)), "exit should be A's bottom-mid");
    assert_eq!((p.2, p.3), (m(200), m(339)), "entry should be B's left-mid");
}

#[test]
fn lib_edge_endpoint_overrides_take_priority_over_defaults() {
    let a = plain_vertex("a", 0, 0, 78, 78);
    let b = plain_vertex("b", 200, 300, 78, 78);
    let exit = Some((d(1), dp("0.5")));
    let entry = Some((d(0), dp("0.5")));
    let p = pt(edge_endpoints(&a, &b, exit, entry));
    assert_eq!((p.0, p.1), (m(78), m(39)), "source must be right-mid (78, 39)");
    assert_eq!((p.2, p.3), (m(200), m(339)), "target must be left-mid (200, 339)");
}

#[test]
fn lib_one_sided_override_still_gets_a_perpendicular_default_partner() {
    let a = plain_vertex("a", 0, 0, 78, 78);
    let b = plain_vertex("b", 300, 200, 78, 78);
    let exit = Some((dp("0.5"), d(1)));
    let p = pt(edge_endpoints(&a, &b, exit, None));
    assert_eq!((p.2, p.3), (m(300), m(239)), "entry should be B's left-mid");
}

#[test]
fn lib_renders_edge_with_explicit_entry_exit_overrides() {
    let xml = r#"
<mxfile compressed="false"><diagram><mxGraphModel><root>
<mxCell id="0"/><mxCell id="1" parent="0"/>
<mxCell id="a" value="A" vertex="1" parent="1" style="shape=mxgraph.aws4.resourceIcon;points=[[0,0,0],[1,0,0],[0,1,0],[1,1,0]];resIcon=mxgraph.aws4.lambda;fillColor=#ED7100;">
  <mxGeometry x="0" y="0" width="78" height="78" as="geometry"/>
</mxCell>
<mxCell id="b" value="B" vertex="1" parent="1" style="shape=mxgraph.aws4.resourceIcon;points=[[0,0,0],[1,0,0],[0,1,0],[1,1,0]];resIcon=mxgraph.aws4.lambda;fillColor=#ED7100;">
  <mxGeometry x="200" y="0" width="78" height="78" as="geometry"/>
</mxCell>
<mxCell id="e1" edge="1" parent="1" source="a" target="b" style="edgeStyle=orthogonalEdgeStyle;html=0;endArrow=open;startArrow=none;rounded=0;exitX=1;exitY=0.5;entryX=0;entryY=0.5;">
  <mxGeometry relative="1" as="geometry"/>
</mxCell>
</root></mxGraphModel></diagram></mxfile>"#;
    let svg = render(xml, &libs()).unwrap();
    assert!(
        svg.contains("<line x1=\"78\" y1=\"39\" x2=\"200\" y2=\"39\""),
        "expected colinear straight line at y=39; got: {svg}",
    );
}

#[test]
fn orthogonal_corner_horizontal_first_from_right_edge() {
    let src = plain_vertex("a", 0, 0, 78, 78);
    let corner = orthogonal_corner(&src, (c(78), c(39)), (c(300), c(100))).unwrap();
    assert_eq!(corner.0, c(300), "corner.x = end.x: {corner:?}");
    assert_eq!(corner.1, c(39), "corner.y = start.y: {corner:?}");
}

#[test]
fn orthogonal_corner_vertical_first_from_bottom_edge() {
    let src = plain_vertex("a", 0, 0, 78, 78);
    let corner = orthogonal_corner(&src, (c(39), c(78)), (c(200), c(300))).unwrap();
    assert_eq!(corner.0, c(39), "corner.x = start.x: {corner:?}");
    assert_eq!(corner.1, c(300), "corner.y = end.y: {corner:?}");
}

#[test]
fn orthogonal_corner_colinear_endpoints_yield_none() {
    let src = plain_vertex("a", 0, 0, 78, 78);
    assert!(orthogonal_corner(&src, (c(78), c(39)), (c(300), c(39))).is_none());
    assert!(orthogonal_corner(&src, (c(39), c(78)), (c(39), c(300))).is_none());
}

#[test]
fn orthogonal_corner_endpoint_not_on_edge_yields_none() {
    let src = plain_vertex("a", 0, 0, 78, 78);
    assert!(orthogonal_corner(&src, (c(39), c(39)), (c(300), c(100))).is_none());
}

#[test]
fn renders_orthogonal_edge_as_path_with_corner() {
    let xml = r#"
<mxfile compressed="false"><diagram><mxGraphModel><root>
<mxCell id="0"/><mxCell id="1" parent="0"/>
<mxCell id="a" value="A" vertex="1" parent="1" style="shape=mxgraph.aws4.resourceIcon;resIcon=mxgraph.aws4.lambda;fillColor=#ED7100;">
  <mxGeometry x="0" y="0" width="78" height="78" as="geometry"/>
</mxCell>
<mxCell id="b" value="B" vertex="1" parent="1" style="shape=mxgraph.aws4.resourceIcon;resIcon=mxgraph.aws4.lambda;fillColor=#ED7100;">
  <mxGeometry x="300" y="200" width="78" height="78" as="geometry"/>
</mxCell>
<mxCell id="e1" edge="1" parent="1" source="a" target="b" style="edgeStyle=orthogonalEdgeStyle;html=0;endArrow=open;rounded=0;">
  <mxGeometry relative="1" as="geometry"/>
</mxCell>
</root></mxGraphModel></diagram></mxfile>"#;
    let svg = render(xml, &libs()).unwrap();
    assert!(
        svg.contains("<path d=\"M 78 39 L 339 39 L 339 200\""),
        "expected orthogonal path landing head-on; got: {svg}",
    );
}

#[test]
fn straight_line_edge_when_edgestyle_missing() {
    let xml = r#"
<mxfile compressed="false"><diagram><mxGraphModel><root>
<mxCell id="0"/><mxCell id="1" parent="0"/>
<mxCell id="a" value="A" vertex="1" parent="1" style="shape=mxgraph.aws4.resourceIcon;resIcon=mxgraph.aws4.lambda;fillColor=#ED7100;">
  <mxGeometry x="0" y="0" width="78" height="78" as="geometry"/>
</mxCell>
<mxCell id="b" value="B" vertex="1" parent="1" style="shape=mxgraph.aws4.resourceIcon;resIcon=mxgraph.aws4.lambda;fillColor=#ED7100;">
  <mxGeometry x="300" y="200" width="78" height="78" as="geometry"/>
</mxCell>
<mxCell id="e1" edge="1" parent="1" source="a" target="b" style="endArrow=open;rounded=0;">
  <mxGeometry relative="1" as="geometry"/>
</mxCell>
</root></mxGraphModel></diagram></mxfile>"#;
    let svg = render(xml, &libs()).unwrap();
    assert!(
        svg.contains("<line x1=\"78\" y1=\"39\" x2=\"339\" y2=\"200\""),
        "expected straight <line>; got: {svg}",
    );
}

#[test]
fn renders_group_as_dashed_rect() {
    let xml = r#"
<mxfile compressed="false"><diagram><mxGraphModel><root>
<mxCell id="0"/><mxCell id="1" parent="0"/>
<mxCell id="g" value="Account A" vertex="1" parent="1" style="shape=mxgraph.aws4.group;grIcon=mxgraph.aws4.group_account;strokeColor=#CD2264;fontColor=#CD2264;dashed=1;fillColor=none;">
  <mxGeometry x="40" y="40" width="320" height="200" as="geometry"/>
</mxCell>
<mxCell id="a" value="Lambda" vertex="1" parent="1" style="shape=mxgraph.aws4.resourceIcon;resIcon=mxgraph.aws4.lambda;fillColor=#ED7100;">
  <mxGeometry x="120" y="120" width="78" height="78" as="geometry"/>
</mxCell>
</root></mxGraphModel></diagram></mxfile>"#;
    let svg = render(xml, &libs()).unwrap();
    assert!(svg.contains("stroke-dasharray"), "group should be dashed: {svg}");
    assert!(svg.contains("Account A"), "group label should appear: {svg}");
    assert!(svg.contains("stroke=\"#CD2264\""), "group stroke colour: {svg}");
}

#[test]
fn empty_diagram_uses_default_viewbox() {
    let xml = r#"<mxfile><diagram><mxGraphModel><root><mxCell id="0"/><mxCell id="1" parent="0"/></root></mxGraphModel></diagram></mxfile>"#;
    let svg = render(xml, &libs()).unwrap();
    assert!(svg.starts_with(
        "<svg xmlns=\"http://www.w3.org/2000/svg\" viewBox=\"0 0 800 600\" width=\"800\" height=\"600\">"
    ), "{svg}");
    assert!(svg.ends_with("</marker></defs></svg>"), "{svg}");
}

#[test]
fn viewbox_adds_margin_and_label_room() {
    let model = drawio_headless::model::Model {
        vertices: vec![plain_vertex("a", 10, 20, 78, 78), plain_vertex("b", 200, 0, 50, 40)],
        edges: vec![],
    };
    let vb = compute_viewbox(&model);
    // min x 10, min y 0, max x 250, max y 20 + 78 + 24 = 122.
    assert_eq!(vb, (d(-14), d(-24), d(288), d(170)));
}

#[test]
fn unknown_shape_renders_plain_rect_with_label() {
    let xml = r#"<mxfile><diagram><mxGraphModel><root>
<mxCell id="v" value="A &amp; B" vertex="1" parent="1" style="fillColor=#E7157B;">
  <mxGeometry x="10" y="20" width="80" height="40" as="geometry"/>
</mxCell>
</root></mxGraphModel></diagram></mxfile>"#;
    let svg = render(xml, &libs()).unwrap();
    assert!(
        svg.contains("<rect x=\"10\" y=\"20\" width=\"80\" height=\"40\" fill=\"#E7157B\" stroke=\"#999\" stroke-width=\"1\"/>"),
        "{svg}"
    );
    assert!(
        svg.contains("<text x=\"50\" y=\"74\" font-family=\"sans-serif\" font-size=\"12\" fill=\"#232F3E\" text-anchor=\"middle\">A &amp; B</text>"),
        "{svg}"
    );
}

#[test]
fn edge_with_unknown_endpoint_is_skipped() {
    let xml = r#"<mxfile><diagram><mxGraphModel><root>
<mxCell id="a" value="" vertex="1" parent="1" style="">
  <mxGeometry x="0" y="0" width="10" height="10" as="geometry"/>
</mxCell>
<mxCell id="e" edge="1" parent="1" source="a" target="zz" style=""/>
</root></mxGraphModel></diagram></mxfile>"#;
    let svg = render(xml, &libs()).unwrap();
    assert!(!svg.contains("<line"), "{svg}");
    assert!(!svg.contains("marker-end"), "{svg}");
}

#[test]
fn end_arrow_none_omits_marker() {
    let xml = r#"<mxfile><diagram><mxGraphModel><root>
<mxCell id="a" vertex="1" parent="1"><mxGeometry x="0" y="0" width="10" height="10"/></mxCell>
<mxCell id="b" vertex="1" parent="1"><mxGeometry x="100" y="0" width="10" height="10"/></mxCell>
<mxCell id="e" edge="1" parent="1" source="a" target="b" style="endArrow=none;"/>
</root></mxGraphModel></diagram></mxfile>"#;
    let svg = render(xml, &libs()).unwrap();
    assert!(
        svg.contains("<line x1=\"10\" y1=\"5\" x2=\"100\" y2=\"5\" stroke=\"#232F3E\" stroke-width=\"1.5\"/>"),
        "{svg}"
    );
}

#[test]
fn side_helpers_classify_and_face() {
    assert_eq!(side_of_override(dp("0.5"), d(0)), Side::Top);
    assert_eq!(side_of_override(dp("0.5"), d(1)), Side::Bottom);
    assert_eq!(side_of_override(d(0), dp("0.5")), Side::Left);
    assert_eq!(side_of_override(d(1), dp("0.5")), Side::Right);
    assert_eq!(side_of_override(d(0), d(0)), Side::Top);
    assert_eq!(facing_side(true, 5 * 2_000_000, -1 * 2_000_000), Side::Top);
    assert_eq!(facing_side(true, 5 * 2_000_000, 0 * 2_000_000), Side::Bottom);
    assert_eq!(facing_side(false, -2 * 2_000_000, 9 * 2_000_000), Side::Left);
    assert_eq!(Side::Left.opposite(), Side::Right);
    assert!(Side::Bottom.is_horizontal_side());
}

#[test]
fn malformed_xml_is_an_error() {
    let r = render("<mxfile><diagram></mxfile>", &libs());
    assert!(matches!(r, Err(drawio_headless::error::RenderError::Xml(_))));
}

#[test]
fn uncompressed_xml_still_renders() {
    let mut dg = Diagram::new("rt".to_string());
    let api = dg.add_node(aws::api_gateway("api", "API Gateway").at(d(80), d(80)));
    let lam = dg.add_node(aws::lambda("lam", "Lambda").at(d(320), d(80)));
    dg.connect(&api, &lam);
    let xml = dg.to_xml();
    assert!(xml.contains("compressed=\"false\""), "author should still emit uncompressed XML");
    let svg = render(&xml, &libs()).expect("render uncompressed");
    assert!(svg.starts_with("<svg"));
    assert!(svg.contains("<rect"));
    // The lambda glyph from the fixture library is drawn on its tile, and
    // the edge runs from API Gateway's right-mid to Lambda's left-mid.
    assert!(svg.contains("<path d=\"M"), "{svg}");
    assert!(svg.contains("<line x1=\"158\" y1=\"119\" x2=\"320\" y2=\"119\""), "{svg}");
}

#[test]
fn tiny_cell_ends_are_side_centres_not_corners() {
    let tiny = Vertex {
        id: "t".to_string(),
        label: String::new(),
        style: String::new(),
        x: Decimal::zero(),
        y: Decimal::zero(),
        w: Decimal::from_micros(1),
        h: Decimal::from_micros(1),
    };
    let b = plain_vertex("b", 10, 0, 1, 1);
    let (sx, sy, _, _) = edge_endpoints(&tiny, &b, None, None);
    assert_eq!(sx.halves(), 2, "exit on the right side");
    assert_eq!(sy.halves(), 1, "exit half way down");
    assert_eq!(sy.to_text(), "0.0000005");
}

#[test]
fn odd_width_label_is_centred_exactly() {
    let xml = r#"<mxfile><diagram><mxGraphModel><root>
<mxCell id="0"/><mxCell id="1" parent="0"/>
<mxCell id="a" value="A" vertex="1" parent="1" style="fillColor=#fff;"><mxGeometry x="0" y="0" width="0.000003" height="1" as="geometry"/></mxCell>
</root></mxGraphModel></diagram></mxfile>"#;
    let svg = render(xml, &libs()).unwrap();
    assert!(svg.contains("<text x=\"0.0000015\" y=\"15\""), "{svg}");
}
