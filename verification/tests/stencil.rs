use drawio_headless::decimal::Decimal;
use drawio_headless::error::RenderError;
use drawio_headless::stencil::{build_cmd, category_suffix, normalise_lookup_path, StencilLibrary};
use drawio_headless::stencil_svg::{render_stencil_to_svg, CellBounds, Cmd, Stencil};

fn d(n: i64) -> Decimal {
    Decimal::from_int(n)
}

fn dp(s: &str) -> Decimal {
    Decimal::parse(s).unwrap()
}

fn cell(x: i64, y: i64, w: i64, h: i64) -> CellBounds {
    CellBounds { x: d(x), y: d(y), w: d(w), h: d(h) }
}

fn stencil(w: i64, h: i64, commands: Vec<Cmd>) -> Stencil {
    Stencil { name: "t".to_string(), w: d(w), h: d(h), commands }
}

fn attrs(pairs: &[(&str, &str)]) -> Vec<(String, String)> {
    pairs.iter().map(|(k, v)| (k.to_string(), v.to_string())).collect()
}

#[test]
fn renders_path() {
    let s = stencil(
        10,
        10,
        vec![Cmd::PathBegin, Cmd::Move(d(0), d(0)), Cmd::Line(d(10), d(10)), Cmd::Close, Cmd::Fill],
    );
    let svg = render_stencil_to_svg(&s, cell(100, 100, 78, 78), d(0), "#fff", false);
    assert!(svg.contains("<path"));
    assert!(svg.contains("fill=\"#fff\""));
}

#[test]
fn renders_arc_as_svg_elliptical_arc_command() {
    let arc = |x: Decimal, y: Decimal| Cmd::Arc {
        rx: dp("1.5"),
        ry: dp("1.5"),
        x_axis_rotation: d(0),
        large_arc_flag: false,
        sweep_flag: true,
        x,
        y,
    };
    let s = stencil(
        10,
        10,
        vec![
            Cmd::PathBegin,
            Cmd::Move(dp("1.5"), d(0)),
            Cmd::Line(dp("8.5"), d(0)),
            arc(d(10), dp("1.5")),
            Cmd::Line(d(10), d(10)),
            Cmd::Line(d(0), d(10)),
            Cmd::Line(d(0), dp("1.5")),
            arc(dp("1.5"), d(0)),
            Cmd::Close,
            Cmd::Fill,
        ],
    );
    let svg = render_stencil_to_svg(&s, cell(0, 0, 10, 10), d(0), "#fff", false);
    assert!(
        svg.contains("A 1.5 1.5 0 0 1 10 1.5"),
        "expected SVG arc command with unscaled radii; got: {svg}"
    );
    assert!(svg.contains("A 1.5 1.5 0 0 1 1.5 0"), "expected second SVG arc command; got: {svg}");
}

#[test]
fn arc_flags_parse_only_literal_one_as_true() {
    let a = attrs(&[("large-arc-flag", "1"), ("sweep-flag", "0")]);
    match build_cmd("arc", &a) {
        Cmd::Arc { large_arc_flag, sweep_flag, .. } => {
            assert!(large_arc_flag);
            assert!(!sweep_flag);
        }
        other => panic!("expected an arc, got {other:?}"),
    }
    match build_cmd("dashed", &a) {
        Cmd::SetDashed(v) => assert!(!v),
        other => panic!("expected a dash flag, got {other:?}"),
    }
}

fn extract_path_coords(svg: &str) -> Vec<(f64, f64)> {
    let start = svg.find("d=\"").expect("path d attribute") + 3;
    let end = svg[start..].find('"').expect("closing quote") + start;
    let dd = &svg[start..end];
    dd.split_whitespace()
        .filter_map(|tok| tok.parse::<f64>().ok())
        .collect::<Vec<_>>()
        .chunks(2)
        .map(|pair| (pair[0], pair[1]))
        .collect()
}

fn bbox(coords: &[(f64, f64)]) -> (f64, f64, f64, f64) {
    let mut min_x = f64::INFINITY;
    let mut max_x = f64::NEG_INFINITY;
    let mut min_y = f64::INFINITY;
    let mut max_y = f64::NEG_INFINITY;
    for &(x, y) in coords {
        min_x = min_x.min(x);
        max_x = max_x.max(x);
        min_y = min_y.min(y);
        max_y = max_y.max(y);
    }
    (min_x, max_x, min_y, max_y)
}

#[test]
fn aspect_fixed_scales_uniformly_and_centers() {
    let s = stencil(
        76,
        76,
        vec![
            Cmd::PathBegin,
            Cmd::Move(d(0), d(0)),
            Cmd::Line(d(76), d(0)),
            Cmd::Line(d(76), d(76)),
            Cmd::Line(d(0), d(76)),
            Cmd::Close,
            Cmd::Fill,
        ],
    );
    let svg = render_stencil_to_svg(&s, cell(0, 0, 240, 70), d(0), "#fff", true);
    let coords = extract_path_coords(&svg);
    let (min_x, max_x, min_y, max_y) = bbox(&coords);
    let width = max_x - min_x;
    let height = max_y - min_y;
    assert!((width - height).abs() < 1e-6, "expected square bbox, got {width}x{height}");
    let left_gap = min_x - 0.0;
    let right_gap = 240.0 - max_x;
    assert!(
        (left_gap - right_gap).abs() < 1e-6,
        "expected icon centered horizontally, left={left_gap} right={right_gap}"
    );
}

#[test]
fn save_restore_scopes_style_overrides() {
    let s = stencil(
        10,
        10,
        vec![
            Cmd::PathBegin,
            Cmd::Move(d(0), d(0)),
            Cmd::Line(d(1), d(1)),
            Cmd::Close,
            Cmd::Fill,
            Cmd::Save,
            Cmd::SetFillColor("#ff0000".to_string()),
            Cmd::PathBegin,
            Cmd::Move(d(2), d(2)),
            Cmd::Line(d(3), d(3)),
            Cmd::Close,
            Cmd::Fill,
            Cmd::Restore,
            Cmd::PathBegin,
            Cmd::Move(d(4), d(4)),
            Cmd::Line(d(5), d(5)),
            Cmd::Close,
            Cmd::Fill,
        ],
    );
    let svg = render_stencil_to_svg(&s, cell(0, 0, 10, 10), d(0), "#00ff00", false);
    assert_eq!(
        svg.matches("fill=\"#ff0000\"").count(),
        1,
        "override should paint exactly once inside the save/restore scope; got: {svg}"
    );
    assert_eq!(
        svg.matches("fill=\"#00ff00\"").count(),
        2,
        "glyph colour should paint before the save and after the restore; got: {svg}"
    );
}

#[test]
fn restore_without_matching_save_is_a_no_op() {
    let s = stencil(
        10,
        10,
        vec![Cmd::Restore, Cmd::PathBegin, Cmd::Move(d(0), d(0)), Cmd::Line(d(1), d(1)), Cmd::Close, Cmd::Fill],
    );
    let svg = render_stencil_to_svg(&s, cell(0, 0, 10, 10), d(0), "#123456", false);
    assert!(svg.contains("fill=\"#123456\""));
}

#[test]
fn strokecolor_and_fillcolor_override_fillstroke() {
    let s = stencil(
        10,
        10,
        vec![
            Cmd::SetStrokeColor("#0000ff".to_string()),
            Cmd::SetFillColor("#ff00ff".to_string()),
            Cmd::PathBegin,
            Cmd::Move(d(0), d(0)),
            Cmd::Line(d(1), d(1)),
            Cmd::Close,
            Cmd::FillStroke,
        ],
    );
    let svg = render_stencil_to_svg(&s, cell(0, 0, 10, 10), d(0), "#000000", false);
    assert!(svg.contains("fill=\"#ff00ff\""), "expected overridden fill colour; got: {svg}");
    assert!(svg.contains("stroke=\"#0000ff\""), "expected overridden stroke colour; got: {svg}");
}

#[test]
fn strokecolor_none_is_passed_through_as_svg_keyword() {
    let s = stencil(
        10,
        10,
        vec![
            Cmd::SetStrokeColor("none".to_string()),
            Cmd::PathBegin,
            Cmd::Move(d(0), d(0)),
            Cmd::Line(d(1), d(1)),
            Cmd::Close,
            Cmd::Stroke,
        ],
    );
    let svg = render_stencil_to_svg(&s, cell(0, 0, 10, 10), d(0), "#000000", false);
    assert!(svg.contains("stroke=\"none\""));
}

#[test]
fn strokewidth_scales_unless_fixed() {
    let body = |fixed: bool| {
        vec![
            Cmd::SetStrokeWidth { width: d(2), fixed },
            Cmd::PathBegin,
            Cmd::Move(d(0), d(0)),
            Cmd::Line(d(1), d(1)),
            Cmd::Close,
            Cmd::Stroke,
        ]
    };
    let svg = render_stencil_to_svg(&stencil(10, 10, body(false)), cell(0, 0, 20, 20), d(0), "#000000", false);
    assert!(svg.contains("stroke-width=\"4\""), "expected width scaled by the tile's 2x scale; got: {svg}");
    let svg = render_stencil_to_svg(&stencil(10, 10, body(true)), cell(0, 0, 20, 20), d(0), "#000000", false);
    assert!(svg.contains("stroke-width=\"2\""), "fixed width must ignore the tile scale; got: {svg}");
}

#[test]
fn dashed_emits_scaled_stroke_dasharray() {
    let s = stencil(
        10,
        10,
        vec![
            Cmd::SetDashed(true),
            Cmd::PathBegin,
            Cmd::Move(d(0), d(0)),
            Cmd::Line(d(1), d(1)),
            Cmd::Close,
            Cmd::Stroke,
        ],
    );
    let svg = render_stencil_to_svg(&s, cell(0, 0, 10, 10), d(0), "#000000", false);
    assert!(svg.contains("stroke-dasharray="), "expected a dash pattern; got: {svg}");
    assert!(svg.contains("stroke-dasharray=\"3 3\""), "{svg}");
    let not_dashed = stencil(
        10,
        10,
        vec![Cmd::PathBegin, Cmd::Move(d(0), d(0)), Cmd::Line(d(1), d(1)), Cmd::Stroke],
    );
    let svg = render_stencil_to_svg(&not_dashed, cell(0, 0, 10, 10), d(0), "#000000", false);
    assert!(!svg.contains("stroke-dasharray="));
}

#[test]
fn fontcolor_colors_text_command() {
    let s = stencil(
        10,
        10,
        vec![
            Cmd::SetFontColor("#abcdef".to_string()),
            Cmd::Text {
                x: d(1),
                y: d(1),
                text: "hi".to_string(),
                align: "center".to_string(),
                valign: "middle".to_string(),
            },
        ],
    );
    let svg = render_stencil_to_svg(&s, cell(0, 0, 10, 10), d(0), "#000000", false);
    assert!(svg.contains("<text"));
    assert!(svg.contains("fill=\"#abcdef\""));
    assert!(svg.contains(">hi</text>"));
    assert!(svg.contains("text-anchor=\"middle\""));
}

#[test]
fn text_escapes_content() {
    let s = stencil(
        10,
        10,
        vec![Cmd::Text {
            x: d(0),
            y: d(0),
            text: "<a & b>".to_string(),
            align: "left".to_string(),
            valign: "top".to_string(),
        }],
    );
    let svg = render_stencil_to_svg(&s, cell(0, 0, 10, 10), d(0), "#000000", false);
    assert!(svg.contains("&lt;a &amp; b&gt;"));
}

#[test]
fn image_command_is_rejected_as_unsupported() {
    let xml = r#"<shapes name="mxgraph.test">
<shape name="has-image" w="10" h="10">
    <foreground>
        <image x="0" y="0" w="10" h="10" src="data:image/png;base64,AA=="/>
    </foreground>
</shape>
</shapes>"#;
    let err = StencilLibrary::from_xml(xml, "mxgraph.test").err().unwrap();
    assert!(matches!(err, RenderError::UnsupportedStencilCmd(cmd) if cmd == "image"));
}

#[test]
fn image_outside_foreground_is_ignored() {
    let xml = r#"<shapes name="mxgraph.test">
<shape name="bg-image" w="10" h="10">
    <background>
        <image x="0" y="0" w="10" h="10" src="foo.png"/>
    </background>
    <foreground>
        <rect x="0" y="0" w="10" h="10"/>
        <fill/>
    </foreground>
</shape>
</shapes>"#;
    let lib = StencilLibrary::from_xml(xml, "mxgraph.test").expect("parses fine");
    assert!(lib.lookup("bg-image").is_some());
}

#[test]
fn category_wrappers_scope_keys() {
    let xml = r#"<gcp-libraries>
<shapes name="mxgraph.gcp.compute">
<shape name="App Engine" w="10" h="20"><foreground><rect x="0" y="0" w="10" h="20"/></foreground></shape>
</shapes>
<shapes name="mxgraph.gcp.big_data">
<shape name="BigQuery" w="5" h="5"><foreground><ellipse x="0" y="0" w="5" h="5"/></foreground></shape>
</shapes>
</gcp-libraries>"#;
    let lib = StencilLibrary::from_xml(xml, "mxgraph.gcp").unwrap();
    assert_eq!(lib.len(), 2);
    assert!(!lib.is_empty());
    let s = lib.lookup("mxgraph.gcp.compute.app_engine").expect("full id resolves");
    assert_eq!(s.name, "App Engine");
    assert_eq!(s.w, d(10));
    assert_eq!(s.h, d(20));
    assert_eq!(s.commands.len(), 1);
    assert!(lib.lookup("compute.app_engine").is_some());
    assert!(lib.lookup("big_data.bigquery").is_some());
    assert!(lib.lookup("bigquery").is_none());
    assert!(lib.lookup("compute.nothing").is_none());
}

#[test]
fn lookup_normalises_the_path() {
    let xml = r#"<shapes name="mxgraph.azure"><shape name="Virtual Machine" w="1" h="1"><foreground/></shape></shapes>"#;
    let lib = StencilLibrary::from_xml(xml, "mxgraph.azure").unwrap();
    assert!(lib.lookup("virtual_machine").is_some());
    assert!(lib.lookup("mxgraph.azure.virtual_machine").is_some());
    assert!(lib.lookup("  Virtual-Machine ").is_some());
}

#[test]
fn later_shape_with_same_key_replaces_earlier() {
    let xml = r#"<shapes name="mxgraph.x"><shape name="a" w="1" h="1"/></shapes>
<shapes name="mxgraph.x"><shape name="A" w="2" h="2"></shape></shapes>"#;
    let lib = StencilLibrary::from_xml(xml, "mxgraph.x").unwrap();
    assert_eq!(lib.len(), 1);
    assert_eq!(lib.lookup("a").unwrap().w, d(2));
}

#[test]
fn foreground_commands_are_read_with_defaults() {
    let xml = r#"<shapes name="mxgraph.t"><shape name="s" w="4" h="4"><foreground>
<path><move x="1" y="2"/><curve x1="0" y1="0" x2="1" y2="1" x3="2" y3="2"/><quad x1="1" y1="1" x2="3" y2="3"/></path>
<strokecolor/><text str="hi"/><roundrect x="0" y="0" w="4" h="4" arcsize="10"/><strokewidth width="2" fixed="1"/>
</foreground></shape></shapes>"#;
    let lib = StencilLibrary::from_xml(xml, "mxgraph.t").unwrap();
    let s = lib.lookup("s").unwrap();
    assert_eq!(s.commands.len(), 8);
    assert!(matches!(s.commands[0], Cmd::PathBegin));
    assert!(matches!(&s.commands[4], Cmd::SetStrokeColor(c) if c == "none"));
    assert!(matches!(&s.commands[5], Cmd::Text { text, align, valign, .. } if text == "hi" && align == "left" && valign == "top"));
    assert!(matches!(s.commands[7], Cmd::SetStrokeWidth { fixed: true, .. }));
}

#[test]
fn malformed_stencil_xml_is_an_error() {
    let err = StencilLibrary::from_xml("<shapes><shape></shapes>", "mxgraph.t").err().unwrap();
    assert!(matches!(err, RenderError::Xml(m) if m.starts_with("stencil parse: ")));
}

#[test]
fn normalise_and_category_suffix() {
    assert_eq!(normalise_lookup_path("  API Gateway-Two "), "api_gateway_two");
    assert_eq!(category_suffix("mxgraph.gcp.Big Data", "mxgraph.gcp"), "big_data");
    assert_eq!(category_suffix("mxgraph.gcp", "mxgraph.gcp"), "");
    assert_eq!(category_suffix("other", "mxgraph.gcp"), "");
}

#[test]
fn transform_pads_the_tile() {
    let s = stencil(10, 10, vec![Cmd::PathBegin, Cmd::Move(d(0), d(0)), Cmd::Line(d(10), d(10)), Cmd::Stroke]);
    let svg = render_stencil_to_svg(&s, cell(0, 0, 100, 100), dp("0.1"), "#000", false);
    assert_eq!(
        svg,
        "<g><path d=\"M 10 10 L 90 90\" fill=\"none\" stroke=\"#000\" stroke-width=\"1\"/></g>"
    );
}
