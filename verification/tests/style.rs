use drawio_headless::decimal::Decimal;
use drawio_headless::style::{parse_points, EdgeEndpoints, StyleMap};

fn d(n: i64) -> Decimal {
    Decimal::from_int(n)
}

fn dp(s: &str) -> Decimal {
    Decimal::parse(s).unwrap()
}

#[test]
fn parses_basic_style() {
    let s = StyleMap::parse(
        "sketch=0;shape=mxgraph.aws4.resourceIcon;fillColor=#ED7100;resIcon=mxgraph.aws4.lambda;",
    );
    assert_eq!(s.get("shape"), Some("mxgraph.aws4.resourceIcon"));
    assert_eq!(s.get("fillColor"), Some("#ED7100"));
    assert_eq!(s.get("resIcon"), Some("mxgraph.aws4.lambda"));
    assert_eq!(s.get("missing"), None);
}

#[test]
fn parses_aws_corner_points() {
    let pts = parse_points("[[0,0,0],[1,0,0],[0,1,0],[1,1,0]]");
    assert_eq!(pts, vec![(d(0), d(0)), (d(1), d(0)), (d(0), d(1)), (d(1), d(1))]);
}

#[test]
fn parses_two_tuple_points_and_whitespace() {
    let pts = parse_points(" [ [0.5, 0] , [1, 0.5] , [0.5, 1] , [0, 0.5] ] ");
    assert_eq!(pts, vec![(dp("0.5"), d(0)), (d(1), dp("0.5")), (dp("0.5"), d(1)), (d(0), dp("0.5"))]);
}

#[test]
fn malformed_points_yields_empty() {
    assert!(parse_points("garbage").is_empty());
    assert!(parse_points("[notanumber]").is_empty());
}

#[test]
fn parses_edge_endpoints_from_style() {
    let s = StyleMap::parse("edgeStyle=orthogonalEdgeStyle;exitX=1;exitY=0.5;entryX=0;entryY=0.5;");
    let ep = EdgeEndpoints::from_style(&s);
    assert_eq!(ep.exit, Some((d(1), dp("0.5"))));
    assert_eq!(ep.entry, Some((d(0), dp("0.5"))));
}

#[test]
fn edge_endpoints_missing_pair_member_treated_as_unset() {
    let s = StyleMap::parse("exitX=1;entryY=0.5;");
    let ep = EdgeEndpoints::from_style(&s);
    assert_eq!(ep.exit, None);
    assert_eq!(ep.entry, None);
}

#[test]
fn edge_endpoints_default_when_absent() {
    let s = StyleMap::parse("edgeStyle=orthogonalEdgeStyle;endArrow=open;");
    let ep = EdgeEndpoints::from_style(&s);
    assert_eq!(ep.exit, None);
    assert_eq!(ep.entry, None);
}

#[test]
fn edge_endpoints_clamp_out_of_range() {
    let s = StyleMap::parse("exitX=1.5;exitY=-0.2;entryX=2;entryY=0;");
    let ep = EdgeEndpoints::from_style(&s);
    assert_eq!(ep.exit, Some((d(1), d(0))));
    assert_eq!(ep.entry, Some((d(1), d(0))));
}

#[test]
fn edge_endpoints_ignore_unparseable_values() {
    let s = StyleMap::parse("exitX=nope;exitY=0.5;entryX=0;entryY=junk;");
    let ep = EdgeEndpoints::from_style(&s);
    assert_eq!(ep.exit, None);
    assert_eq!(ep.entry, None);
}

#[test]
fn later_keys_win_and_bare_entries_map_to_empty() {
    let s = StyleMap::parse(" ellipse ; a = 1 ;;a=2;b=x=y");
    assert_eq!(s.get("ellipse"), Some(""));
    assert_eq!(s.get("a"), Some("2"));
    assert_eq!(s.get("b"), Some("x=y"));
    assert_eq!(s.get_or("c", "dflt"), "dflt");
    assert_eq!(s.get_or("a", "dflt"), "2");
}

#[test]
fn points_with_unbalanced_brackets_and_short_entries() {
    assert_eq!(parse_points("[[1,2],[3],[4,5,6]]"), vec![(d(1), d(2)), (d(4), d(5))]);
    assert!(parse_points("[]").is_empty());
    assert!(parse_points("[").is_empty());
}

#[test]
fn decimal_reads_and_prints() {
    assert_eq!(Decimal::parse("-1.250").unwrap().to_text(), "-1.25");
    assert_eq!(Decimal::parse("+3").unwrap().to_text(), "3");
    assert_eq!(Decimal::parse(".5").unwrap().to_text(), "0.5");
    assert_eq!(Decimal::parse("1e3"), Some(Decimal::from_int(1000)));
    assert!(Decimal::parse("").is_none());
    assert!(Decimal::parse("-").is_none());
    assert_eq!(dp("0.1").mul(dp("0.2")).to_text(), "0.02");
    assert_eq!(d(1).div(d(3)).to_text(), "0.333333");
    assert_eq!(d(7).half().to_text(), "3.5");
}

#[test]
fn single_segment_style_maps_one_key() {
    let m = StyleMap::parse("fillColor=#ED7100;");
    assert_eq!(m.get("fillColor"), Some("#ED7100"));
    assert_eq!(m.get("fill"), None);
    assert_eq!(m.get(""), None);
}

#[test]
fn exponent_forms_are_read() {
    assert_eq!(Decimal::parse("1e0"), Some(Decimal::from_int(1)));
    assert_eq!(Decimal::parse("2.5E-1"), Some(Decimal::from_micros(250_000)));
    assert_eq!(Decimal::parse("-3e+2"), Some(Decimal::from_int(-300)));
    assert_eq!(Decimal::parse("1e-7"), Some(Decimal::from_int(0)));
    assert_eq!(Decimal::parse("1e99"), Some(Decimal::from_micros(1_000_000_000_000_000_000)));
    assert_eq!(Decimal::parse("1e"), None);
    assert_eq!(Decimal::parse("e5"), None);
    assert_eq!(Decimal::parse("1e5x"), None);
}

#[test]
fn exponent_attachment_points_pin_the_edge() {
    let s = StyleMap::parse("exitX=1e0;exitY=0;entryX=5E-1;entryY=2e0;");
    let ep = EdgeEndpoints::from_style(&s);
    assert_eq!(ep.exit, Some((Decimal::from_int(1), Decimal::from_int(0))));
    assert_eq!(ep.entry, Some((Decimal::from_micros(500_000), Decimal::from_int(1))));
}

#[test]
fn attachment_values_beyond_f32_range_are_dropped() {
    let s = StyleMap::parse("exitX=1e400;exitY=0;entryX=-1e400;entryY=0;");
    let ep = EdgeEndpoints::from_style(&s);
    assert_eq!(ep.exit, None);
    assert_eq!(ep.entry, None);
    let s = StyleMap::parse("exitX=3.4028235e38;exitY=0;entryX=3.4028236e38;entryY=0;");
    let ep = EdgeEndpoints::from_style(&s);
    assert_eq!(ep.exit, Some((Decimal::from_int(1), Decimal::from_int(0))));
    assert_eq!(ep.entry, None);
    let s = StyleMap::parse("exitX=340282356779733661637539395458142568447;exitY=1;entryX=340282356779733661637539395458142568448;entryY=1;");
    let ep = EdgeEndpoints::from_style(&s);
    assert_eq!(ep.exit, Some((Decimal::from_int(1), Decimal::from_int(1))));
    assert_eq!(ep.entry, None);
}
