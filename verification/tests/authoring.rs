use drawio_headless::author::Diagram;
use drawio_headless::aws;
use drawio_headless::authoring::{
    build_xml_from_doc, group_kinds, levenshtein, suggest, AuthorError, Document, EdgeSpec, GroupSpec, NodeSpec,
};
use drawio_headless::decimal::Decimal;
use drawio_headless::kinds::node_kinds;
use serde_json::Value;

fn num(v: &Value) -> Decimal {
    Decimal::parse(&format!("{:.6}", v.as_f64().unwrap())).unwrap()
}

fn opt_num(v: Option<&Value>) -> Option<Decimal> {
    v.map(num)
}

fn text(v: Option<&Value>) -> String {
    v.and_then(Value::as_str).unwrap_or("").to_string()
}

/// The schema's JSON read into a document (defaults as the schema gives).
fn doc(json: &str) -> Document {
    let v: Value = serde_json::from_str(json).unwrap();
    let list = |k: &str| v.get(k).and_then(Value::as_array).cloned().unwrap_or_default();
    Document {
        name: v.get("name").and_then(Value::as_str).unwrap_or("Diagram").to_string(),
        groups: list("groups")
            .iter()
            .map(|g| GroupSpec {
                id: text(g.get("id")),
                kind: text(g.get("kind")),
                label: text(g.get("label")),
                x: num(&g["x"]),
                y: num(&g["y"]),
                width: num(&g["width"]),
                height: num(&g["height"]),
            })
            .collect(),
        nodes: list("nodes")
            .iter()
            .map(|n| NodeSpec {
                id: text(n.get("id")),
                kind: text(n.get("kind")),
                label: text(n.get("label")),
                x: num(&n["x"]),
                y: num(&n["y"]),
                width: opt_num(n.get("width")),
                height: opt_num(n.get("height")),
                style: n.get("style").and_then(Value::as_str).map(str::to_string),
            })
            .collect(),
        edges: list("edges")
            .iter()
            .map(|e| EdgeSpec {
                source: text(e.get("source")),
                target: text(e.get("target")),
                exit_x: opt_num(e.get("exit_x")),
                exit_y: opt_num(e.get("exit_y")),
                entry_x: opt_num(e.get("entry_x")),
                entry_y: opt_num(e.get("entry_y")),
            })
            .collect(),
    }
}

fn build_xml(json: &str) -> Result<String, AuthorError> {
    build_xml_from_doc(&doc(json))
}

#[test]
fn builds_minimal_diagram() {
    let json = r#"{
        "name": "t",
        "nodes": [
            {"id": "api", "kind": "aws.api_gateway", "label": "API", "x": 0, "y": 0},
            {"id": "lam", "kind": "aws.lambda", "label": "Lambda", "x": 100, "y": 0}
        ],
        "edges": [{"source": "api", "target": "lam"}]
    }"#;
    let xml = build_xml(json).unwrap();
    assert!(xml.contains("source=\"api\" target=\"lam\""));
    assert!(xml.contains("resIcon=mxgraph.aws4.api_gateway"));
}

#[test]
fn rejects_unknown_node_kind_with_suggestions() {
    let json = r#"{
        "nodes": [{"id": "x", "kind": "aws.lambba", "x": 0, "y": 0}]
    }"#;
    let err = build_xml(json).err().unwrap();
    let msg = err.message();
    assert!(msg.contains("aws.lambba"), "msg: {msg}");
    assert!(msg.contains("aws.lambda"), "expected suggestion: {msg}");
}

#[test]
fn author_rejects_raw_node_without_style() {
    let json = r#"{
        "nodes": [{"id": "x", "kind": "raw", "x": 0, "y": 0}]
    }"#;
    let err = build_xml(json).err().unwrap();
    assert!(matches!(err, AuthorError::RawNodeMissingStyle { .. }));
}

#[test]
fn rejects_edge_pointing_at_unknown_id() {
    let json = r#"{
        "nodes": [{"id": "a", "kind": "aws.lambda", "x": 0, "y": 0}],
        "edges": [{"source": "a", "target": "b"}]
    }"#;
    let err = build_xml(json).err().unwrap();
    assert!(matches!(err, AuthorError::EdgeUnknownEndpoint { .. }));
}

#[test]
fn raw_node_uses_provided_style_and_default_size() {
    let json = r#"{
        "nodes": [{
            "id": "r", "kind": "raw", "label": "Custom",
            "x": 10, "y": 20,
            "style": "shape=mxgraph.aws4.resourceIcon;resIcon=mxgraph.aws4.athena;"
        }]
    }"#;
    let xml = build_xml(json).unwrap();
    assert!(xml.contains("resIcon=mxgraph.aws4.athena"), "{xml}");
    assert!(xml.contains("width=\"78\" height=\"78\""));
}

#[test]
fn duplicate_id_is_rejected() {
    let json = r#"{
        "nodes": [
            {"id": "x", "kind": "aws.lambda", "x": 0, "y": 0},
            {"id": "x", "kind": "aws.s3", "x": 0, "y": 0}
        ]
    }"#;
    let err = build_xml(json).err().unwrap();
    assert!(matches!(err, AuthorError::DuplicateId(_)));
}

#[test]
fn every_library_kind_is_accepted() {
    let json = r#"{
        "nodes": [
            {"id": "a", "kind": "azure.sql_database", "x": 0, "y": 0},
            {"id": "g", "kind": "gcp.bigquery", "x": 100, "y": 0, "width": 60},
            {"id": "k", "kind": "k8s.pod", "x": 200, "y": 0},
            {"id": "c", "kind": "client.browser", "x": 300, "y": 0},
            {"id": "n", "kind": "generic.cloud", "x": 400, "y": 0.5}
        ]
    }"#;
    let xml = build_xml(json).unwrap();
    assert!(xml.contains("shape=mxgraph.azure.sql_database;"), "{xml}");
    assert!(xml.contains("x=\"100\" y=\"0\" width=\"60\" height=\"78\""), "{xml}");
    assert!(xml.contains("prIcon=pod;"), "{xml}");
    assert!(xml.contains("x=\"400\" y=\"0.5\" width=\"100\" height=\"66\""), "{xml}");
}

#[test]
fn unknown_group_kind_and_duplicate_group_id_are_rejected() {
    let bad_kind = r#"{"groups": [{"id": "g", "kind": "aws.acount", "x": 0, "y": 0, "width": 10, "height": 10}]}"#;
    match build_xml(bad_kind).err().unwrap() {
        AuthorError::UnknownGroupKind { kind, suggestions } => {
            assert_eq!(kind, "aws.acount");
            assert_eq!(suggestions, vec!["aws.account"]);
        }
        other => panic!("unexpected {other:?}"),
    }
    let dup = r#"{
        "groups": [{"id": "g", "kind": "generic", "x": 0, "y": 0, "width": 10, "height": 10}],
        "nodes": [{"id": "g", "kind": "aws.lambda", "x": 0, "y": 0}]
    }"#;
    assert!(matches!(build_xml(dup).err().unwrap(), AuthorError::DuplicateId(id) if id == "g"));
}

#[test]
fn edge_error_names_the_missing_end() {
    let json = r#"{
        "nodes": [{"id": "a", "kind": "aws.lambda", "x": 0, "y": 0}],
        "edges": [{"source": "zz", "target": "a"}]
    }"#;
    let err = build_xml(json).err().unwrap();
    assert_eq!(err.message(), "edge \"zz\" -> \"a\" references unknown id \"zz\"");
}

#[test]
fn messages_match_the_schema_wording() {
    let e = AuthorError::RawNodeMissingStyle { id: "n\"1".to_string() };
    assert_eq!(e.message(), "node \"n\\\"1\" has kind=\"raw\" but no \"style\" field");
    let e = AuthorError::DuplicateId("a\tb".to_string());
    assert_eq!(e.message(), "duplicate id \"a\\tb\"");
    let e = AuthorError::UnknownGroupKind { kind: "zzzzzzzz".to_string(), suggestions: vec![] };
    assert_eq!(
        e.message(),
        "unknown group kind \"zzzzzzzz\". Known kinds: \"aws.account\", \"aws.vpc\", \"aws.cloud\", \"generic\""
    );
    let e = AuthorError::UnknownNodeKind { kind: "aws.lambba".to_string(), suggestions: vec!["aws.lambda"] };
    assert_eq!(e.message(), "unknown node kind \"aws.lambba\" \u{2014} did you mean \"aws.lambda\"?");
}

#[test]
fn levenshtein_distances() {
    assert_eq!(levenshtein("", "abc"), 3);
    assert_eq!(levenshtein("kitten", "sitting"), 3);
    assert_eq!(levenshtein("aws.lambba", "aws.lambda"), 1);
    assert_eq!(levenshtein("same", "same"), 0);
    assert_eq!(levenshtein("abc", ""), 3);
}

#[test]
fn suggestions_are_nearest_first_and_at_most_three() {
    let known = vec!["abcd", "abce", "abcf", "abcg", "xyz", "abc"];
    assert_eq!(suggest("abc", &known), vec!["abc", "abcd", "abce"]);
    assert!(suggest("qqqqqqqq", &known).is_empty());
    assert_eq!(group_kinds().len(), 4);
    assert_eq!(node_kinds()[0], "raw");
    assert_eq!(node_kinds().len(), 84);
}

#[test]
fn round_trip_byte_identical_to_library_authored_diagram() {
    let json = r#"{
        "name": "ApiLambda",
        "nodes": [
            {"id": "api", "kind": "aws.api_gateway", "label": "API Gateway", "x": 80, "y": 80},
            {"id": "lam", "kind": "aws.lambda", "label": "Lambda", "x": 320, "y": 80}
        ],
        "edges": [{"source": "api", "target": "lam"}]
    }"#;
    let from_json = build_xml(json).unwrap();
    let d = |n: i64| Decimal::from_int(n);
    let mut dg = Diagram::new("ApiLambda".to_string());
    let api = dg.add_node(aws::api_gateway("api", "API Gateway").at(d(80), d(80)));
    let lam = dg.add_node(aws::lambda("lam", "Lambda").at(d(320), d(80)));
    dg.connect(&api, &lam);
    assert_eq!(from_json, dg.to_xml());
}

#[test]
fn group_kind_maps_to_aws_account() {
    let json = r#"{
        "groups": [{
            "id": "acc", "kind": "aws.account", "label": "Acc",
            "x": 0, "y": 0, "width": 100, "height": 100
        }]
    }"#;
    let xml = build_xml(json).unwrap();
    assert!(xml.contains("grIcon=mxgraph.aws4.group_account"), "{xml}");
}

#[test]
fn groups_are_written_before_nodes() {
    let json = r#"{
        "groups": [{"id": "g", "kind": "generic", "label": "G", "x": 0, "y": 0, "width": 300, "height": 200}],
        "nodes": [{"id": "a", "kind": "aws.lambda", "x": 10, "y": 10}]
    }"#;
    let xml = build_xml(json).unwrap();
    let g = xml.find("id=\"g\"").unwrap();
    let a = xml.find("id=\"a\"").unwrap();
    assert!(g < a, "{xml}");
    assert!(xml.contains("width=\"300\" height=\"200\""), "{xml}");
}

#[test]
fn edge_pins_are_written_when_both_coordinates_are_given() {
    let json = r#"{
        "nodes": [
            {"id": "a", "kind": "aws.lambda", "x": 0, "y": 0},
            {"id": "b", "kind": "aws.s3", "x": 200, "y": 0}
        ],
        "edges": [
            {"source": "a", "target": "b", "exit_x": 1, "exit_y": 0.5, "entry_x": 1.5, "entry_y": -0.2},
            {"source": "a", "target": "b", "exit_x": 1}
        ]
    }"#;
    let xml = build_xml(json).unwrap();
    assert!(xml.contains("rounded=0;exitX=1;exitY=0.5;entryX=1;entryY=0;\""), "{xml}");
    assert!(xml.contains("id=\"e2\" edge=\"1\" parent=\"1\" source=\"a\" target=\"b\" style=\"edgeStyle=orthogonalEdgeStyle;html=0;endArrow=open;startArrow=none;rounded=0;\""), "{xml}");
}

#[test]
fn messages_quote_like_std_debug() {
    let json = r#"{"nodes": [{"id": "a\u200b", "kind": "raw", "x": 0, "y": 0}]}"#;
    let err = build_xml(json).unwrap_err();
    assert_eq!(err.message(), format!("node {:?} has kind=\"raw\" but no \"style\" field", "a\u{200b}"));
    assert!(err.message().contains("\\u{200b}"), "{}", err.message());
}
