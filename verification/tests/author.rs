use drawio_headless::author::{Diagram, Node};
use drawio_headless::aws::{api_gateway, lambda};
use drawio_headless::catalogue::{entries, for_library};
use drawio_headless::decimal::Decimal;

fn d(n: i64) -> Decimal {
    Decimal::from_int(n)
}

#[test]
fn escapes_specials_in_label_and_id() {
    let mut dg = Diagram::new("MyArch".to_string());
    let r = dg.add_node(Node::raw(
        "n<1>".to_string(),
        d(10),
        d(10),
        d(78),
        d(78),
        "API & \"Auth\"".to_string(),
        "shape=mxgraph.aws4.resourceIcon;".to_string(),
    ));
    let _ = r;
    let xml = dg.to_xml();
    assert!(xml.contains("API &amp; &quot;Auth&quot;"), "{xml}");
    assert!(xml.contains("id=\"n&lt;1&gt;\""), "{xml}");
}

#[test]
fn emits_two_nodes_and_one_edge() {
    let mut dg = Diagram::new("t".to_string());
    let a = dg.add_node(api_gateway("api", "API Gateway").at(d(80), d(80)));
    let l = dg.add_node(lambda("lam", "Lambda").at(d(320), d(80)));
    dg.connect(&a, &l);
    let xml = dg.to_xml();
    assert!(xml.contains("id=\"api\""));
    assert!(xml.contains("id=\"lam\""));
    assert!(xml.contains("source=\"api\" target=\"lam\""));
    assert!(xml.contains("compressed=\"false\""));
}

#[test]
fn empty_diagram_has_only_root_cells() {
    let dg = Diagram::new("Empty".to_string());
    let xml = dg.to_xml();
    let expected = "<mxfile host=\"drawio-headless\" compressed=\"false\" version=\"0.1.0\">\n  <diagram id=\"p1\" name=\"Empty\">\n    <mxGraphModel dx=\"800\" dy=\"600\" grid=\"1\" gridSize=\"10\" pageWidth=\"850\" pageHeight=\"1100\" math=\"0\" shadow=\"0\">\n      <root>\n        <mxCell id=\"0\"/>\n        <mxCell id=\"1\" parent=\"0\"/>\n      </root>\n    </mxGraphModel>\n  </diagram>\n</mxfile>\n";
    assert_eq!(xml, expected);
}

#[test]
fn node_geometry_prints_without_trailing_zeros() {
    let mut dg = Diagram::new("g".to_string());
    let n = Node::raw(
        "n".to_string(),
        Decimal::parse("12.5").unwrap(),
        d(-3),
        d(78),
        Decimal::parse("0.25").unwrap(),
        "L".to_string(),
        "s".to_string(),
    );
    dg.add_node(n);
    let xml = dg.to_xml();
    assert!(
        xml.contains("<mxGeometry x=\"12.5\" y=\"-3\" width=\"78\" height=\"0.25\" as=\"geometry\"/>"),
        "{xml}"
    );
}

#[test]
fn edges_are_numbered_in_order() {
    let mut dg = Diagram::new("t".to_string());
    let a = dg.add_node(lambda("a", "A"));
    let b = dg.add_node(lambda("b", "B"));
    dg.connect(&a, &b);
    dg.connect(&b, &a);
    let xml = dg.to_xml();
    let e1 = xml.find("id=\"e1\" edge=\"1\" parent=\"1\" source=\"a\" target=\"b\"").unwrap();
    let e2 = xml.find("id=\"e2\" edge=\"1\" parent=\"1\" source=\"b\" target=\"a\"").unwrap();
    assert!(e1 < e2);
}

#[test]
fn builders_set_position_size_and_label() {
    let n = lambda("l", "Lambda").at(d(5), d(6)).size(d(40), d(50)).label("Fn".to_string());
    assert_eq!(n.x, d(5));
    assert_eq!(n.y, d(6));
    assert_eq!(n.w, d(40));
    assert_eq!(n.h, d(50));
    assert_eq!(n.label, "Fn");
    assert_eq!(n.id, "l");
}

#[test]
fn well_known_entries_are_present() {
    let qualified: Vec<String> = entries().iter().map(|e| e.qualified_kind()).collect();
    for needle in [
        "aws.lambda",
        "aws.api_gateway",
        "azure.sql_database",
        "azure.entra_id",
        "gcp.cloud_functions",
        "k8s.pod",
        "client.browser",
        "client.person",
        "generic.cloud",
        "generic.database",
    ] {
        assert!(
            qualified.iter().any(|k| k == needle),
            "missing {needle} in catalogue: {qualified:?}",
        );
    }
}

#[test]
fn entries_have_unique_qualified_kinds() {
    let mut seen = std::collections::HashSet::new();
    for e in entries() {
        let q = e.qualified_kind();
        assert!(seen.insert(q.clone()), "duplicate catalogue entry: {q}");
    }
}

#[test]
fn for_library_filters() {
    let aws = for_library("aws");
    assert!(aws.iter().all(|e| e.library == "aws"));
    assert!(aws.iter().any(|e| e.key == "lambda"));
    let all = for_library("all");
    assert_eq!(all.len(), entries().len());
}

#[test]
fn for_library_selects_one_library() {
    assert_eq!(for_library("nope").len(), entries().len());
    let k8s = for_library("k8s");
    assert_eq!(k8s.len(), 10);
    assert!(k8s.iter().all(|e| e.library == "k8s"));
}

#[test]
fn qualified_kind_joins_library_and_key() {
    let e = &for_library("azure")[0];
    assert_eq!(e.qualified_kind(), format!("azure.{}", e.key));
}

#[test]
fn for_library_unknown_name_gives_every_entry() {
    let all = drawio_headless::catalogue::for_library("all");
    assert_eq!(drawio_headless::catalogue::for_library("foo"), all);
    assert_eq!(drawio_headless::catalogue::for_library("AWS"), all);
    assert_eq!(all, drawio_headless::catalogue::entries());
}

#[test]
fn catalogue_is_grouped_and_alphabetical() {
    let all = drawio_headless::catalogue::for_library("all");
    let mut libs_done: Vec<&str> = Vec::new();
    let mut cats_done: Vec<(&str, &str)> = Vec::new();
    for (i, e) in all.iter().enumerate() {
        if i == 0 || all[i - 1].library != e.library {
            assert!(!libs_done.contains(&e.library), "library {} split", e.library);
            libs_done.push(e.library);
        }
        if i == 0 || all[i - 1].library != e.library || all[i - 1].category != e.category {
            assert!(!cats_done.contains(&(e.library, e.category)), "category {} split", e.category);
            cats_done.push((e.library, e.category));
        } else {
            assert!(all[i - 1].key < e.key, "{} before {}", all[i - 1].key, e.key);
        }
    }
}
