use drawio_headless::fonts::sans_serif_face;
use drawio_headless::catalogue::{for_library, Entry};
use drawio_headless::listing::{json_escape, listing_json, listing_text};

#[test]
fn list_shapes_json_is_valid_and_covers_well_known_keys() {
    let out = listing_json(&for_library("all"));
    let v: serde_json::Value = serde_json::from_str(&out).expect("parse json");
    let arr = v.as_array().expect("json array");
    assert!(arr.len() >= 30, "catalogue too small: {}", arr.len());
    let kinds: Vec<String> = arr
        .iter()
        .map(|e| format!("{}.{}", e["library"].as_str().unwrap(), e["key"].as_str().unwrap()))
        .collect();
    for needle in ["aws.lambda", "aws.api_gateway", "azure.sql_database", "gcp.cloud_functions", "k8s.pod"] {
        assert!(kinds.iter().any(|k| k == needle), "missing {needle}: {kinds:?}");
    }
    for e in arr {
        assert!(e["library"].is_string());
        assert!(e["key"].is_string());
        assert!(e["category"].is_string());
    }
}

#[test]
fn list_shapes_library_filter() {
    let out = listing_json(&for_library("aws"));
    let arr: serde_json::Value = serde_json::from_str(&out).expect("parse json");
    let arr = arr.as_array().expect("array");
    assert!(arr.iter().all(|e| e["library"].as_str() == Some("aws")));
    assert!(arr.iter().any(|e| e["key"].as_str() == Some("lambda")));
}

#[test]
fn list_shapes_text_is_grouped_by_library() {
    let out = listing_text(&for_library("all"));
    assert!(out.contains("aws:"), "missing aws header: {out}");
    assert!(out.contains("azure:"));
    assert!(out.contains("gcp:"));
    assert!(out.contains("k8s:"));
    assert!(out.contains("aws.lambda"));
    assert!(out.contains("k8s.pod"));
}

#[test]
fn listings_have_exact_layout() {
    let entries = vec![
        Entry { library: "a", key: "x", category: "C1" },
        Entry { library: "a", key: "y", category: "C1" },
        Entry { library: "a", key: "z", category: "C2" },
        Entry { library: "b", key: "w", category: "C1" },
    ];
    assert_eq!(
        listing_text(&entries),
        "a:\n  C1:\n    a.x\n    a.y\n  C2:\n    a.z\n\nb:\n  C1:\n    b.w\n"
    );
    assert_eq!(
        listing_json(&entries[..1].to_vec()),
        "[\n  {\"library\":\"a\",\"key\":\"x\",\"category\":\"C1\"}\n]\n"
    );
    assert_eq!(listing_json(&vec![]), "[\n]\n");
}

#[test]
fn json_escape_handles_specials() {
    assert_eq!(json_escape("a\"b\\c\nd\te\u{1}"), "a\\\"b\\\\c\\nd\\te\\u0001");
    assert_eq!(json_escape("plain"), "plain");
}

#[test]
fn sans_serif_face_is_the_first_sans_face() {
    let faces = vec![
        vec!["Liberation Serif".to_string()],
        vec!["DejaVu".to_string(), "DejaVu SANS Mono".to_string()],
        vec!["Noto Sans".to_string()],
    ];
    assert_eq!(sans_serif_face(&faces), Some("DejaVu SANS Mono".to_string()));
    let foo = vec![vec!["Foo".to_string(), "Foo Sans".to_string()]];
    assert_eq!(sans_serif_face(&foo), Some("Foo Sans".to_string()));
    assert_eq!(sans_serif_face(&vec![vec!["Serif".to_string()]]), None);
    assert_eq!(sans_serif_face(&vec![]), None);
}
